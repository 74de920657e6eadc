use rustberrypi::bus::{Fault, Transaction};
use rustberrypi::errors::CommunicationError;
use rustberrypi::i2c::io::{Level, Mode, PullUpDown, MCP230xx, GPIO, GPPU, IODIR};

#[test]
fn acknowledge_removes_the_front_transaction() {
    let mut expander = MCP230xx::for_mcp23017().unwrap();
    expander.output(0, true).unwrap();
    assert_eq!(expander.bus().pending().len(), 3);
    expander.acknowledge();
    assert_eq!(
        expander.bus().pending(),
        &vec![
            Transaction::BlockWrite { register: GPPU, data: vec![0x00, 0x00] },
            Transaction::BlockWrite { register: GPIO, data: vec![0x01, 0x00] },
        ]
    );
    expander.acknowledge();
    expander.acknowledge();
    assert!(expander.bus().pending().is_empty());
    expander.acknowledge();
    assert!(expander.bus().pending().is_empty());
}

#[test]
fn a_bus_fault_surfaces_as_bus_error_and_drops_the_rest() {
    let mut expander = MCP230xx::for_mcp23017().unwrap();
    assert_eq!(
        expander.bus().pending()[0],
        Transaction::BlockWrite { register: IODIR, data: vec![0xFF, 0xFF] }
    );
    assert_eq!(expander.abort(Fault::Bus), CommunicationError::BusError);
    assert!(expander.bus().pending().is_empty());
    assert_eq!(expander.direction_bytes(), &vec![0xFF, 0xFF]);
}

#[test]
fn a_failed_write_leaves_the_cache_as_last_written() {
    let mut expander = MCP230xx::for_mcp23017().unwrap();
    expander.take_pending();
    expander.output_pins(&[(3, true)]).unwrap();
    assert_eq!(expander.output_bytes(), &vec![0x08, 0x00]);
    assert_eq!(expander.abort(Fault::Bus), CommunicationError::BusError);
    assert_eq!(expander.output_bytes(), &vec![0x00, 0x00]);
    assert!(expander.bus().pending().is_empty());

    expander.setup(9, Mode::Output).unwrap();
    assert_eq!(expander.direction_bytes(), &vec![0xFF, 0xFD]);
    expander.abort(Fault::Unknown);
    assert_eq!(expander.direction_bytes(), &vec![0xFF, 0xFF]);

    expander.pullup(0, PullUpDown::PullUp).unwrap();
    assert_eq!(expander.pullup_bytes(), &vec![0x01, 0x00]);
    expander.abort(Fault::Bus);
    assert_eq!(expander.pullup_bytes(), &vec![0x00, 0x00]);
}

#[test]
fn what_was_written_with_success_stays_after_a_later_failure() {
    let mut expander = MCP230xx::for_mcp23017().unwrap();
    expander.take_pending();
    expander.output(3, true).unwrap();
    expander.setup(3, Mode::Output).unwrap();
    expander.output(4, true).unwrap();
    // the first write reaches the chip, the second fails
    expander.acknowledge();
    assert_eq!(expander.abort(Fault::Bus), CommunicationError::BusError);
    assert_eq!(expander.output_bytes(), &vec![0x08, 0x00]);
    assert_eq!(expander.direction_bytes(), &vec![0xFF, 0xFF]);
    assert!(expander.bus().pending().is_empty());
    // the next operation starts from what the chip holds
    expander.output(0, true).unwrap();
    assert_eq!(
        expander.take_pending(),
        vec![Transaction::BlockWrite { register: GPIO, data: vec![0x09, 0x00] }]
    );
}

#[test]
fn a_taken_schedule_counts_as_written() {
    let mut expander = MCP230xx::for_mcp23017().unwrap();
    expander.setup(0, Mode::Output).unwrap();
    expander.pullup(1, PullUpDown::PullUp).unwrap();
    expander.output(0, true).unwrap();
    expander.output(2, true).unwrap();
    expander.take_pending();
    expander.output(7, true).unwrap();
    expander.setup(7, Mode::Output).unwrap();
    expander.pullup(7, PullUpDown::PullUp).unwrap();
    expander.abort(Fault::Bus);
    assert_eq!(expander.direction_bytes(), &vec![0xFE, 0xFF]);
    assert_eq!(expander.pullup_bytes(), &vec![0x02, 0x00]);
    assert_eq!(expander.output_bytes(), &vec![0x05, 0x00]);
}

#[test]
fn a_read_counts_as_what_the_chip_holds() {
    let mut expander = MCP230xx::for_mcp23017().unwrap();
    expander.take_pending();
    expander.input_pins(&[0], &[0x81, 0x01]).unwrap();
    expander.output(1, true).unwrap();
    assert_eq!(expander.output_bytes(), &vec![0x83, 0x01]);
    expander.abort(Fault::Bus);
    assert_eq!(expander.output_bytes(), &vec![0x81, 0x01]);
}

#[test]
fn a_read_does_not_undo_a_pending_write() {
    let mut expander = MCP230xx::for_mcp23017().unwrap();
    expander.take_pending();
    expander.output(1, true).unwrap();
    // the host reads before it has written
    assert_eq!(
        expander.input_pins(&[0, 1], &[0x81, 0x00]),
        Ok(vec![Level::High, Level::Low])
    );
    assert_eq!(expander.output_bytes(), &vec![0x02, 0x00]);
    // once the write is through, the cache is what the chip holds
    expander.take_pending();
    assert_eq!(expander.output_bytes(), &vec![0x02, 0x00]);
    expander.output(2, true).unwrap();
    expander.abort(Fault::Bus);
    assert_eq!(expander.output_bytes(), &vec![0x02, 0x00]);
    // a pending write of another block does not keep the read out
    expander.setup(0, Mode::Output).unwrap();
    expander.input(0, &[0x40, 0x00]).unwrap();
    assert_eq!(expander.output_bytes(), &vec![0x40, 0x00]);
}

#[test]
fn a_fresh_expander_falls_back_to_the_power_on_values() {
    let mut expander = MCP230xx::new(0x20, 8).unwrap();
    expander.setup(0, Mode::Output).unwrap();
    expander.output(0, true).unwrap();
    expander.abort(Fault::Bus);
    assert_eq!(expander.direction_bytes(), &vec![0xFF]);
    assert_eq!(expander.pullup_bytes(), &vec![0x00]);
    assert_eq!(expander.output_bytes(), &vec![0x00]);
}

#[test]
fn an_unknown_fault_on_a_write_is_a_write_error() {
    let mut expander = MCP230xx::for_mcp23017().unwrap();
    assert_eq!(expander.abort(Fault::Unknown), CommunicationError::WriteError);
    assert!(expander.bus().pending().is_empty());
    // with nothing pending there is nothing that was read
    assert_eq!(expander.abort(Fault::Unknown), CommunicationError::WriteError);
}

#[test]
fn an_unknown_fault_on_a_read_is_a_read_error() {
    let mut expander = MCP230xx::for_mcp23017().unwrap();
    expander.take_pending();
    expander.request_input(&[3]).unwrap();
    expander.output(3, true).unwrap();
    assert_eq!(expander.abort(Fault::Unknown), CommunicationError::ReadError);
    assert!(expander.bus().pending().is_empty());
    expander.request_input(&[3]).unwrap();
    assert_eq!(expander.abort(Fault::Bus), CommunicationError::BusError);
}
