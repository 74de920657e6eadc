use rustberrypi::bus::Transaction;
use rustberrypi::errors::CommunicationError;
use rustberrypi::i2c::io::{Level, Mode, PullUpDown, MCP230xx, GPIO, GPPU, IODIR};

fn fresh(pins: u8) -> MCP230xx {
    let mut expander = MCP230xx::new(0x20, pins).unwrap();
    expander.take_pending();
    expander
}

#[test]
fn a_new_expander_schedules_direction_then_pullups() {
    let mut expander = MCP230xx::for_mcp23017().unwrap();
    assert_eq!(expander.pin_count(), 16);
    assert_eq!(expander.bus().address(), 0x20);
    assert_eq!(expander.direction_bytes(), &vec![0xFF, 0xFF]);
    assert_eq!(expander.pullup_bytes(), &vec![0x00, 0x00]);
    assert_eq!(expander.output_bytes(), &vec![0x00, 0x00]);
    assert_eq!(
        expander.take_pending(),
        vec![
            Transaction::BlockWrite { register: IODIR, data: vec![0xFF, 0xFF] },
            Transaction::BlockWrite { register: GPPU, data: vec![0x00, 0x00] },
        ]
    );
    assert!(expander.bus().pending().is_empty());
}

#[test]
fn register_blocks_cover_the_pins() {
    assert_eq!(fresh(0).output_bytes().len(), 0);
    assert_eq!(fresh(1).output_bytes().len(), 1);
    assert_eq!(fresh(8).output_bytes().len(), 1);
    assert_eq!(fresh(9).output_bytes().len(), 2);
    assert_eq!(fresh(255).output_bytes().len(), 32);
}

#[test]
fn setup_writes_the_direction_block() {
    let mut expander = fresh(16);
    expander.setup(9, Mode::Output).unwrap();
    assert_eq!(expander.direction_bytes(), &vec![0xFF, 0xFD]);
    expander.setup(0, Mode::Output).unwrap();
    expander.setup(9, Mode::Input).unwrap();
    assert_eq!(
        expander.take_pending(),
        vec![
            Transaction::BlockWrite { register: IODIR, data: vec![0xFF, 0xFD] },
            Transaction::BlockWrite { register: IODIR, data: vec![0xFE, 0xFD] },
            Transaction::BlockWrite { register: IODIR, data: vec![0xFE, 0xFF] },
        ]
    );
}

#[test]
fn pullup_writes_the_pullup_block() {
    let mut expander = fresh(16);
    expander.pullup(15, PullUpDown::PullUp).unwrap();
    expander.pullup(2, PullUpDown::PullUp).unwrap();
    expander.pullup(15, PullUpDown::Off).unwrap();
    assert_eq!(expander.pullup_bytes(), &vec![0x04, 0x00]);
    assert_eq!(
        expander.take_pending(),
        vec![
            Transaction::BlockWrite { register: GPPU, data: vec![0x00, 0x80] },
            Transaction::BlockWrite { register: GPPU, data: vec![0x04, 0x80] },
            Transaction::BlockWrite { register: GPPU, data: vec![0x04, 0x00] },
        ]
    );
}

#[test]
fn pull_down_is_refused() {
    let mut expander = fresh(16);
    assert_eq!(
        expander.pullup(3, PullUpDown::PullDown),
        Err(CommunicationError::InvalidParameter)
    );
    assert_eq!(expander.pullup_bytes(), &vec![0x00, 0x00]);
    assert!(expander.take_pending().is_empty());
    // the pin is looked at first
    assert_eq!(
        expander.pullup(16, PullUpDown::PullDown),
        Err(CommunicationError::InvalidPin(16))
    );
}

#[test]
fn unknown_pins_are_refused_without_a_write() {
    for pins in [0u8, 1, 8, 16, 40] {
        for pin in [pins, pins.saturating_add(1), 255] {
            if pin < pins {
                continue;
            }
            let mut expander = fresh(pins);
            let direction = expander.direction_bytes().clone();
            let pullups = expander.pullup_bytes().clone();
            let outputs = expander.output_bytes().clone();
            assert_eq!(expander.setup(pin, Mode::Output), Err(CommunicationError::InvalidPin(pin)));
            assert_eq!(
                expander.pullup(pin, PullUpDown::PullUp),
                Err(CommunicationError::InvalidPin(pin))
            );
            assert_eq!(expander.output(pin, true), Err(CommunicationError::InvalidPin(pin)));
            assert_eq!(expander.input(pin, &outputs), Err(CommunicationError::InvalidPin(pin)));
            assert_eq!(
                expander.request_input(&[pin]),
                Err(CommunicationError::InvalidPin(pin))
            );
            assert_eq!(expander.direction_bytes(), &direction);
            assert_eq!(expander.pullup_bytes(), &pullups);
            assert_eq!(expander.output_bytes(), &outputs);
            assert!(expander.take_pending().is_empty());
        }
    }
}

#[test]
fn the_last_pin_is_known() {
    let mut expander = fresh(16);
    expander.output(15, true).unwrap();
    assert_eq!(expander.output_bytes(), &vec![0x00, 0x80]);
    let mut odd = fresh(10);
    odd.output(9, true).unwrap();
    assert_eq!(odd.output_bytes(), &vec![0x00, 0x02]);
    assert_eq!(odd.output(10, true), Err(CommunicationError::InvalidPin(10)));
}

#[test]
fn a_pin_is_bit_pin_mod_8_of_byte_pin_div_8() {
    for pin in 0u8..32 {
        let mut expander = fresh(32);
        expander.output(pin, true).unwrap();
        let mut expected = vec![0u8; 4];
        expected[(pin / 8) as usize] = 1 << (pin % 8);
        assert_eq!(expander.output_bytes(), &expected);
    }
}

#[test]
fn high_then_low_restores_the_byte() {
    for pin in 0u8..16 {
        let mut expander = fresh(16);
        // light every other pin first, so that the byte is not empty
        for other in 0u8..16 {
            if other != pin && other % 3 == 0 {
                expander.output(other, true).unwrap();
            }
        }
        let before = expander.output_bytes().clone();
        expander.output(pin, true).unwrap();
        assert_ne!(expander.output_bytes(), &before);
        expander.output(pin, false).unwrap();
        assert_eq!(expander.output_bytes(), &before);
    }
}

#[test]
fn high_then_low_clears_a_pin_that_was_high() {
    let mut expander = fresh(16);
    expander.output(5, true).unwrap();
    expander.output(4, true).unwrap();
    expander.output(5, true).unwrap();
    expander.output(5, false).unwrap();
    assert_eq!(expander.output_bytes(), &vec![0x10, 0x00]);
}

#[test]
fn output_pins_schedules_one_block_write() {
    let mut expander = MCP230xx::for_mcp23017().unwrap();
    expander.take_pending();
    expander.output_pins(&[(3, true), (4, false)]).unwrap();
    assert_eq!(
        expander.take_pending(),
        vec![Transaction::BlockWrite { register: GPIO, data: vec![0x08, 0x00] }]
    );
}

#[test]
fn output_pins_applies_first_to_last() {
    let mut expander = fresh(16);
    expander.output_pins(&[(1, true), (9, true), (1, false), (15, true)]).unwrap();
    assert_eq!(expander.output_bytes(), &vec![0x00, 0x82]);
    assert_eq!(
        expander.take_pending(),
        vec![Transaction::BlockWrite { register: GPIO, data: vec![0x00, 0x82] }]
    );
}

#[test]
fn output_pins_of_nothing_still_writes_the_block() {
    let mut expander = fresh(16);
    expander.output_pins(&[]).unwrap();
    assert_eq!(
        expander.take_pending(),
        vec![Transaction::BlockWrite { register: GPIO, data: vec![0x00, 0x00] }]
    );
}

#[test]
fn output_pins_checks_every_pin_before_it_drives_one() {
    let mut expander = fresh(16);
    assert_eq!(
        expander.output_pins(&[(1, true), (16, true), (2, true), (17, true)]),
        Err(CommunicationError::InvalidPin(16))
    );
    assert_eq!(expander.output_bytes(), &vec![0x00, 0x00]);
    assert!(expander.take_pending().is_empty());
}

#[test]
fn input_asks_for_one_block_read() {
    let mut expander = fresh(16);
    expander.request_input(&[0, 9]).unwrap();
    assert_eq!(
        expander.take_pending(),
        vec![Transaction::BlockRead { register: GPIO, length: 2 }]
    );
}

#[test]
fn input_pins_reads_levels_from_the_port() {
    let mut expander = fresh(16);
    let levels = expander.input_pins(&[0, 1, 9, 15, 1], &[0x02, 0x80]).unwrap();
    assert_eq!(levels, vec![Level::Low, Level::High, Level::Low, Level::High, Level::High]);
    // the port is now the cached level block
    assert_eq!(expander.output_bytes(), &vec![0x02, 0x80]);
    assert!(expander.take_pending().is_empty());
    assert_eq!(expander.input(9, &[0x00, 0x02]), Ok(Level::High));
    assert_eq!(expander.input(8, &[0x00, 0x02]), Ok(Level::Low));
}

#[test]
fn a_port_of_the_wrong_length_is_a_failed_read() {
    let mut expander = fresh(16);
    expander.output(3, true).unwrap();
    assert_eq!(expander.input_pins(&[0], &[0x01]), Err(CommunicationError::ReadError));
    assert_eq!(expander.input(0, &[0x01, 0x00, 0x00]), Err(CommunicationError::ReadError));
    assert_eq!(expander.output_bytes(), &vec![0x08, 0x00]);
    // an unknown pin is named before the length is looked at
    assert_eq!(expander.input_pins(&[0, 77], &[0x01]), Err(CommunicationError::InvalidPin(77)));
}
