//! The MCP230xx family of GPIO port expanders.
//!
//! The chip has one register block per pin property: direction, pull-up
//! and level. Pin `p` lives in byte `p / 8` of each block, at bit `p % 8`.
//! The driver keeps a copy of every block, so that changing one pin never
//! needs a read, and writes a block back whole whenever it has changed.
//! Beside each cached block it keeps the block that the chip is known to
//! hold, to which the cache goes back when a write fails.

use vstd::prelude::*;
use vstd::slice::slice_to_vec;
use crate::bits::{
    bit_is_set, lemma_bit_keeps_others, lemma_bit_overwrites, lemma_bit_reads_back,
    lemma_bit_unchanged, set_bit, test_bit, with_bit,
};
use crate::bus::{
    failure_of, lemma_perform_front, lemma_perform_push, perform, perform_all, Bus, Fault,
    Transaction, TransactionView,
};
use crate::errors::CommunicationError;

verus! {

/// Register address of the direction block (1 = input).
pub const IODIR: u8 = 0x00;

/// Register address of the pull-up block (1 = pulled up).
pub const GPPU: u8 = 0x0C;

/// Register address of the level block. Written, it drives the output
/// pins; read, it gives the level of every pin.
pub const GPIO: u8 = 0x12;

/// Slave address of an MCP23017 with its address pins grounded.
pub const MCP23017_ADDRESS: u8 = 0x20;

/// Number of pins of an MCP23017.
pub const MCP23017_PINS: u8 = 16;

/// The two ways a pin can be pulled.
#[derive(Debug, Clone, Copy, PartialEq, Eq, Structural)]
pub enum Pin {
    Up,
    Down,
}

/// Direction of a pin.
#[derive(Debug, Clone, Copy, PartialEq, Eq, Structural)]
pub enum Mode {
    Input,
    Output,
}

/// Logic level of a pin.
#[derive(Debug, Clone, Copy, PartialEq, Eq, Structural)]
pub enum Level {
    Low,
    High,
}

/// Setting of a pin's built-in resistor.
#[derive(Debug, Clone, Copy, PartialEq, Eq, Structural)]
pub enum PullUpDown {
    Off,
    /// Not available on this chip family.
    PullDown,
    PullUp,
}

/// Length in bytes of a register block that covers `pin_count` pins.
pub open spec fn register_len(pin_count: u8) -> nat {
    ((pin_count + 7) / 8) as nat
}

/// `block` with pin `pin` set to `on` and every other pin as it was.
pub open spec fn write_pin(block: Seq<u8>, pin: u8, on: bool) -> Seq<u8> {
    block.update(pin as int / 8, with_bit(block[pin as int / 8], pin % 8, on))
}

/// The value of pin `pin` in `block`.
pub open spec fn read_pin(block: Seq<u8>, pin: u8) -> bool {
    bit_is_set(block[pin as int / 8], pin % 8)
}

/// `block` after the pin writes of `pins`, applied first to last.
pub open spec fn write_pins(block: Seq<u8>, pins: Seq<(u8, bool)>) -> Seq<u8>
    decreases pins.len(),
{
    if pins.len() == 0 {
        block
    } else {
        write_pin(write_pins(block, pins.drop_last()), pins.last().0, pins.last().1)
    }
}

/// The level that a pin value stands for.
pub open spec fn level_of(high: bool) -> Level {
    if high {
        Level::High
    } else {
        Level::Low
    }
}

/// The state of a port expander driver: its register cache and its
/// schedule.
pub struct PortExpanderState {
    /// Slave address of the chip.
    pub address: u8,
    /// Number of addressable pins.
    pub pin_count: u8,
    /// Cached direction block.
    pub direction_bytes: Seq<u8>,
    /// Cached pull-up block.
    pub pullup_bytes: Seq<u8>,
    /// Cached level block.
    pub output_bytes: Seq<u8>,
    /// The direction block that the chip is known to hold: the last one
    /// written with success, and before any the chip's power-on value.
    pub confirmed_direction_bytes: Seq<u8>,
    /// The pull-up block that the chip is known to hold.
    pub confirmed_pullup_bytes: Seq<u8>,
    /// The level block that the chip is known to hold: the last one
    /// written with success or read.
    pub confirmed_output_bytes: Seq<u8>,
    /// Transactions scheduled and not yet taken by the host.
    pub pending: Seq<TransactionView>,
}

/// Whether every write of `schedule` to one of the three register blocks
/// carries a block that covers exactly `pin_count` pins.
pub open spec fn schedule_fits(schedule: Seq<TransactionView>, pin_count: u8) -> bool {
    forall|i: int|
        0 <= i < schedule.len() ==> block_fits(#[trigger] schedule[i], pin_count)
}

/// Whether `transaction`, if it writes one of the three register blocks,
/// carries a block that covers exactly `pin_count` pins.
pub open spec fn block_fits(transaction: TransactionView, pin_count: u8) -> bool {
    transaction matches TransactionView::BlockWrite { register, data } ==> (register == IODIR
        || register == GPPU || register == GPIO) ==> data.len() == register_len(pin_count)
}

impl PortExpanderState {
    /// Every block, cached, confirmed or scheduled, covers exactly the
    /// chip's pins.
    pub open spec fn blocks_fit(self) -> bool {
        &&& self.direction_bytes.len() == register_len(self.pin_count)
        &&& self.pullup_bytes.len() == register_len(self.pin_count)
        &&& self.output_bytes.len() == register_len(self.pin_count)
        &&& self.confirmed_direction_bytes.len() == register_len(self.pin_count)
        &&& self.confirmed_pullup_bytes.len() == register_len(self.pin_count)
        &&& self.confirmed_output_bytes.len() == register_len(self.pin_count)
        &&& schedule_fits(self.pending, self.pin_count)
    }

    /// The blocks fit, and each cached block is the last value written
    /// with success, changed by nothing but the writes still pending.
    pub open spec fn well_formed(self) -> bool {
        &&& self.blocks_fit()
        &&& self.caches_are_last_written()
    }

    /// Each of the three cached blocks is the last value written with
    /// success, changed by nothing but the writes still pending.
    pub open spec fn caches_are_last_written(self) -> bool {
        &&& cache_is_last_written(self, IODIR)
        &&& cache_is_last_written(self, GPPU)
        &&& cache_is_last_written(self, GPIO)
    }

    /// The state of a freshly created driver: every pin an input without
    /// pull-up and low, which is also what the chip holds after power-on,
    /// and both configuration blocks scheduled.
    pub open spec fn initial(address: u8, pin_count: u8) -> PortExpanderState {
        let direction = Seq::new(register_len(pin_count), |i: int| 0xFFu8);
        let zeros = Seq::new(register_len(pin_count), |i: int| 0x00u8);
        PortExpanderState {
            address,
            pin_count,
            direction_bytes: direction,
            pullup_bytes: zeros,
            output_bytes: zeros,
            confirmed_direction_bytes: direction,
            confirmed_pullup_bytes: zeros,
            confirmed_output_bytes: zeros,
            pending: seq![
                TransactionView::BlockWrite { register: IODIR, data: direction },
                TransactionView::BlockWrite { register: GPPU, data: zeros },
            ],
        }
    }

    /// The state after an idle time of `micros` microseconds was scheduled.
    pub open spec fn after_delay(self, micros: u64) -> PortExpanderState {
        PortExpanderState {
            pending: self.pending.push(TransactionView::Delay { micros }),
            ..self
        }
    }

    /// The state after pin `pin` got direction `mode`.
    pub open spec fn after_setup(self, pin: u8, mode: Mode) -> PortExpanderState {
        let block = write_pin(self.direction_bytes, pin, mode == Mode::Input);
        PortExpanderState {
            direction_bytes: block,
            pending: self.pending.push(TransactionView::BlockWrite { register: IODIR, data: block }),
            ..self
        }
    }

    /// The state after the pull-up of pin `pin` was switched on or off.
    pub open spec fn after_pullup(self, pin: u8, on: bool) -> PortExpanderState {
        let block = write_pin(self.pullup_bytes, pin, on);
        PortExpanderState {
            pullup_bytes: block,
            pending: self.pending.push(TransactionView::BlockWrite { register: GPPU, data: block }),
            ..self
        }
    }

    /// The state after the pins of `pins` were driven, first to last, and
    /// the level block written once.
    pub open spec fn after_output(self, pins: Seq<(u8, bool)>) -> PortExpanderState {
        let block = write_pins(self.output_bytes, pins);
        PortExpanderState {
            output_bytes: block,
            pending: self.pending.push(TransactionView::BlockWrite { register: GPIO, data: block }),
            ..self
        }
    }

    /// The state after a read of the level block was scheduled.
    pub open spec fn after_request(self) -> PortExpanderState {
        PortExpanderState {
            pending: self.pending.push(
                TransactionView::BlockRead {
                    register: GPIO,
                    length: register_len(self.pin_count),
                },
            ),
            ..self
        }
    }

    /// The state after the level block was read as `port`: the chip is
    /// known to hold it, and it is the cached level block too, unless a
    /// write of the level block is still pending, whose block the cache
    /// keeps.
    pub open spec fn after_input(self, port: Seq<u8>) -> PortExpanderState {
        PortExpanderState {
            output_bytes: if last_write(self.pending, GPIO) is None {
                port
            } else {
                self.output_bytes
            },
            confirmed_output_bytes: port,
            ..self
        }
    }

    /// The state after the host has performed `transaction` with success:
    /// a write of one of the three register blocks is now what the chip is
    /// known to hold there.
    pub open spec fn confirming(self, transaction: TransactionView) -> PortExpanderState {
        match transaction {
            TransactionView::BlockWrite { register, data } => if register == IODIR {
                PortExpanderState { confirmed_direction_bytes: data, ..self }
            } else if register == GPPU {
                PortExpanderState { confirmed_pullup_bytes: data, ..self }
            } else if register == GPIO {
                PortExpanderState { confirmed_output_bytes: data, ..self }
            } else {
                self
            },
            _ => self,
        }
    }

    /// The state after the host has performed `schedule` with success,
    /// front first.
    pub open spec fn confirming_all(self, schedule: Seq<TransactionView>) -> PortExpanderState
        decreases schedule.len(),
    {
        if schedule.len() == 0 {
            self
        } else {
            self.confirming_all(schedule.drop_last()).confirming(schedule.last())
        }
    }

    /// The state after the host has taken the whole schedule. The host is
    /// taken to perform it with success.
    pub open spec fn after_take(self) -> PortExpanderState {
        PortExpanderState { pending: Seq::empty(), ..self.confirming_all(self.pending) }
    }

    /// The state after the host has performed the front transaction with
    /// success. With nothing pending, nothing changes.
    pub open spec fn after_acknowledge(self) -> PortExpanderState {
        if self.pending.len() > 0 {
            PortExpanderState {
                pending: self.pending.drop_first(),
                ..self.confirming(self.pending[0])
            }
        } else {
            self
        }
    }

    /// The state after a transaction has failed: the rest of the schedule
    /// is dropped, and every cached block is again what the chip is known
    /// to hold.
    pub open spec fn after_abort(self) -> PortExpanderState {
        PortExpanderState {
            direction_bytes: self.confirmed_direction_bytes,
            pullup_bytes: self.confirmed_pullup_bytes,
            output_bytes: self.confirmed_output_bytes,
            pending: Seq::empty(),
            ..self
        }
    }
}

/// Confirming a schedule changes the confirmed blocks and nothing else,
/// and the blocks still fit.
pub proof fn lemma_confirming_all(state: PortExpanderState, schedule: Seq<TransactionView>)
    ensures
        state.confirming_all(schedule) == (PortExpanderState {
            confirmed_direction_bytes: state.confirming_all(schedule).confirmed_direction_bytes,
            confirmed_pullup_bytes: state.confirming_all(schedule).confirmed_pullup_bytes,
            confirmed_output_bytes: state.confirming_all(schedule).confirmed_output_bytes,
            ..state
        }),
        state.blocks_fit() && schedule_fits(schedule, state.pin_count)
            ==> state.confirming_all(schedule).blocks_fit(),
    decreases schedule.len(),
{
    if schedule.len() > 0 {
        lemma_confirming_all(state, schedule.drop_last());
        if schedule_fits(schedule, state.pin_count) {
            assert(block_fits(schedule[schedule.len() - 1], state.pin_count));
            assert forall|i: int| 0 <= i < schedule.drop_last().len() implies block_fits(
                #[trigger] schedule.drop_last()[i],
                state.pin_count,
            ) by {
                assert(schedule.drop_last()[i] == schedule[i]);
            }
        }
    }
}

/// The first pin of `pins` that a chip with `pin_count` pins does not
/// have, if there is one.
pub open spec fn first_invalid_pin(pins: Seq<u8>, pin_count: u8) -> Option<u8>
    decreases pins.len(),
{
    if pins.len() == 0 {
        None
    } else if pins[0] >= pin_count {
        Some(pins[0])
    } else {
        first_invalid_pin(pins.drop_first(), pin_count)
    }
}

/// There is no first unknown pin exactly when every pin is known, and a
/// first unknown pin is one of the pins and unknown.
pub proof fn lemma_first_invalid_pin(pins: Seq<u8>, pin_count: u8)
    ensures
        first_invalid_pin(pins, pin_count) is None <==> forall|i: int|
            0 <= i < pins.len() ==> pins[i] < pin_count,
        first_invalid_pin(pins, pin_count) matches Some(pin) ==> pin >= pin_count
            && pins.contains(pin),
    decreases pins.len(),
{
    if pins.len() > 0 {
        let rest = pins.drop_first();
        lemma_first_invalid_pin(rest, pin_count);
        if pins[0] < pin_count {
            assert forall|i: int| 0 <= i < pins.len() && first_invalid_pin(
                pins,
                pin_count,
            ) is None implies pins[i] < pin_count by {
                if i > 0 {
                    assert(rest[i - 1] == pins[i]);
                }
            }
            if forall|i: int| 0 <= i < pins.len() ==> pins[i] < pin_count {
                assert forall|i: int| 0 <= i < rest.len() implies rest[i] < pin_count by {
                    assert(rest[i] == pins[i + 1]);
                }
            }
            if first_invalid_pin(pins, pin_count) is Some {
                let pin = first_invalid_pin(pins, pin_count)->0;
                let at = choose|i: int| 0 <= i < rest.len() && rest[i] == pin;
                assert(pins[at + 1] == pin);
            }
        } else {
            assert(pins[0] == pins[0]);
        }
    }
}

/// The pins that `pins` writes to, without the values.
pub open spec fn pins_of(pins: Seq<(u8, bool)>) -> Seq<u8> {
    Seq::new(pins.len(), |i: int| pins[i].0)
}

/// The levels of the pins `pins` in `block`, in the order asked.
pub open spec fn levels_of(block: Seq<u8>, pins: Seq<u8>) -> Seq<Level> {
    Seq::new(pins.len(), |i: int| level_of(read_pin(block, pins[i])))
}

/// Driver for one chip of the MCP230xx family.
pub struct MCP230xx {
    device: Bus,
    num_gpio: u8,
    iodir: Vec<u8>,
    gppu: Vec<u8>,
    gpio: Vec<u8>,
    confirmed_iodir: Vec<u8>,
    confirmed_gppu: Vec<u8>,
    confirmed_gpio: Vec<u8>,
}

impl View for MCP230xx {
    type V = PortExpanderState;

    closed spec fn view(&self) -> PortExpanderState {
        PortExpanderState {
            address: self.device.slave_address(),
            pin_count: self.num_gpio,
            direction_bytes: self.iodir@,
            pullup_bytes: self.gppu@,
            output_bytes: self.gpio@,
            confirmed_direction_bytes: self.confirmed_iodir@,
            confirmed_pullup_bytes: self.confirmed_gppu@,
            confirmed_output_bytes: self.confirmed_gpio@,
            pending: self.device@,
        }
    }
}

impl MCP230xx {
    /// A driver for the chip at `address` with `num_gpio` pins. Every pin
    /// starts as an input without pull-up, and the direction and pull-up
    /// blocks are scheduled to be written, in that order.
    pub fn new(address: u8, num_gpio: u8) -> (made: Result<Self, CommunicationError>)
        ensures
            made matches Ok(expander) && expander@ == PortExpanderState::initial(address, num_gpio)
                && expander@.well_formed(),
    {
        let gpio_bytes: usize = (num_gpio as usize + 7) / 8;
        let mut iodir: Vec<u8> = Vec::new();
        let mut gpio: Vec<u8> = Vec::new();
        let mut gppu: Vec<u8> = Vec::new();
        let mut i: usize = 0;
        while i < gpio_bytes
            invariant
                i <= gpio_bytes,
                iodir.len() == i,
                gpio.len() == i,
                gppu.len() == i,
                forall|j: int| 0 <= j < i ==> iodir[j] == 0xFFu8,
                forall|j: int| 0 <= j < i ==> gpio[j] == 0x00u8,
                forall|j: int| 0 <= j < i ==> gppu[j] == 0x00u8,
            decreases gpio_bytes - i,
        {
            iodir.push(0xFF);
            gpio.push(0x00);
            gppu.push(0x00);
            i += 1;
        }
        let confirmed_iodir = slice_to_vec(iodir.as_slice());
        let confirmed_gppu = slice_to_vec(gppu.as_slice());
        let confirmed_gpio = slice_to_vec(gpio.as_slice());
        let mut expander = MCP230xx {
            device: Bus::new(address),
            num_gpio,
            iodir,
            gpio,
            gppu,
            confirmed_iodir,
            confirmed_gppu,
            confirmed_gpio,
        };
        expander.write_iodir();
        expander.write_gppu();
        proof {
            let initial = PortExpanderState::initial(address, num_gpio);
            assert(expander@.direction_bytes =~= initial.direction_bytes);
            assert(expander@.pullup_bytes =~= initial.pullup_bytes);
            assert(expander@.output_bytes =~= initial.output_bytes);
            assert(expander@.pending =~= initial.pending);
            lemma_fresh_cache_is_last_written(address, num_gpio, IODIR);
            lemma_fresh_cache_is_last_written(address, num_gpio, GPPU);
            lemma_fresh_cache_is_last_written(address, num_gpio, GPIO);
        }
        Ok(expander)
    }

    /// A driver for an MCP23017: sixteen pins, at address 0x20.
    pub fn for_mcp23017() -> (made: Result<Self, CommunicationError>)
        ensures
            made matches Ok(expander) && expander@ == PortExpanderState::initial(
                MCP23017_ADDRESS,
                MCP23017_PINS,
            ) && expander@.well_formed(),
    {
        Self::new(MCP23017_ADDRESS, MCP23017_PINS)
    }

    /// Number of addressable pins.
    pub fn pin_count(&self) -> (count: u8)
        ensures
            count == self@.pin_count,
    {
        self.num_gpio
    }

    /// The cached direction block.
    pub fn direction_bytes(&self) -> (block: &Vec<u8>)
        ensures
            block@ == self@.direction_bytes,
    {
        &self.iodir
    }

    /// The cached pull-up block.
    pub fn pullup_bytes(&self) -> (block: &Vec<u8>)
        ensures
            block@ == self@.pullup_bytes,
    {
        &self.gppu
    }

    /// The cached level block.
    pub fn output_bytes(&self) -> (block: &Vec<u8>)
        ensures
            block@ == self@.output_bytes,
    {
        &self.gpio
    }

    /// The schedule of this chip.
    pub fn bus(&self) -> (bus: &Bus)
        ensures
            bus@ == self@.pending,
            bus.slave_address() == self@.address,
    {
        &self.device
    }

    /// Takes a block that was written with success as what the chip is
    /// known to hold at `register`.
    fn confirm(&mut self, register: u8, data: Vec<u8>)
        requires
            old(self)@.blocks_fit(),
            block_fits(TransactionView::BlockWrite { register, data: data@ }, old(self)@.pin_count),
        ensures
            final(self)@ == old(self)@.confirming(
                TransactionView::BlockWrite { register, data: data@ },
            ),
            final(self)@.blocks_fit(),
    {
        if register == IODIR {
            self.confirmed_iodir = data;
        } else if register == GPPU {
            self.confirmed_gppu = data;
        } else if register == GPIO {
            self.confirmed_gpio = data;
        }
    }

    /// Hands the whole schedule to the host and leaves nothing pending.
    /// The host is taken to perform it with success: every block in it is
    /// from now on what the chip is known to hold.
    pub fn take_pending(&mut self) -> (taken: Vec<Transaction>)
        requires
            old(self)@.well_formed(),
        ensures
            taken.deep_view() == old(self)@.pending,
            final(self)@ == old(self)@.after_take(),
            final(self)@.well_formed(),
    {
        let ghost before = self@;
        let taken = self.device.take_pending();
        let mut i: usize = 0;
        while i < taken.len()
            invariant
                i <= taken.len(),
                taken.deep_view() == before.pending,
                before.well_formed(),
                self@.blocks_fit(),
                self@ == (PortExpanderState {
                    pending: Seq::empty(),
                    ..before.confirming_all(before.pending.take(i as int))
                }),
            decreases taken.len() - i,
        {
            proof {
                assert(before.pending.take(i + 1).drop_last() =~= before.pending.take(i as int));
                assert(before.pending[i as int] == taken[i as int]@);
                assert(block_fits(before.pending[i as int], before.pin_count));
                lemma_confirming_all(before, before.pending.take(i as int));
            }
            match &taken[i] {
                Transaction::BlockWrite { register, data } => {
                    assert(taken[i as int]@ == TransactionView::BlockWrite {
                        register: *register,
                        data: data@,
                    });
                    self.confirm(*register, slice_to_vec(data.as_slice()));
                },
                _ => {},
            }
            i += 1;
        }
        proof {
            assert(before.pending.take(taken.len() as int) =~= before.pending);
            lemma_stays_well_formed(before);
        }
        taken
    }

    /// Records that the front transaction was performed with success. A
    /// block that it wrote is from now on what the chip is known to hold.
    pub fn acknowledge(&mut self)
        requires
            old(self)@.well_formed(),
        ensures
            final(self)@ == old(self)@.after_acknowledge(),
            final(self)@.well_formed(),
    {
        proof {
            if self@.pending.len() > 0 {
                assert(block_fits(self@.pending[0], self@.pin_count));
            }
        }
        match self.device.acknowledge() {
            Some(Transaction::BlockWrite { register, data }) => {
                self.confirm(register, data);
            },
            _ => {},
        }
        proof {
            lemma_stays_well_formed(old(self)@);
        }
    }

    /// Records that the front transaction failed with `cause`: drops the
    /// rest of the schedule, sets every cached block back to what the chip
    /// is known to hold, and returns the error to surface. What the failed
    /// operation and those after it changed in the cache is undone.
    pub fn abort(&mut self, cause: Fault) -> (error: CommunicationError)
        requires
            old(self)@.well_formed(),
        ensures
            error == failure_of(old(self)@.pending, cause),
            final(self)@ == old(self)@.after_abort(),
            final(self)@.well_formed(),
    {
        self.iodir = slice_to_vec(self.confirmed_iodir.as_slice());
        self.gppu = slice_to_vec(self.confirmed_gppu.as_slice());
        self.gpio = slice_to_vec(self.confirmed_gpio.as_slice());
        proof {
            lemma_stays_well_formed(old(self)@);
        }
        self.device.abort(cause)
    }

    /// Checks that the chip has pin `pin`.
    fn validate_pin(&self, pin: u8) -> (checked: Result<u8, CommunicationError>)
        ensures
            pin < self@.pin_count ==> checked == Ok::<u8, CommunicationError>(pin),
            pin >= self@.pin_count ==> checked == Err::<u8, CommunicationError>(
                CommunicationError::InvalidPin(pin),
            ),
    {
        if pin >= self.num_gpio {
            Err(CommunicationError::InvalidPin(pin))
        } else {
            Ok(pin)
        }
    }

    /// Sets the direction of pin `pin` and schedules one write of the
    /// direction block. An unknown pin is refused and changes nothing.
    pub fn setup(&mut self, pin: u8, mode: Mode) -> (done: Result<(), CommunicationError>)
        requires
            old(self)@.well_formed(),
        ensures
            pin < old(self)@.pin_count ==> done == Ok::<(), CommunicationError>(())
                && final(self)@ == old(self)@.after_setup(pin, mode),
            pin >= old(self)@.pin_count ==> done == Err::<(), CommunicationError>(
                CommunicationError::InvalidPin(pin),
            ) && final(self)@ == old(self)@,
            final(self)@.well_formed(),
    {
        match self.validate_pin(pin) {
            Err(e) => {
                return Err(e);
            },
            Ok(_) => {},
        }
        let idx = (pin / 8) as usize;
        let input = match mode {
            Mode::Input => true,
            Mode::Output => false,
        };
        let byte = set_bit(self.iodir[idx], pin % 8, input);
        self.iodir.set(idx, byte);
        self.write_iodir();
        proof {
            lemma_operations_keep_well_formed(old(self)@, pin, mode, false, Seq::empty(), 0);
        }
        Ok(())
    }

    /// Switches the pull-up of pin `pin` on or off and schedules one write
    /// of the pull-up block. An unknown pin is refused, and so is a
    /// pull-down, which the chip does not have; neither changes anything.
    pub fn pullup(&mut self, pin: u8, pullupdown: PullUpDown) -> (done: Result<
        (),
        CommunicationError,
    >)
        requires
            old(self)@.well_formed(),
        ensures
            pin >= old(self)@.pin_count ==> done == Err::<(), CommunicationError>(
                CommunicationError::InvalidPin(pin),
            ) && final(self)@ == old(self)@,
            pin < old(self)@.pin_count && pullupdown == PullUpDown::PullDown ==> done == Err::<
                (),
                CommunicationError,
            >(CommunicationError::InvalidParameter) && final(self)@ == old(self)@,
            pin < old(self)@.pin_count && pullupdown != PullUpDown::PullDown ==> done == Ok::<
                (),
                CommunicationError,
            >(()) && final(self)@ == old(self)@.after_pullup(pin, pullupdown == PullUpDown::PullUp),
            final(self)@.well_formed(),
    {
        match self.validate_pin(pin) {
            Err(e) => {
                return Err(e);
            },
            Ok(_) => {},
        }
        let on = match pullupdown {
            PullUpDown::PullUp => true,
            PullUpDown::Off => false,
            PullUpDown::PullDown => {
                return Err(CommunicationError::InvalidParameter);
            },
        };
        let idx = (pin / 8) as usize;
        let byte = set_bit(self.gppu[idx], pin % 8, on);
        self.gppu.set(idx, byte);
        self.write_gppu();
        proof {
            lemma_operations_keep_well_formed(old(self)@, pin, Mode::Input, on, Seq::empty(), 0);
        }
        Ok(())
    }

    /// Schedules a write of the cached direction block.
    fn write_iodir(&mut self)
        ensures
            final(self)@ == (PortExpanderState {
                pending: old(self)@.pending.push(
                    TransactionView::BlockWrite {
                        register: IODIR,
                        data: old(self)@.direction_bytes,
                    },
                ),
                ..old(self)@
            }),
    {
        self.device.block_write(IODIR, self.iodir.as_slice());
    }

    /// Schedules a write of the cached pull-up block.
    fn write_gppu(&mut self)
        ensures
            final(self)@ == (PortExpanderState {
                pending: old(self)@.pending.push(
                    TransactionView::BlockWrite { register: GPPU, data: old(self)@.pullup_bytes },
                ),
                ..old(self)@
            }),
    {
        self.device.block_write(GPPU, self.gppu.as_slice());
    }

    /// Schedules a write of the cached level block.
    fn write_gpio(&mut self)
        ensures
            final(self)@ == (PortExpanderState {
                pending: old(self)@.pending.push(
                    TransactionView::BlockWrite { register: GPIO, data: old(self)@.output_bytes },
                ),
                ..old(self)@
            }),
    {
        self.device.block_write(GPIO, self.gpio.as_slice());
    }

    /// Schedules an idle time of `micros` microseconds.
    pub(crate) fn delay(&mut self, micros: u64)
        ensures
            final(self)@ == old(self)@.after_delay(micros),
            old(self)@.well_formed() ==> final(self)@.well_formed(),
    {
        self.device.delay(micros);
        proof {
            if old(self)@.well_formed() {
                lemma_operations_keep_well_formed(
                    old(self)@,
                    0,
                    Mode::Input,
                    false,
                    Seq::empty(),
                    micros,
                );
            }
        }
    }

    /// Whether a write of the level block is pending.
    fn level_write_pending(&self) -> (found: bool)
        ensures
            found == (last_write(self@.pending, GPIO) is Some),
    {
        let pending = self.device.pending();
        let mut i: usize = pending.len();
        assert(self@.pending.take(i as int) =~= self@.pending);
        while i > 0
            invariant
                i <= pending.len(),
                pending.deep_view() == self@.pending,
                last_write(self@.pending, GPIO) == last_write(self@.pending.take(i as int), GPIO),
            decreases i,
        {
            proof {
                let so_far = self@.pending.take(i as int);
                assert(so_far.last() == pending[i - 1]@);
                assert(so_far.drop_last() =~= self@.pending.take(i - 1));
            }
            match &pending[i - 1] {
                Transaction::BlockWrite { register, .. } => {
                    if *register == GPIO {
                        return true;
                    }
                },
                _ => {},
            }
            i -= 1;
        }
        false
    }

    /// Drives pin `pin` high or low and schedules one write of the level
    /// block. An unknown pin is refused and changes nothing.
    pub fn output(&mut self, pin: u8, value: bool) -> (done: Result<(), CommunicationError>)
        requires
            old(self)@.well_formed(),
        ensures
            pin < old(self)@.pin_count ==> done == Ok::<(), CommunicationError>(())
                && final(self)@ == old(self)@.after_output(seq![(pin, value)]),
            pin >= old(self)@.pin_count ==> done == Err::<(), CommunicationError>(
                CommunicationError::InvalidPin(pin),
            ) && final(self)@ == old(self)@,
            final(self)@.well_formed(),
    {
        let pins = [(pin, value)];
        proof {
            let asked = pins_of(pins@);
            assert(pins@ =~= seq![(pin, value)]);
            assert(asked[0] == pin);
            assert(first_invalid_pin(asked.drop_first(), self@.pin_count) is None);
        }
        self.output_pins(pins.as_slice())
    }

    /// Drives every pin of `pins`, first to last, and schedules a single
    /// write of the level block, however many pins changed. All pins are
    /// checked before any is driven: the first unknown one is refused and
    /// nothing changes.
    pub fn output_pins(&mut self, pins: &[(u8, bool)]) -> (done: Result<(), CommunicationError>)
        requires
            old(self)@.well_formed(),
        ensures
            (match first_invalid_pin(pins_of(pins@), old(self)@.pin_count) {
                None => done == Ok::<(), CommunicationError>(())
                    && final(self)@ == old(self)@.after_output(pins@),
                Some(pin) => done == Err::<(), CommunicationError>(
                    CommunicationError::InvalidPin(pin),
                ) && final(self)@ == old(self)@,
            }),
            final(self)@.well_formed(),
    {
        let ghost asked = pins_of(pins@);
        let mut i: usize = 0;
        assert(asked.skip(0) =~= asked);
        while i < pins.len()
            invariant
                i <= pins.len(),
                asked == pins_of(pins@),
                *self == *old(self),
                self@.well_formed(),
                first_invalid_pin(asked, self@.pin_count) == first_invalid_pin(
                    asked.skip(i as int),
                    self@.pin_count,
                ),
            decreases pins.len() - i,
        {
            let pin = pins[i].0;
            assert(asked.skip(i as int)[0] == pin);
            if pin >= self.num_gpio {
                return Err(CommunicationError::InvalidPin(pin));
            }
            assert(asked.skip(i as int).drop_first() =~= asked.skip(i + 1));
            i += 1;
        }
        proof {
            lemma_first_invalid_pin(asked, self@.pin_count);
        }
        let ghost before = self@;
        let mut k: usize = 0;
        while k < pins.len()
            invariant
                k <= pins.len(),
                before.well_formed(),
                forall|i: int| 0 <= i < pins@.len() ==> pins_of(pins@)[i] < before.pin_count,
                self@ == (PortExpanderState {
                    output_bytes: write_pins(before.output_bytes, pins@.take(k as int)),
                    ..before
                }),
                self.gpio.len() == register_len(before.pin_count),
            decreases pins.len() - k,
        {
            let pin = pins[k].0;
            let value = pins[k].1;
            assert(pins_of(pins@)[k as int] == pin);
            let idx = (pin / 8) as usize;
            let byte = set_bit(self.gpio[idx], pin % 8, value);
            self.gpio.set(idx, byte);
            proof {
                assert(pins@.take(k + 1).drop_last() =~= pins@.take(k as int));
            }
            k += 1;
        }
        assert(pins@.take(pins.len() as int) =~= pins@);
        self.write_gpio();
        proof {
            lemma_operations_keep_well_formed(old(self)@, 0, Mode::Input, false, pins@, 0);
        }
        Ok(())
    }

    /// Checks that the chip has every pin of `pins`, and names the first
    /// that it does not have.
    fn validate_pins(&self, pins: &[u8]) -> (checked: Result<(), CommunicationError>)
        ensures
            (match first_invalid_pin(pins@, self@.pin_count) {
                None => checked == Ok::<(), CommunicationError>(()),
                Some(pin) => checked == Err::<(), CommunicationError>(
                    CommunicationError::InvalidPin(pin),
                ),
            }),
    {
        let mut i: usize = 0;
        assert(pins@.skip(0) =~= pins@);
        while i < pins.len()
            invariant
                i <= pins.len(),
                first_invalid_pin(pins@, self@.pin_count) == first_invalid_pin(
                    pins@.skip(i as int),
                    self@.pin_count,
                ),
            decreases pins.len() - i,
        {
            let pin = pins[i];
            assert(pins@.skip(i as int)[0] == pin);
            if pin >= self.num_gpio {
                return Err(CommunicationError::InvalidPin(pin));
            }
            assert(pins@.skip(i as int).drop_first() =~= pins@.skip(i + 1));
            i += 1;
        }
        Ok(())
    }

    /// Schedules the one block read that [`Self::input_pins`] needs for
    /// `pins`. The first unknown pin is refused and nothing is scheduled.
    pub fn request_input(&mut self, pins: &[u8]) -> (done: Result<(), CommunicationError>)
        requires
            old(self)@.well_formed(),
        ensures
            (match first_invalid_pin(pins@, old(self)@.pin_count) {
                None => done == Ok::<(), CommunicationError>(())
                    && final(self)@ == old(self)@.after_request(),
                Some(pin) => done == Err::<(), CommunicationError>(
                    CommunicationError::InvalidPin(pin),
                ) && final(self)@ == old(self)@,
            }),
            final(self)@.well_formed(),
    {
        match self.validate_pins(pins) {
            Err(e) => {
                return Err(e);
            },
            Ok(_) => {},
        }
        self.device.block_read(GPIO, self.gpio.len());
        proof {
            lemma_operations_keep_well_formed(old(self)@, 0, Mode::Input, false, Seq::empty(), 0);
        }
        Ok(())
    }

    /// Takes `port`, the level block as the host has just read it, as what
    /// the chip holds and into the cache, and returns the level of every
    /// pin of `pins`, in the order asked. Where a write of the level block
    /// is still pending, the cache keeps that write's block. The first
    /// unknown pin is refused; with all pins known, a block of the wrong
    /// length is refused as a failed read. Neither changes anything.
    pub fn input_pins(&mut self, pins: &[u8], port: &[u8]) -> (read: Result<
        Vec<Level>,
        CommunicationError,
    >)
        requires
            old(self)@.well_formed(),
        ensures
            (match first_invalid_pin(pins@, old(self)@.pin_count) {
                None => if port@.len() == register_len(old(self)@.pin_count) {
                    final(self)@ == old(self)@.after_input(port@) && (read matches Ok(levels)
                        && levels@ == levels_of(port@, pins@))
                } else {
                    final(self)@ == old(self)@ && read == Err::<Vec<Level>, CommunicationError>(
                        CommunicationError::ReadError,
                    )
                },
                Some(pin) => final(self)@ == old(self)@ && read == Err::<
                    Vec<Level>,
                    CommunicationError,
                >(CommunicationError::InvalidPin(pin)),
            }),
            final(self)@.well_formed(),
    {
        match self.validate_pins(pins) {
            Err(e) => {
                return Err(e);
            },
            Ok(_) => {},
        }
        if port.len() != self.gpio.len() {
            return Err(CommunicationError::ReadError);
        }
        proof {
            lemma_first_invalid_pin(pins@, self@.pin_count);
            lemma_input_keeps_well_formed(self@, port@);
        }
        if !self.level_write_pending() {
            self.gpio = slice_to_vec(port);
        }
        self.confirmed_gpio = slice_to_vec(port);
        let mut levels: Vec<Level> = Vec::new();
        let mut i: usize = 0;
        while i < pins.len()
            invariant
                i <= pins.len(),
                forall|j: int| 0 <= j < pins@.len() ==> pins@[j] < self@.pin_count,
                port@.len() == register_len(self@.pin_count),
                levels.len() == i,
                forall|j: int| 0 <= j < i ==> levels[j] == level_of(read_pin(port@, pins@[j])),
            decreases pins.len() - i,
        {
            let pin = pins[i];
            let level = if test_bit(port[(pin / 8) as usize], pin % 8) {
                Level::High
            } else {
                Level::Low
            };
            levels.push(level);
            i += 1;
        }
        assert(levels@ =~= levels_of(port@, pins@));
        Ok(levels)
    }

    /// [`Self::input_pins`] for the single pin `pin`.
    pub fn input(&mut self, pin: u8, port: &[u8]) -> (read: Result<Level, CommunicationError>)
        requires
            old(self)@.well_formed(),
        ensures
            pin < old(self)@.pin_count && port@.len() == register_len(old(self)@.pin_count)
                ==> final(self)@ == old(self)@.after_input(port@) && read == Ok::<
                Level,
                CommunicationError,
            >(level_of(read_pin(port@, pin))),
            pin < old(self)@.pin_count && port@.len() != register_len(old(self)@.pin_count)
                ==> final(self)@ == old(self)@ && read == Err::<Level, CommunicationError>(
                CommunicationError::ReadError,
            ),
            pin >= old(self)@.pin_count ==> final(self)@ == old(self)@ && read == Err::<
                Level,
                CommunicationError,
            >(CommunicationError::InvalidPin(pin)),
            final(self)@.well_formed(),
    {
        let pins = [pin];
        proof {
            assert(pins@ =~= seq![pin]);
            assert(first_invalid_pin(pins@.drop_first(), self@.pin_count) is None);
        }
        match self.input_pins(pins.as_slice(), port) {
            Ok(levels) => Ok(levels[0]),
            Err(e) => Err(e),
        }
    }
}

/// A batch of one pin write is that pin write.
pub proof fn lemma_write_single_pin(block: Seq<u8>, pin: u8, on: bool)
    ensures
        write_pins(block, seq![(pin, on)]) == write_pin(block, pin, on),
{
    let pins = seq![(pin, on)];
    assert(pins.drop_last() =~= Seq::<(u8, bool)>::empty());
    reveal_with_fuel(write_pins, 2);
}

/// A pin reads back as it was last written.
pub proof fn lemma_pin_reads_back(block: Seq<u8>, pin: u8, on: bool)
    requires
        pin as int / 8 < block.len(),
    ensures
        read_pin(write_pin(block, pin, on), pin) == on,
{
    lemma_bit_reads_back(block[pin as int / 8], pin % 8, on);
}

/// Writing one pin leaves every other pin alone: pins in other bytes
/// because the byte is not touched, pins in the same byte because only
/// bit `pin % 8` of it is.
pub proof fn lemma_pin_keeps_others(block: Seq<u8>, pin: u8, on: bool, other: u8)
    requires
        pin as int / 8 < block.len(),
        other as int / 8 < block.len(),
        other != pin,
    ensures
        write_pin(block, pin, on).len() == block.len(),
        read_pin(write_pin(block, pin, on), other) == read_pin(block, other),
        forall|i: int|
            0 <= i < block.len() && i != pin as int / 8 ==> write_pin(block, pin, on)[i]
                == block[i],
{
    if other / 8 == pin / 8 {
        lemma_bit_keeps_others(block[pin as int / 8], pin % 8, on, other % 8);
    }
}

/// Driving a pin high and then low leaves the level block as driving it
/// low alone does; where the pin was low to begin with, that is the block
/// as it was, byte for byte.
pub proof fn lemma_output_round_trip(state: PortExpanderState, pin: u8)
    requires
        state.well_formed(),
        pin < state.pin_count,
    ensures
        state.after_output(seq![(pin, true)]).after_output(seq![(pin, false)]).output_bytes
            == state.after_output(seq![(pin, false)]).output_bytes,
        !read_pin(state.output_bytes, pin) ==> state.after_output(seq![(pin, true)]).after_output(
            seq![(pin, false)],
        ).output_bytes == state.output_bytes,
{
    let block = state.output_bytes;
    let byte = block[pin as int / 8];
    lemma_write_single_pin(block, pin, true);
    lemma_write_single_pin(block, pin, false);
    lemma_write_single_pin(write_pin(block, pin, true), pin, false);
    lemma_bit_overwrites(byte, pin % 8, true, false);
    assert(write_pin(write_pin(block, pin, true), pin, false) =~= write_pin(block, pin, false));
    if !read_pin(block, pin) {
        lemma_bit_unchanged(byte, pin % 8, false);
        assert(write_pin(block, pin, false) =~= block);
    }
}

/// The block that `state` caches for the register at `register`.
pub open spec fn cached_block(state: PortExpanderState, register: u8) -> Seq<u8> {
    if register == IODIR {
        state.direction_bytes
    } else if register == GPPU {
        state.pullup_bytes
    } else {
        state.output_bytes
    }
}

/// Whether the cache of `state` is in step with the chip for one of the
/// three registers: once the host has performed the schedule on a chip
/// whose registers are `chip`, the chip holds the cached block there.
pub open spec fn in_step(state: PortExpanderState, chip: Map<u8, Seq<u8>>, register: u8) -> bool {
    let then = perform_all(chip, state.pending);
    then.dom().contains(register) && then[register] == cached_block(state, register)
}

/// A fresh driver is in step with any chip for direction and pull-ups,
/// which it schedules; what the chip's level block holds it cannot know
/// before it has driven a pin.
pub proof fn lemma_initial_in_step(address: u8, pin_count: u8, chip: Map<u8, Seq<u8>>)
    ensures
        in_step(PortExpanderState::initial(address, pin_count), chip, IODIR),
        in_step(PortExpanderState::initial(address, pin_count), chip, GPPU),
{
    let initial = PortExpanderState::initial(address, pin_count);
    let nothing = Seq::<TransactionView>::empty();
    let first = nothing.push(initial.pending[0]);
    lemma_perform_push(chip, nothing, initial.pending[0]);
    lemma_perform_push(chip, first, initial.pending[1]);
    assert(first.push(initial.pending[1]) =~= initial.pending);
}

/// An operation brings the cache in step with the chip for the register
/// that it writes, whatever the chip held.
pub proof fn lemma_operations_get_in_step(
    state: PortExpanderState,
    chip: Map<u8, Seq<u8>>,
    pin: u8,
    mode: Mode,
    on: bool,
    pins: Seq<(u8, bool)>,
)
    ensures
        in_step(state.after_setup(pin, mode), chip, IODIR),
        in_step(state.after_pullup(pin, on), chip, GPPU),
        in_step(state.after_output(pins), chip, GPIO),
{
    lemma_perform_push(chip, state.pending, state.after_setup(pin, mode).pending.last());
    lemma_perform_push(chip, state.pending, state.after_pullup(pin, on).pending.last());
    lemma_perform_push(chip, state.pending, state.after_output(pins).pending.last());
}

/// An operation leaves the cache in step with the chip for the registers
/// that it does not write.
pub proof fn lemma_operations_stay_in_step(
    state: PortExpanderState,
    chip: Map<u8, Seq<u8>>,
    register: u8,
    pin: u8,
    mode: Mode,
    on: bool,
    pins: Seq<(u8, bool)>,
    micros: u64,
)
    requires
        register == IODIR || register == GPPU || register == GPIO,
        in_step(state, chip, register),
    ensures
        register != IODIR ==> in_step(state.after_setup(pin, mode), chip, register),
        register != GPPU ==> in_step(state.after_pullup(pin, on), chip, register),
        register != GPIO ==> in_step(state.after_output(pins), chip, register),
        in_step(state.after_request(), chip, register),
        in_step(state.after_delay(micros), chip, register),
{
    lemma_perform_push(chip, state.pending, state.after_setup(pin, mode).pending.last());
    lemma_perform_push(chip, state.pending, state.after_pullup(pin, on).pending.last());
    lemma_perform_push(chip, state.pending, state.after_output(pins).pending.last());
    lemma_perform_push(chip, state.pending, state.after_request().pending.last());
    lemma_perform_push(chip, state.pending, state.after_delay(micros).pending.last());
}

/// The host keeps the cache in step with the chip: when it performs the
/// front transaction on the chip and acknowledges it, the cache is still
/// what the chip will hold; and with nothing pending, the cache is what
/// the chip holds.
pub proof fn lemma_host_stays_in_step(
    state: PortExpanderState,
    chip: Map<u8, Seq<u8>>,
    register: u8,
)
    requires
        in_step(state, chip, register),
    ensures
        state.pending.len() > 0 ==> in_step(
            state.after_acknowledge(),
            perform(chip, state.pending[0]),
            register,
        ),
        state.pending.len() == 0 ==> chip[register] == cached_block(state, register),
{
    if state.pending.len() > 0 {
        lemma_perform_front(chip, state.pending);
    }
}

/// The block that the chip is known to hold at `register`, going by
/// `state`.
pub open spec fn confirmed_block(state: PortExpanderState, register: u8) -> Seq<u8> {
    if register == IODIR {
        state.confirmed_direction_bytes
    } else if register == GPPU {
        state.confirmed_pullup_bytes
    } else {
        state.confirmed_output_bytes
    }
}

/// Whether what `state` takes the chip to hold at `register` is what a
/// chip with the registers `chip` does hold.
pub open spec fn settled(state: PortExpanderState, chip: Map<u8, Seq<u8>>, register: u8) -> bool {
    chip.dom().contains(register) && chip[register] == confirmed_block(state, register)
}

/// Scheduling changes nothing in what the chip is known to hold.
pub proof fn lemma_operations_keep_confirmed(
    state: PortExpanderState,
    pin: u8,
    mode: Mode,
    on: bool,
    pins: Seq<(u8, bool)>,
    micros: u64,
    register: u8,
)
    ensures
        confirmed_block(state.after_setup(pin, mode), register) == confirmed_block(state, register),
        confirmed_block(state.after_pullup(pin, on), register) == confirmed_block(state, register),
        confirmed_block(state.after_output(pins), register) == confirmed_block(state, register),
        confirmed_block(state.after_request(), register) == confirmed_block(state, register),
        confirmed_block(state.after_delay(micros), register) == confirmed_block(state, register),
{
}

/// What the driver takes the chip to hold follows the chip: when the host
/// performs a schedule on the chip with success and the driver confirms
/// it, the confirmed block is still the chip's.
pub proof fn lemma_confirming_follows_chip(
    state: PortExpanderState,
    chip: Map<u8, Seq<u8>>,
    schedule: Seq<TransactionView>,
    register: u8,
)
    requires
        register == IODIR || register == GPPU || register == GPIO,
        settled(state, chip, register),
    ensures
        settled(state.confirming_all(schedule), perform_all(chip, schedule), register),
    decreases schedule.len(),
{
    if schedule.len() > 0 {
        lemma_confirming_follows_chip(state, chip, schedule.drop_last(), register);
    }
}

/// The host's successes keep the confirmed blocks the chip's: after the
/// front transaction was performed and acknowledged, and after the whole
/// schedule was taken and performed.
pub proof fn lemma_host_keeps_settled(
    state: PortExpanderState,
    chip: Map<u8, Seq<u8>>,
    register: u8,
)
    requires
        register == IODIR || register == GPPU || register == GPIO,
        settled(state, chip, register),
    ensures
        state.pending.len() > 0 ==> settled(
            state.after_acknowledge(),
            perform(chip, state.pending[0]),
            register,
        ),
        settled(state.after_take(), perform_all(chip, state.pending), register),
{
    lemma_confirming_follows_chip(state, chip, state.pending, register);
    lemma_confirming_all(state, state.pending);
}

/// A failure leaves the cache equal to the last block written with
/// success: after `abort`, each cached block is the confirmed one, which
/// is the chip's, and with nothing pending the cache is in step with the
/// chip. What the operations since the last success changed in the cache
/// is gone.
pub proof fn lemma_abort_restores(
    state: PortExpanderState,
    chip: Map<u8, Seq<u8>>,
    register: u8,
)
    requires
        register == IODIR || register == GPPU || register == GPIO,
        settled(state, chip, register),
    ensures
        cached_block(state.after_abort(), register) == confirmed_block(state, register),
        confirmed_block(state.after_abort(), register) == confirmed_block(state, register),
        state.after_abort().pending.len() == 0,
        settled(state.after_abort(), chip, register),
        in_step(state.after_abort(), chip, register),
{
}

/// A failed write undoes itself: where nothing was pending and the cache
/// was the confirmed block, an operation followed by `abort` leaves the
/// cached block as it was before the operation.
pub proof fn lemma_failed_operation_is_undone(
    state: PortExpanderState,
    pin: u8,
    mode: Mode,
    on: bool,
    pins: Seq<(u8, bool)>,
    register: u8,
)
    requires
        cached_block(state, register) == confirmed_block(state, register),
    ensures
        cached_block(state.after_setup(pin, mode).after_abort(), register) == cached_block(
            state,
            register,
        ),
        cached_block(state.after_pullup(pin, on).after_abort(), register) == cached_block(
            state,
            register,
        ),
        cached_block(state.after_output(pins).after_abort(), register) == cached_block(
            state,
            register,
        ),
{
}

/// A read brings the level block in step: when the host hands over what
/// the chip holds at the level register, the driver takes the chip to
/// hold it, and with nothing pending the cache is in step with the chip.
pub proof fn lemma_input_settles(state: PortExpanderState, chip: Map<u8, Seq<u8>>, port: Seq<u8>)
    requires
        chip.dom().contains(GPIO),
        chip[GPIO] == port,
    ensures
        settled(state.after_input(port), chip, GPIO),
        state.pending.len() == 0 ==> in_step(state.after_input(port), chip, GPIO),
{
}

/// The block that `transaction` writes to `register`, if it writes
/// there.
pub open spec fn block_written(transaction: TransactionView, register: u8) -> Option<Seq<u8>> {
    match transaction {
        TransactionView::BlockWrite { register: to, data } => if to == register {
            Some(data)
        } else {
            None
        },
        _ => None,
    }
}

/// The block of the last write to `register` in `schedule`, if there is
/// one.
pub open spec fn last_write(schedule: Seq<TransactionView>, register: u8) -> Option<Seq<u8>>
    decreases schedule.len(),
{
    if schedule.len() == 0 {
        None
    } else if block_written(schedule.last(), register) is Some {
        block_written(schedule.last(), register)
    } else {
        last_write(schedule.drop_last(), register)
    }
}

/// Whether the cached block for `register` is the last value written with
/// success, changed by nothing but the writes that are still pending:
/// the block of the last pending write to the register, or, where none is
/// pending, the confirmed block itself.
pub open spec fn cache_is_last_written(state: PortExpanderState, register: u8) -> bool {
    cached_block(state, register) == match last_write(state.pending, register) {
        Some(block) => block,
        None => confirmed_block(state, register),
    }
}

/// The last write of a schedule without its front is that of the whole
/// schedule, unless the front was the only write.
proof fn lemma_last_write_without_front(schedule: Seq<TransactionView>, register: u8)
    requires
        schedule.len() > 0,
    ensures
        last_write(schedule.drop_first(), register) is Some ==> last_write(
            schedule.drop_first(),
            register,
        ) == last_write(schedule, register),
        last_write(schedule.drop_first(), register) is None ==> last_write(schedule, register)
            == block_written(schedule[0], register),
    decreases schedule.len(),
{
    let rest = schedule.drop_first();
    if schedule.len() == 1 {
        assert(rest.len() == 0);
        assert(schedule.drop_last().len() == 0);
        assert(schedule.last() == schedule[0]);
    } else {
        lemma_last_write_without_front(schedule.drop_last(), register);
        assert(rest.drop_last() =~= schedule.drop_last().drop_first());
        assert(rest.last() == schedule.last());
        assert(schedule.drop_last()[0] == schedule[0]);
    }
}

/// Confirming a schedule makes the confirmed block the last one that the
/// schedule wrote, and leaves it where the schedule wrote none.
proof fn lemma_confirming_takes_last_write(
    state: PortExpanderState,
    schedule: Seq<TransactionView>,
    register: u8,
)
    requires
        register == IODIR || register == GPPU || register == GPIO,
    ensures
        confirmed_block(state.confirming_all(schedule), register) == match last_write(
            schedule,
            register,
        ) {
            Some(block) => block,
            None => confirmed_block(state, register),
        },
    decreases schedule.len(),
{
    if schedule.len() > 0 {
        lemma_confirming_takes_last_write(state, schedule.drop_last(), register);
    }
}

/// A fresh driver's cache is the chip's power-on value with the two
/// scheduled blocks applied.
pub proof fn lemma_fresh_cache_is_last_written(address: u8, pin_count: u8, register: u8)
    requires
        register == IODIR || register == GPPU || register == GPIO,
    ensures
        cache_is_last_written(PortExpanderState::initial(address, pin_count), register),
{
    let initial = PortExpanderState::initial(address, pin_count);
    let first = initial.pending.drop_last();
    assert(first.len() == 1);
    assert(first.last() == initial.pending[0]);
    assert(initial.pending.last() == initial.pending[1]);
    assert(last_write(first.drop_last(), register) is None);
    assert(last_write(first, register) == block_written(initial.pending[0], register));
    assert(last_write(initial.pending, register) == if register == GPPU {
        block_written(initial.pending[1], register)
    } else {
        last_write(first, register)
    });
}

/// The cache always equals the last value written with success, but for
/// the writes still pending: every operation, every success of the host
/// and every failure keeps it so, and so does a read. With nothing
/// pending, the cached block is the confirmed block.
pub proof fn lemma_cache_is_last_written(
    state: PortExpanderState,
    register: u8,
    pin: u8,
    mode: Mode,
    on: bool,
    pins: Seq<(u8, bool)>,
    micros: u64,
    port: Seq<u8>,
)
    requires
        register == IODIR || register == GPPU || register == GPIO,
        cache_is_last_written(state, register),
    ensures
        cache_is_last_written(state.after_setup(pin, mode), register),
        cache_is_last_written(state.after_pullup(pin, on), register),
        cache_is_last_written(state.after_output(pins), register),
        cache_is_last_written(state.after_request(), register),
        cache_is_last_written(state.after_delay(micros), register),
        cache_is_last_written(state.after_acknowledge(), register),
        cache_is_last_written(state.after_take(), register),
        cache_is_last_written(state.after_abort(), register),
        cache_is_last_written(state.after_input(port), register),
        state.pending.len() == 0 ==> cached_block(state, register) == confirmed_block(
            state,
            register,
        ),
{
    assert(state.after_setup(pin, mode).pending.drop_last() =~= state.pending);
    assert(state.after_pullup(pin, on).pending.drop_last() =~= state.pending);
    assert(state.after_output(pins).pending.drop_last() =~= state.pending);
    assert(state.after_request().pending.drop_last() =~= state.pending);
    assert(state.after_delay(micros).pending.drop_last() =~= state.pending);
    if state.pending.len() > 0 {
        lemma_last_write_without_front(state.pending, register);
    }
    lemma_confirming_takes_last_write(state, state.pending, register);
    lemma_confirming_all(state, state.pending);
}

/// Scheduling keeps the cache the last value written with success but
/// for the pending writes, for each of the three registers.
proof fn lemma_operations_keep_well_formed(
    state: PortExpanderState,
    pin: u8,
    mode: Mode,
    on: bool,
    pins: Seq<(u8, bool)>,
    micros: u64,
)
    requires
        state.well_formed(),
    ensures
        state.after_setup(pin, mode).caches_are_last_written(),
        state.after_pullup(pin, on).caches_are_last_written(),
        state.after_output(pins).caches_are_last_written(),
        state.after_request().caches_are_last_written(),
        state.after_delay(micros).caches_are_last_written(),
{
    lemma_cache_is_last_written(state, IODIR, pin, mode, on, pins, micros, Seq::empty());
    lemma_cache_is_last_written(state, GPPU, pin, mode, on, pins, micros, Seq::empty());
    lemma_cache_is_last_written(state, GPIO, pin, mode, on, pins, micros, Seq::empty());
}

/// The host's successes and a failure keep a well-formed state
/// well-formed.
pub proof fn lemma_stays_well_formed(state: PortExpanderState)
    requires
        state.well_formed(),
    ensures
        state.after_acknowledge().well_formed(),
        state.after_take().well_formed(),
        state.after_abort().well_formed(),
{
    lemma_cache_is_last_written(
        state,
        IODIR,
        0,
        Mode::Input,
        false,
        Seq::empty(),
        0,
        Seq::empty(),
    );
    lemma_cache_is_last_written(state, GPPU, 0, Mode::Input, false, Seq::empty(), 0, Seq::empty());
    lemma_cache_is_last_written(state, GPIO, 0, Mode::Input, false, Seq::empty(), 0, Seq::empty());
    lemma_confirming_all(state, state.pending);
    if state.pending.len() > 0 {
        assert(block_fits(state.pending[0], state.pin_count));
        assert forall|i: int| 0 <= i < state.pending.drop_first().len() implies block_fits(
            #[trigger] state.pending.drop_first()[i],
            state.pin_count,
        ) by {
            assert(state.pending.drop_first()[i] == state.pending[i + 1]);
        }
    }
}

/// A read of the right length keeps a well-formed state well-formed.
pub proof fn lemma_input_keeps_well_formed(state: PortExpanderState, port: Seq<u8>)
    requires
        state.well_formed(),
        port.len() == register_len(state.pin_count),
    ensures
        state.after_input(port).well_formed(),
{
}

} // verus!
