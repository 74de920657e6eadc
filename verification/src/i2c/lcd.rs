//! A character LCD of the HD44780 family, wired to a port expander and
//! driven in 4-bit mode.
//!
//! Every byte for the display goes out as two nibbles on the data pins,
//! each latched by a pulse on the enable pin. The driver says what it does
//! to the pins as a script of [`Signal`]s; [`drive`] turns a script into
//! the expander's cache and schedule.

pub mod helpers;

use vstd::prelude::*;
use crate::bits::{bit_is_set, set_bit, test_bit, with_bit};
use crate::bus::{failure_of, Fault, Transaction};
use crate::errors::CommunicationError;
use crate::i2c::io::{
    cache_is_last_written, first_invalid_pin, in_step, lemma_cache_is_last_written,
    lemma_confirming_all, lemma_first_invalid_pin,
    lemma_operations_get_in_step,
    lemma_operations_stay_in_step, pins_of, read_pin, register_len, Level, Mode,
    PortExpanderState, MCP230xx, GPIO, GPPU, IODIR,
};

verus! {

// Commands
pub const LCD_CLEARDISPLAY: u8 = 0x01;

pub const LCD_RETURNHOME: u8 = 0x02;

pub const LCD_ENTRYMODESET: u8 = 0x04;

pub const LCD_DISPLAYCONTROL: u8 = 0x08;

pub const LCD_FUNCTIONSET: u8 = 0x20;

pub const LCD_SETCGRAMADDR: u8 = 0x40;

pub const LCD_SETDDRAMADDR: u8 = 0x80;

// Entry mode flags
pub const LCD_ENTRYLEFT: u8 = 0x02;

pub const LCD_ENTRYSHIFTINCREMENT: u8 = 0x01;

// Display control flags
pub const LCD_DISPLAYON: u8 = 0x04;

pub const LCD_BLINKON: u8 = 0x01;

// Function set flags
pub const LCD_2LINE: u8 = 0x08;

// Pins of the expander that the LCD plate wires to the display.
pub const LCD_PLATE_RS: u8 = 15;

pub const LCD_PLATE_RW: u8 = 14;

pub const LCD_PLATE_EN: u8 = 13;

pub const LCD_PLATE_D4: u8 = 12;

pub const LCD_PLATE_D5: u8 = 11;

pub const LCD_PLATE_D6: u8 = 10;

pub const LCD_PLATE_D7: u8 = 9;

pub const LCD_PLATE_RED: u8 = 6;

pub const LCD_PLATE_GREEN: u8 = 7;

pub const LCD_PLATE_BLUE: u8 = 8;

// Pins of the expander that the LCD plate wires to its buttons.
pub const SELECT: u8 = 0;

pub const RIGHT: u8 = 1;

pub const DOWN: u8 = 2;

pub const UP: u8 = 3;

pub const LEFT: u8 = 4;

/// Number of expander pins that the plate uses.
pub const LCD_PLATE_PINS: u8 = 16;

/// Settle time after a clear or a return home, in microseconds.
pub const LCD_SETTLE_MICROS: u64 = 3000;

/// A button of the LCD plate.
#[derive(Debug, Clone, Copy, PartialEq, Eq, Structural)]
pub enum Button {
    Select,
    Right,
    Down,
    Up,
    Left,
}

/// The expander pin that `button` is wired to.
pub open spec fn button_pin(button: Button) -> u8 {
    match button {
        Button::Select => SELECT,
        Button::Right => RIGHT,
        Button::Down => DOWN,
        Button::Up => UP,
        Button::Left => LEFT,
    }
}

/// One thing the driver does to the expander's pins.
pub enum Signal {
    /// Make `pin` an input or an output.
    Direction { pin: u8, mode: Mode },
    /// Drive the pins of `pins`, as one write of the level block.
    Pins { pins: Seq<(u8, bool)> },
    /// Wait for `micros` microseconds.
    Wait { micros: u64 },
}

/// The expander after `signal`.
pub open spec fn step(state: PortExpanderState, signal: Signal) -> PortExpanderState {
    match signal {
        Signal::Direction { pin, mode } => state.after_setup(pin, mode),
        Signal::Pins { pins } => state.after_output(pins),
        Signal::Wait { micros } => state.after_delay(micros),
    }
}

/// The expander after the signals of `script`, first to last.
#[verifier::opaque]
pub open spec fn drive(state: PortExpanderState, script: Seq<Signal>) -> PortExpanderState
    decreases script.len(),
{
    if script.len() == 0 {
        state
    } else {
        step(drive(state, script.drop_last()), script.last())
    }
}

/// Driving no signal changes nothing.
pub proof fn lemma_drive_nothing(state: PortExpanderState)
    ensures
        drive(state, Seq::<Signal>::empty()) == state,
{
    reveal_with_fuel(drive, 1);
}

/// One more signal at the end of a script is one more step.
pub proof fn lemma_drive_push(state: PortExpanderState, script: Seq<Signal>, signal: Signal)
    ensures
        drive(state, script.push(signal)) == step(drive(state, script), signal),
{
    reveal_with_fuel(drive, 1);
    assert(script.push(signal).drop_last() =~= script);
}

/// Driving a single signal is one step.
pub proof fn lemma_drive_single(state: PortExpanderState, signal: Signal)
    ensures
        drive(state, seq![signal]) == step(state, signal),
{
    lemma_drive_nothing(state);
    lemma_drive_push(state, Seq::<Signal>::empty(), signal);
    assert(Seq::<Signal>::empty().push(signal) =~= seq![signal]);
}

/// Driving two scripts on end is driving the first and then the second.
pub proof fn lemma_drive_concat(state: PortExpanderState, first: Seq<Signal>, second: Seq<Signal>)
    ensures
        drive(state, first + second) == drive(drive(state, first), second),
    decreases second.len(),
{
    reveal_with_fuel(drive, 1);
    if second.len() == 0 {
        assert(first + second =~= first);
    } else {
        lemma_drive_concat(state, first, second.drop_last());
        assert((first + second).drop_last() =~= first + second.drop_last());
    }
}

/// Whatever the display does to the pins, the expander's cache stays in
/// step with the chip.
pub proof fn lemma_drive_stays_in_step(
    state: PortExpanderState,
    chip: Map<u8, Seq<u8>>,
    script: Seq<Signal>,
    register: u8,
)
    requires
        register == IODIR || register == GPPU || register == GPIO,
        in_step(state, chip, register),
    ensures
        in_step(drive(state, script), chip, register),
    decreases script.len(),
{
    reveal_with_fuel(drive, 1);
    if script.len() > 0 {
        let before = drive(state, script.drop_last());
        lemma_drive_stays_in_step(state, chip, script.drop_last(), register);
        match script.last() {
            Signal::Direction { pin, mode } => {
                lemma_operations_get_in_step(before, chip, pin, mode, false, Seq::empty());
                lemma_operations_stay_in_step(
                    before,
                    chip,
                    register,
                    pin,
                    mode,
                    false,
                    Seq::empty(),
                    0,
                );
            },
            Signal::Pins { pins } => {
                lemma_operations_get_in_step(before, chip, 0, Mode::Input, false, pins);
                lemma_operations_stay_in_step(
                    before,
                    chip,
                    register,
                    0,
                    Mode::Input,
                    false,
                    pins,
                    0,
                );
            },
            Signal::Wait { micros } => {
                lemma_operations_stay_in_step(
                    before,
                    chip,
                    register,
                    0,
                    Mode::Input,
                    false,
                    Seq::empty(),
                    micros,
                );
            },
        }
    }
}

/// Whatever the display does to the pins, the expander's cache stays the
/// last value written with success, but for the writes still pending.
pub proof fn lemma_drive_keeps_last_written(
    state: PortExpanderState,
    script: Seq<Signal>,
    register: u8,
)
    requires
        register == IODIR || register == GPPU || register == GPIO,
        cache_is_last_written(state, register),
    ensures
        cache_is_last_written(drive(state, script), register),
    decreases script.len(),
{
    reveal_with_fuel(drive, 1);
    if script.len() > 0 {
        let before = drive(state, script.drop_last());
        lemma_drive_keeps_last_written(state, script.drop_last(), register);
        match script.last() {
            Signal::Direction { pin, mode } => {
                lemma_cache_is_last_written(
                    before,
                    register,
                    pin,
                    mode,
                    false,
                    Seq::empty(),
                    0,
                    Seq::empty(),
                );
            },
            Signal::Pins { pins } => {
                lemma_cache_is_last_written(
                    before,
                    register,
                    0,
                    Mode::Input,
                    false,
                    pins,
                    0,
                    Seq::empty(),
                );
            },
            Signal::Wait { micros } => {
                lemma_cache_is_last_written(
                    before,
                    register,
                    0,
                    Mode::Input,
                    false,
                    Seq::empty(),
                    micros,
                    Seq::empty(),
                );
            },
        }
    }
}

/// The pulse on the enable pin that latches a nibble: low, high, low, with
/// a microsecond after each edge. The chip asks for 450 ns per edge and
/// for 37 µs to take a command in; a microsecond is the shortest wait that
/// the host can be asked for, and the bus itself is slower than that.
pub open spec fn pulse_enable_script() -> Seq<Signal> {
    seq![Signal::Pins { pins: seq![(LCD_PLATE_EN, false)] }]
        + seq![Signal::Wait { micros: 1 }]
        + seq![Signal::Pins { pins: seq![(LCD_PLATE_EN, true)] }]
        + seq![Signal::Wait { micros: 1 }]
        + seq![Signal::Pins { pins: seq![(LCD_PLATE_EN, false)] }]
        + seq![Signal::Wait { micros: 1 }]
}

/// The data pins for the upper four bits of `value`.
pub open spec fn high_nibble_pins(value: u8) -> Seq<(u8, bool)> {
    seq![
        (LCD_PLATE_D7, bit_is_set(value, 7)),
        (LCD_PLATE_D6, bit_is_set(value, 6)),
        (LCD_PLATE_D5, bit_is_set(value, 5)),
        (LCD_PLATE_D4, bit_is_set(value, 4)),
    ]
}

/// The data pins for the lower four bits of `value`.
pub open spec fn low_nibble_pins(value: u8) -> Seq<(u8, bool)> {
    seq![
        (LCD_PLATE_D7, bit_is_set(value, 3)),
        (LCD_PLATE_D6, bit_is_set(value, 2)),
        (LCD_PLATE_D5, bit_is_set(value, 1)),
        (LCD_PLATE_D4, bit_is_set(value, 0)),
    ]
}

/// How the byte `value` goes to the display: a microsecond of rest, the
/// register-select pin (high for character data, low for a command), then
/// the upper and the lower nibble, each followed by an enable pulse.
pub open spec fn write8_script(value: u8, char_mode: bool) -> Seq<Signal> {
    seq![Signal::Wait { micros: 1 }]
        + seq![Signal::Pins { pins: seq![(LCD_PLATE_RS, char_mode)] }]
        + seq![Signal::Pins { pins: high_nibble_pins(value) }]
        + pulse_enable_script()
        + seq![Signal::Pins { pins: low_nibble_pins(value) }]
        + pulse_enable_script()
}

/// A command that is followed by the long settle time.
pub open spec fn settled_script(command: u8) -> Seq<Signal> {
    write8_script(command, false).push(Signal::Wait { micros: LCD_SETTLE_MICROS })
}

/// Display RAM address of the first column of `line`.
pub open spec fn ddram_base(line: u8) -> u8 {
    if line == 0 {
        0x00
    } else if line == 1 {
        0x40
    } else if line == 2 {
        0x14
    } else {
        0x54
    }
}

/// The line that a request for `line` lands on: `line` itself if the
/// display has it, else the last line.
pub open spec fn clamp_line(line: u8, lines: u8) -> u8 {
    if line >= lines {
        (lines - 1) as u8
    } else {
        line
    }
}

/// Whether the address of column `col` on `line` fits the command byte.
pub open spec fn cursor_fits(col: u8, line: u8) -> bool {
    col + ddram_base(line) <= 0xFF
}

/// The command that puts the cursor at column `col` of `line`.
pub open spec fn cursor_command(col: u8, line: u8) -> u8 {
    LCD_SETDDRAMADDR | ((col + ddram_base(line)) as u8)
}

/// The largest [`ddram_base`] among the lines of a display of `lines`
/// lines.
pub open spec fn last_base(lines: u8) -> u8 {
    if lines <= 1 {
        0x00
    } else if lines <= 3 {
        0x40
    } else {
        0x54
    }
}

/// Whether a display of `columns` by `lines` can be driven: it has one to
/// four lines and at least one column, and the address of every cell fits
/// the command byte.
pub open spec fn geometry_fits(columns: u8, lines: u8) -> bool {
    &&& 1 <= lines <= 4
    &&& 1 <= columns
    &&& columns - 1 + last_base(lines) <= 0xFF
}

/// The code that the display receives for `c`: its low eight bits.
pub open spec fn glyph_code(c: char) -> u8 {
    (c as u32 & 0xFF) as u8
}

/// The command that selects glyph slot `location` for writing. Only the
/// low three bits of `location` count.
pub open spec fn cgram_command(location: u8) -> u8 {
    LCD_SETCGRAMADDR | ((location & 0x7) << 3)
}

/// The rows of a glyph, each sent as character data.
pub open spec fn pattern_script(rows: Seq<u8>) -> Seq<Signal>
    decreases rows.len(),
{
    if rows.len() == 0 {
        Seq::<Signal>::empty()
    } else {
        pattern_script(rows.drop_last()) + write8_script(rows.last(), true)
    }
}

/// The level of a backlight pin for intensity `intensity`: the channel is
/// on at full intensity only, and `polarity` is the level that means on.
pub open spec fn backlight_level(intensity: u8, polarity: bool) -> bool {
    if intensity == 255 {
        polarity
    } else {
        !polarity
    }
}

/// How the backlight is set: the three colour pins become outputs and are
/// driven together.
pub open spec fn color_script(r: u8, g: u8, b: u8, polarity: bool) -> Seq<Signal> {
    seq![
        Signal::Direction { pin: LCD_PLATE_RED, mode: Mode::Output },
        Signal::Direction { pin: LCD_PLATE_GREEN, mode: Mode::Output },
        Signal::Direction { pin: LCD_PLATE_BLUE, mode: Mode::Output },
        Signal::Pins {
            pins: seq![
                (LCD_PLATE_RED, backlight_level(r, polarity)),
                (LCD_PLATE_GREEN, backlight_level(g, polarity)),
                (LCD_PLATE_BLUE, backlight_level(b, polarity)),
            ],
        },
    ]
}

/// The signals that give every pin of `pins` the direction `mode`, first
/// to last.
pub open spec fn claim_script(pins: Seq<u8>, mode: Mode) -> Seq<Signal> {
    Seq::new(pins.len(), |i: int| Signal::Direction { pin: pins[i], mode })
}

/// The button pins, in the order in which they are claimed.
pub open spec fn button_pins() -> Seq<u8> {
    seq![SELECT, RIGHT, DOWN, UP, LEFT]
}

/// The display pins, in the order in which they are claimed.
pub open spec fn display_pins() -> Seq<u8> {
    seq![LCD_PLATE_RS, LCD_PLATE_EN, LCD_PLATE_D4, LCD_PLATE_D5, LCD_PLATE_D6, LCD_PLATE_D7]
}

/// How the pins are claimed when the driver starts: read/write an output
/// and low, the five buttons inputs, the six display pins outputs.
pub open spec fn wiring_script() -> Seq<Signal> {
    seq![
        Signal::Direction { pin: LCD_PLATE_RW, mode: Mode::Output },
        Signal::Pins { pins: seq![(LCD_PLATE_RW, false)] },
    ] + claim_script(button_pins(), Mode::Input) + claim_script(display_pins(), Mode::Output)
}

/// How the display is started: the two reset bytes that bring the chip
/// into 4-bit mode, then function set, display control and entry mode,
/// then a clear.
pub open spec fn reset_script(function_flags: u8, control_flags: u8, mode_flags: u8) -> Seq<
    Signal,
> {
    write8_script(0x33, false)
        + write8_script(0x32, false)
        + write8_script(LCD_FUNCTIONSET | function_flags, false)
        + write8_script(LCD_DISPLAYCONTROL | control_flags, false)
        + write8_script(LCD_ENTRYMODESET | mode_flags, false)
        + settled_script(LCD_CLEARDISPLAY)
}

/// Where the display stands between the driver and the host.
#[derive(Debug, Clone, Copy, PartialEq, Eq, Structural)]
pub enum Phase {
    /// A transaction failed: the display is in no known state and has to
    /// be started again.
    Uninitialized,
    /// The start sequence is scheduled and the host has not yet performed
    /// all of it.
    Initializing,
    /// Nothing is pending.
    Ready,
    /// Transactions of an operation are pending.
    BusyWriting,
}

/// The phase after something was scheduled.
pub open spec fn busy(phase: Phase) -> Phase {
    match phase {
        Phase::Ready => Phase::BusyWriting,
        other => other,
    }
}

/// The phase after the host has performed everything that was scheduled.
pub open spec fn idle(phase: Phase) -> Phase {
    match phase {
        Phase::Initializing => Phase::Ready,
        Phase::BusyWriting => Phase::Ready,
        other => other,
    }
}

/// The state of an LCD driver.
pub struct LcdControllerState {
    /// Where the display stands between the driver and the host.
    pub phase: Phase,
    /// Flags of the function-set command.
    pub function_flags: u8,
    /// Flags of the display-control command.
    pub control_flags: u8,
    /// Flags of the entry-mode command.
    pub mode_flags: u8,
    /// Column that the last cursor command addressed.
    pub cursor_column: u8,
    /// Line that the last cursor command addressed.
    pub cursor_line: u8,
    /// Whether the backlight was switched on at start.
    pub backlight: bool,
    /// The pin level that switches a backlight channel on.
    pub backlight_polarity: bool,
    /// Number of columns.
    pub columns: u8,
    /// Number of lines.
    pub lines: u8,
    /// The expander that the display is wired to.
    pub expander: PortExpanderState,
}

impl LcdControllerState {
    /// The expander has the plate's pins, the geometry can be driven, and
    /// the cursor is on a line of the display.
    pub open spec fn well_formed(self) -> bool {
        &&& self.expander.well_formed()
        &&& self.expander.pin_count >= LCD_PLATE_PINS
        &&& geometry_fits(self.columns, self.lines)
        &&& self.cursor_line < self.lines
    }

    /// The state after the signals of `script`.
    pub open spec fn after_script(self, script: Seq<Signal>) -> LcdControllerState {
        LcdControllerState {
            phase: if script.len() == 0 {
                self.phase
            } else {
                busy(self.phase)
            },
            expander: drive(self.expander, script),
            ..self
        }
    }

    /// The state of a driver that has just started on `expander`.
    pub open spec fn initial(
        columns: u8,
        lines: u8,
        backlight: bool,
        invert_backlight_polarity: bool,
        expander: PortExpanderState,
    ) -> LcdControllerState {
        let light = if backlight {
            color_script(255, 255, 255, !invert_backlight_polarity)
        } else {
            Seq::<Signal>::empty()
        };
        let script = wiring_script() + reset_script(LCD_2LINE, LCD_DISPLAYON, LCD_ENTRYLEFT)
            + light;
        LcdControllerState {
            phase: Phase::Initializing,
            function_flags: LCD_2LINE,
            control_flags: LCD_DISPLAYON,
            mode_flags: LCD_ENTRYLEFT,
            cursor_column: 0,
            cursor_line: 0,
            backlight,
            backlight_polarity: !invert_backlight_polarity,
            columns,
            lines,
            expander: drive(expander, script),
        }
    }

    /// The state after the display was cleared.
    pub open spec fn after_clear(self) -> LcdControllerState {
        LcdControllerState {
            cursor_column: 0,
            cursor_line: 0,
            ..self.after_script(settled_script(LCD_CLEARDISPLAY))
        }
    }

    /// The state after the cursor went home.
    pub open spec fn after_home(self) -> LcdControllerState {
        LcdControllerState {
            cursor_column: 0,
            cursor_line: 0,
            ..self.after_script(settled_script(LCD_RETURNHOME))
        }
    }

    /// The state after the cursor was put at column `col` of `line`, or of
    /// the last line where the display has no line `line`.
    pub open spec fn after_set_cursor(self, col: u8, line: u8) -> LcdControllerState {
        let landed = clamp_line(line, self.lines);
        LcdControllerState {
            cursor_column: col,
            cursor_line: landed,
            ..self.after_script(write8_script(cursor_command(col, landed), false))
        }
    }

    /// The state after autoscroll was switched on or off.
    pub open spec fn after_autoscroll(self, autoscroll: bool) -> LcdControllerState {
        let flags = with_bit(self.mode_flags, 0, autoscroll);
        LcdControllerState {
            mode_flags: flags,
            ..self.after_script(write8_script(LCD_ENTRYMODESET | flags, false))
        }
    }

    /// The state after cursor blinking was switched on or off.
    pub open spec fn after_blink(self, blink: bool) -> LcdControllerState {
        let flags = with_bit(self.control_flags, 0, blink);
        LcdControllerState {
            control_flags: flags,
            ..self.after_script(write8_script(LCD_DISPLAYCONTROL | flags, false))
        }
    }

    /// The state after the glyph `rows` was stored in slot `location & 7`.
    pub open spec fn after_create_char(self, location: u8, rows: Seq<u8>) -> LcdControllerState {
        self.after_script(write8_script(cgram_command(location), false) + pattern_script(rows))
    }

    /// The state after the backlight was set.
    pub open spec fn after_set_color(self, r: u8, g: u8, b: u8) -> LcdControllerState {
        self.after_script(color_script(r, g, b, self.backlight_polarity))
    }

    /// The column where a new line starts: the first when text runs left
    /// to right, the last when it runs right to left.
    pub open spec fn newline_column(self) -> u8 {
        if bit_is_set(self.mode_flags, 1) {
            0
        } else {
            (self.columns - 1) as u8
        }
    }

    /// The state after the character `c` of a message: a line feed puts
    /// the cursor at the start of the next line, or of the last line when
    /// there is no next; any other character is written as a glyph.
    pub open spec fn after_char(self, c: char) -> LcdControllerState {
        if c == '\n' {
            self.after_set_cursor(self.newline_column(), (self.cursor_line + 1) as u8)
        } else {
            self.after_script(write8_script(glyph_code(c), true))
        }
    }

    /// The state after the characters of `text`, first to last.
    pub open spec fn after_message(self, text: Seq<char>) -> LcdControllerState
        decreases text.len(),
    {
        if text.len() == 0 {
            self
        } else {
            self.after_message(text.drop_last()).after_char(text.last())
        }
    }

    /// The state after a read of the buttons was scheduled.
    pub open spec fn after_request(self) -> LcdControllerState {
        LcdControllerState {
            phase: busy(self.phase),
            expander: self.expander.after_request(),
            ..self
        }
    }

    /// The state after the host has taken the whole schedule.
    pub open spec fn after_take(self) -> LcdControllerState {
        LcdControllerState {
            phase: idle(self.phase),
            expander: self.expander.after_take(),
            ..self
        }
    }

    /// The state after the host has performed the front transaction.
    pub open spec fn after_acknowledge(self) -> LcdControllerState {
        if self.expander.pending.len() == 0 {
            self
        } else {
            LcdControllerState {
                phase: if self.expander.pending.len() == 1 {
                    idle(self.phase)
                } else {
                    self.phase
                },
                expander: self.expander.after_acknowledge(),
                ..self
            }
        }
    }

    /// The state after a transaction has failed: the schedule is dropped
    /// and the expander's cache is again what the chip is known to hold.
    /// What the display itself has taken in of the failed operation cannot
    /// be known, so flags and cursor stay and the phase says that the
    /// display has to be started again.
    pub open spec fn after_abort(self) -> LcdControllerState {
        LcdControllerState {
            phase: Phase::Uninitialized,
            expander: self.expander.after_abort(),
            ..self
        }
    }

    /// The state after the level block was read as `port`.
    pub open spec fn after_input(self, port: Seq<u8>) -> LcdControllerState {
        LcdControllerState { expander: self.expander.after_input(port), ..self }
    }
}

/// Running two scripts one after the other is running them on end.
pub proof fn lemma_after_script_concat(
    state: LcdControllerState,
    first: Seq<Signal>,
    second: Seq<Signal>,
)
    ensures
        state.after_script(first).after_script(second) == state.after_script(first + second),
{
    lemma_drive_concat(state.expander, first, second);
    assert((first + second).len() == first.len() + second.len());
}

/// Running no script changes nothing.
pub proof fn lemma_after_no_script(state: LcdControllerState)
    ensures
        state.after_script(Seq::<Signal>::empty()) == state,
{
    lemma_drive_nothing(state.expander);
}

/// Driver for the Adafruit LCD plate: a character display, a three-colour
/// backlight and five buttons behind one MCP23017.
pub struct AdafruitDisplay {
    phase: Phase,
    displaycontrol: u8,
    displayfunction: u8,
    displaymode: u8,
    cursor_column: u8,
    cursor_line: u8,
    backlight: bool,
    blpol: bool,
    gpio: MCP230xx,
    cols: u8,
    lines: u8,
}

impl View for AdafruitDisplay {
    type V = LcdControllerState;

    closed spec fn view(&self) -> LcdControllerState {
        LcdControllerState {
            phase: self.phase,
            function_flags: self.displayfunction,
            control_flags: self.displaycontrol,
            mode_flags: self.displaymode,
            cursor_column: self.cursor_column,
            cursor_line: self.cursor_line,
            backlight: self.backlight,
            backlight_polarity: self.blpol,
            columns: self.cols,
            lines: self.lines,
            expander: self.gpio@,
        }
    }
}

impl AdafruitDisplay {
    /// The phase after something was scheduled.
    fn busy_of(phase: Phase) -> (next: Phase)
        ensures
            next == busy(phase),
    {
        match phase {
            Phase::Ready => Phase::BusyWriting,
            other => other,
        }
    }

    /// The phase after the host has performed everything.
    fn idle_of(phase: Phase) -> (next: Phase)
        ensures
            next == idle(phase),
    {
        match phase {
            Phase::Initializing => Phase::Ready,
            Phase::BusyWriting => Phase::Ready,
            other => other,
        }
    }

    /// Makes `pin` an input or an output.
    fn set_direction(&mut self, pin: u8, mode: Mode) -> (done: Result<(), CommunicationError>)
        requires
            old(self)@.well_formed(),
            pin < LCD_PLATE_PINS,
        ensures
            done == Ok::<(), CommunicationError>(()),
            final(self)@ == old(self)@.after_script(seq![Signal::Direction { pin, mode }]),
            final(self)@.well_formed(),
    {
        proof {
            lemma_drive_single(self@.expander, Signal::Direction { pin, mode });
        }
        self.phase = Self::busy_of(self.phase);
        self.gpio.setup(pin, mode)
    }

    /// Drives the pins of `pins` together.
    fn drive_pins(&mut self, pins: &[(u8, bool)]) -> (done: Result<(), CommunicationError>)
        requires
            old(self)@.well_formed(),
            forall|i: int| 0 <= i < pins@.len() ==> pins@[i].0 < LCD_PLATE_PINS,
        ensures
            done == Ok::<(), CommunicationError>(()),
            final(self)@ == old(self)@.after_script(seq![Signal::Pins { pins: pins@ }]),
            final(self)@.well_formed(),
    {
        proof {
            lemma_drive_single(self@.expander, Signal::Pins { pins: pins@ });
            lemma_first_invalid_pin(pins_of(pins@), self@.expander.pin_count);
        }
        self.phase = Self::busy_of(self.phase);
        self.gpio.output_pins(pins)
    }

    /// Waits for `micros` microseconds.
    pub(crate) fn wait(&mut self, micros: u64)
        requires
            old(self)@.well_formed(),
        ensures
            final(self)@ == old(self)@.after_script(seq![Signal::Wait { micros }]),
            final(self)@.well_formed(),
    {
        proof {
            lemma_drive_single(self@.expander, Signal::Wait { micros });
        }
        self.phase = Self::busy_of(self.phase);
        self.gpio.delay(micros);
    }

    /// Pulses the enable pin low, high, low, to latch what is on the data
    /// pins.
    fn pulse_enable(&mut self) -> (done: Result<(), CommunicationError>)
        requires
            old(self)@.well_formed(),
        ensures
            done == Ok::<(), CommunicationError>(()),
            final(self)@ == old(self)@.after_script(pulse_enable_script()),
            final(self)@.well_formed(),
    {
        let ghost start = self@;
        let low = [(LCD_PLATE_EN, false)];
        let high = [(LCD_PLATE_EN, true)];
        assert(low@ =~= seq![(LCD_PLATE_EN, false)]);
        assert(high@ =~= seq![(LCD_PLATE_EN, true)]);
        let ghost fall = seq![Signal::Pins { pins: seq![(LCD_PLATE_EN, false)] }];
        let ghost rise = seq![Signal::Pins { pins: seq![(LCD_PLATE_EN, true)] }];
        let ghost rest = seq![Signal::Wait { micros: 1 }];
        self.drive_pins(low.as_slice())?;
        let ghost s1 = fall;
        self.wait(1);  // enable pulse must be > 450ns
        let ghost s2 = s1 + rest;
        assert(self@ == start.after_script(s2)) by {
            lemma_after_script_concat(start, s1, rest);
        }
        self.drive_pins(high.as_slice())?;
        let ghost s3 = s2 + rise;
        assert(self@ == start.after_script(s3)) by {
            lemma_after_script_concat(start, s2, rise);
        }
        self.wait(1);  // enable pulse must be > 450ns
        let ghost s4 = s3 + rest;
        assert(self@ == start.after_script(s4)) by {
            lemma_after_script_concat(start, s3, rest);
        }
        self.drive_pins(low.as_slice())?;
        let ghost s5 = s4 + fall;
        assert(self@ == start.after_script(s5)) by {
            lemma_after_script_concat(start, s4, fall);
        }
        self.wait(1);  // commands need > 37us to settle
        let ghost s6 = s5 + rest;
        assert(self@ == start.after_script(s6)) by {
            lemma_after_script_concat(start, s5, rest);
        }
        assert(s6 == pulse_enable_script());
        Ok(())
    }

    /// Sends `value` to the display, as character data if `char_mode` and
    /// as a command if not.
    fn write8(&mut self, value: u8, char_mode: bool) -> (done: Result<(), CommunicationError>)
        requires
            old(self)@.well_formed(),
        ensures
            done == Ok::<(), CommunicationError>(()),
            final(self)@ == old(self)@.after_script(write8_script(value, char_mode)),
            final(self)@.well_formed(),
    {
        let ghost start = self@;
        let ghost pulse = pulse_enable_script();
        // a moment of rest, so as not to write too quickly
        self.wait(1);
        let ghost s1 = seq![Signal::Wait { micros: 1 }];

        // Set character / data bit.
        let select = [(LCD_PLATE_RS, char_mode)];
        assert(select@ =~= seq![(LCD_PLATE_RS, char_mode)]);
        let ghost chosen = seq![Signal::Pins { pins: seq![(LCD_PLATE_RS, char_mode)] }];
        self.drive_pins(select.as_slice())?;
        let ghost s2 = s1 + chosen;
        assert(self@ == start.after_script(s2)) by {
            lemma_after_script_concat(start, s1, chosen);
        }

        // Write upper 4 bits
        let upper = [
            (LCD_PLATE_D7, test_bit(value, 7)),
            (LCD_PLATE_D6, test_bit(value, 6)),
            (LCD_PLATE_D5, test_bit(value, 5)),
            (LCD_PLATE_D4, test_bit(value, 4)),
        ];
        assert(upper@ =~= high_nibble_pins(value));
        let ghost first = seq![Signal::Pins { pins: high_nibble_pins(value) }];
        self.drive_pins(upper.as_slice())?;
        let ghost s3 = s2 + first;
        assert(self@ == start.after_script(s3)) by {
            lemma_after_script_concat(start, s2, first);
        }
        self.pulse_enable()?;
        let ghost s4 = s3 + pulse;
        assert(self@ == start.after_script(s4)) by {
            lemma_after_script_concat(start, s3, pulse);
        }

        // Write lower 4 bits
        let lower = [
            (LCD_PLATE_D7, test_bit(value, 3)),
            (LCD_PLATE_D6, test_bit(value, 2)),
            (LCD_PLATE_D5, test_bit(value, 1)),
            (LCD_PLATE_D4, test_bit(value, 0)),
        ];
        assert(lower@ =~= low_nibble_pins(value));
        let ghost second = seq![Signal::Pins { pins: low_nibble_pins(value) }];
        self.drive_pins(lower.as_slice())?;
        let ghost s5 = s4 + second;
        assert(self@ == start.after_script(s5)) by {
            lemma_after_script_concat(start, s4, second);
        }
        self.pulse_enable()?;
        let ghost s6 = s5 + pulse;
        assert(self@ == start.after_script(s6)) by {
            lemma_after_script_concat(start, s5, pulse);
        }
        assert(s6 == write8_script(value, char_mode));
        Ok(())
    }

    /// Sends the command `command` and waits out the long settle time.
    fn settled(&mut self, command: u8) -> (done: Result<(), CommunicationError>)
        requires
            old(self)@.well_formed(),
        ensures
            done == Ok::<(), CommunicationError>(()),
            final(self)@ == old(self)@.after_script(settled_script(command)),
            final(self)@.well_formed(),
    {
        let ghost start = self@;
        self.write8(command, false)?;
        self.wait(LCD_SETTLE_MICROS);
        proof {
            let sent = write8_script(command, false);
            let rest = seq![Signal::Wait { micros: LCD_SETTLE_MICROS }];
            lemma_after_script_concat(start, sent, rest);
            assert(sent + rest =~= settled_script(command));
        }
        Ok(())
    }

    /// Display RAM address of the first column of `line`.
    fn base_of(line: u8) -> (base: u8)
        ensures
            base == ddram_base(line),
    {
        if line == 0 {
            0x00
        } else if line == 1 {
            0x40
        } else if line == 2 {
            0x14
        } else {
            0x54
        }
    }

    /// Starts the display on `gpio`: claims the pins, brings the chip into
    /// 4-bit mode, sets function, display control and entry mode, clears,
    /// and, if `backlight`, switches the backlight to white.
    ///
    /// A geometry that cannot be driven is refused as an invalid
    /// parameter. An expander without the plate's sixteen pins is refused
    /// with the first pin that the start would miss.
    pub fn new(
        cols: u8,
        lines: u8,
        backlight: bool,
        invert_backlight_polarity: bool,
        gpio: MCP230xx,
    ) -> (made: Result<Self, CommunicationError>)
        requires
            gpio@.well_formed(),
        ensures
            !geometry_fits(cols, lines) ==> made == Err::<Self, CommunicationError>(
                CommunicationError::InvalidParameter,
            ),
            geometry_fits(cols, lines) && gpio@.pin_count <= LCD_PLATE_RW ==> made == Err::<
                Self,
                CommunicationError,
            >(CommunicationError::InvalidPin(LCD_PLATE_RW)),
            geometry_fits(cols, lines) && gpio@.pin_count == LCD_PLATE_RS ==> made == Err::<
                Self,
                CommunicationError,
            >(CommunicationError::InvalidPin(LCD_PLATE_RS)),
            geometry_fits(cols, lines) && gpio@.pin_count >= LCD_PLATE_PINS ==> (made matches Ok(
                display,
            ) && display@ == LcdControllerState::initial(
                cols,
                lines,
                backlight,
                invert_backlight_polarity,
                gpio@,
            ) && display@.well_formed()),
    {
        if lines < 1 || lines > 4 || cols < 1 {
            return Err(CommunicationError::InvalidParameter);
        }
        let reach: u8 = if lines <= 1 {
            0x00
        } else if lines <= 3 {
            0x40
        } else {
            0x54
        };
        if cols - 1 > 0xFF - reach {
            return Err(CommunicationError::InvalidParameter);
        }
        let count = gpio.pin_count();
        if count <= LCD_PLATE_RW {
            return Err(CommunicationError::InvalidPin(LCD_PLATE_RW));
        }
        if count <= LCD_PLATE_RS {
            return Err(CommunicationError::InvalidPin(LCD_PLATE_RS));
        }
        let mut display = AdafruitDisplay {
            phase: Phase::Initializing,
            displaycontrol: LCD_DISPLAYON,
            displayfunction: LCD_2LINE,
            displaymode: LCD_ENTRYLEFT,
            cursor_column: 0,
            cursor_line: 0,
            backlight,
            blpol: !invert_backlight_polarity,
            gpio,
            cols,
            lines,
        };
        let ghost start = display@;
        let ghost wiring = wiring_script();
        let ghost reset = reset_script(LCD_2LINE, LCD_DISPLAYON, LCD_ENTRYLEFT);
        let ghost light = color_script(255, 255, 255, !invert_backlight_polarity);
        display.claim_pins()?;
        display.reset()?;
        assert(display@ == start.after_script(wiring + reset)) by {
            lemma_after_script_concat(start, wiring, reset);
        }
        if display.backlight {
            display.set_color(255, 255, 255)?;
            assert(display@ == start.after_script(wiring + reset + light)) by {
                lemma_after_script_concat(start, wiring + reset, light);
            }
        } else {
            assert(wiring + reset + Seq::<Signal>::empty() =~= wiring + reset);
        }
        assert(wiring.len() > 0);
        Ok(display)
    }

    /// Brings the chip into 4-bit mode, sets function, display control and
    /// entry mode from the driver's flags, and clears the display.
    fn reset(&mut self) -> (done: Result<(), CommunicationError>)
        requires
            old(self)@.well_formed(),
        ensures
            done == Ok::<(), CommunicationError>(()),
            final(self)@ == old(self)@.after_script(
                reset_script(
                    old(self)@.function_flags,
                    old(self)@.control_flags,
                    old(self)@.mode_flags,
                ),
            ),
            final(self)@.well_formed(),
    {
        let ghost start = self@;
        let ghost wake = write8_script(0x33, false);
        let ghost narrow = write8_script(0x32, false);
        let ghost function = write8_script(LCD_FUNCTIONSET | start.function_flags, false);
        let ghost control = write8_script(LCD_DISPLAYCONTROL | start.control_flags, false);
        let ghost mode = write8_script(LCD_ENTRYMODESET | start.mode_flags, false);
        let ghost clear = settled_script(LCD_CLEARDISPLAY);
        self.write8(0x33, false)?;
        self.write8(0x32, false)?;
        assert(self@ == start.after_script(wake + narrow)) by {
            lemma_after_script_concat(start, wake, narrow);
        }
        self.write8(LCD_FUNCTIONSET | self.displayfunction, false)?;
        assert(self@ == start.after_script(wake + narrow + function)) by {
            lemma_after_script_concat(start, wake + narrow, function);
        }
        self.write8(LCD_DISPLAYCONTROL | self.displaycontrol, false)?;
        assert(self@ == start.after_script(wake + narrow + function + control)) by {
            lemma_after_script_concat(start, wake + narrow + function, control);
        }
        self.write8(LCD_ENTRYMODESET | self.displaymode, false)?;
        assert(self@ == start.after_script(wake + narrow + function + control + mode)) by {
            lemma_after_script_concat(start, wake + narrow + function + control, mode);
        }
        self.settled(LCD_CLEARDISPLAY)?;
        assert(self@ == start.after_script(wake + narrow + function + control + mode + clear))
            by {
            lemma_after_script_concat(start, wake + narrow + function + control + mode, clear);
        }
        Ok(())
    }

    /// Gives every pin of `pins` the direction `mode`.
    fn claim(&mut self, pins: &[u8], mode: Mode) -> (done: Result<(), CommunicationError>)
        requires
            old(self)@.well_formed(),
            forall|i: int| 0 <= i < pins@.len() ==> pins@[i] < LCD_PLATE_PINS,
        ensures
            done == Ok::<(), CommunicationError>(()),
            final(self)@ == old(self)@.after_script(claim_script(pins@, mode)),
            final(self)@.well_formed(),
    {
        let ghost start = self@;
        let mut i: usize = 0;
        proof {
            lemma_after_no_script(start);
            assert(claim_script(pins@.take(0), mode) =~= Seq::<Signal>::empty());
        }
        while i < pins.len()
            invariant
                i <= pins.len(),
                forall|i: int| 0 <= i < pins@.len() ==> pins@[i] < LCD_PLATE_PINS,
                self@.well_formed(),
                self@ == start.after_script(claim_script(pins@.take(i as int), mode)),
            decreases pins.len() - i,
        {
            let ghost before = claim_script(pins@.take(i as int), mode);
            let ghost next = seq![Signal::Direction { pin: pins@[i as int], mode }];
            self.set_direction(pins[i], mode)?;
            proof {
                lemma_after_script_concat(start, before, next);
                assert(before + next =~= claim_script(pins@.take(i + 1), mode));
            }
            i += 1;
        }
        assert(pins@.take(pins.len() as int) =~= pins@);
        Ok(())
    }

    /// Claims the plate's pins: read/write low, buttons in, display pins
    /// out.
    fn claim_pins(&mut self) -> (done: Result<(), CommunicationError>)
        requires
            old(self)@.well_formed(),
        ensures
            done == Ok::<(), CommunicationError>(()),
            final(self)@ == old(self)@.after_script(wiring_script()),
            final(self)@.well_formed(),
    {
        let ghost start = self@;
        let ground = [(LCD_PLATE_RW, false)];
        self.set_direction(LCD_PLATE_RW, Mode::Output)?;
        let ghost s1 = seq![Signal::Direction { pin: LCD_PLATE_RW, mode: Mode::Output }];
        self.drive_pins(ground.as_slice())?;
        let ghost s2 = s1 + seq![Signal::Pins { pins: ground@ }];
        let buttons = [SELECT, RIGHT, DOWN, UP, LEFT];
        assert(buttons@ =~= button_pins());
        self.claim(buttons.as_slice(), Mode::Input)?;
        let ghost s3 = s2 + claim_script(button_pins(), Mode::Input);
        // Setup all pins as OUTPUT
        let wires = [
            LCD_PLATE_RS,
            LCD_PLATE_EN,
            LCD_PLATE_D4,
            LCD_PLATE_D5,
            LCD_PLATE_D6,
            LCD_PLATE_D7,
        ];
        assert(wires@ =~= display_pins());
        self.claim(wires.as_slice(), Mode::Output)?;
        proof {
            lemma_after_script_concat(start, s1, seq![Signal::Pins { pins: ground@ }]);
            lemma_after_script_concat(start, s2, claim_script(button_pins(), Mode::Input));
            lemma_after_script_concat(start, s3, claim_script(display_pins(), Mode::Output));
            assert(ground@ =~= seq![(LCD_PLATE_RW, false)]);
            assert(s2 =~= seq![
                Signal::Direction { pin: LCD_PLATE_RW, mode: Mode::Output },
                Signal::Pins { pins: seq![(LCD_PLATE_RW, false)] },
            ]);
        }
        Ok(())
    }

    /// Starts the display again from scratch, on the same expander and with
    /// the same geometry and backlight wiring: the way back from a failed
    /// transaction.
    pub fn restart(self) -> (made: Result<Self, CommunicationError>)
        requires
            self@.well_formed(),
        ensures
            made matches Ok(display) && display@ == LcdControllerState::initial(
                self@.columns,
                self@.lines,
                self@.backlight,
                !self@.backlight_polarity,
                self@.expander,
            ) && display@.well_formed(),
    {
        AdafruitDisplay::new(self.cols, self.lines, self.backlight, !self.blpol, self.gpio)
    }

    /// Initializes the driver for the "Adafruit i2c 16x2 RGB LCD Pi Plate".
    pub fn for_backplate() -> (made: Result<Self, CommunicationError>)
        ensures
            made matches Ok(display) && display@ == LcdControllerState::initial(
                16,
                2,
                true,
                true,
                PortExpanderState::initial(
                    crate::i2c::io::MCP23017_ADDRESS,
                    crate::i2c::io::MCP23017_PINS,
                ),
            ) && display@.well_formed(),
    {
        AdafruitDisplay::new(16, 2, true, true, MCP230xx::for_mcp23017()?)
    }

    /// Sets the backlight. A channel is on when its intensity is 255 and
    /// off otherwise; there is nothing in between.
    pub fn set_color(&mut self, r: u8, g: u8, b: u8) -> (done: Result<(), CommunicationError>)
        requires
            old(self)@.well_formed(),
        ensures
            done == Ok::<(), CommunicationError>(()),
            final(self)@ == old(self)@.after_set_color(r, g, b),
            final(self)@.well_formed(),
    {
        let ghost start = self@;
        self.set_direction(LCD_PLATE_RED, Mode::Output)?;
        let ghost s1 = seq![Signal::Direction { pin: LCD_PLATE_RED, mode: Mode::Output }];
        self.set_direction(LCD_PLATE_GREEN, Mode::Output)?;
        let ghost s2 = s1 + seq![Signal::Direction { pin: LCD_PLATE_GREEN, mode: Mode::Output }];
        self.set_direction(LCD_PLATE_BLUE, Mode::Output)?;
        let ghost s3 = s2 + seq![Signal::Direction { pin: LCD_PLATE_BLUE, mode: Mode::Output }];
        let levels = [
            (LCD_PLATE_RED, if r == 255 { self.blpol } else { !self.blpol }),
            (LCD_PLATE_GREEN, if g == 255 { self.blpol } else { !self.blpol }),
            (LCD_PLATE_BLUE, if b == 255 { self.blpol } else { !self.blpol }),
        ];
        self.drive_pins(levels.as_slice())?;
        let ghost s4 = s3 + seq![Signal::Pins { pins: levels@ }];
        proof {
            lemma_after_script_concat(
                start,
                s1,
                seq![Signal::Direction { pin: LCD_PLATE_GREEN, mode: Mode::Output }],
            );
            lemma_after_script_concat(
                start,
                s2,
                seq![Signal::Direction { pin: LCD_PLATE_BLUE, mode: Mode::Output }],
            );
            lemma_after_script_concat(start, s3, seq![Signal::Pins { pins: levels@ }]);
            assert(levels@ =~= seq![
                (LCD_PLATE_RED, backlight_level(r, start.backlight_polarity)),
                (LCD_PLATE_GREEN, backlight_level(g, start.backlight_polarity)),
                (LCD_PLATE_BLUE, backlight_level(b, start.backlight_polarity)),
            ]);
            assert(s4 =~= color_script(r, g, b, start.backlight_polarity));
        }
        Ok(())
    }

    /// Move the cursor back to its start point (upper-left corner).
    pub fn home(&mut self) -> (done: Result<(), CommunicationError>)
        requires
            old(self)@.well_formed(),
        ensures
            done == Ok::<(), CommunicationError>(()),
            final(self)@ == old(self)@.after_home(),
            final(self)@.well_formed(),
    {
        self.settled(LCD_RETURNHOME)?;
        self.cursor_column = 0;
        self.cursor_line = 0;
        Ok(())
    }

    /// Clear the LCD.
    pub fn clear(&mut self) -> (done: Result<(), CommunicationError>)
        requires
            old(self)@.well_formed(),
        ensures
            done == Ok::<(), CommunicationError>(()),
            final(self)@ == old(self)@.after_clear(),
            final(self)@.well_formed(),
    {
        self.settled(LCD_CLEARDISPLAY)?;
        self.cursor_column = 0;
        self.cursor_line = 0;
        Ok(())
    }

    /// Enables auto-scroll when lines are too long.
    pub fn autoscroll(&mut self, autoscroll: bool) -> (done: Result<(), CommunicationError>)
        requires
            old(self)@.well_formed(),
        ensures
            done == Ok::<(), CommunicationError>(()),
            final(self)@ == old(self)@.after_autoscroll(autoscroll),
            final(self)@.well_formed(),
    {
        self.displaymode = set_bit(self.displaymode, 0, autoscroll);
        let displaymode = LCD_ENTRYMODESET | self.displaymode;
        self.write8(displaymode, false)
    }

    /// Enables cursor blinking.
    pub fn blink(&mut self, blink: bool) -> (done: Result<(), CommunicationError>)
        requires
            old(self)@.well_formed(),
        ensures
            done == Ok::<(), CommunicationError>(()),
            final(self)@ == old(self)@.after_blink(blink),
            final(self)@.well_formed(),
    {
        self.displaycontrol = set_bit(self.displaycontrol, 0, blink);
        let displaycontrol = LCD_DISPLAYCONTROL | self.displaycontrol;
        self.write8(displaycontrol, false)
    }

    /// Fills one of the eight glyph slots with `pattern`, one byte per row,
    /// and returns the character that shows the glyph when it is part of a
    /// message. Only the low three bits of `location` count, so slot 8 is
    /// slot 0 again.
    pub fn create_char(&mut self, location: u8, pattern: [u8; 8]) -> (done: Result<
        char,
        CommunicationError,
    >)
        requires
            old(self)@.well_formed(),
        ensures
            done == Ok::<char, CommunicationError>((location & 0x7) as char),
            final(self)@ == old(self)@.after_create_char(location, pattern@),
            final(self)@.well_formed(),
    {
        let ghost start = self@;
        let slot = location & 0x7;
        assert(slot < 8) by (bit_vector)
            requires
                slot == location & 0x7,
        ;
        self.write8(LCD_SETCGRAMADDR | (slot << 3), false)?;
        let ghost select = write8_script(cgram_command(location), false);
        let mut i: usize = 0;
        while i < 8
            invariant
                i <= 8,
                pattern@.len() == 8,
                self@.well_formed(),
                self@ == start.after_script(select + pattern_script(pattern@.take(i as int))),
            decreases 8 - i,
        {
            let ghost before = select + pattern_script(pattern@.take(i as int));
            self.write8(pattern[i], true)?;
            proof {
                lemma_after_script_concat(start, before, write8_script(pattern@[i as int], true));
                assert(pattern@.take(i + 1).drop_last() =~= pattern@.take(i as int));
                assert(before + write8_script(pattern@[i as int], true) =~= select
                    + pattern_script(pattern@.take(i + 1)));
            }
            i += 1;
        }
        assert(pattern@.take(8) =~= pattern@);
        Ok(slot as char)
    }

    /// Move the cursor to an explicit column and row position. A line that
    /// the display does not have lands on the last line. A column whose
    /// address does not fit the command byte is refused and changes
    /// nothing.
    pub fn set_cursor(&mut self, col: u8, line: u8) -> (done: Result<(), CommunicationError>)
        requires
            old(self)@.well_formed(),
        ensures
            cursor_fits(col, clamp_line(line, old(self)@.lines)) ==> done == Ok::<
                (),
                CommunicationError,
            >(()) && final(self)@ == old(self)@.after_set_cursor(col, line),
            !cursor_fits(col, clamp_line(line, old(self)@.lines)) ==> done == Err::<
                (),
                CommunicationError,
            >(CommunicationError::InvalidParameter) && final(self)@ == old(self)@,
            final(self)@.well_formed(),
    {
        let landed = if line >= self.lines {
            self.lines - 1
        } else {
            line
        };
        let row = Self::base_of(landed);
        if col > 0xFF - row {
            return Err(CommunicationError::InvalidParameter);
        }
        self.write8(LCD_SETDDRAMADDR | (col + row), false)?;
        self.cursor_column = col;
        self.cursor_line = landed;
        Ok(())
    }

    /// Write text to display. A line feed is not written: it puts the
    /// cursor at the start of the next line.
    pub fn message(&mut self, text: &str) -> (done: Result<(), CommunicationError>)
        requires
            old(self)@.well_formed(),
        ensures
            done == Ok::<(), CommunicationError>(()),
            final(self)@ == old(self)@.after_message(text@),
            final(self)@.well_formed(),
    {
        let ghost start = self@;
        let length = text.unicode_len();
        let mut i: usize = 0;
        while i < length
            invariant
                i <= length,
                length == text@.len(),
                self@.well_formed(),
                self@ == start.after_message(text@.take(i as int)),
            decreases length - i,
        {
            let c = text.get_char(i);
            proof {
                assert(text@.take(i + 1).drop_last() =~= text@.take(i as int));
            }
            if c == '\n' {
                let col = if test_bit(self.displaymode, 1) {
                    0
                } else {
                    self.cols - 1
                };
                let line = self.cursor_line + 1;
                self.set_cursor(col, line)?;
            } else {
                self.write8((c as u32 & 0xFF) as u8, true)?;
            }
            i += 1;
        }
        assert(text@.take(length as int) =~= text@);
        Ok(())
    }

    /// The expander pin that `button` is wired to.
    fn pin_of(button: Button) -> (pin: u8)
        ensures
            pin == button_pin(button),
            pin < LCD_PLATE_PINS,
    {
        match button {
            Button::Select => SELECT,
            Button::Right => RIGHT,
            Button::Down => DOWN,
            Button::Up => UP,
            Button::Left => LEFT,
        }
    }

    /// Schedules the block read that [`Self::is_pressed`] needs.
    pub fn request_buttons(&mut self) -> (done: Result<(), CommunicationError>)
        requires
            old(self)@.well_formed(),
        ensures
            done == Ok::<(), CommunicationError>(()),
            final(self)@ == old(self)@.after_request(),
            final(self)@.well_formed(),
    {
        let none: [u8; 0] = [];
        self.phase = Self::busy_of(self.phase);
        assert(first_invalid_pin(none@, self@.expander.pin_count) is None);
        self.gpio.request_input(none.as_slice())
    }

    /// Where the display stands between the driver and the host.
    pub fn phase(&self) -> (phase: Phase)
        ensures
            phase == self@.phase,
    {
        self.phase
    }

    /// Whether `button` is held down, going by `port`, the level block as
    /// the host has just read it. The buttons pull their pin low. A block
    /// of the wrong length is refused as a failed read and changes
    /// nothing.
    pub fn is_pressed(&mut self, button: Button, port: &[u8]) -> (pressed: Result<
        bool,
        CommunicationError,
    >)
        requires
            old(self)@.well_formed(),
        ensures
            port@.len() == register_len(old(self)@.expander.pin_count) ==> pressed == Ok::<
                bool,
                CommunicationError,
            >(!read_pin(port@, button_pin(button))) && final(self)@ == old(self)@.after_input(
                port@,
            ),
            port@.len() != register_len(old(self)@.expander.pin_count) ==> pressed == Err::<
                bool,
                CommunicationError,
            >(CommunicationError::ReadError) && final(self)@ == old(self)@,
            final(self)@.well_formed(),
    {
        let pin = Self::pin_of(button);
        match self.gpio.input(pin, port) {
            Ok(Level::Low) => Ok(true),
            Ok(Level::High) => Ok(false),
            Err(e) => Err(e),
        }
    }

    /// Number of columns.
    pub fn columns(&self) -> (columns: u8)
        ensures
            columns == self@.columns,
    {
        self.cols
    }

    /// Number of lines.
    pub fn lines(&self) -> (lines: u8)
        ensures
            lines == self@.lines,
    {
        self.lines
    }

    /// Column and line that the last cursor command addressed.
    pub fn cursor(&self) -> (cursor: (u8, u8))
        ensures
            cursor == (self@.cursor_column, self@.cursor_line),
    {
        (self.cursor_column, self.cursor_line)
    }

    /// The expander that the display is wired to.
    pub fn expander(&self) -> (expander: &MCP230xx)
        ensures
            expander@ == self@.expander,
    {
        &self.gpio
    }

    /// Hands the whole schedule to the host and leaves nothing pending.
    /// The host is taken to perform it with success: a display that was
    /// starting or busy is ready.
    pub fn take_pending(&mut self) -> (taken: Vec<Transaction>)
        requires
            old(self)@.well_formed(),
        ensures
            taken.deep_view() == old(self)@.expander.pending,
            final(self)@ == old(self)@.after_take(),
            final(self)@.well_formed(),
    {
        proof {
            lemma_confirming_all(self@.expander, self@.expander.pending);
        }
        self.phase = Self::idle_of(self.phase);
        self.gpio.take_pending()
    }

    /// Records that the front transaction was performed with success.
    /// With the last one, a display that was starting or busy is ready.
    pub fn acknowledge(&mut self)
        requires
            old(self)@.well_formed(),
        ensures
            final(self)@ == old(self)@.after_acknowledge(),
            final(self)@.well_formed(),
    {
        if self.gpio.bus().pending().len() == 1 {
            self.phase = Self::idle_of(self.phase);
        }
        self.gpio.acknowledge()
    }

    /// Records that the front transaction failed with `cause`: drops the
    /// rest of the schedule, sets the expander's cache back to what the
    /// chip is known to hold, and returns the error to surface. The
    /// display is then in no known state and has to be started again.
    pub fn abort(&mut self, cause: Fault) -> (error: CommunicationError)
        requires
            old(self)@.well_formed(),
        ensures
            error == failure_of(old(self)@.expander.pending, cause),
            final(self)@ == old(self)@.after_abort(),
            final(self)@.well_formed(),
    {
        self.phase = Phase::Uninitialized;
        self.gpio.abort(cause)
    }
}

/// The four line addresses, as a table.
pub open spec fn ddram_table() -> Seq<u8> {
    seq![0x00u8, 0x40u8, 0x14u8, 0x54u8]
}

/// For each of the lines 0 to 3 that the display has, the cursor command
/// is the set-address command with the column added to the line's entry
/// of the address table.
pub proof fn lemma_cursor_command_table(state: LcdControllerState, col: u8, line: u8)
    requires
        line < state.lines,
        line <= 3,
    ensures
        ddram_base(line) == ddram_table()[line as int],
        state.after_set_cursor(col, line).expander == drive(
            state.expander,
            write8_script(0x80u8 | ((col + ddram_table()[line as int]) as u8), false),
        ),
        state.after_set_cursor(col, line).cursor_line == line,
        state.after_set_cursor(col, line).cursor_column == col,
{
}

/// A line that the display does not have lands on the last line: the
/// outcome is that of asking for the last line.
pub proof fn lemma_cursor_clamps(state: LcdControllerState, col: u8, line: u8)
    requires
        state.lines >= 1,
        line >= state.lines,
    ensures
        clamp_line(line, state.lines) == state.lines - 1,
        cursor_fits(col, clamp_line(line, state.lines)) == cursor_fits(
            col,
            clamp_line((state.lines - 1) as u8, state.lines),
        ),
        state.after_set_cursor(col, line) == state.after_set_cursor(
            col,
            (state.lines - 1) as u8,
        ),
{
}

/// Only the low three bits of a glyph slot count: every slot behaves as
/// the slot among 0 to 7 that it shares them with, slot 8 as slot 0.
pub proof fn lemma_glyph_slot_aliases(state: LcdControllerState, location: u8, rows: Seq<u8>)
    ensures
        cgram_command(location) == cgram_command(location & 0x7),
        state.after_create_char(location, rows) == state.after_create_char(location & 0x7, rows),
        ((location & 0x7) as char) == (((location & 0x7) & 0x7) as char),
        8u8 & 0x7 == 0,
{
    assert((location & 0x7) & 0x7 == location & 0x7 && 8u8 & 0x7 == 0) by (bit_vector);
}

} // verus!
