//! A bicolor 8x8 LED matrix behind an HT16K33 LED driver chip.
//!
//! The chip's display memory has 128 LEDs in 16 bytes, LED `n` at bit
//! `n % 8` of byte `n / 8`. Line `y` of the matrix takes bytes `2 * y` and
//! `2 * y + 1`: the first is the line's green plane, the second its red
//! plane, and column `x` is bit `x` of both. A pixel with both planes lit
//! shows yellow.

pub mod digits;

use vstd::prelude::*;
use crate::bitmap::{image_pixels, image_size, pixel_at};
use crate::bits::{
    bit_is_set, lemma_bit_keeps_others, lemma_bit_reads_back, set_bit, with_bit,
};
use crate::bus::{
    failure_of, lemma_perform_push, perform_all, Bus, Fault, Transaction, TransactionView,
};
use crate::errors::CommunicationError;

verus! {

/// Command that sets display on/off and blinking; the flags go in the low
/// bits.
pub const HT16K33_BLINK_CMD: u8 = 0x80;

/// Command that sets the oscillator; the flag goes in the lowest bit.
pub const HT16K33_SYSTEM_SETUP: u8 = 0x20;

/// Command that sets the brightness; the level goes in the low four bits.
pub const HT16K33_CMD_BRIGHTNESS: u8 = 0xE0;

/// Slave address of the matrix.
pub const HT16K33_ADDRESS: u8 = 0x70;

/// The brightest level.
pub const MAX_BRIGHTNESS: u8 = 15;

/// Number of bytes of display memory.
pub const FRAMEBUFFER_LEN: usize = 16;

/// Width and height of the matrix.
pub const MATRIX_SIZE: u8 = 8;

/// Blinking of the whole display.
#[derive(Debug, Clone, Copy, PartialEq, Eq, Structural)]
pub enum Blink {
    Off,
    HalfHz,
    TwoHz,
    OneHz,
}

/// Colour of a pixel.
#[derive(Debug, Clone, Copy, PartialEq, Eq, Structural)]
pub enum Color {
    Off,
    Green,
    Red,
    Yellow,
}

/// A one-bit setting of the chip.
#[derive(Debug, Clone, Copy, PartialEq, Eq, Structural)]
pub enum Bit {
    On,
    Off,
}

impl Blink {
    /// The flags that select this blinking in the display setup command.
    pub open spec fn flags(self) -> u8 {
        match self {
            Blink::Off => 0x00,
            Blink::HalfHz => 0x06,
            Blink::TwoHz => 0x04,
            Blink::OneHz => 0x02,
        }
    }

    /// The flags that select this blinking in the display setup command.
    pub fn code(self) -> (code: u8)
        ensures
            code == self.flags(),
    {
        match self {
            Blink::Off => 0x00,
            Blink::HalfHz => 0x06,
            Blink::TwoHz => 0x04,
            Blink::OneHz => 0x02,
        }
    }
}

impl Bit {
    /// The flag for this setting.
    pub open spec fn flag(self) -> u8 {
        match self {
            Bit::On => 0x01,
            Bit::Off => 0x00,
        }
    }

    /// The flag for this setting.
    pub fn code(self) -> (code: u8)
        ensures
            code == self.flag(),
    {
        match self {
            Bit::On => 0x01,
            Bit::Off => 0x00,
        }
    }
}

impl Color {
    /// Whether the colour lights the green plane.
    pub open spec fn green(self) -> bool {
        self == Color::Green || self == Color::Yellow
    }

    /// Whether the colour lights the red plane.
    pub open spec fn red(self) -> bool {
        self == Color::Red || self == Color::Yellow
    }

    /// The colour's number: bit 0 is the green plane, bit 1 the red.
    pub open spec fn number(self) -> u8 {
        match self {
            Color::Off => 0x00,
            Color::Green => 0x01,
            Color::Red => 0x02,
            Color::Yellow => 0x03,
        }
    }

    /// The colour's number: bit 0 is the green plane, bit 1 the red.
    pub fn code(self) -> (code: u8)
        ensures
            code == self.number(),
    {
        match self {
            Color::Off => 0x00,
            Color::Green => 0x01,
            Color::Red => 0x02,
            Color::Yellow => 0x03,
        }
    }
}

/// The colour that the matrix shows for a pixel of a bitmap: pure red,
/// yellow and green as themselves, and everything else dark.
pub open spec fn color_of(pixel: (u8, u8, u8)) -> Color {
    if pixel == (255u8, 0u8, 0u8) {
        Color::Red
    } else if pixel == (255u8, 255u8, 0u8) {
        Color::Yellow
    } else if pixel == (0u8, 255u8, 0u8) {
        Color::Green
    } else {
        Color::Off
    }
}

impl From<(u8, u8, u8)> for Color {
    fn from(pixel: (u8, u8, u8)) -> (color: Color) {
        let (r, g, b) = pixel;
        if r == 255 && g == 0 && b == 0 {
            Color::Red
        } else if r == 255 && g == 255 && b == 0 {
            Color::Yellow
        } else if r == 0 && g == 255 && b == 0 {
            Color::Green
        } else {
            Color::Off
        }
    }
}

impl vstd::std_specs::convert::FromSpecImpl<(u8, u8, u8)> for Color {
    open spec fn obeys_from_spec() -> bool {
        true
    }

    open spec fn from_spec(pixel: (u8, u8, u8)) -> Color {
        color_of(pixel)
    }
}

/// The command that sets the brightness to `level`.
pub open spec fn brightness_command(level: u8) -> u8 {
    HT16K33_CMD_BRIGHTNESS | level
}

/// The command that switches the oscillator.
pub open spec fn system_command(operation: Bit) -> u8 {
    HT16K33_SYSTEM_SETUP | operation.flag()
}

/// The command that switches the display and sets its blinking.
pub open spec fn display_command(display: Bit, frequency: Blink) -> u8 {
    HT16K33_BLINK_CMD | display.flag() | frequency.flags()
}

/// Whether LED `led` is lit in `framebuffer`.
pub open spec fn led_is_on(framebuffer: Seq<u8>, led: int) -> bool {
    bit_is_set(framebuffer[led / 8], (led % 8) as u8)
}

/// `framebuffer` with LED `led` lit or dark.
pub open spec fn write_led(framebuffer: Seq<u8>, led: int, on: bool) -> Seq<u8> {
    framebuffer.update(led / 8, with_bit(framebuffer[led / 8], (led % 8) as u8, on))
}

/// The write that sends byte `index` of `framebuffer` to the chip.
pub open spec fn byte_write(framebuffer: Seq<u8>, index: int) -> TransactionView {
    TransactionView::BlockWrite { register: index as u8, data: seq![framebuffer[index]] }
}

/// Brightness and blinking after the chip has taken `transaction`, where
/// they were `settings` before: a brightness command sets the level from
/// its low four bits, a display setup command the blinking from its flags,
/// and nothing else changes either. Both commands are block writes without
/// data, told apart by the upper four bits of the command.
pub open spec fn settings_after(settings: (u8, Blink), transaction: TransactionView) -> (
    u8,
    Blink,
) {
    match transaction {
        TransactionView::BlockWrite { register, data } => if data.len() == 0 && register & 0xF0
            == HT16K33_CMD_BRIGHTNESS {
            (register & 0x0F, settings.1)
        } else if data.len() == 0 && register & 0xF0 == HT16K33_BLINK_CMD {
            (settings.0, blink_of(register & 0x06))
        } else {
            settings
        },
        _ => settings,
    }
}

/// Brightness and blinking after the chip has taken `schedule`, front
/// first.
pub open spec fn settings_after_all(settings: (u8, Blink), schedule: Seq<TransactionView>) -> (
    u8,
    Blink,
)
    decreases schedule.len(),
{
    if schedule.len() == 0 {
        settings
    } else {
        settings_after(settings_after_all(settings, schedule.drop_last()), schedule.last())
    }
}

/// The state of a matrix driver.
pub struct LedMatrixState {
    /// Slave address of the chip.
    pub address: u8,
    /// The display memory as the driver has it.
    pub framebuffer: Seq<u8>,
    /// The brightness last set.
    pub brightness: u8,
    /// The blinking last set.
    pub blink_frequency: Blink,
    /// The brightness that the chip is known to have: the last one set
    /// with success, and before any the chip's power-on value.
    pub confirmed_brightness: u8,
    /// The blinking that the chip is known to have.
    pub confirmed_blink: Blink,
    /// Transactions scheduled and not yet taken by the host.
    pub pending: Seq<TransactionView>,
}

/// The blinking that the flags `flags` of a display setup command select.
pub open spec fn blink_of(flags: u8) -> Blink {
    if flags == 0x06 {
        Blink::HalfHz
    } else if flags == 0x04 {
        Blink::TwoHz
    } else if flags == 0x02 {
        Blink::OneHz
    } else {
        Blink::Off
    }
}

impl LedMatrixState {
    /// The framebuffer has its sixteen bytes and the brightness is a
    /// level.
    pub open spec fn well_formed(self) -> bool {
        &&& self.framebuffer.len() == FRAMEBUFFER_LEN
        &&& self.brightness <= MAX_BRIGHTNESS
        &&& self.confirmed_brightness <= MAX_BRIGHTNESS
        &&& self.settings_are_last_sent()
    }

    /// Brightness and blinking are the last ones sent with success,
    /// changed by nothing but the commands still pending: they are what
    /// the chip will have once the host has performed the schedule.
    pub open spec fn settings_are_last_sent(self) -> bool {
        (self.brightness, self.blink_frequency) == settings_after_all(
            (self.confirmed_brightness, self.confirmed_blink),
            self.pending,
        )
    }

    /// The state of a driver that has just started: all LEDs dark, and
    /// scheduled the oscillator on, then the blinking, then the
    /// brightness.
    pub open spec fn initial(brightness: u8, blink: Blink) -> LedMatrixState {
        LedMatrixState {
            address: HT16K33_ADDRESS,
            framebuffer: Seq::new(FRAMEBUFFER_LEN as nat, |i: int| 0u8),
            brightness: MAX_BRIGHTNESS,
            blink_frequency: Blink::Off,
            confirmed_brightness: MAX_BRIGHTNESS,
            confirmed_blink: Blink::Off,
            pending: Seq::empty(),
        }.after_system_setup(Bit::On).after_display_setup(Bit::On, blink).after_brightness(
            brightness,
        )
    }

    /// The state after the oscillator was switched.
    pub open spec fn after_system_setup(self, operation: Bit) -> LedMatrixState {
        LedMatrixState {
            pending: self.pending.push(
                TransactionView::SendByte { command: system_command(operation) },
            ),
            ..self
        }
    }

    /// The state after the display was switched and its blinking set.
    pub open spec fn after_display_setup(self, display: Bit, frequency: Blink) -> LedMatrixState {
        LedMatrixState {
            blink_frequency: frequency,
            pending: self.pending.push(
                TransactionView::BlockWrite {
                    register: display_command(display, frequency),
                    data: Seq::empty(),
                },
            ),
            ..self
        }
    }

    /// The state after the brightness was set to `level`.
    pub open spec fn after_brightness(self, level: u8) -> LedMatrixState {
        LedMatrixState {
            brightness: level,
            pending: self.pending.push(
                TransactionView::BlockWrite {
                    register: brightness_command(level),
                    data: Seq::empty(),
                },
            ),
            ..self
        }
    }

    /// The state after LED `led` was lit or darkened and, if `update`, its
    /// byte sent to the chip.
    pub open spec fn after_led(self, led: int, on: bool, update: bool) -> LedMatrixState {
        let framebuffer = write_led(self.framebuffer, led, on);
        LedMatrixState {
            framebuffer,
            pending: if update {
                self.pending.push(byte_write(framebuffer, led / 8))
            } else {
                self.pending
            },
            ..self
        }
    }

    /// The state after the pixel at column `x` of line `y` got `color`:
    /// first its green LED is written, then its red LED.
    pub open spec fn after_pixel(self, x: u8, y: u8, color: Color, update: bool) -> LedMatrixState {
        self.after_led(y * 16 + x, color.green(), update).after_led(
            y * 16 + x + 8,
            color.red(),
            update,
        )
    }

    /// The state after the first `count` bytes of the framebuffer were
    /// sent to the chip, byte by byte.
    pub open spec fn after_writes(self, count: int) -> LedMatrixState {
        LedMatrixState {
            pending: self.pending + Seq::new(
                count as nat,
                |i: int| byte_write(self.framebuffer, i),
            ),
            ..self
        }
    }

    /// The state after the whole framebuffer was sent to the chip.
    pub open spec fn after_write_display(self) -> LedMatrixState {
        self.after_writes(FRAMEBUFFER_LEN as int)
    }

    /// The state after every LED was darkened and the framebuffer sent.
    pub open spec fn after_clear(self) -> LedMatrixState {
        LedMatrixState {
            framebuffer: Seq::new(FRAMEBUFFER_LEN as nat, |i: int| 0u8),
            ..self
        }.after_write_display()
    }

    /// The state after the first `count` pixels of the bitmap `pixels`,
    /// line by line from the upper left, were taken into the framebuffer.
    pub open spec fn after_pixels(
        self,
        pixels: Map<(int, int), (u8, u8, u8)>,
        count: nat,
    ) -> LedMatrixState
        decreases count,
    {
        if count == 0 {
            self
        } else {
            let k = count - 1;
            self.after_pixels(pixels, k as nat).after_pixel(
                (k % 8) as u8,
                (k / 8) as u8,
                color_of(pixels[(k % 8, k / 8)]),
                false,
            )
        }
    }

    /// The state after the bitmap `pixels` was taken into the framebuffer
    /// and the framebuffer sent.
    pub open spec fn after_image(self, pixels: Map<(int, int), (u8, u8, u8)>) -> LedMatrixState {
        self.after_pixels(pixels, 64).after_write_display()
    }

    /// The state after the host has performed `transaction` with success:
    /// a brightness or display setup command is now what the chip is known
    /// to have.
    pub open spec fn confirming(self, transaction: TransactionView) -> LedMatrixState {
        let settings = settings_after(
            (self.confirmed_brightness, self.confirmed_blink),
            transaction,
        );
        LedMatrixState { confirmed_brightness: settings.0, confirmed_blink: settings.1, ..self }
    }

    /// The state after the host has performed `schedule` with success,
    /// front first.
    pub open spec fn confirming_all(self, schedule: Seq<TransactionView>) -> LedMatrixState {
        let settings = settings_after_all(
            (self.confirmed_brightness, self.confirmed_blink),
            schedule,
        );
        LedMatrixState { confirmed_brightness: settings.0, confirmed_blink: settings.1, ..self }
    }

    /// The state after the host has taken the whole schedule. The host is
    /// taken to perform it with success.
    pub open spec fn after_take(self) -> LedMatrixState {
        LedMatrixState { pending: Seq::empty(), ..self.confirming_all(self.pending) }
    }

    /// The state after the host has performed the front transaction with
    /// success. With nothing pending, nothing changes.
    pub open spec fn after_acknowledge(self) -> LedMatrixState {
        if self.pending.len() > 0 {
            LedMatrixState { pending: self.pending.drop_first(), ..self.confirming(self.pending[0]) }
        } else {
            self
        }
    }

    /// The state after a transaction has failed: the rest of the schedule
    /// is dropped, and brightness and blinking are again what the chip is
    /// known to have. The framebuffer is the drawing, not a copy of the
    /// chip's memory: it stays, for `write_display` to send again.
    pub open spec fn after_abort(self) -> LedMatrixState {
        LedMatrixState {
            brightness: self.confirmed_brightness,
            blink_frequency: self.confirmed_blink,
            pending: Seq::empty(),
            ..self
        }
    }
}

/// Driver for the HT16K33 behind the matrix.
pub struct HT16K33 {
    device: Bus,
    buffer: [u8; 16],
    brightness: u8,
    blink: Blink,
    confirmed_brightness: u8,
    confirmed_blink: Blink,
}

impl View for HT16K33 {
    type V = LedMatrixState;

    closed spec fn view(&self) -> LedMatrixState {
        LedMatrixState {
            address: self.device.slave_address(),
            framebuffer: self.buffer@,
            brightness: self.brightness,
            blink_frequency: self.blink,
            confirmed_brightness: self.confirmed_brightness,
            confirmed_blink: self.confirmed_blink,
            pending: self.device@,
        }
    }
}

/// What a driver of a bicolor 8x8 matrix offers.
pub trait BicolorMatrix8x8: Sized {
    /// The state of the driver.
    spec fn matrix(&self) -> LedMatrixState;

    /// Starts the matrix: oscillator on, then blinking, then brightness. A
    /// brightness above 15 is refused.
    fn initialize(brightness: u8, blink: Blink) -> (made: Result<Self, CommunicationError>)
        ensures
            brightness > MAX_BRIGHTNESS ==> made == Err::<Self, CommunicationError>(
                CommunicationError::InvalidBrightness(brightness),
            ),
            brightness <= MAX_BRIGHTNESS ==> (made matches Ok(driver) && driver.matrix()
                == LedMatrixState::initial(brightness, blink) && driver.matrix().well_formed()),
    ;

    /// Sets the blinking of the display, and switches the display on.
    fn set_blink(&mut self, blink: Blink) -> (done: Result<(), CommunicationError>)
        ensures
            done == Ok::<(), CommunicationError>(()),
            final(self).matrix() == old(self).matrix().after_display_setup(Bit::On, blink),
            old(self).matrix().well_formed() ==> final(self).matrix().well_formed(),
    ;

    /// Sets the brightness, 0 to 15. A level above 15 is refused and
    /// changes nothing: the chip takes the level from the low four bits
    /// of the command, and a higher one would change the command itself.
    fn set_brightness(&mut self, brightness: u8) -> (done: Result<(), CommunicationError>)
        ensures
            brightness <= MAX_BRIGHTNESS ==> done == Ok::<(), CommunicationError>(())
                && final(self).matrix() == old(self).matrix().after_brightness(brightness),
            brightness > MAX_BRIGHTNESS ==> done == Err::<(), CommunicationError>(
                CommunicationError::InvalidBrightness(brightness),
            ) && final(self).matrix() == old(self).matrix(),
            old(self).matrix().well_formed() ==> final(self).matrix().well_formed(),
    ;

    /// Gives the pixel at column `x` of line `y` the colour `color`. With
    /// `write_display`, the two bytes that hold the pixel are sent at
    /// once; without, the change waits in the framebuffer. A coordinate
    /// above 7 is refused and changes nothing.
    fn set_pixel(&mut self, x: u8, y: u8, color: Color, write_display: bool) -> (done: Result<
        (),
        CommunicationError,
    >)
        ensures
            x < MATRIX_SIZE && y < MATRIX_SIZE ==> done == Ok::<(), CommunicationError>(())
                && final(self).matrix() == old(self).matrix().after_pixel(
                x,
                y,
                color,
                write_display,
            ),
            x >= MATRIX_SIZE || y >= MATRIX_SIZE ==> done == Err::<(), CommunicationError>(
                CommunicationError::InvalidParameter,
            ) && final(self).matrix() == old(self).matrix(),
            old(self).matrix().well_formed() ==> final(self).matrix().well_formed(),
    ;

    /// Shows the bitmap `image`, which has to be 8 by 8 pixels, and sends
    /// the framebuffer. Any other size is refused and changes nothing.
    fn set_image(&mut self, image: &bmp::Image) -> (done: Result<(), CommunicationError>)
        ensures
            image_size(*image) == (MATRIX_SIZE as nat, MATRIX_SIZE as nat) ==> done == Ok::<
                (),
                CommunicationError,
            >(()) && final(self).matrix() == old(self).matrix().after_image(image_pixels(*image)),
            image_size(*image) != (MATRIX_SIZE as nat, MATRIX_SIZE as nat) ==> done == Err::<
                (),
                CommunicationError,
            >(CommunicationError::BitmapFormatError)
                && final(self).matrix() == old(self).matrix(),
            old(self).matrix().well_formed() ==> final(self).matrix().well_formed(),
    ;

    /// Darkens every LED and sends the framebuffer.
    fn clear(&mut self) -> (done: Result<(), CommunicationError>)
        ensures
            done == Ok::<(), CommunicationError>(()),
            final(self).matrix() == old(self).matrix().after_clear(),
            old(self).matrix().well_formed() ==> final(self).matrix().well_formed(),
    ;

    /// Schedules the write of the whole framebuffer, one byte per write,
    /// in index order.
    fn write_display(&mut self) -> (done: Result<(), CommunicationError>)
        ensures
            done == Ok::<(), CommunicationError>(()),
            final(self).matrix() == old(self).matrix().after_write_display(),
            old(self).matrix().well_formed() ==> final(self).matrix().well_formed(),
    ;
}

impl HT16K33 {
    /// Starts the matrix as it is usually wanted: not blinking, and at
    /// full brightness.
    pub fn with_defaults() -> (made: Result<Self, CommunicationError>)
        ensures
            made matches Ok(driver) && driver@ == LedMatrixState::initial(
                MAX_BRIGHTNESS,
                Blink::Off,
            ) && driver@.well_formed(),
    {
        Self::initialize(MAX_BRIGHTNESS, Blink::Off)
    }

    /// Switches the chip's oscillator: on for normal operation, off for
    /// standby. Schedules the one command byte.
    pub fn system_setup(&mut self, operation: Bit) -> (done: Result<(), CommunicationError>)
        ensures
            done == Ok::<(), CommunicationError>(()),
            final(self)@ == old(self)@.after_system_setup(operation),
            old(self)@.well_formed() ==> final(self)@.well_formed(),
    {
        self.device.send_byte(HT16K33_SYSTEM_SETUP | operation.code());
        proof {
            lemma_scheduling_keeps_settings(
                old(self)@,
                self@,
                TransactionView::SendByte { command: system_command(operation) },
            );
        }
        Ok(())
    }

    /// Switches the display on or off and sets its blinking. Schedules
    /// the one command, as a block write without data.
    pub fn display_setup(&mut self, display: Bit, frequency: Blink) -> (done: Result<
        (),
        CommunicationError,
    >)
        ensures
            done == Ok::<(), CommunicationError>(()),
            final(self)@ == old(self)@.after_display_setup(display, frequency),
            old(self)@.well_formed() ==> final(self)@.well_formed(),
    {
        let none: [u8; 0] = [];
        self.device.block_write(
            HT16K33_BLINK_CMD | display.code() | frequency.code(),
            none.as_slice(),
        );
        self.blink = frequency;
        proof {
            assert(none@ =~= Seq::<u8>::empty());
            lemma_settings_after_commands(
                (old(self)@.brightness, old(self)@.blink_frequency),
                0,
                display,
                frequency,
            );
            if old(self)@.well_formed() {
                lemma_scheduling_keeps_settings(
                    old(self)@,
                    self@,
                    TransactionView::BlockWrite {
                        register: display_command(display, frequency),
                        data: Seq::empty(),
                    },
                );
            }
        }
        Ok(())
    }

    /// Lights LED `led` if `value` is not 0 and darkens it if it is, and,
    /// if `update`, schedules the write of the byte that holds it. An LED
    /// above 127 is refused and changes nothing.
    pub fn set_led(&mut self, led: u8, value: u8, update: bool) -> (done: Result<
        (),
        CommunicationError,
    >)
        ensures
            led <= 127 ==> done == Ok::<(), CommunicationError>(())
                && final(self)@ == old(self)@.after_led(led as int, value != 0, update),
            led > 127 ==> done == Err::<(), CommunicationError>(
                CommunicationError::InvalidParameter,
            ) && final(self)@ == old(self)@,
            old(self)@.well_formed() ==> final(self)@.well_formed(),
    {
        if led > 127 {
            return Err(CommunicationError::InvalidParameter);
        }
        let pos: usize = led as usize / 8;
        let offset = led % 8;
        let byte = set_bit(self.buffer[pos], offset, value != 0);
        self.buffer[pos] = byte;
        if update {
            let block = [byte];
            assert(block@ =~= seq![byte]);
            self.device.block_write(pos as u8, block.as_slice());
            proof {
                lemma_scheduling_keeps_settings(
                    old(self)@,
                    self@,
                    TransactionView::BlockWrite { register: pos as u8, data: seq![byte] },
                );
            }
        }
        Ok(())
    }

    /// Schedules the write of the whole framebuffer, one byte per write,
    /// in index order.
    pub fn write_display(&mut self) -> (done: Result<(), CommunicationError>)
        ensures
            done == Ok::<(), CommunicationError>(()),
            final(self)@ == old(self)@.after_write_display(),
            old(self)@.well_formed() ==> final(self)@.well_formed(),
    {
        let ghost start = self@;
        let mut i: usize = 0;
        assert(self@ == start.after_writes(0)) by {
            assert(start.after_writes(0).pending =~= start.pending);
        }
        while i < 16
            invariant
                i <= 16,
                self@ == start.after_writes(i as int),
                start.well_formed() ==> self@.well_formed(),
            decreases 16 - i,
        {
            let ghost before = self@;
            let block = [self.buffer[i]];
            assert(block@ =~= seq![self.buffer[i as int]]);
            self.device.block_write(i as u8, block.as_slice());
            proof {
                assert(self@.pending =~= start.after_writes(i + 1).pending);
                if before.well_formed() {
                    lemma_scheduling_keeps_settings(
                        before,
                        self@,
                        TransactionView::BlockWrite {
                            register: i as u8,
                            data: seq![self.buffer[i as int]],
                        },
                    );
                }
            }
            i += 1;
        }
        Ok(())
    }

    /// The framebuffer.
    pub fn framebuffer(&self) -> (bytes: &[u8; 16])
        ensures
            bytes@ == self@.framebuffer,
    {
        &self.buffer
    }

    /// The brightness last set.
    pub fn brightness(&self) -> (level: u8)
        ensures
            level == self@.brightness,
    {
        self.brightness
    }

    /// The blinking last set.
    pub fn blink(&self) -> (blink: Blink)
        ensures
            blink == self@.blink_frequency,
    {
        self.blink
    }

    /// The schedule of this chip.
    pub fn bus(&self) -> (bus: &Bus)
        ensures
            bus@ == self@.pending,
            bus.slave_address() == self@.address,
    {
        &self.device
    }

    /// Takes a command that was sent with success as what the chip is
    /// known to have.
    fn confirm(&mut self, register: u8, data: &Vec<u8>)
        ensures
            final(self)@ == old(self)@.confirming(
                TransactionView::BlockWrite { register, data: data@ },
            ),
            old(self)@.confirmed_brightness <= MAX_BRIGHTNESS ==> final(self)@.confirmed_brightness
                <= MAX_BRIGHTNESS,
    {
        if data.len() == 0 && register & 0xF0 == HT16K33_CMD_BRIGHTNESS {
            let level = register & 0x0F;
            assert(level <= 15) by (bit_vector)
                requires
                    level == register & 0x0F,
            ;
            self.confirmed_brightness = level;
        } else if data.len() == 0 && register & 0xF0 == HT16K33_BLINK_CMD {
            let flags = register & 0x06;
            self.confirmed_blink = if flags == 0x06 {
                Blink::HalfHz
            } else if flags == 0x04 {
                Blink::TwoHz
            } else if flags == 0x02 {
                Blink::OneHz
            } else {
                Blink::Off
            };
        }
    }

    /// Hands the whole schedule to the host and leaves nothing pending.
    /// The host is taken to perform it with success: the brightness and
    /// blinking in it are from now on what the chip is known to have.
    pub fn take_pending(&mut self) -> (taken: Vec<Transaction>)
        ensures
            taken.deep_view() == old(self)@.pending,
            final(self)@ == old(self)@.after_take(),
            old(self)@.well_formed() ==> final(self)@.well_formed(),
    {
        let ghost before = self@;
        let taken = self.device.take_pending();
        let mut i: usize = 0;
        while i < taken.len()
            invariant
                i <= taken.len(),
                taken.deep_view() == before.pending,
                before.well_formed() ==> self@.confirmed_brightness <= MAX_BRIGHTNESS,
                self@ == (LedMatrixState {
                    pending: Seq::empty(),
                    ..before.confirming_all(before.pending.take(i as int))
                }),
            decreases taken.len() - i,
        {
            proof {
                assert(before.pending.take(i + 1).drop_last() =~= before.pending.take(i as int));
                assert(before.pending[i as int] == taken[i as int]@);
            }
            match &taken[i] {
                Transaction::BlockWrite { register, data } => {
                    self.confirm(*register, data);
                },
                _ => {},
            }
            i += 1;
        }
        proof {
            assert(before.pending.take(taken.len() as int) =~= before.pending);
            assert(self@.pending.len() == 0);
        }
        taken
    }

    /// Records that the front transaction was performed with success. A
    /// brightness or blinking that it set is from now on what the chip is
    /// known to have.
    pub fn acknowledge(&mut self)
        ensures
            final(self)@ == old(self)@.after_acknowledge(),
            old(self)@.well_formed() ==> final(self)@.well_formed(),
    {
        match self.device.acknowledge() {
            Some(Transaction::BlockWrite { register, data }) => {
                self.confirm(register, &data);
            },
            _ => {},
        }
        proof {
            if old(self)@.pending.len() > 0 {
                lemma_settings_after_front(
                    (old(self)@.confirmed_brightness, old(self)@.confirmed_blink),
                    old(self)@.pending,
                );
            }
        }
    }

    /// Records that the front transaction failed with `cause`: drops the
    /// rest of the schedule, sets brightness and blinking back to what the
    /// chip is known to have, and returns the error to surface.
    pub fn abort(&mut self, cause: Fault) -> (error: CommunicationError)
        ensures
            error == failure_of(old(self)@.pending, cause),
            final(self)@ == old(self)@.after_abort(),
            old(self)@.well_formed() ==> final(self)@.well_formed(),
    {
        self.brightness = self.confirmed_brightness;
        self.blink = self.confirmed_blink;
        self.device.abort(cause)
    }
}

impl BicolorMatrix8x8 for HT16K33 {
    open spec fn matrix(&self) -> LedMatrixState {
        self@
    }

    fn initialize(brightness: u8, blink: Blink) -> (made: Result<Self, CommunicationError>) {
        if brightness > MAX_BRIGHTNESS {
            return Err(CommunicationError::InvalidBrightness(brightness));
        }
        let mut driver = HT16K33 {
            device: Bus::new(HT16K33_ADDRESS),
            buffer: [0; 16],
            brightness: MAX_BRIGHTNESS,
            blink: Blink::Off,
            confirmed_brightness: MAX_BRIGHTNESS,
            confirmed_blink: Blink::Off,
        };
        assert(driver@.framebuffer =~= Seq::new(FRAMEBUFFER_LEN as nat, |i: int| 0u8));
        assert(driver@.well_formed());
        driver.system_setup(Bit::On)?;
        driver.set_blink(blink)?;
        driver.set_brightness(brightness)?;
        Ok(driver)
    }

    fn set_blink(&mut self, blink: Blink) -> (done: Result<(), CommunicationError>) {
        self.display_setup(Bit::On, blink)
    }

    fn set_brightness(&mut self, brightness: u8) -> (done: Result<(), CommunicationError>) {
        if brightness > MAX_BRIGHTNESS {
            return Err(CommunicationError::InvalidBrightness(brightness));
        }
        let none: [u8; 0] = [];
        self.device.block_write(HT16K33_CMD_BRIGHTNESS | brightness, none.as_slice());
        self.brightness = brightness;
        proof {
            assert(none@ =~= Seq::<u8>::empty());
            lemma_settings_after_commands(
                (old(self)@.brightness, old(self)@.blink_frequency),
                brightness,
                Bit::On,
                Blink::Off,
            );
            lemma_scheduling_keeps_settings(
                old(self)@,
                self@,
                TransactionView::BlockWrite {
                    register: brightness_command(brightness),
                    data: Seq::empty(),
                },
            );
        }
        Ok(())
    }

    fn set_pixel(&mut self, x: u8, y: u8, color: Color, write_display: bool) -> (done: Result<
        (),
        CommunicationError,
    >) {
        if x >= MATRIX_SIZE || y >= MATRIX_SIZE {
            return Err(CommunicationError::InvalidParameter);
        }
        let (led1, led2): (u8, u8) = match color {
            Color::Green => (1, 0),
            Color::Red => (0, 1),
            Color::Yellow => (1, 1),
            Color::Off => (0, 0),
        };
        self.set_led(y * 16 + x, led1, write_display)?;
        self.set_led(y * 16 + x + 8, led2, write_display)?;
        Ok(())
    }

    fn set_image(&mut self, image: &bmp::Image) -> (done: Result<(), CommunicationError>) {
        if image.get_height() != 8 || image.get_width() != 8 {
            return Err(CommunicationError::BitmapFormatError);
        }
        let ghost start = self@;
        let ghost pixels = image_pixels(*image);
        let mut y: u8 = 0;
        while y < 8
            invariant
                y <= 8,
                pixels == image_pixels(*image),
                image_size(*image) == (MATRIX_SIZE as nat, MATRIX_SIZE as nat),
                self@ == start.after_pixels(pixels, (y * 8) as nat),
                start.well_formed() ==> self@.well_formed(),
            decreases 8 - y,
        {
            let mut x: u8 = 0;
            while x < 8
                invariant
                    x <= 8,
                    y < 8,
                    pixels == image_pixels(*image),
                    image_size(*image) == (MATRIX_SIZE as nat, MATRIX_SIZE as nat),
                    self@ == start.after_pixels(pixels, (y * 8 + x) as nat),
                    start.well_formed() ==> self@.well_formed(),
                decreases 8 - x,
            {
                let color = Color::from(pixel_at(image, x as u32, y as u32));
                self.set_pixel(x, y, color, false)?;
                x += 1;
            }
            y += 1;
        }
        HT16K33::write_display(self)
    }

    fn clear(&mut self) -> (done: Result<(), CommunicationError>) {
        self.buffer = [0; 16];
        assert(self@.framebuffer =~= Seq::new(FRAMEBUFFER_LEN as nat, |i: int| 0u8));
        HT16K33::write_display(self)
    }

    fn write_display(&mut self) -> (done: Result<(), CommunicationError>) {
        HT16K33::write_display(self)
    }
}

/// The brightest level makes the command byte 0xEF, and every level
/// leaves the command's upper four bits as they are.
pub proof fn lemma_brightness_command(level: u8)
    requires
        level <= MAX_BRIGHTNESS,
    ensures
        brightness_command(MAX_BRIGHTNESS) == 0xEF,
        brightness_command(level) & 0xF0 == HT16K33_CMD_BRIGHTNESS,
        brightness_command(level) & 0x0F == level,
{
    assert(0xE0u8 | 15 == 0xEF && (level <= 15 ==> (0xE0u8 | level) & 0xF0 == 0xE0 && (0xE0u8
        | level) & 0x0F == level)) by (bit_vector);
}

/// Writing an LED makes it read back as written and leaves the other 127
/// alone.
pub proof fn lemma_led_written(framebuffer: Seq<u8>, led: int, on: bool, other: int)
    requires
        framebuffer.len() == FRAMEBUFFER_LEN,
        0 <= led < 128,
        0 <= other < 128,
    ensures
        write_led(framebuffer, led, on).len() == FRAMEBUFFER_LEN,
        led_is_on(write_led(framebuffer, led, on), led) == on,
        other != led ==> led_is_on(write_led(framebuffer, led, on), other) == led_is_on(
            framebuffer,
            other,
        ),
{
    lemma_bit_reads_back(framebuffer[led / 8], (led % 8) as u8, on);
    if other != led && other / 8 == led / 8 {
        lemma_bit_keeps_others(framebuffer[led / 8], (led % 8) as u8, on, (other % 8) as u8);
    }
}

/// A pixel's colour is in its two LEDs, `y * 16 + x` for green and
/// `y * 16 + x + 8` for red: yellow lights both, off darkens both, green
/// and red light their own and darken the other. No other LED changes.
pub proof fn lemma_pixel_leds(
    state: LedMatrixState,
    x: u8,
    y: u8,
    color: Color,
    update: bool,
    other: int,
)
    requires
        state.framebuffer.len() == FRAMEBUFFER_LEN,
        x < MATRIX_SIZE,
        y < MATRIX_SIZE,
        0 <= other < 128,
    ensures
        state.after_pixel(x, y, color, update).framebuffer.len() == FRAMEBUFFER_LEN,
        led_is_on(state.after_pixel(x, y, color, update).framebuffer, y * 16 + x) == color.green(),
        led_is_on(state.after_pixel(x, y, color, update).framebuffer, y * 16 + x + 8)
            == color.red(),
        other != y * 16 + x && other != y * 16 + x + 8 ==> led_is_on(
            state.after_pixel(x, y, color, update).framebuffer,
            other,
        ) == led_is_on(state.framebuffer, other),
{
    let green = y * 16 + x;
    let red = y * 16 + x + 8;
    let first = write_led(state.framebuffer, green, color.green());
    lemma_led_written(state.framebuffer, green, color.green(), other);
    lemma_led_written(state.framebuffer, green, color.green(), red);
    lemma_led_written(first, red, color.red(), other);
    lemma_led_written(first, red, color.red(), green);
}

/// The LEDs of two pixels are the same only where the pixels are.
proof fn lemma_led_places(x: int, y: int, kx: int, ky: int)
    requires
        0 <= x < 8,
        0 <= y < 8,
        0 <= kx < 8,
        0 <= ky < 8,
    ensures
        y * 16 + x == ky * 16 + kx <==> y * 8 + x == ky * 8 + kx,
        y * 16 + x != ky * 16 + kx + 8,
        y * 16 + x + 8 != ky * 16 + kx,
{
}

/// After the first `count` pixels of a bitmap were taken, each of them
/// shows in its two LEDs, and the LEDs of the pixels still to come are as
/// they were.
pub proof fn lemma_pixels_leds(
    state: LedMatrixState,
    pixels: Map<(int, int), (u8, u8, u8)>,
    count: nat,
    x: u8,
    y: u8,
)
    requires
        state.framebuffer.len() == FRAMEBUFFER_LEN,
        count <= 64,
        x < MATRIX_SIZE,
        y < MATRIX_SIZE,
    ensures
        state.after_pixels(pixels, count).framebuffer.len() == FRAMEBUFFER_LEN,
        state.after_pixels(pixels, count).pending == state.pending,
        y * 8 + x < count ==> led_is_on(
            state.after_pixels(pixels, count).framebuffer,
            y * 16 + x,
        ) == color_of(pixels[(x as int, y as int)]).green(),
        y * 8 + x < count ==> led_is_on(
            state.after_pixels(pixels, count).framebuffer,
            y * 16 + x + 8,
        ) == color_of(pixels[(x as int, y as int)]).red(),
        y * 8 + x >= count ==> led_is_on(
            state.after_pixels(pixels, count).framebuffer,
            y * 16 + x,
        ) == led_is_on(state.framebuffer, y * 16 + x),
        y * 8 + x >= count ==> led_is_on(
            state.after_pixels(pixels, count).framebuffer,
            y * 16 + x + 8,
        ) == led_is_on(state.framebuffer, y * 16 + x + 8),
    decreases count,
{
    if count > 0 {
        let k = count - 1;
        let kx = k % 8;
        let ky = k / 8;
        let before = state.after_pixels(pixels, k as nat);
        let color = color_of(pixels[(kx, ky)]);
        let after = before.after_pixel(kx as u8, ky as u8, color, false);
        assert(state.after_pixels(pixels, count) == after);
        lemma_pixels_leds(state, pixels, k as nat, x, y);
        lemma_led_places(x as int, y as int, kx, ky);
        lemma_pixel_leds(before, kx as u8, ky as u8, color, false, y * 16 + x);
        lemma_pixel_leds(before, kx as u8, ky as u8, color, false, y * 16 + x + 8);
        assert(after.pending == state.pending);
        if y * 8 + x == k {
            assert(x == kx && y == ky);
        }
    }
}

/// A bitmap shows pixel by pixel: after `set_image`, the two LEDs of every
/// pixel hold the colour of the bitmap's pixel at that place.
pub proof fn lemma_image_leds(
    state: LedMatrixState,
    pixels: Map<(int, int), (u8, u8, u8)>,
    x: u8,
    y: u8,
)
    requires
        state.framebuffer.len() == FRAMEBUFFER_LEN,
        x < MATRIX_SIZE,
        y < MATRIX_SIZE,
    ensures
        state.after_image(pixels).framebuffer.len() == FRAMEBUFFER_LEN,
        led_is_on(state.after_image(pixels).framebuffer, y * 16 + x) == color_of(
            pixels[(x as int, y as int)],
        ).green(),
        led_is_on(state.after_image(pixels).framebuffer, y * 16 + x + 8) == color_of(
            pixels[(x as int, y as int)],
        ).red(),
{
    lemma_pixels_leds(state, pixels, 64, x, y);
}

/// What `write_display` schedules brings the chip's display memory in
/// step with the framebuffer: once the host has performed the schedule,
/// each of the first `count` bytes of display memory is the framebuffer's.
pub proof fn lemma_writes_reach_chip(
    state: LedMatrixState,
    chip: Map<u8, Seq<u8>>,
    count: int,
    index: int,
)
    requires
        0 <= index < count <= FRAMEBUFFER_LEN,
    ensures
        perform_all(chip, state.after_writes(count).pending).dom().contains(index as u8),
        perform_all(chip, state.after_writes(count).pending)[index as u8]
            == seq![state.framebuffer[index]],
    decreases count,
{
    let before = state.after_writes(count - 1).pending;
    let last = byte_write(state.framebuffer, count - 1);
    assert(state.after_writes(count).pending =~= before.push(last));
    lemma_perform_push(chip, before, last);
    if index < count - 1 {
        lemma_writes_reach_chip(state, chip, count - 1, index);
    }
}

/// The commands are told apart rightly: a brightness command sets the
/// level and a display setup command the blinking, each leaving the other
/// alone, and the full brightness command is not taken for anything else.
pub proof fn lemma_settings_after_commands(
    settings: (u8, Blink),
    level: u8,
    display: Bit,
    frequency: Blink,
)
    requires
        level <= MAX_BRIGHTNESS,
    ensures
        settings_after(
            settings,
            TransactionView::BlockWrite { register: brightness_command(level), data: Seq::empty() },
        ) == (level, settings.1),
        settings_after(
            settings,
            TransactionView::BlockWrite {
                register: display_command(display, frequency),
                data: Seq::empty(),
            },
        ) == (settings.0, frequency),
{
    let shown: u8 = display.flag();
    let flags: u8 = frequency.flags();
    assert(level <= 15 ==> (0xE0u8 | level) & 0xF0 == 0xE0 && (0xE0u8 | level) & 0x0F == level)
        by (bit_vector);
    assert(shown <= 1 && (flags == 0 || flags == 2 || flags == 4 || flags == 6) ==> (0x80u8
        | shown | flags) & 0xF0 == 0x80 && (0x80u8 | shown | flags) & 0x06 == flags)
        by (bit_vector);
}

/// Taking the front transaction and then the rest is taking the schedule.
pub proof fn lemma_settings_after_front(settings: (u8, Blink), schedule: Seq<TransactionView>)
    requires
        schedule.len() > 0,
    ensures
        settings_after_all(settings_after(settings, schedule[0]), schedule.drop_first())
            == settings_after_all(settings, schedule),
    decreases schedule.len(),
{
    let nothing = Seq::<TransactionView>::empty();
    let started = settings_after(settings, schedule[0]);
    if schedule.len() == 1 {
        assert(schedule.drop_first() =~= nothing);
        assert(schedule.drop_last() =~= nothing);
        assert(settings_after_all(started, nothing) == started);
        assert(settings_after_all(settings, nothing) == settings);
    } else {
        let rest = schedule.drop_first();
        lemma_settings_after_front(settings, schedule.drop_last());
        assert(rest.drop_last() =~= schedule.drop_last().drop_first());
        assert(rest.last() == schedule.last());
        assert(settings_after_all(started, rest) == settings_after(
            settings_after_all(started, rest.drop_last()),
            rest.last(),
        ));
    }
}

/// Scheduling one more transaction keeps brightness and blinking the last
/// ones sent, where the driver takes as its own what the transaction will
/// set.
proof fn lemma_scheduling_keeps_settings(
    before: LedMatrixState,
    after: LedMatrixState,
    transaction: TransactionView,
)
    requires
        after.pending == before.pending.push(transaction),
        after.confirmed_brightness == before.confirmed_brightness,
        after.confirmed_blink == before.confirmed_blink,
        after.framebuffer.len() == before.framebuffer.len(),
        (after.brightness, after.blink_frequency) == settings_after(
            (before.brightness, before.blink_frequency),
            transaction,
        ),
    ensures
        before.well_formed() && after.brightness <= MAX_BRIGHTNESS ==> after.well_formed(),
{
    assert(before.pending.push(transaction).drop_last() =~= before.pending);
}

/// Brightness and blinking always are the last ones sent with success,
/// but for the commands still pending: every success of the host and
/// every failure keeps it so. After a failure they are the confirmed
/// ones, and the drawing is as it was.
pub proof fn lemma_settings_are_last_sent(state: LedMatrixState)
    requires
        state.well_formed(),
    ensures
        state.after_acknowledge().well_formed(),
        state.after_take().well_formed(),
        state.after_abort().well_formed(),
        state.after_abort().brightness == state.confirmed_brightness,
        state.after_abort().blink_frequency == state.confirmed_blink,
        state.after_abort().framebuffer == state.framebuffer,
        state.pending.len() == 0 ==> state.brightness == state.confirmed_brightness
            && state.blink_frequency == state.confirmed_blink,
{
    if state.pending.len() > 0 {
        lemma_settings_after_front(
            (state.confirmed_brightness, state.confirmed_blink),
            state.pending,
        );
    }
    lemma_settings_level(
        (state.confirmed_brightness, state.confirmed_blink),
        state.pending,
    );
    if state.pending.len() > 0 {
        lemma_settings_level(
            (state.confirmed_brightness, state.confirmed_blink),
            Seq::empty().push(state.pending[0]),
        );
        assert(Seq::<TransactionView>::empty().push(state.pending[0]).drop_last()
            =~= Seq::<TransactionView>::empty());
    }
}

/// A level that the chip has taken is a level.
proof fn lemma_settings_level(settings: (u8, Blink), schedule: Seq<TransactionView>)
    requires
        settings.0 <= MAX_BRIGHTNESS,
    ensures
        settings_after_all(settings, schedule).0 <= MAX_BRIGHTNESS,
    decreases schedule.len(),
{
    if schedule.len() > 0 {
        lemma_settings_level(settings, schedule.drop_last());
        let before = settings_after_all(settings, schedule.drop_last());
        match schedule.last() {
            TransactionView::BlockWrite { register, data } => {
                assert(register & 0x0F <= 15) by (bit_vector);
            },
            _ => {},
        }
    }
}

} // verus!
