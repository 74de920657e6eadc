use rustberrypi::bus::{Fault, Transaction};
use rustberrypi::errors::CommunicationError;
use rustberrypi::i2c::led::{BicolorMatrix8x8, Bit, Blink, Color, HT16K33};

fn started() -> HT16K33 {
    let mut matrix = HT16K33::initialize(15, Blink::Off).unwrap();
    matrix.take_pending();
    matrix
}

fn command(register: u8) -> Transaction {
    Transaction::BlockWrite { register, data: vec![] }
}

fn byte(register: u8, value: u8) -> Transaction {
    Transaction::BlockWrite { register, data: vec![value] }
}

fn image(width: u32, height: u32, pixels: &[(u32, u32, (u8, u8, u8))]) -> bmp::Image {
    let mut image = bmp::Image::new(width, height);
    for (x, y, (r, g, b)) in pixels {
        image.set_pixel(*x, *y, bmp::Pixel::new(*r, *g, *b));
    }
    image
}

#[test]
fn the_matrix_starts_with_oscillator_blink_and_brightness() {
    let mut matrix = HT16K33::initialize(15, Blink::Off).unwrap();
    assert_eq!(matrix.bus().address(), 0x70);
    assert_eq!(matrix.framebuffer(), &[0u8; 16]);
    assert_eq!(matrix.brightness(), 15);
    assert_eq!(matrix.blink(), Blink::Off);
    assert_eq!(
        matrix.take_pending(),
        vec![Transaction::SendByte { command: 0x21 }, command(0x81), command(0xEF)]
    );
    let mut usual = HT16K33::with_defaults().unwrap();
    assert_eq!(
        usual.take_pending(),
        vec![Transaction::SendByte { command: 0x21 }, command(0x81), command(0xEF)]
    );
    let mut dim = HT16K33::initialize(3, Blink::HalfHz).unwrap();
    assert_eq!(dim.brightness(), 3);
    assert_eq!(dim.blink(), Blink::HalfHz);
    assert_eq!(
        dim.take_pending(),
        vec![Transaction::SendByte { command: 0x21 }, command(0x87), command(0xE3)]
    );
}

#[test]
fn a_brightness_above_15_is_refused() {
    assert_eq!(
        HT16K33::initialize(16, Blink::Off).err(),
        Some(CommunicationError::InvalidBrightness(16))
    );
    let mut matrix = started();
    matrix.set_brightness(7).unwrap();
    matrix.take_pending();
    for level in [16u8, 17, 0x1F, 255] {
        assert_eq!(
            matrix.set_brightness(level),
            Err(CommunicationError::InvalidBrightness(level))
        );
        assert_eq!(matrix.brightness(), 7);
        assert!(matrix.take_pending().is_empty());
    }
}

#[test]
fn full_brightness_is_the_single_command_0xef() {
    let mut matrix = started();
    assert_eq!(matrix.set_brightness(15), Ok(()));
    assert_eq!(matrix.take_pending(), vec![command(0xEF)]);
    for level in 0u8..16 {
        matrix.set_brightness(level).unwrap();
        assert_eq!(matrix.brightness(), level);
        assert_eq!(matrix.take_pending(), vec![command(0xE0 | level)]);
    }
}

#[test]
fn blinking_goes_with_the_display_switched_on() {
    let mut matrix = started();
    for (blink, register) in [
        (Blink::Off, 0x81u8),
        (Blink::OneHz, 0x83),
        (Blink::TwoHz, 0x85),
        (Blink::HalfHz, 0x87),
    ] {
        matrix.set_blink(blink).unwrap();
        assert_eq!(matrix.blink(), blink);
        assert_eq!(matrix.take_pending(), vec![command(register)]);
    }
    matrix.display_setup(Bit::Off, Blink::OneHz).unwrap();
    assert_eq!(matrix.take_pending(), vec![command(0x82)]);
    assert_eq!(Blink::HalfHz.code(), 0x06);
    assert_eq!(Blink::TwoHz.code(), 0x04);
    assert_eq!(Blink::OneHz.code(), 0x02);
    assert_eq!(Blink::Off.code(), 0x00);
}

#[test]
fn the_oscillator_takes_one_command_byte() {
    let mut matrix = started();
    matrix.system_setup(Bit::Off).unwrap();
    matrix.system_setup(Bit::On).unwrap();
    assert_eq!(
        matrix.take_pending(),
        vec![Transaction::SendByte { command: 0x20 }, Transaction::SendByte { command: 0x21 }]
    );
    assert_eq!(Bit::On.code(), 1);
    assert_eq!(Bit::Off.code(), 0);
}

#[test]
fn a_pixel_is_two_leds_eight_apart() {
    for y in 0u8..8 {
        for x in 0u8..8 {
            for (color, green, red) in [
                (Color::Yellow, true, true),
                (Color::Green, true, false),
                (Color::Red, false, true),
                (Color::Off, false, false),
            ] {
                // on a dark and on a fully lit matrix
                for fill in [0x00u8, 0xFF] {
                    let mut matrix = started();
                    for led in 0u8..128 {
                        matrix.set_led(led, fill, false).unwrap();
                    }
                    matrix.set_pixel(x, y, color, false).unwrap();
                    assert!(matrix.take_pending().is_empty());
                    let buffer = matrix.framebuffer();
                    for led in 0usize..128 {
                        let lit = buffer[led / 8] & (1 << (led % 8)) != 0;
                        let expected = if led == y as usize * 16 + x as usize {
                            green
                        } else if led == y as usize * 16 + x as usize + 8 {
                            red
                        } else {
                            fill != 0
                        };
                        assert_eq!(lit, expected);
                    }
                }
            }
        }
    }
}

#[test]
fn a_pixel_can_be_sent_at_once() {
    let mut matrix = started();
    matrix.set_pixel(2, 3, Color::Yellow, true).unwrap();
    assert_eq!(matrix.take_pending(), vec![byte(6, 0x04), byte(7, 0x04)]);
    matrix.set_pixel(0, 3, Color::Green, true).unwrap();
    assert_eq!(matrix.take_pending(), vec![byte(6, 0x05), byte(7, 0x04)]);
    matrix.set_pixel(2, 3, Color::Off, true).unwrap();
    assert_eq!(matrix.take_pending(), vec![byte(6, 0x01), byte(7, 0x00)]);
}

#[test]
fn a_pixel_outside_the_matrix_is_refused() {
    let mut matrix = started();
    matrix.set_pixel(7, 7, Color::Red, false).unwrap();
    let before = *matrix.framebuffer();
    for (x, y) in [(8u8, 0u8), (0, 8), (8, 8), (255, 3), (3, 255), (15, 15)] {
        assert_eq!(
            matrix.set_pixel(x, y, Color::Yellow, true),
            Err(CommunicationError::InvalidParameter)
        );
        assert_eq!(matrix.framebuffer(), &before);
        assert!(matrix.take_pending().is_empty());
    }
}

#[test]
fn set_led_writes_one_bit() {
    let mut matrix = started();
    matrix.set_led(127, 1, false).unwrap();
    matrix.set_led(0, 200, false).unwrap();
    matrix.set_led(9, 1, true).unwrap();
    let mut expected = [0u8; 16];
    expected[15] = 0x80;
    expected[0] = 0x01;
    expected[1] = 0x02;
    assert_eq!(matrix.framebuffer(), &expected);
    assert_eq!(matrix.take_pending(), vec![byte(1, 0x02)]);
    matrix.set_led(127, 0, true).unwrap();
    assert_eq!(matrix.take_pending(), vec![byte(15, 0x00)]);
    assert_eq!(matrix.set_led(128, 1, true), Err(CommunicationError::InvalidParameter));
    assert_eq!(matrix.set_led(255, 0, false), Err(CommunicationError::InvalidParameter));
    assert!(matrix.take_pending().is_empty());
}

#[test]
fn write_display_sends_sixteen_bytes_in_order() {
    let mut matrix = started();
    matrix.set_pixel(1, 0, Color::Green, false).unwrap();
    matrix.set_pixel(7, 7, Color::Red, false).unwrap();
    matrix.write_display().unwrap();
    let mut expected: Vec<Transaction> = (0u8..16).map(|i| byte(i, 0)).collect();
    expected[0] = byte(0, 0x02);
    expected[15] = byte(15, 0x80);
    assert_eq!(matrix.take_pending(), expected);
}

#[test]
fn clear_darkens_every_led_and_sends_the_framebuffer() {
    let mut matrix = started();
    for led in 0u8..128 {
        matrix.set_led(led, 1, false).unwrap();
    }
    assert_eq!(matrix.framebuffer(), &[0xFFu8; 16]);
    matrix.clear().unwrap();
    assert_eq!(matrix.framebuffer(), &[0u8; 16]);
    let expected: Vec<Transaction> = (0u8..16).map(|i| byte(i, 0)).collect();
    assert_eq!(matrix.take_pending(), expected);
}

#[test]
fn colours_come_from_exact_pixels() {
    assert_eq!(Color::from((255, 0, 0)), Color::Red);
    assert_eq!(Color::from((255, 255, 0)), Color::Yellow);
    assert_eq!(Color::from((0, 255, 0)), Color::Green);
    assert_eq!(Color::from((0, 0, 0)), Color::Off);
    assert_eq!(Color::from((254, 0, 0)), Color::Off);
    assert_eq!(Color::from((255, 0, 1)), Color::Off);
    assert_eq!(Color::from((255, 255, 255)), Color::Off);
    assert_eq!(Color::from((0, 0, 255)), Color::Off);
    assert_eq!(Color::Off.code(), 0);
    assert_eq!(Color::Green.code(), 1);
    assert_eq!(Color::Red.code(), 2);
    assert_eq!(Color::Yellow.code(), 3);
}

#[test]
fn set_image_shows_an_8_by_8_bitmap() {
    let picture = image(
        8,
        8,
        &[
            (0, 0, (255, 0, 0)),
            (7, 0, (0, 255, 0)),
            (3, 4, (255, 255, 0)),
            (7, 7, (255, 255, 0)),
            (1, 1, (200, 0, 0)),
            (2, 2, (255, 255, 255)),
        ],
    );
    let mut matrix = started();
    // what was on the matrix before does not show through
    for led in 0u8..128 {
        matrix.set_led(led, 1, false).unwrap();
    }
    matrix.set_image(&picture).unwrap();
    let mut expected = [0u8; 16];
    expected[1] = 0x01; // red at (0, 0)
    expected[0] = 0x80; // green at (7, 0)
    expected[8] = 0x08; // yellow at (3, 4)
    expected[9] = 0x08;
    expected[14] = 0x80; // yellow at (7, 7)
    expected[15] = 0x80;
    assert_eq!(matrix.framebuffer(), &expected);
    let sent: Vec<Transaction> = (0u8..16).map(|i| byte(i, expected[i as usize])).collect();
    assert_eq!(matrix.take_pending(), sent);
}

#[test]
fn set_image_refuses_other_sizes() {
    for (width, height) in [(7u32, 8u32), (8, 7), (16, 16), (0, 0), (8, 9), (64, 1)] {
        let picture = image(width, height, &[]);
        let mut matrix = started();
        matrix.set_pixel(4, 4, Color::Yellow, false).unwrap();
        let before = *matrix.framebuffer();
        assert_eq!(matrix.set_image(&picture), Err(CommunicationError::BitmapFormatError));
        assert_eq!(matrix.framebuffer(), &before);
        assert!(matrix.take_pending().is_empty());
    }
}

#[test]
fn write_display_is_part_of_the_trait() {
    fn send<M: BicolorMatrix8x8>(matrix: &mut M) {
        matrix.set_pixel(0, 0, Color::Red, false).unwrap();
        matrix.write_display().unwrap();
    }
    let mut matrix = started();
    send(&mut matrix);
    let sent = matrix.take_pending();
    assert_eq!(sent.len(), 16);
    assert_eq!(sent[1], byte(1, 0x01));
}

#[test]
fn a_failed_command_leaves_brightness_and_blinking_as_last_set() {
    let mut matrix = HT16K33::initialize(9, Blink::OneHz).unwrap();
    // nothing has reached the chip yet: it is as after power-on
    matrix.abort(Fault::Bus);
    assert_eq!(matrix.brightness(), 15);
    assert_eq!(matrix.blink(), Blink::Off);

    matrix.set_brightness(4).unwrap();
    matrix.set_blink(Blink::HalfHz).unwrap();
    matrix.take_pending();
    matrix.set_brightness(12).unwrap();
    matrix.set_blink(Blink::TwoHz).unwrap();
    matrix.set_brightness(0).unwrap();
    assert_eq!(matrix.brightness(), 0);
    // the first of the three succeeds, the second fails
    matrix.acknowledge();
    assert_eq!(matrix.abort(Fault::Bus), CommunicationError::BusError);
    assert_eq!(matrix.brightness(), 12);
    assert_eq!(matrix.blink(), Blink::HalfHz);
    assert!(matrix.bus().pending().is_empty());
}

#[test]
fn every_blinking_is_known_once_it_was_sent() {
    for blink in [Blink::Off, Blink::OneHz, Blink::TwoHz, Blink::HalfHz] {
        for display in [Bit::On, Bit::Off] {
            let mut matrix = started();
            matrix.display_setup(display, blink).unwrap();
            matrix.acknowledge();
            matrix.set_blink(Blink::Off).unwrap();
            matrix.set_blink(Blink::TwoHz).unwrap();
            matrix.abort(Fault::Unknown);
            assert_eq!(matrix.blink(), blink);
        }
    }
    for level in 0u8..16 {
        let mut matrix = started();
        matrix.set_brightness(level).unwrap();
        matrix.take_pending();
        matrix.set_brightness(15 - level).unwrap();
        matrix.abort(Fault::Unknown);
        assert_eq!(matrix.brightness(), level);
    }
}

#[test]
fn a_failure_keeps_the_drawing() {
    let mut matrix = started();
    matrix.set_pixel(2, 2, Color::Yellow, false).unwrap();
    matrix.write_display().unwrap();
    let drawn = *matrix.framebuffer();
    matrix.abort(Fault::Bus);
    assert_eq!(matrix.framebuffer(), &drawn);
    matrix.write_display().unwrap();
    assert_eq!(matrix.take_pending()[4], byte(4, 0x04));
}

#[test]
fn a_failed_transaction_drops_the_schedule_of_the_matrix() {
    let mut matrix = HT16K33::initialize(15, Blink::Off).unwrap();
    matrix.acknowledge();
    assert_eq!(matrix.bus().pending(), &vec![command(0x81), command(0xEF)]);
    assert_eq!(matrix.abort(Fault::Unknown), CommunicationError::WriteError);
    assert!(matrix.bus().pending().is_empty());
}
