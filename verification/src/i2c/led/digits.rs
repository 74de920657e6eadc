//! Numbers on the matrix, in a font of three by five dots.
//!
//! A number of one or two digits is drawn from the left, a digit every
//! four columns, in the lines 1 to 5. Its colour says how large it is.

use vstd::prelude::*;
use crate::errors::CommunicationError;
use crate::i2c::led::{BicolorMatrix8x8, Color, LedMatrixState, HT16K33};

verus! {

/// Number of dots of a digit: five lines of three.
pub const DIGIT_DOTS: usize = 15;

/// The largest number that fits the matrix.
pub const LARGEST_NUMBER: u8 = 99;

/// The dots of `digit`, line by line, 1 for a lit dot.
pub open spec fn digit_dots(digit: u8) -> Seq<u8> {
    if digit == 0 {
        seq![1u8, 1, 1, 1, 0, 1, 1, 0, 1, 1, 0, 1, 1, 1, 1]
    } else if digit == 1 {
        seq![0u8, 1, 0, 0, 1, 0, 0, 1, 0, 0, 1, 0, 0, 1, 0]
    } else if digit == 2 {
        seq![1u8, 1, 1, 0, 0, 1, 1, 1, 1, 1, 0, 0, 1, 1, 1]
    } else if digit == 3 {
        seq![1u8, 1, 1, 0, 0, 1, 0, 1, 1, 0, 0, 1, 1, 1, 1]
    } else if digit == 4 {
        seq![1u8, 0, 1, 1, 0, 1, 1, 1, 1, 0, 0, 1, 0, 0, 1]
    } else if digit == 5 {
        seq![1u8, 1, 1, 1, 0, 0, 1, 1, 1, 0, 0, 1, 1, 1, 1]
    } else if digit == 6 {
        seq![1u8, 1, 1, 1, 0, 0, 1, 1, 1, 1, 0, 1, 1, 1, 1]
    } else if digit == 7 {
        seq![1u8, 1, 1, 0, 0, 1, 0, 0, 1, 0, 0, 1, 0, 0, 1]
    } else if digit == 8 {
        seq![1u8, 1, 1, 1, 0, 1, 1, 1, 1, 1, 0, 1, 1, 1, 1]
    } else {
        seq![1u8, 1, 1, 1, 0, 1, 1, 1, 1, 0, 0, 1, 1, 1, 1]
    }
}

/// The colour of the number `value`: green up to 21, yellow up to 25, red
/// above.
pub open spec fn number_color(value: u8) -> Color {
    if value <= 21 {
        Color::Green
    } else if value <= 25 {
        Color::Yellow
    } else {
        Color::Red
    }
}

/// The matrix after the first `count` dots of `dots` were drawn as the
/// digit at place `place`, lit dots in `color` and the others dark.
pub open spec fn after_dots(
    state: LedMatrixState,
    dots: Seq<u8>,
    place: int,
    color: Color,
    count: nat,
) -> LedMatrixState
    decreases count,
{
    if count == 0 {
        state
    } else {
        let k = count - 1;
        after_dots(state, dots, place, color, k as nat).after_pixel(
            (k % 3 + 4 * place) as u8,
            (k / 3 + 1) as u8,
            if dots[k] == 1 {
                color
            } else {
                Color::Off
            },
            false,
        )
    }
}

/// The matrix after the number `value` was drawn and the framebuffer
/// sent.
pub open spec fn after_number(state: LedMatrixState, value: u8) -> LedMatrixState {
    let color = number_color(value);
    if value < 10 {
        after_dots(state, digit_dots(value), 0, color, DIGIT_DOTS as nat).after_write_display()
    } else {
        after_dots(
            after_dots(state, digit_dots(value / 10), 0, color, DIGIT_DOTS as nat),
            digit_dots(value % 10),
            1,
            color,
            DIGIT_DOTS as nat,
        ).after_write_display()
    }
}

/// The dots of `digit`.
fn get_char(digit: u8) -> (dots: [u8; 15])
    requires
        digit <= 9,
    ensures
        dots@ == digit_dots(digit),
{
    let dots = match digit {
        0 => [1, 1, 1, 1, 0, 1, 1, 0, 1, 1, 0, 1, 1, 1, 1],
        1 => [0, 1, 0, 0, 1, 0, 0, 1, 0, 0, 1, 0, 0, 1, 0],
        2 => [1, 1, 1, 0, 0, 1, 1, 1, 1, 1, 0, 0, 1, 1, 1],
        3 => [1, 1, 1, 0, 0, 1, 0, 1, 1, 0, 0, 1, 1, 1, 1],
        4 => [1, 0, 1, 1, 0, 1, 1, 1, 1, 0, 0, 1, 0, 0, 1],
        5 => [1, 1, 1, 1, 0, 0, 1, 1, 1, 0, 0, 1, 1, 1, 1],
        6 => [1, 1, 1, 1, 0, 0, 1, 1, 1, 1, 0, 1, 1, 1, 1],
        7 => [1, 1, 1, 0, 0, 1, 0, 0, 1, 0, 0, 1, 0, 0, 1],
        8 => [1, 1, 1, 1, 0, 1, 1, 1, 1, 1, 0, 1, 1, 1, 1],
        _ => [1, 1, 1, 1, 0, 1, 1, 1, 1, 0, 0, 1, 1, 1, 1],
    };
    assert(dots@ =~= digit_dots(digit));
    dots
}

/// Draws `digit` at place `place`, 0 for the left and 1 for the right.
fn draw_digit(device: &mut HT16K33, digit: u8, place: u8, color: Color) -> (done: Result<
    (),
    CommunicationError,
>)
    requires
        digit <= 9,
        place <= 1,
    ensures
        done == Ok::<(), CommunicationError>(()),
        final(device)@ == after_dots(
            old(device)@,
            digit_dots(digit),
            place as int,
            color,
            DIGIT_DOTS as nat,
        ),
        old(device)@.well_formed() ==> final(device)@.well_formed(),
{
    let ghost start = device@;
    let dots = get_char(digit);
    let mut i: usize = 0;
    while i < 15
        invariant
            i <= 15,
            place <= 1,
            dots@ == digit_dots(digit),
            device@ == after_dots(start, dots@, place as int, color, i as nat),
            start.well_formed() ==> device@.well_formed(),
        decreases 15 - i,
    {
        let x = (i % 3) as u8 + 4 * place;
        let y = (i / 3) as u8 + 1;
        let dot = if dots[i] == 1 {
            color
        } else {
            Color::Off
        };
        device.set_pixel(x, y, dot, false)?;
        i += 1;
    }
    Ok(())
}

/// Shows the number `value` on the matrix, in the colour that goes with
/// its size, and sends the framebuffer. What was on the matrix stays
/// around the digits. A number of three digits does not fit: it is
/// refused and changes nothing.
pub fn show_number(device: &mut HT16K33, value: u8) -> (done: Result<(), CommunicationError>)
    ensures
        value <= LARGEST_NUMBER ==> done == Ok::<(), CommunicationError>(()) && final(device)@
            == after_number(old(device)@, value),
        value > LARGEST_NUMBER ==> done == Err::<(), CommunicationError>(
            CommunicationError::InvalidParameter,
        ) && final(device)@ == old(device)@,
        old(device)@.well_formed() ==> final(device)@.well_formed(),
{
    if value > LARGEST_NUMBER {
        return Err(CommunicationError::InvalidParameter);
    }
    let color = if value <= 21 {
        Color::Green
    } else if value <= 25 {
        Color::Yellow
    } else {
        Color::Red
    };
    if value < 10 {
        draw_digit(device, value, 0, color)?;
    } else {
        draw_digit(device, value / 10, 0, color)?;
        draw_digit(device, value % 10, 1, color)?;
    }
    device.write_display()
}

} // verus!
