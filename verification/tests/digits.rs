use rustberrypi::bus::Transaction;
use rustberrypi::errors::CommunicationError;
use rustberrypi::i2c::led::digits::show_number;
use rustberrypi::i2c::led::{BicolorMatrix8x8, Blink, Color, HT16K33};

fn started() -> HT16K33 {
    let mut matrix = HT16K33::initialize(15, Blink::Off).unwrap();
    matrix.take_pending();
    matrix
}

/// The matrix as lines of letters: `.` dark, `g` green, `r` red, `y`
/// yellow.
fn picture(matrix: &HT16K33) -> Vec<String> {
    let buffer = matrix.framebuffer();
    (0..8)
        .map(|y| {
            (0..8)
                .map(|x| {
                    let green = buffer[2 * y] & (1 << x) != 0;
                    let red = buffer[2 * y + 1] & (1 << x) != 0;
                    match (green, red) {
                        (false, false) => '.',
                        (true, false) => 'g',
                        (false, true) => 'r',
                        (true, true) => 'y',
                    }
                })
                .collect()
        })
        .collect()
}

#[test]
fn a_small_number_is_one_green_digit() {
    let mut matrix = started();
    show_number(&mut matrix, 7).unwrap();
    assert_eq!(
        picture(&matrix),
        vec!["........", "ggg.....", "..g.....", "..g.....", "..g.....", "..g.....", "........", "........"]
    );
    let sent = matrix.take_pending();
    assert_eq!(sent.len(), 16);
    assert_eq!(sent[2], Transaction::BlockWrite { register: 2, data: vec![0x07] });
    assert_eq!(sent[3], Transaction::BlockWrite { register: 3, data: vec![0x00] });
}

#[test]
fn two_digits_stand_four_columns_apart() {
    let mut matrix = started();
    show_number(&mut matrix, 24).unwrap();
    assert_eq!(
        picture(&matrix),
        vec!["........", "yyy.y.y.", "..y.y.y.", "yyy.yyy.", "y.....y.", "yyy...y.", "........", "........"]
    );
    show_number(&mut matrix, 80).unwrap();
    assert_eq!(
        picture(&matrix),
        vec!["........", "rrr.rrr.", "r.r.r.r.", "rrr.r.r.", "r.r.r.r.", "rrr.rrr.", "........", "........"]
    );
}

#[test]
fn the_colour_goes_with_the_size() {
    for (value, letter) in [(0u8, 'g'), (21, 'g'), (22, 'y'), (25, 'y'), (26, 'r'), (99, 'r')] {
        let mut matrix = started();
        show_number(&mut matrix, value).unwrap();
        let lines = picture(&matrix).join("");
        assert!(lines.chars().all(|c| c == '.' || c == letter));
        assert!(lines.contains(letter));
    }
}

#[test]
fn what_was_on_the_matrix_stays_around_the_digits() {
    let mut matrix = started();
    matrix.set_pixel(7, 0, Color::Red, false).unwrap();
    matrix.set_pixel(3, 3, Color::Red, false).unwrap();
    matrix.set_pixel(1, 2, Color::Red, false).unwrap();
    show_number(&mut matrix, 1).unwrap();
    assert_eq!(
        picture(&matrix),
        vec![".......r", ".g......", ".g......", ".g.r....", ".g......", ".g......", "........", "........"]
    );
}

#[test]
fn a_number_of_three_digits_is_refused() {
    for value in [100u8, 101, 200, 255] {
        let mut matrix = started();
        matrix.set_pixel(0, 0, Color::Yellow, false).unwrap();
        let before = *matrix.framebuffer();
        assert_eq!(show_number(&mut matrix, value), Err(CommunicationError::InvalidParameter));
        assert_eq!(matrix.framebuffer(), &before);
        assert!(matrix.take_pending().is_empty());
    }
}
