use rustberrypi::bus::Transaction;
use rustberrypi::errors::CommunicationError;
use rustberrypi::i2c::io::{MCP230xx, GPIO};
use rustberrypi::i2c::lcd::helpers::{
    delay_microseconds, display_ferris, glyphs_from_bmp, load_16px_block,
    load_characters_from_bmp, load_ferris,
};
use rustberrypi::i2c::lcd::AdafruitDisplay;

const FERRIS: [[u8; 8]; 8] = [
    [0x0, 0x3, 0xf, 0xf, 0xf, 0x1e, 0x18, 0x18],
    [0x0, 0x18, 0x0, 0x18, 0x10, 0x0, 0x0, 0x0],
    [0x0, 0xf, 0x3, 0xf, 0x7, 0x1, 0x0, 0x0],
    [0x0, 0x0, 0x18, 0x18, 0x18, 0x1c, 0xc, 0xc],
    [0x19, 0x1f, 0xf, 0x3, 0xf, 0x19, 0x3, 0x6],
    [0x1f, 0x1f, 0x1f, 0x1f, 0x1f, 0x1f, 0x1f, 0xf],
    [0x1e, 0x1f, 0x1f, 0x1f, 0x1f, 0x1e, 0x1f, 0x19],
    [0xc, 0x1c, 0x18, 0x0, 0x18, 0xc, 0x0, 0x10],
];

fn latched(schedule: &[Transaction]) -> Vec<(bool, u8)> {
    let mut bytes = Vec::new();
    let mut enable = false;
    let mut upper: Option<u8> = None;
    for transaction in schedule {
        if let Transaction::BlockWrite { register, data } = transaction {
            if *register != GPIO {
                continue;
            }
            let port = data[1];
            let now = port & 0x20 != 0;
            if now && !enable {
                let nibble = ((port >> 1) & 1) << 3
                    | ((port >> 2) & 1) << 2
                    | ((port >> 3) & 1) << 1
                    | ((port >> 4) & 1);
                match upper.take() {
                    None => upper = Some(nibble),
                    Some(high) => bytes.push((port & 0x80 != 0, high << 4 | nibble)),
                }
            }
            enable = now;
        }
    }
    bytes
}

fn started() -> AdafruitDisplay {
    let mut display = AdafruitDisplay::for_backplate().unwrap();
    display.take_pending();
    display
}

fn slots(glyphs: &[[u8; 8]; 8]) -> Vec<(bool, u8)> {
    let mut bytes = Vec::new();
    for (slot, glyph) in glyphs.iter().enumerate() {
        bytes.push((false, 0x40 | (slot as u8) << 3));
        bytes.extend(glyph.iter().map(|row| (true, *row)));
    }
    bytes
}

fn sheet(width: u32, height: u32, dark: &[(u32, u32)]) -> bmp::Image {
    let mut image = bmp::Image::new(width, height);
    for y in 0..height {
        for x in 0..width {
            image.set_pixel(x, y, bmp::Pixel::new(255, 255, 255));
        }
    }
    for (x, y) in dark {
        image.set_pixel(*x, *y, bmp::Pixel::new(0, 0, 0));
    }
    image
}

#[test]
fn load_16px_block_fills_the_slots_in_order() {
    let mut glyphs = [[0u8; 8]; 8];
    for (slot, glyph) in glyphs.iter_mut().enumerate() {
        for (row, byte) in glyph.iter_mut().enumerate() {
            *byte = (slot * 8 + row) as u8 & 0x1F;
        }
    }
    let mut display = started();
    load_16px_block(&mut display, glyphs).unwrap();
    assert_eq!(latched(&display.take_pending()), slots(&glyphs));
}

#[test]
fn load_ferris_loads_the_crab() {
    let mut display = started();
    load_ferris(&mut display).unwrap();
    assert_eq!(latched(&display.take_pending()), slots(&FERRIS));
}

#[test]
fn display_ferris_draws_the_banner() {
    let mut display = started();
    display_ferris(&mut display).unwrap();
    let mut expected = slots(&FERRIS);
    expected.push((false, 0x01));
    expected.push((false, 0x02));
    expected.extend([0u8, 1, 2, 3, b' ', b'P', b'i'].iter().map(|c| (true, *c)));
    expected.push((false, 0xC0));
    expected.extend([4u8, 5, 6, 7, b' ', b'H', b'O', b'L', b'E'].iter().map(|c| (true, *c)));
    assert_eq!(latched(&display.take_pending()), expected);
    assert_eq!(display.cursor(), (0, 1));
}

#[test]
fn a_black_sheet_gives_full_cells() {
    let black = bmp::Image::new(16, 16);
    let glyphs = glyphs_from_bmp(&black).unwrap();
    for cell in 0..8 {
        // the fourth cell of each row has a single column inside the sheet
        let expected = if cell % 4 == 3 { 0x10 } else { 0x1F };
        assert_eq!(glyphs[cell], [expected; 8]);
    }
}

#[test]
fn every_row_has_five_significant_bits() {
    let black = bmp::Image::new(16, 16);
    for glyph in glyphs_from_bmp(&black).unwrap().iter() {
        for row in glyph.iter() {
            assert!(*row <= 0x1F);
        }
    }
    // the first column of a cell is the leftmost dot of the glyph
    let glyphs = glyphs_from_bmp(&sheet(16, 16, &[(0, 0)])).unwrap();
    assert_eq!(glyphs[0][0], 0x10);
    let glyphs = glyphs_from_bmp(&sheet(16, 16, &[(4, 0)])).unwrap();
    assert_eq!(glyphs[0][0], 0x01);
}

#[test]
fn a_white_sheet_gives_empty_cells() {
    assert_eq!(glyphs_from_bmp(&sheet(16, 16, &[])), Ok([[0u8; 8]; 8]));
}

#[test]
fn a_dot_lands_in_its_cell_row_and_bit() {
    for y in 0u32..16 {
        for x in 0u32..16 {
            let glyphs = glyphs_from_bmp(&sheet(16, 16, &[(x, y)])).unwrap();
            let mut expected = [[0u8; 8]; 8];
            expected[(x / 5 + 4 * (y / 8)) as usize][(y % 8) as usize] = 1 << (4 - x % 5);
            assert_eq!(glyphs, expected);
        }
    }
}

#[test]
fn a_pixel_is_a_dot_when_every_channel_is_below_240() {
    for (pixel, dot) in [
        ((0u8, 0u8, 0u8), true),
        ((239, 239, 239), true),
        ((240, 239, 239), false),
        ((239, 240, 239), false),
        ((239, 239, 240), false),
        ((255, 0, 0), false),
        ((255, 255, 255), false),
    ] {
        let mut image = sheet(16, 16, &[]);
        image.set_pixel(6, 9, bmp::Pixel::new(pixel.0, pixel.1, pixel.2));
        let glyphs = glyphs_from_bmp(&image).unwrap();
        assert_eq!(glyphs[5][1], if dot { 0x08 } else { 0x00 });
    }
}

#[test]
fn load_characters_from_bmp_loads_what_it_cut() {
    let image = sheet(16, 16, &[(0, 0), (4, 0), (5, 7), (15, 15), (10, 8)]);
    let glyphs = glyphs_from_bmp(&image).unwrap();
    assert_eq!(glyphs[0][0], 0x11);
    assert_eq!(glyphs[1][7], 0x10);
    assert_eq!(glyphs[7][7], 0x10);
    assert_eq!(glyphs[6][0], 0x10);
    let mut display = started();
    load_characters_from_bmp(&mut display, &image).unwrap();
    assert_eq!(latched(&display.take_pending()), slots(&glyphs));
}

#[test]
fn a_sheet_of_another_size_is_refused() {
    for (width, height) in [(8u32, 8u32), (15, 16), (16, 15), (17, 16), (16, 32), (0, 0)] {
        let image = sheet(width, height, &[]);
        assert_eq!(glyphs_from_bmp(&image), Err(CommunicationError::BitmapFormatError));
        let mut display = started();
        assert_eq!(
            load_characters_from_bmp(&mut display, &image),
            Err(CommunicationError::BitmapFormatError)
        );
        assert!(display.take_pending().is_empty());
    }
}

#[test]
fn a_delay_is_scheduled_not_slept() {
    let mut display = started();
    delay_microseconds(&mut display, 4_000_000);
    delay_microseconds(&mut display, 0);
    assert_eq!(
        display.take_pending(),
        vec![Transaction::Delay { micros: 4_000_000 }, Transaction::Delay { micros: 0 }]
    );
    let _ = MCP230xx::for_mcp23017();
}
