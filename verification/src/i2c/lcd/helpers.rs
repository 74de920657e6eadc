//! Loading the display's eight glyph slots, from a table or from a
//! bitmap.
//!
//! A bitmap of 16 by 16 pixels is cut into eight cells, four side by side
//! in each of two rows. A cell is five pixels wide and eight high, and its
//! five columns go to bits 4 down to 0 of each row byte, the leftmost
//! column to bit 4, as the display draws them. The fourth cell of a row
//! has only its first column inside the bitmap.

use vstd::prelude::*;
use crate::bitmap::{image_pixels, image_size, pixel_at};
use crate::bits::{set_bit, with_bit};
use crate::errors::CommunicationError;
use crate::i2c::lcd::{AdafruitDisplay, LcdControllerState, Signal};

verus! {

/// Width and height of a bitmap that holds the eight glyphs.
pub const GLYPH_SHEET_SIZE: u32 = 16;

/// A colour channel at or above this value is bright.
pub const BRIGHT_THRESHOLD: u8 = 240;

/// Whether a pixel is dark enough to be a dot of a glyph: every channel is
/// below the threshold.
pub open spec fn is_dark(pixel: (u8, u8, u8)) -> bool {
    pixel.0 < BRIGHT_THRESHOLD && pixel.1 < BRIGHT_THRESHOLD && pixel.2 < BRIGHT_THRESHOLD
}

/// Whether the sheet `pixels` has a dot at column `x` of line `y`. Outside
/// the sheet there is none.
pub open spec fn has_dot(pixels: Map<(int, int), (u8, u8, u8)>, x: int, y: int) -> bool {
    x < GLYPH_SHEET_SIZE && is_dark(pixels[(x, y)])
}

/// Row `row` of the glyph in cell `cell` of the sheet `pixels`: column `k`
/// of the cell is bit `4 - k` of the row, and the three upper bits are 0.
pub open spec fn glyph_row(pixels: Map<(int, int), (u8, u8, u8)>, cell: int, row: int) -> u8 {
    let x = 5 * (cell % 4);
    let y = 8 * (cell / 4) + row;
    with_bit(
        with_bit(
            with_bit(
                with_bit(with_bit(0, 4, has_dot(pixels, x, y)), 3, has_dot(pixels, x + 1, y)),
                2,
                has_dot(pixels, x + 2, y),
            ),
            1,
            has_dot(pixels, x + 3, y),
        ),
        0,
        has_dot(pixels, x + 4, y),
    )
}

/// The largest row of a glyph: all five dots.
pub const FULL_ROW: u8 = 0x1F;

/// Writing one of the five dot bits of a row leaves the row a row.
proof fn lemma_dot_keeps_row(row: u8, bit: u8, on: bool)
    requires
        row <= FULL_ROW,
        bit <= 4,
    ensures
        with_bit(row, bit, on) <= FULL_ROW,
{
    assert(row <= 0x1F && bit <= 4 ==> (row | (1u8 << bit)) <= 0x1F && (row & !(1u8 << bit))
        <= 0x1F) by (bit_vector);
}

/// A row cut from a sheet has five significant bits: it is a row that
/// `create_char` can take as it is.
pub proof fn lemma_glyph_row_fits(pixels: Map<(int, int), (u8, u8, u8)>, cell: int, row: int)
    ensures
        glyph_row(pixels, cell, row) <= FULL_ROW,
{
    let x = 5 * (cell % 4);
    let y = 8 * (cell / 4) + row;
    let r4 = with_bit(0, 4, has_dot(pixels, x, y));
    let r3 = with_bit(r4, 3, has_dot(pixels, x + 1, y));
    let r2 = with_bit(r3, 2, has_dot(pixels, x + 2, y));
    let r1 = with_bit(r2, 1, has_dot(pixels, x + 3, y));
    lemma_dot_keeps_row(0, 4, has_dot(pixels, x, y));
    lemma_dot_keeps_row(r4, 3, has_dot(pixels, x + 1, y));
    lemma_dot_keeps_row(r3, 2, has_dot(pixels, x + 2, y));
    lemma_dot_keeps_row(r2, 1, has_dot(pixels, x + 3, y));
    lemma_dot_keeps_row(r1, 0, has_dot(pixels, x + 4, y));
}

/// Every row of every glyph cut from a sheet has five significant bits.
pub proof fn lemma_sheet_rows_fit(pixels: Map<(int, int), (u8, u8, u8)>)
    ensures
        sheet_glyphs(pixels).len() == 8,
        forall|cell: int, row: int|
            0 <= cell < 8 && 0 <= row < 8 ==> sheet_glyphs(pixels)[cell].len() == 8
                && #[trigger] sheet_glyphs(pixels)[cell][row] <= FULL_ROW,
{
    assert forall|cell: int, row: int| 0 <= cell < 8 && 0 <= row < 8 implies sheet_glyphs(
        pixels,
    )[cell].len() == 8 && #[trigger] sheet_glyphs(pixels)[cell][row] <= FULL_ROW by {
        lemma_glyph_row_fits(pixels, cell, row);
    }
}

/// The eight glyphs of the sheet `pixels`, eight rows each.
pub open spec fn sheet_glyphs(pixels: Map<(int, int), (u8, u8, u8)>) -> Seq<Seq<u8>> {
    Seq::new(8, |cell: int| Seq::new(8, |row: int| glyph_row(pixels, cell, row)))
}

/// The glyphs of `data`, each as the sequence of its rows.
pub open spec fn rows_of(data: Seq<[u8; 8]>) -> Seq<Seq<u8>> {
    Seq::new(data.len(), |i: int| data[i]@)
}

/// The display after the glyphs of `glyphs` were stored in slots 0, 1, 2
/// and so on.
pub open spec fn after_glyphs(state: LcdControllerState, glyphs: Seq<Seq<u8>>) -> LcdControllerState
    decreases glyphs.len(),
{
    if glyphs.len() == 0 {
        state
    } else {
        after_glyphs(state, glyphs.drop_last()).after_create_char(
            (glyphs.len() - 1) as u8,
            glyphs.last(),
        )
    }
}

/// The glyphs that together draw the crab.
pub open spec fn ferris_glyphs() -> Seq<Seq<u8>> {
    seq![
        seq![0x0u8, 0x3, 0xf, 0xf, 0xf, 0x1e, 0x18, 0x18],
        seq![0x0u8, 0x18, 0x0, 0x18, 0x10, 0x0, 0x0, 0x0],
        seq![0x0u8, 0xf, 0x3, 0xf, 0x7, 0x1, 0x0, 0x0],
        seq![0x0u8, 0x0, 0x18, 0x18, 0x18, 0x1c, 0xc, 0xc],
        seq![0x19u8, 0x1f, 0xf, 0x3, 0xf, 0x19, 0x3, 0x6],
        seq![0x1fu8, 0x1f, 0x1f, 0x1f, 0x1f, 0x1f, 0x1f, 0xf],
        seq![0x1eu8, 0x1f, 0x1f, 0x1f, 0x1f, 0x1e, 0x1f, 0x19],
        seq![0xcu8, 0x1c, 0x18, 0x0, 0x18, 0xc, 0x0, 0x10],
    ]
}

/// Schedules an idle time of `duration` microseconds on the display's bus.
pub fn delay_microseconds(display: &mut AdafruitDisplay, duration: u64)
    requires
        old(display)@.well_formed(),
    ensures
        final(display)@ == old(display)@.after_script(seq![Signal::Wait { micros: duration }]),
        final(display)@.well_formed(),
{
    display.wait(duration);
}

/// Stores the eight glyphs of `data` in the slots 0 to 7.
pub fn load_16px_block(display: &mut AdafruitDisplay, data: [[u8; 8]; 8]) -> (done: Result<
    (),
    CommunicationError,
>)
    requires
        old(display)@.well_formed(),
    ensures
        done == Ok::<(), CommunicationError>(()),
        final(display)@ == after_glyphs(old(display)@, rows_of(data@)),
        final(display)@.well_formed(),
{
    let ghost start = display@;
    let ghost glyphs = rows_of(data@);
    let mut i: usize = 0;
    while i < 8
        invariant
            i <= 8,
            glyphs == rows_of(data@),
            glyphs.len() == 8,
            display@.well_formed(),
            display@ == after_glyphs(start, glyphs.take(i as int)),
        decreases 8 - i,
    {
        proof {
            assert(glyphs.take(i + 1).drop_last() =~= glyphs.take(i as int));
        }
        let _ = display.create_char(i as u8, data[i])?;
        i += 1;
    }
    assert(glyphs.take(8) =~= glyphs);
    Ok(())
}

/// Stores the crab in the slots 0 to 7.
pub fn load_ferris(display: &mut AdafruitDisplay) -> (done: Result<(), CommunicationError>)
    requires
        old(display)@.well_formed(),
    ensures
        done == Ok::<(), CommunicationError>(()),
        final(display)@ == after_glyphs(old(display)@, ferris_glyphs()),
        final(display)@.well_formed(),
{
    let data = [
        [0x0, 0x3, 0xf, 0xf, 0xf, 0x1e, 0x18, 0x18],
        [0x0, 0x18, 0x0, 0x18, 0x10, 0x0, 0x0, 0x0],
        [0x0, 0xf, 0x3, 0xf, 0x7, 0x1, 0x0, 0x0],
        [0x0, 0x0, 0x18, 0x18, 0x18, 0x1c, 0xc, 0xc],
        [0x19, 0x1f, 0xf, 0x3, 0xf, 0x19, 0x3, 0x6],
        [0x1f, 0x1f, 0x1f, 0x1f, 0x1f, 0x1f, 0x1f, 0xf],
        [0x1e, 0x1f, 0x1f, 0x1f, 0x1f, 0x1e, 0x1f, 0x19],
        [0xc, 0x1c, 0x18, 0x0, 0x18, 0xc, 0x0, 0x10],
    ];
    proof {
        let glyphs = rows_of(data@);
        let ferris = ferris_glyphs();
        assert(glyphs.len() == 8);
        assert(glyphs[0] =~= ferris[0]);
        assert(glyphs[1] =~= ferris[1]);
        assert(glyphs[2] =~= ferris[2]);
        assert(glyphs[3] =~= ferris[3]);
        assert(glyphs[4] =~= ferris[4]);
        assert(glyphs[5] =~= ferris[5]);
        assert(glyphs[6] =~= ferris[6]);
        assert(glyphs[7] =~= ferris[7]);
        assert(glyphs =~= ferris);
    }
    load_16px_block(display, data)
}

/// Whether `image` has a dot at column `x` of line `y`.
fn dot_at(image: &bmp::Image, x: u32, y: u32) -> (dot: bool)
    requires
        image_size(*image) == (GLYPH_SHEET_SIZE as nat, GLYPH_SHEET_SIZE as nat),
        x < 20,
        y < GLYPH_SHEET_SIZE,
    ensures
        dot == has_dot(image_pixels(*image), x as int, y as int),
{
    if x < GLYPH_SHEET_SIZE {
        let pixel = pixel_at(image, x, y);
        pixel.0 < BRIGHT_THRESHOLD && pixel.1 < BRIGHT_THRESHOLD && pixel.2 < BRIGHT_THRESHOLD
    } else {
        false
    }
}

/// Cuts the eight glyphs out of `image`. An image that is not 16 by 16
/// pixels is refused.
pub fn glyphs_from_bmp(image: &bmp::Image) -> (cut: Result<[[u8; 8]; 8], CommunicationError>)
    ensures
        image_size(*image) == (GLYPH_SHEET_SIZE as nat, GLYPH_SHEET_SIZE as nat) ==> (
        cut matches Ok(data) && rows_of(data@) == sheet_glyphs(image_pixels(*image)) && (forall|
            cell: int,
            row: int,
        | 0 <= cell < 8 && 0 <= row < 8 ==> #[trigger] data@[cell]@[row] <= FULL_ROW)),
        image_size(*image) != (GLYPH_SHEET_SIZE as nat, GLYPH_SHEET_SIZE as nat) ==> cut == Err::<
            [[u8; 8]; 8],
            CommunicationError,
        >(CommunicationError::BitmapFormatError),
{
    if image.get_width() != GLYPH_SHEET_SIZE || image.get_height() != GLYPH_SHEET_SIZE {
        return Err(CommunicationError::BitmapFormatError);
    }
    let ghost pixels = image_pixels(*image);
    let mut data = [[0u8; 8]; 8];
    let mut cell: usize = 0;
    while cell < 8
        invariant
            cell <= 8,
            pixels == image_pixels(*image),
            image_size(*image) == (GLYPH_SHEET_SIZE as nat, GLYPH_SHEET_SIZE as nat),
            forall|c: int, r: int|
                0 <= c < cell && 0 <= r < 8 ==> data@[c]@[r] == glyph_row(pixels, c, r),
        decreases 8 - cell,
    {
        let mut rows = [0u8; 8];
        let mut row: usize = 0;
        while row < 8
            invariant
                row <= 8,
                cell < 8,
                pixels == image_pixels(*image),
                image_size(*image) == (GLYPH_SHEET_SIZE as nat, GLYPH_SHEET_SIZE as nat),
                forall|r: int| 0 <= r < row ==> rows@[r] == glyph_row(pixels, cell as int, r),
            decreases 8 - row,
        {
            let x = 5 * (cell % 4) as u32;
            let y = (8 * (cell / 4) + row) as u32;
            let mut byte: u8 = 0;
            byte = set_bit(byte, 4, dot_at(image, x, y));
            byte = set_bit(byte, 3, dot_at(image, x + 1, y));
            byte = set_bit(byte, 2, dot_at(image, x + 2, y));
            byte = set_bit(byte, 1, dot_at(image, x + 3, y));
            byte = set_bit(byte, 0, dot_at(image, x + 4, y));
            rows[row] = byte;
            row += 1;
        }
        data[cell] = rows;
        cell += 1;
    }
    proof {
        let glyphs = rows_of(data@);
        let sheet = sheet_glyphs(pixels);
        assert forall|c: int| 0 <= c < 8 implies glyphs[c] == sheet[c] by {
            assert(glyphs[c] =~= sheet[c]);
        }
        assert(glyphs =~= sheet);
        assert forall|c: int, r: int| 0 <= c < 8 && 0 <= r < 8 implies #[trigger] data@[c]@[r]
            <= FULL_ROW by {
            lemma_glyph_row_fits(pixels, c, r);
        }
    }
    Ok(data)
}

/// Cuts the eight glyphs out of `image` and stores them in the slots 0 to
/// 7. An image that is not 16 by 16 pixels is refused and changes
/// nothing.
pub fn load_characters_from_bmp(display: &mut AdafruitDisplay, image: &bmp::Image) -> (done:
    Result<(), CommunicationError>)
    requires
        old(display)@.well_formed(),
    ensures
        image_size(*image) == (GLYPH_SHEET_SIZE as nat, GLYPH_SHEET_SIZE as nat) ==> done == Ok::<
            (),
            CommunicationError,
        >(()) && final(display)@ == after_glyphs(
            old(display)@,
            sheet_glyphs(image_pixels(*image)),
        ),
        image_size(*image) != (GLYPH_SHEET_SIZE as nat, GLYPH_SHEET_SIZE as nat) ==> done == Err::<
            (),
            CommunicationError,
        >(CommunicationError::BitmapFormatError) && final(display)@ == old(display)@,
        final(display)@.well_formed(),
{
    let data = glyphs_from_bmp(image)?;
    load_16px_block(display, data)
}

/// The banner's first line: the upper half of the crab and a caption.
pub open spec fn banner_top() -> Seq<char> {
    "\u{0}\u{1}\u{2}\u{3} Pi"@
}

/// The banner's second line: the lower half of the crab and a caption.
pub open spec fn banner_bottom() -> Seq<char> {
    "\u{4}\u{5}\u{6}\u{7} HOLE"@
}

/// The display after the banner was drawn.
pub open spec fn after_banner(state: LcdControllerState) -> LcdControllerState {
    after_glyphs(state, ferris_glyphs()).after_clear().after_home().after_message(
        banner_top(),
    ).after_set_cursor(0, 1).after_message(banner_bottom())
}

/// Draws the banner: loads the crab into the glyph slots, clears the
/// display, and writes the crab with a caption over the first two lines.
pub fn display_ferris(display: &mut AdafruitDisplay) -> (done: Result<(), CommunicationError>)
    requires
        old(display)@.well_formed(),
    ensures
        done == Ok::<(), CommunicationError>(()),
        final(display)@ == after_banner(old(display)@),
        final(display)@.well_formed(),
{
    load_ferris(display)?;
    display.clear()?;
    display.home()?;
    display.message("\u{0}\u{1}\u{2}\u{3} Pi")?;
    display.set_cursor(0, 1)?;
    display.message("\u{4}\u{5}\u{6}\u{7} HOLE")?;
    Ok(())
}

} // verus!
