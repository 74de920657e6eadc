//! Bitmap images, as the `bmp` crate decodes them.
//!
//! Decoding is the host's business. The drivers read a decoded image
//! through the three functions below, whose contracts are taken on trust
//! from the `bmp` crate's source.

use vstd::prelude::*;

verus! {

#[verifier::external_type_specification]
#[verifier::external_body]
pub struct ExImage(bmp::Image);

/// Width and height of `image`, in pixels.
pub uninterp spec fn image_size(image: bmp::Image) -> (nat, nat);

/// The pixels of `image` as red, green and blue, by column and line, with
/// (0, 0) in the upper left corner.
pub uninterp spec fn image_pixels(image: bmp::Image) -> Map<(int, int), (u8, u8, u8)>;

/// `bmp::Image::get_width` returns the width that the image was made or
/// decoded with.
pub assume_specification[ bmp::Image::get_width ](image: &bmp::Image) -> (width: u32)
    ensures
        width == image_size(*image).0,
;

/// `bmp::Image::get_height` returns the height that the image was made or
/// decoded with.
pub assume_specification[ bmp::Image::get_height ](image: &bmp::Image) -> (height: u32)
    ensures
        height == image_size(*image).1,
;

/// `bmp::Image::get_pixel` returns the pixel at column `x` of line `y`.
/// It indexes the image's pixel store, which holds width times height
/// pixels in an image that the crate made or decoded, and panics outside
/// it: the coordinates have to lie within the image, and the pixel count
/// within `u32`, in which the index is computed.
#[verifier::external_body]
pub(crate) fn pixel_at(image: &bmp::Image, x: u32, y: u32) -> (pixel: (u8, u8, u8))
    requires
        x < image_size(*image).0,
        y < image_size(*image).1,
        image_size(*image).0 * image_size(*image).1 <= u32::MAX,
    ensures
        pixel == image_pixels(*image)[(x as int, y as int)],
{
    let pixel = image.get_pixel(x, y);
    (pixel.r, pixel.g, pixel.b)
}

} // verus!
