//! The pixel store: an `image::ImageBuffer` of RGBA bytes, together with the
//! contracts that the rest of the crate relies on. Nothing in this file is
//! proved; every other file is proved against what is stated here.

use vstd::prelude::*;

verus! {

/// Channels of one stored pixel, in the order red, green, blue, alpha.
pub type Rgba8 = (u8, u8, u8, u8);

/// An owned `image::RgbaImage`. Its contents are known to the verifier only
/// through [`raster_pixels`] and [`raster_extent`].
#[verifier::external_body]
pub struct Raster {
    image: image::ImageBuffer<image::Rgba<u8>, Vec<u8>>,
}

/// The channels stored at each in-bounds coordinate `(x, y)` of a raster.
pub uninterp spec fn raster_pixels(raster: Raster) -> Map<(int, int), Rgba8>;

/// The `(width, height)` a raster was made with.
pub uninterp spec fn raster_extent(raster: Raster) -> (u32, u32);

/// Whether `(x, y)` lies inside a `width` by `height` raster.
pub open spec fn within(width: int, height: int, x: int, y: int) -> bool {
    0 <= x < width && 0 <= y < height
}

/// `ImageBuffer::new`: an image of the given size whose every sample is zero.
/// The call panics when the sample count overflows, and the allocation it makes
/// cannot exceed `isize::MAX` bytes; both are excluded here.
#[verifier::external_body]
pub(crate) fn raster_new(width: u32, height: u32) -> (raster: Raster)
    requires
        4 * width * height <= isize::MAX,
    ensures
        raster_extent(raster) == (width, height),
        raster_pixels(raster) == Map::new(
            |at: (int, int)| within(width as int, height as int, at.0, at.1),
            |at: (int, int)| (0u8, 0u8, 0u8, 0u8),
        ),
{
    Raster { image: image::ImageBuffer::new(width, height) }
}

/// `ImageBuffer::dimensions`: the width and height the image was made with.
#[verifier::external_body]
pub(crate) fn raster_dimensions(raster: &Raster) -> (extent: (u32, u32))
    ensures
        extent == raster_extent(*raster),
{
    raster.image.dimensions()
}

/// `ImageBuffer::get_pixel`: the pixel stored at `(x, y)`. The call panics out
/// of bounds, which the precondition excludes.
#[verifier::external_body]
pub(crate) fn raster_get(raster: &Raster, x: u32, y: u32) -> (px: Rgba8)
    requires
        x < raster_extent(*raster).0,
        y < raster_extent(*raster).1,
    ensures
        px == raster_pixels(*raster)[(x as int, y as int)],
{
    let c = raster.image.get_pixel(x, y).0;
    (c[0], c[1], c[2], c[3])
}

/// `ImageBuffer::put_pixel`: overwrites the pixel at `(x, y)` and leaves every
/// other pixel and the size alone. The call panics out of bounds, which the
/// precondition excludes.
#[verifier::external_body]
pub(crate) fn raster_put(raster: &mut Raster, x: u32, y: u32, px: Rgba8)
    requires
        x < raster_extent(*old(raster)).0,
        y < raster_extent(*old(raster)).1,
    ensures
        raster_extent(*final(raster)) == raster_extent(*old(raster)),
        raster_pixels(*final(raster)) == raster_pixels(*old(raster)).insert((x as int, y as int), px),
{
    raster.image.put_pixel(x, y, image::Rgba([px.0, px.1, px.2, px.3]))
}

/// `ImageBuffer::as_raw`: the samples of the image, row after row from the
/// top, the pixels of a row from the left, four bytes a pixel in the order
/// red, green, blue, alpha. The bytes are handed back as a copy.
#[verifier::external_body]
pub(crate) fn raster_bytes(raster: &Raster) -> (bytes: Vec<u8>)
    ensures
        bytes@.len() == 4 * raster_extent(*raster).0 * raster_extent(*raster).1,
        forall|x: int, y: int|
            within(raster_extent(*raster).0 as int, raster_extent(*raster).1 as int, x, y) ==> (#[trigger] raster_pixels(
                *raster,
            )[(x, y)]) == (
                bytes@[4 * (y * raster_extent(*raster).0 + x)],
                bytes@[4 * (y * raster_extent(*raster).0 + x) + 1],
                bytes@[4 * (y * raster_extent(*raster).0 + x) + 2],
                bytes@[4 * (y * raster_extent(*raster).0 + x) + 3],
            ),
{
    raster.image.as_raw().clone()
}

} // verus!
