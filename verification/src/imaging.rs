use vstd::prelude::*;
use crate::raster::{
    cropped, flipped_h, flipped_v, pixel_is, reach_is_uniform, resample_in_range, rotated_ccw,
    rotated_cw,
};
use image::imageops::FilterType;
use image::{DynamicImage, RgbaImage};

verus! {

/// Calls `DynamicImage::rotate90` on the RGBA8 image held in `pixels`.
/// The image crate (`imageops::rotate90_in`) builds a `height` x `width`
/// image and puts source pixel `(x, y)` at `(height - 1 - y, x)`; the
/// contract states exactly that.
#[verifier::external_body]
pub(crate) fn rotate90_rgba8(width: u32, height: u32, pixels: &[u8]) -> (r: Vec<u8>)
    requires
        pixels@.len() == width * height * 4,
    ensures
        r@ == rotated_cw(width as nat, height as nat, pixels@),
{
    let img = RgbaImage::from_raw(width, height, pixels.to_vec()).unwrap();
    DynamicImage::ImageRgba8(img).rotate90().into_rgba8().into_raw()
}

/// Calls `DynamicImage::rotate270` on the RGBA8 image held in `pixels`.
/// The image crate (`imageops::rotate270_in`) builds a `height` x `width`
/// image and puts source pixel `(x, y)` at `(y, width - 1 - x)`; the
/// contract states exactly that.
#[verifier::external_body]
pub(crate) fn rotate270_rgba8(width: u32, height: u32, pixels: &[u8]) -> (r: Vec<u8>)
    requires
        pixels@.len() == width * height * 4,
    ensures
        r@ == rotated_ccw(width as nat, height as nat, pixels@),
{
    let img = RgbaImage::from_raw(width, height, pixels.to_vec()).unwrap();
    DynamicImage::ImageRgba8(img).rotate270().into_rgba8().into_raw()
}

/// Calls `DynamicImage::fliph` on the RGBA8 image held in `pixels`.
/// The image crate (`imageops::flip_horizontal_in`) puts source pixel
/// `(x, y)` at `(width - 1 - x, y)`; the contract states exactly that.
#[verifier::external_body]
pub(crate) fn fliph_rgba8(width: u32, height: u32, pixels: &[u8]) -> (r: Vec<u8>)
    requires
        pixels@.len() == width * height * 4,
    ensures
        r@ == flipped_h(width as nat, height as nat, pixels@),
{
    let img = RgbaImage::from_raw(width, height, pixels.to_vec()).unwrap();
    DynamicImage::ImageRgba8(img).fliph().into_rgba8().into_raw()
}

/// Calls `DynamicImage::flipv` on the RGBA8 image held in `pixels`.
/// The image crate (`imageops::flip_vertical_in`) puts source pixel
/// `(x, y)` at `(x, height - 1 - y)`; the contract states exactly that.
#[verifier::external_body]
pub(crate) fn flipv_rgba8(width: u32, height: u32, pixels: &[u8]) -> (r: Vec<u8>)
    requires
        pixels@.len() == width * height * 4,
    ensures
        r@ == flipped_v(width as nat, height as nat, pixels@),
{
    let img = RgbaImage::from_raw(width, height, pixels.to_vec()).unwrap();
    DynamicImage::ImageRgba8(img).flipv().into_rgba8().into_raw()
}

/// Calls `DynamicImage::crop_imm` on the RGBA8 image held in `pixels`, with a
/// rectangle that lies inside the image (so the crate's clamping in
/// `crop_dimms` changes nothing). `SubImage::to_image` copies source pixel
/// `(x + dx, y + dy)` to `(dx, dy)` of a `crop_width` x `crop_height`
/// image; the contract states exactly that.
#[verifier::external_body]
pub(crate) fn crop_imm_rgba8(
    width: u32,
    height: u32,
    pixels: &[u8],
    x: u32,
    y: u32,
    crop_width: u32,
    crop_height: u32,
) -> (r: Vec<u8>)
    requires
        pixels@.len() == width * height * 4,
        x + crop_width <= width,
        y + crop_height <= height,
    ensures
        r@ == cropped(width as nat, pixels@, x as nat, y as nat, crop_width as nat, crop_height as nat),
{
    let img = RgbaImage::from_raw(width, height, pixels.to_vec()).unwrap();
    DynamicImage::ImageRgba8(img).crop_imm(x, y, crop_width, crop_height).into_rgba8().into_raw()
}

/// Calls `DynamicImage::resize_exact(new_width, new_height, FilterType::Lanczos3)`
/// on the RGBA8 image held in `pixels`. What the contract states comes from
/// `imageops::resize` (sample.rs): the result has `new_width * new_height`
/// pixels; an empty source gives an all-zero buffer (`buffer_with_dimensions`);
/// at the image's own size it is a copy of the input. Otherwise a vertical
/// and a horizontal pass each give an output pixel the weighted sum of the
/// source pixels between `floor(c - support)` and `ceil(c + support)` around
/// its centre `c`, with weights that sum to one, rounded and clamped: so
/// where every source pixel within reach holds the same color, the output
/// pixel holds it too. That last clause is stated only for the sizes of
/// `resample_in_range`, where positions are exact in `f32` and at most a
/// hundred weights add up, so the rounding error stays far below half a
/// step. Which values come out elsewhere is left unsaid: the kernel calls
/// `f32::sin`, whose precision the standard library leaves to the platform.
/// The requirements rule out the buffer sizes for which `ImageBuffer::new`
/// panics (the output, and the `width` x `new_height` intermediate buffer).
#[verifier::external_body]
pub(crate) fn resize_lanczos3_rgba8(
    width: u32,
    height: u32,
    pixels: &[u8],
    new_width: u32,
    new_height: u32,
) -> (r: Vec<u8>)
    requires
        pixels@.len() == width * height * 4,
        new_width * new_height * 4 <= usize::MAX,
        width == 0 || height == 0 || (new_width == width && new_height == height) || width
            * new_height * 4 <= usize::MAX,
    ensures
        r@.len() == new_width * new_height * 4,
        new_width == width && new_height == height ==> r@ == pixels@,
        width == 0 || height == 0 ==> forall|i: int| 0 <= i < r@.len() ==> r@[i] == 0,
        resample_in_range(width as nat, height as nat, new_width as nat, new_height as nat) ==> forall|
            ox: int,
            oy: int,
            q: (u8, u8, u8, u8),
        |
            0 <= ox < new_width && 0 <= oy < new_height && #[trigger] reach_is_uniform(
                width as int,
                height as int,
                pixels@,
                new_width as int,
                new_height as int,
                ox,
                oy,
                q,
            ) ==> pixel_is(new_width as int, r@, ox, oy, q),
{
    let img = RgbaImage::from_raw(width, height, pixels.to_vec()).unwrap();
    let out = DynamicImage::ImageRgba8(img).resize_exact(new_width, new_height, FilterType::Lanczos3);
    out.into_rgba8().into_raw()
}

} // verus!
