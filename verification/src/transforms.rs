use vstd::prelude::*;
use crate::imaging::{
    crop_imm_rgba8, fliph_rgba8, flipv_rgba8, resize_lanczos3_rgba8,
    rotate270_rgba8, rotate90_rgba8,
};
use crate::raster::{
    byte_at, cropped, flipped_h, flipped_v, lemma_cropped_moves_pixels, lemma_flipped_h_moves_pixels,
    lemma_flipped_v_moves_pixels, lemma_rotated_ccw_moves_pixels, lemma_rotated_cw_moves_pixels,
    lemma_uniform_image_has_uniform_reach, all_pixels_are, pixel_is, reach_is_uniform, resample_in_range,
    rotated_ccw, rotated_cw, Raster,
};

verus! {

/// The smaller of two naturals.
pub open spec fn min_nat(a: nat, b: nat) -> nat {
    if a <= b {
        a
    } else {
        b
    }
}

/// The rectangle that a crop request `(x, y, w, h)` on an `iw` x `ih` image
/// is clamped to: the origin is moved onto the last column / row when it lies
/// past them, and the size is cut to what remains of the image.
pub open spec fn clamped_rect(iw: nat, ih: nat, x: nat, y: nat, w: nat, h: nat) -> (
    nat,
    nat,
    nat,
    nat,
) {
    let cx = min_nat(x, if iw == 0 { 0 } else { (iw - 1) as nat });
    let cy = min_nat(y, if ih == 0 { 0 } else { (ih - 1) as nat });
    let cw = min_nat(w, (iw - cx) as nat);
    let ch = min_nat(h, (ih - cy) as nat);
    (cx, cy, cw, ch)
}

/// The crop that a request leads to: the clamped rectangle, unless it is empty.
pub open spec fn crop_outcome(iw: nat, ih: nat, x: nat, y: nat, w: nat, h: nat) -> Option<
    (nat, nat, nat, nat),
> {
    let r = clamped_rect(iw, ih, x, y, w, h);
    if r.2 == 0 || r.3 == 0 {
        None
    } else {
        Some(r)
    }
}

/// A crop request that lies inside the image, and is not empty, is cropped
/// exactly as asked.
pub proof fn lemma_crop_inside_is_exact(iw: nat, ih: nat, x: nat, y: nat, w: nat, h: nat)
    requires
        x + w <= iw,
        y + h <= ih,
        w > 0,
        h > 0,
    ensures
        crop_outcome(iw, ih, x, y, w, h) == Some((x, y, w, h)),
{
}

/// Clamps a crop request `(x, y, w, h)` to an `iw` x `ih` image; `None` when
/// nothing of the image remains.
pub fn crop_rect(iw: u32, ih: u32, x: u32, y: u32, w: u32, h: u32) -> (r: Option<
    (u32, u32, u32, u32),
>)
    ensures
        r matches Some(c) ==> crop_outcome(iw as nat, ih as nat, x as nat, y as nat, w as nat, h as nat)
            == Some((c.0 as nat, c.1 as nat, c.2 as nat, c.3 as nat)),
        r is None <==> crop_outcome(
            iw as nat,
            ih as nat,
            x as nat,
            y as nat,
            w as nat,
            h as nat,
        ) is None,
        r matches Some(c) ==> c.0 + c.2 <= iw && c.1 + c.3 <= ih && c.2 > 0 && c.3 > 0,
        x + w <= iw && y + h <= ih && w > 0 && h > 0 ==> r == Some((x, y, w, h)),
        r matches Some(c) ==> {
            &&& (x < iw ==> c.0 == x)
            &&& (x >= iw ==> c.0 == iw - 1)
            &&& (y < ih ==> c.1 == y)
            &&& (y >= ih ==> c.1 == ih - 1)
            &&& (c.0 + w <= iw ==> c.2 == w)
            &&& (c.0 + w > iw ==> c.2 == iw - c.0)
            &&& (c.1 + h <= ih ==> c.3 == h)
            &&& (c.1 + h > ih ==> c.3 == ih - c.1)
        },
        r is None <==> (iw == 0 || ih == 0 || w == 0 || h == 0),
{
    let x = if x < iw.saturating_sub(1) {
        x
    } else {
        iw.saturating_sub(1)
    };
    let y = if y < ih.saturating_sub(1) {
        y
    } else {
        ih.saturating_sub(1)
    };
    let w = if w < iw - x {
        w
    } else {
        iw - x
    };
    let h = if h < ih - y {
        h
    } else {
        ih - y
    };
    if w == 0 || h == 0 {
        return None;
    }
    Some((x, y, w, h))
}

/// The rectangle spanned by the corners `(x1, y1)` (top left) and `(x2, y2)`
/// (bottom right), with a size of zero where a corner lies on the wrong side.
pub fn rect_between(x1: u32, y1: u32, x2: u32, y2: u32) -> (r: (u32, u32, u32, u32))
    ensures
        r.0 == x1,
        r.1 == y1,
        r.2 == (if x2 >= x1 { x2 - x1 } else { 0 }),
        r.3 == (if y2 >= y1 { y2 - y1 } else { 0 }),
{
    (x1, y1, x2.saturating_sub(x1), y2.saturating_sub(y1))
}

/// Cuts the rectangle `(x, y, w, h)`, clamped to the image, out of `img`;
/// `None` when nothing of the image remains.
pub fn crop(img: &Raster, x: u32, y: u32, w: u32, h: u32) -> (r: Option<Raster>)
    ensures
        r is None <==> crop_outcome(img.w(), img.h(), x as nat, y as nat, w as nat, h as nat) is None,
        r matches Some(out) ==> {
            let c = crop_outcome(img.w(), img.h(), x as nat, y as nat, w as nat, h as nat).unwrap();
            &&& out.w() == c.2
            &&& out.h() == c.3
            &&& out@ == cropped(img.w(), img@, c.0, c.1, c.2, c.3)
        },
        x + w <= img.w() && y + h <= img.h() && w > 0 && h > 0 ==> (r matches Some(out) && {
            &&& out.w() == w
            &&& out.h() == h
            &&& forall|dx: int, dy: int, c: int|
                0 <= dx < w && 0 <= dy < h && 0 <= c < 4 ==> #[trigger] byte_at(w as int, out@, dx, dy, c)
                    == byte_at(img.w() as int, img@, x + dx, y + dy, c)
        }),
{
    let iw = img.width();
    let ih = img.height();
    match crop_rect(iw, ih, x, y, w, h) {
        None => None,
        Some((cx, cy, cw, ch)) => {
            let p = crop_imm_rgba8(iw, ih, img.pixels(), cx, cy, cw, ch);
            proof {
                lemma_cropped_moves_pixels(iw as nat, ih as nat, img@, cx as nat, cy as nat, cw as nat, ch as nat);
            }
            Some(Raster::from_parts(cw, ch, p))
        },
    }
}

/// Turns the image a quarter clockwise.
pub fn rotate_cw(img: &Raster) -> (r: Raster)
    ensures
        r.w() == img.h(),
        r.h() == img.w(),
        r@ == rotated_cw(img.w(), img.h(), img@),
        forall|x: int, y: int, c: int|
            0 <= x < img.w() && 0 <= y < img.h() && 0 <= c < 4 ==> byte_at(
                img.h() as int,
                r@,
                img.h() - 1 - y,
                x,
                c,
            ) == #[trigger] byte_at(img.w() as int, img@, x, y, c),
{
    let w = img.width();
    let h = img.height();
    let p = rotate90_rgba8(w, h, img.pixels());
    assert(h * w * 4 == w * h * 4) by (nonlinear_arith);
    proof {
        lemma_rotated_cw_moves_pixels(w as nat, h as nat, img@);
    }
    Raster::from_parts(h, w, p)
}

/// Turns the image a quarter counter-clockwise.
pub fn rotate_ccw(img: &Raster) -> (r: Raster)
    ensures
        r.w() == img.h(),
        r.h() == img.w(),
        r@ == rotated_ccw(img.w(), img.h(), img@),
        forall|x: int, y: int, c: int|
            0 <= x < img.w() && 0 <= y < img.h() && 0 <= c < 4 ==> byte_at(
                img.h() as int,
                r@,
                y,
                img.w() - 1 - x,
                c,
            ) == #[trigger] byte_at(img.w() as int, img@, x, y, c),
{
    let w = img.width();
    let h = img.height();
    let p = rotate270_rgba8(w, h, img.pixels());
    assert(h * w * 4 == w * h * 4) by (nonlinear_arith);
    proof {
        lemma_rotated_ccw_moves_pixels(w as nat, h as nat, img@);
    }
    Raster::from_parts(h, w, p)
}

/// Mirrors the image left to right.
pub fn flip_h(img: &Raster) -> (r: Raster)
    ensures
        r.w() == img.w(),
        r.h() == img.h(),
        r@ == flipped_h(img.w(), img.h(), img@),
        forall|x: int, y: int, c: int|
            0 <= x < img.w() && 0 <= y < img.h() && 0 <= c < 4 ==> byte_at(
                img.w() as int,
                r@,
                img.w() - 1 - x,
                y,
                c,
            ) == #[trigger] byte_at(img.w() as int, img@, x, y, c),
{
    let p = fliph_rgba8(img.width(), img.height(), img.pixels());
    proof {
        lemma_flipped_h_moves_pixels(img.w(), img.h(), img@);
    }
    Raster::from_parts(img.width(), img.height(), p)
}

/// Mirrors the image top to bottom.
pub fn flip_v(img: &Raster) -> (r: Raster)
    ensures
        r.w() == img.w(),
        r.h() == img.h(),
        r@ == flipped_v(img.w(), img.h(), img@),
        forall|x: int, y: int, c: int|
            0 <= x < img.w() && 0 <= y < img.h() && 0 <= c < 4 ==> byte_at(
                img.w() as int,
                r@,
                x,
                img.h() - 1 - y,
                c,
            ) == #[trigger] byte_at(img.w() as int, img@, x, y, c),
{
    let p = flipv_rgba8(img.width(), img.height(), img.pixels());
    proof {
        lemma_flipped_v_moves_pixels(img.w(), img.h(), img@);
    }
    Raster::from_parts(img.width(), img.height(), p)
}

/// Resamples the image to `w` x `h` pixels with a Lanczos3 filter. At the
/// image's own size the pixels stay as they are; an empty image gives black
/// transparent pixels; and (for the sizes of `resample_in_range`) an output
/// pixel whose source pixels within the filter's reach all hold one color
/// holds that color. Which other values come out is up to the resampling
/// (see `resize_lanczos3_rgba8`).
pub fn resize(img: &Raster, w: u32, h: u32) -> (r: Raster)
    requires
        w * h * 4 <= usize::MAX,
        img.w() == 0 || img.h() == 0 || (w == img.w() && h == img.h()) || img.w() * h * 4
            <= usize::MAX,
    ensures
        r.w() == w,
        r.h() == h,
        w == img.w() && h == img.h() ==> r@ == img@,
        img.w() == 0 || img.h() == 0 ==> forall|i: int| 0 <= i < r@.len() ==> r@[i] == 0,
        resample_in_range(img.w(), img.h(), w as nat, h as nat) ==> forall|
            ox: int,
            oy: int,
            q: (u8, u8, u8, u8),
        |
            0 <= ox < w && 0 <= oy < h && #[trigger] reach_is_uniform(
                img.w() as int,
                img.h() as int,
                img@,
                w as int,
                h as int,
                ox,
                oy,
                q,
            ) ==> pixel_is(w as int, r@, ox, oy, q),
        forall|q: (u8, u8, u8, u8)|
            resample_in_range(img.w(), img.h(), w as nat, h as nat) && #[trigger] all_pixels_are(
                img.w() as int,
                img.h() as int,
                img@,
                q,
            ) ==> all_pixels_are(w as int, h as int, r@, q),
{
    let p = resize_lanczos3_rgba8(img.width(), img.height(), img.pixels(), w, h);
    proof {
        assert forall|q: (u8, u8, u8, u8)|
            resample_in_range(img.w(), img.h(), w as nat, h as nat) && #[trigger] all_pixels_are(
                img.w() as int,
                img.h() as int,
                img@,
                q,
            ) implies all_pixels_are(w as int, h as int, p@, q) by {
            lemma_uniform_image_has_uniform_reach(img.w(), img.h(), img@, w as nat, h as nat, q);
            assert forall|ox: int, oy: int| 0 <= ox < w && 0 <= oy < h implies #[trigger] pixel_is(
                w as int,
                p@,
                ox,
                oy,
                q,
            ) by {
                assert(reach_is_uniform(
                    img.w() as int,
                    img.h() as int,
                    img@,
                    w as int,
                    h as int,
                    ox,
                    oy,
                    q,
                ));
            }
        }
    }
    Raster::from_parts(w, h, p)
}

} // verus!
