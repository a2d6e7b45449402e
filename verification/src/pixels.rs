use vstd::prelude::*;
use vstd::arithmetic::div_mod::lemma_fundamental_div_mod;
use crate::raster::{byte_index, chan_of, col_of, lemma_index_join, lemma_index_split, row_of, Raster};

verus! {

/// A straight-alpha channel value scaled by its alpha, rounded to nearest.
pub open spec fn premul(c: u8, a: u8) -> u8 {
    ((c * a + 127) / 255) as u8
}

/// A premultiplied channel value divided by its alpha, rounded to nearest
/// and capped at 255; zero for a fully transparent pixel.
pub open spec fn unpremul(c: u8, a: u8) -> u8 {
    if a == 0 {
        0
    } else {
        let v = (c * 255 + a / 2) / (a as int);
        if v > 255 {
            255
        } else {
            v as u8
        }
    }
}

/// Straight-alpha RGBA pixels (a trailing partial pixel ignored) as
/// premultiplied BGRA, the byte order of a cairo ARGB32 surface on a
/// little-endian machine.
pub open spec fn premultiplied_bgra(rgba: Seq<u8>) -> Seq<u8> {
    Seq::new(
        (rgba.len() / 4) * 4,
        |i: int|
            {
                let k = (i / 4) * 4;
                let a = rgba[k + 3];
                if i % 4 == 0 {
                    premul(rgba[k + 2], a)
                } else if i % 4 == 1 {
                    premul(rgba[k + 1], a)
                } else if i % 4 == 2 {
                    premul(rgba[k], a)
                } else {
                    a
                }
            },
    )
}

/// The straight-alpha RGBA pixels of a premultiplied BGRA surface of
/// `w` x `h` pixels whose rows start `stride` bytes apart.
pub open spec fn unpremultiplied(data: Seq<u8>, w: nat, h: nat, stride: nat) -> Seq<u8> {
    Seq::new(
        w * h * 4,
        |i: int|
            {
                let off = row_of(w as int, i) * stride + col_of(w as int, i) * 4;
                let a = data[off + 3];
                if a == 0 {
                    0u8
                } else if chan_of(i) == 0 {
                    unpremul(data[off + 2], a)
                } else if chan_of(i) == 1 {
                    unpremul(data[off + 1], a)
                } else if chan_of(i) == 2 {
                    unpremul(data[off], a)
                } else {
                    a
                }
            },
    )
}

proof fn lemma_premul_le_alpha(c: u8, a: u8)
    ensures
        premul(c, a) <= a,
        (c * a + 127) / 255 <= 255,
{
    assert((c * a + 127) / 255 <= a as int) by (nonlinear_arith)
        requires
            0 <= c <= 255,
            0 <= a <= 255,
    ;
}

/// Converts straight-alpha RGBA pixels to premultiplied BGRA, the pixel data
/// of a cairo ARGB32 surface; a trailing partial pixel is left out.
pub fn premultiply_to_bgra(rgba: &[u8]) -> (out: Vec<u8>)
    ensures
        out@ == premultiplied_bgra(rgba@),
{
    let len = rgba.len();
    let n = len / 4;
    let mut out: Vec<u8> = Vec::with_capacity(n * 4);
    let mut i: usize = 0;
    while i < n
        invariant
            len == rgba@.len(),
            n == rgba@.len() / 4,
            i <= n,
            out@.len() == i * 4,
            forall|j: int| 0 <= j < i * 4 ==> out@[j] == #[trigger] premultiplied_bgra(rgba@)[j],
        decreases n - i,
    {
        let k = i * 4;
        let r = rgba[k] as u32;
        let g = rgba[k + 1] as u32;
        let b = rgba[k + 2] as u32;
        let a = rgba[k + 3] as u32;
        proof {
            lemma_premul_le_alpha(rgba@[k + 2], rgba@[k + 3]);
            lemma_premul_le_alpha(rgba@[k + 1], rgba@[k + 3]);
            lemma_premul_le_alpha(rgba@[k as int], rgba@[k + 3]);
        }
        assert(b * a <= 255 * 255 && g * a <= 255 * 255 && r * a <= 255 * 255) by (nonlinear_arith)
            requires
                r <= 255,
                g <= 255,
                b <= 255,
                a <= 255,
        ;
        out.push(((b * a + 127) / 255) as u8);
        out.push(((g * a + 127) / 255) as u8);
        out.push(((r * a + 127) / 255) as u8);
        out.push(a as u8);
        proof {
            let s = premultiplied_bgra(rgba@);
            assert forall|j: int| 0 <= j < (i + 1) * 4 implies out@[j] == #[trigger] s[j] by {
                if j >= i * 4 {
                    assert(j / 4 == i);
                }
            }
        }
        i = i + 1;
    }
    out
}

/// Converts the premultiplied BGRA pixel data of a cairo ARGB32 surface of
/// `width` x `height` pixels, with rows `stride` bytes apart, to a
/// straight-alpha RGBA image.
pub fn surface_data_to_image(data: &[u8], width: u32, height: u32, stride: usize) -> (img: Raster)
    requires
        width * height * 4 <= usize::MAX,
        width == 0 || height == 0 || (height - 1) * stride + width * 4 <= data@.len(),
    ensures
        img.w() == width,
        img.h() == height,
        img@ == unpremultiplied(data@, width as nat, height as nat, stride as nat),
{
    let ghost spec_out = unpremultiplied(data@, width as nat, height as nat, stride as nat);
    let mut out: Vec<u8> = Vec::new();
    let dlen = data.len();
    let mut row: u32 = 0;
    while row < height
        invariant
            width * height * 4 <= usize::MAX,
            dlen == data@.len(),
            width == 0 || height == 0 || (height - 1) * stride + width * 4 <= data@.len(),
            spec_out == unpremultiplied(data@, width as nat, height as nat, stride as nat),
            row <= height,
            out@.len() == row * width * 4,
            forall|j: int| 0 <= j < out@.len() ==> out@[j] == #[trigger] spec_out[j],
        decreases height - row,
    {
        let mut col: u32 = 0;
        while col < width
            invariant
                width * height * 4 <= usize::MAX,
                dlen == data@.len(),
                width == 0 || height == 0 || (height - 1) * stride + width * 4 <= data@.len(),
                spec_out == unpremultiplied(data@, width as nat, height as nat, stride as nat),
                row < height,
                col <= width,
                out@.len() == (row * width + col) * 4,
                forall|j: int| 0 <= j < out@.len() ==> out@[j] == #[trigger] spec_out[j],
            decreases width - col,
        {
            assert(row as int * stride + col as int * 4 + 4 <= data@.len()) by (nonlinear_arith)
                requires
                    row < height,
                    col < width,
                    (height - 1) * stride + width * 4 <= data@.len(),
            ;
            assert((row * width + col) * 4 + 4 <= width * height * 4) by (nonlinear_arith)
                requires
                    row < height,
                    col < width,
            ;
            let off = row as usize * stride + col as usize * 4;
            let b = data[off] as u32;
            let g = data[off + 1] as u32;
            let r = data[off + 2] as u32;
            let a = data[off + 3] as u32;
            let ghost base = out@.len() as int;
            if a == 0 {
                out.push(0);
                out.push(0);
                out.push(0);
                out.push(0);
            } else {
                let rr = (r * 255 + a / 2) / a;
                let gg = (g * 255 + a / 2) / a;
                let bb = (b * 255 + a / 2) / a;
                out.push(if rr > 255 { 255 } else { rr as u8 });
                out.push(if gg > 255 { 255 } else { gg as u8 });
                out.push(if bb > 255 { 255 } else { bb as u8 });
                out.push(a as u8);
            }
            proof {
                assert forall|j: int| 0 <= j < out@.len() implies out@[j] == #[trigger] spec_out[j] by {
                    if j >= base {
                        lemma_index_join(width as int, height as int, col as int, row as int, j - base);
                        assert(j == byte_index(width as int, col as int, row as int, j - base));
                    }
                }
            }
            col = col + 1;
        }
        assert((row * width + width) * 4 == (row + 1) * width * 4) by (nonlinear_arith);
        row = row + 1;
    }
    assert(height * width * 4 == width * height * 4) by (nonlinear_arith);
    assert(out@.len() == spec_out.len());
    assert(out@ =~= spec_out);
    Raster::from_parts(width, height, out)
}

/// Every color channel of a premultiplied pixel is at most its alpha, as a
/// cairo ARGB32 surface expects.
pub proof fn lemma_premultiplied_channels_within_alpha(rgba: Seq<u8>, i: int)
    requires
        0 <= i < rgba.len() / 4,
    ensures
        premultiplied_bgra(rgba)[4 * i] <= premultiplied_bgra(rgba)[4 * i + 3],
        premultiplied_bgra(rgba)[4 * i + 1] <= premultiplied_bgra(rgba)[4 * i + 3],
        premultiplied_bgra(rgba)[4 * i + 2] <= premultiplied_bgra(rgba)[4 * i + 3],
{
    let s = premultiplied_bgra(rgba);
    assert((4 * i) / 4 == i);
    assert((4 * i + 1) / 4 == i);
    assert((4 * i + 2) / 4 == i);
    assert((4 * i + 3) / 4 == i);
    lemma_premul_le_alpha(rgba[4 * i + 2], rgba[4 * i + 3]);
    lemma_premul_le_alpha(rgba[4 * i + 1], rgba[4 * i + 3]);
    lemma_premul_le_alpha(rgba[4 * i], rgba[4 * i + 3]);
}

/// An opaque image survives the conversion to surface data and back
/// unchanged.
pub proof fn lemma_opaque_round_trip(rgba: Seq<u8>, w: nat, h: nat)
    requires
        rgba.len() == w * h * 4,
        forall|k: int| 0 <= k < w * h ==> #[trigger] rgba[4 * k + 3] == 255,
    ensures
        unpremultiplied(premultiplied_bgra(rgba), w, h, w * 4) == rgba,
{
    let s = premultiplied_bgra(rgba);
    let back = unpremultiplied(s, w, h, w * 4);
    assert((rgba.len() / 4) * 4 == rgba.len());
    assert forall|i: int| 0 <= i < rgba.len() implies back[i] == rgba[i] by {
        lemma_index_split(i, w as int, h as int);
        let x = col_of(w as int, i);
        let y = row_of(w as int, i);
        let c = chan_of(i);
        let q = y * w + x;
        let off = y * (w * 4) + x * 4;
        assert(off == 4 * q) by (nonlinear_arith)
            requires
                off == y * (w * 4) + x * 4,
                q == y * w + x,
        ;
        assert(0 <= q < w * h) by (nonlinear_arith)
            requires
                0 <= x < w,
                0 <= y < h,
                q == y * w + x,
        ;
        assert(rgba[4 * q + 3] == 255);
        assert((4 * q) / 4 == q);
        assert((4 * q + 1) / 4 == q);
        assert((4 * q + 2) / 4 == q);
        assert((4 * q + 3) / 4 == q);
        assert forall|v: u8| #![trigger premul(v, 255u8)] premul(v, 255u8) == v by {
            assert((v * 255 + 127) / 255 == v as int) by (nonlinear_arith)
                requires
                    0 <= v <= 255,
            ;
        }
        assert forall|v: u8| #![trigger unpremul(v, 255u8)] unpremul(v, 255u8) == v by {
            assert((v * 255 + 127) / 255 == v as int) by (nonlinear_arith)
                requires
                    0 <= v <= 255,
            ;
        }
        assert(s[4 * q + 3] == 255);
        assert(i == 4 * q + c);
    }
    assert(back =~= rgba);
}

/// Un-premultiplying a channel value no greater than its alpha and
/// premultiplying it again gives the value back.
pub proof fn lemma_premul_undoes_unpremul(c: u8, a: u8)
    requires
        c <= a,
    ensures
        premul(unpremul(c, a), a) == c,
{
    if a > 0 {
        let n = c * 255 + a / 2;
        let v = n / (a as int);
        lemma_fundamental_div_mod(n, a as int);
        let r = n % (a as int);
        assert(0 <= r < a);
        assert(n == a * v + r);
        assert(a / 2 * 2 <= a as int);
        assert(v <= 255) by (nonlinear_arith)
            requires
                n == a * v + r,
                0 <= r,
                n == c * 255 + a / 2,
                a / 2 * 2 <= a,
                c <= a,
                a > 0,
        ;
        assert(v >= 0) by (nonlinear_arith)
            requires
                n == a * v + r,
                r < a,
                n >= 0,
                a > 0,
        ;
        assert(unpremul(c, a) == v as u8);
        let m = v * a + 127;
        assert(255 * c <= m < 255 * (c + 1)) by (nonlinear_arith)
            requires
                n == a * v + r,
                0 <= r < a,
                n == c * 255 + a / 2,
                a / 2 * 2 <= a,
                a / 2 * 2 + 1 >= a,
                a <= 255,
                m == v * a + 127,
        ;
        lemma_fundamental_div_mod(m, 255);
        assert(m / 255 == c as int) by (nonlinear_arith)
            requires
                m == 255 * (m / 255) + m % 255,
                0 <= m % 255 < 255,
                255 * c <= m < 255 * (c + 1),
        ;
    }
}

/// Each pixel of the premultiplied BGRA data `data` has no color channel
/// greater than its alpha, as cairo requires of an ARGB32 surface.
pub open spec fn valid_premultiplied(data: Seq<u8>) -> bool {
    forall|k: int|
        0 <= k < data.len() / 4 ==> {
            &&& #[trigger] data[4 * k] <= data[4 * k + 3]
            &&& data[4 * k + 1] <= data[4 * k + 3]
            &&& data[4 * k + 2] <= data[4 * k + 3]
        }
}

/// A valid premultiplied surface of `w` x `h` pixels with rows `w * 4` bytes
/// apart survives the conversion to a straight-alpha image and back
/// unchanged.
pub proof fn lemma_valid_surface_round_trip(data: Seq<u8>, w: nat, h: nat)
    requires
        data.len() == w * h * 4,
        valid_premultiplied(data),
    ensures
        premultiplied_bgra(unpremultiplied(data, w, h, w * 4)) == data,
{
    let rgba = unpremultiplied(data, w, h, w * 4);
    let back = premultiplied_bgra(rgba);
    assert((rgba.len() / 4) * 4 == rgba.len());
    assert forall|i: int| 0 <= i < data.len() implies back[i] == data[i] by {
        lemma_index_split(i, w as int, h as int);
        let x = col_of(w as int, i);
        let y = row_of(w as int, i);
        let c = chan_of(i);
        let q = y * w + x;
        let off = y * (w * 4) + x * 4;
        assert(off == 4 * q) by (nonlinear_arith)
            requires
                off == y * (w * 4) + x * 4,
                q == y * w + x,
        ;
        assert(0 <= q < w * h) by (nonlinear_arith)
            requires
                0 <= x < w,
                0 <= y < h,
                q == y * w + x,
        ;
        assert(i == 4 * q + c);
        assert(q < data.len() / 4);
        assert(data[4 * q] <= data[4 * q + 3]);
        let a = data[4 * q + 3];
        // the four entries of `rgba` for this pixel
        lemma_index_join(w as int, h as int, x, y, 0);
        lemma_index_join(w as int, h as int, x, y, 1);
        lemma_index_join(w as int, h as int, x, y, 2);
        lemma_index_join(w as int, h as int, x, y, 3);
        assert(byte_index(w as int, x, y, 0) == 4 * q);
        assert((4 * q) / 4 == q);
        assert((4 * q + 1) / 4 == q);
        assert((4 * q + 2) / 4 == q);
        assert((4 * q + 3) / 4 == q);
        assert(i / 4 == q);
        if a == 0 {
            assert(rgba[4 * q] == 0 && rgba[4 * q + 1] == 0 && rgba[4 * q + 2] == 0 && rgba[4 * q + 3] == 0);
            assert((0u8 * 0u8 + 127) / 255 == 0);
        } else {
            lemma_premul_undoes_unpremul(data[4 * q], a);
            lemma_premul_undoes_unpremul(data[4 * q + 1], a);
            lemma_premul_undoes_unpremul(data[4 * q + 2], a);
        }
    }
    assert(back =~= data);
}

} // verus!
