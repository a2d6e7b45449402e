use vstd::prelude::*;
use vstd::arithmetic::div_mod::{lemma_fundamental_div_mod, lemma_fundamental_div_mod_converse};

verus! {

/// An 8-bit RGBA image: `width * height` pixels stored row by row, four
/// bytes (red, green, blue, alpha) per pixel.
pub struct Raster {
    width: u32,
    height: u32,
    pixels: Vec<u8>,
}

impl View for Raster {
    type V = Seq<u8>;

    /// The pixel bytes, row by row.
    closed spec fn view(&self) -> Seq<u8> {
        self.pixels@
    }
}

impl Raster {
    #[verifier::type_invariant]
    spec fn inv(&self) -> bool {
        self.pixels@.len() == self.width * self.height * 4
    }

    /// Width in pixels.
    pub closed spec fn w(&self) -> nat {
        self.width as nat
    }

    /// Height in pixels.
    pub closed spec fn h(&self) -> nat {
        self.height as nat
    }

    /// Wraps a pixel buffer; `None` unless the buffer holds exactly
    /// `width * height` RGBA pixels.
    pub fn new(width: u32, height: u32, pixels: Vec<u8>) -> (r: Option<Raster>)
        ensures
            r is Some <==> pixels@.len() == width * height * 4,
            r matches Some(img) ==> img.w() == width && img.h() == height && img@ == pixels@,
    {
        let w = width as u64;
        let h = height as u64;
        assert(w * h <= u32::MAX * u32::MAX) by (nonlinear_arith)
            requires w <= u32::MAX, h <= u32::MAX;
        let n = w * h;
        let len = pixels.len();
        if n > (usize::MAX / 4) as u64 {
            // no buffer is that long
            assert(n * 4 > usize::MAX);
            return None;
        }
        if len == (n * 4) as usize {
            Some(Raster { width, height, pixels })
        } else {
            None
        }
    }

    pub fn width(&self) -> (w: u32)
        ensures
            w == self.w(),
    {
        self.width
    }

    pub fn height(&self) -> (h: u32)
        ensures
            h == self.h(),
    {
        self.height
    }

    pub fn pixels(&self) -> (p: &[u8])
        ensures
            p@ == self@,
            p@.len() == self.w() * self.h() * 4,
    {
        proof {
            use_type_invariant(self);
        }
        self.pixels.as_slice()
    }

    pub fn into_pixels(self) -> (p: Vec<u8>)
        ensures
            p@ == self@,
            p@.len() == self.w() * self.h() * 4,
    {
        proof {
            use_type_invariant(&self);
        }
        self.pixels
    }

    pub(crate) fn from_parts(width: u32, height: u32, pixels: Vec<u8>) -> (r: Raster)
        requires
            pixels@.len() == width * height * 4,
        ensures
            r.w() == width,
            r.h() == height,
            r@ == pixels@,
    {
        Raster { width, height, pixels }
    }
}

impl Clone for Raster {
    fn clone(&self) -> (r: Self)
        ensures
            r.w() == self.w(),
            r.h() == self.h(),
            r@ == self@,
    {
        proof {
            use_type_invariant(self);
        }
        let mut pixels: Vec<u8> = Vec::with_capacity(self.pixels.len());
        let mut i: usize = 0;
        while i < self.pixels.len()
            invariant
                i <= self.pixels@.len(),
                pixels@ == self.pixels@.take(i as int),
            decreases self.pixels@.len() - i,
        {
            pixels.push(self.pixels[i]);
            i = i + 1;
            assert(pixels@ =~= self.pixels@.take(i as int));
        }
        assert(pixels@ =~= self.pixels@);
        Raster { width: self.width, height: self.height, pixels }
    }
}

/// Index of channel `c` of pixel `(x, y)` in a row-major RGBA buffer of width `w`.
pub open spec fn byte_index(w: int, x: int, y: int, c: int) -> int {
    (y * w + x) * 4 + c
}

/// Channel `c` of pixel `(x, y)` in the buffer `p` of width `w`.
pub open spec fn byte_at(w: int, p: Seq<u8>, x: int, y: int, c: int) -> u8 {
    p[byte_index(w, x, y, c)]
}

/// Channel of the buffer index `i`.
pub open spec fn chan_of(i: int) -> int {
    i % 4
}

/// Column of the buffer index `i` in an image of width `ow`.
pub open spec fn col_of(ow: int, i: int) -> int {
    (i / 4) % ow
}

/// Row of the buffer index `i` in an image of width `ow`.
pub open spec fn row_of(ow: int, i: int) -> int {
    (i / 4) / ow
}

/// The pixels of a `w` x `h` image turned a quarter clockwise: the result is
/// `h` wide and `w` high, and its pixel `(x, y)` is the source pixel
/// `(y, h - 1 - x)`.
pub open spec fn rotated_cw(w: nat, h: nat, p: Seq<u8>) -> Seq<u8> {
    Seq::new(
        w * h * 4,
        |i: int| byte_at(w as int, p, row_of(h as int, i), h - 1 - col_of(h as int, i), chan_of(i)),
    )
}

/// The pixels of a `w` x `h` image turned a quarter counter-clockwise: the
/// result is `h` wide and `w` high, and its pixel `(x, y)` is the source
/// pixel `(w - 1 - y, x)`.
pub open spec fn rotated_ccw(w: nat, h: nat, p: Seq<u8>) -> Seq<u8> {
    Seq::new(
        w * h * 4,
        |i: int| byte_at(w as int, p, w - 1 - row_of(h as int, i), col_of(h as int, i), chan_of(i)),
    )
}

/// The pixels of a `w` x `h` image mirrored left to right.
pub open spec fn flipped_h(w: nat, h: nat, p: Seq<u8>) -> Seq<u8> {
    Seq::new(
        w * h * 4,
        |i: int| byte_at(w as int, p, w - 1 - col_of(w as int, i), row_of(w as int, i), chan_of(i)),
    )
}

/// The pixels of a `w` x `h` image mirrored top to bottom.
pub open spec fn flipped_v(w: nat, h: nat, p: Seq<u8>) -> Seq<u8> {
    Seq::new(
        w * h * 4,
        |i: int| byte_at(w as int, p, col_of(w as int, i), h - 1 - row_of(w as int, i), chan_of(i)),
    )
}

/// The `cw` x `ch` block of a `w`-wide image whose top-left pixel is `(x, y)`.
pub open spec fn cropped(w: nat, p: Seq<u8>, x: nat, y: nat, cw: nat, ch: nat) -> Seq<u8> {
    Seq::new(
        cw * ch * 4,
        |i: int| byte_at(w as int, p, x + col_of(cw as int, i), y + row_of(cw as int, i), chan_of(i)),
    )
}

/// Pixel `(x, y)` of the `w`-wide buffer `p` holds the channels `q`.
pub open spec fn pixel_is(w: int, p: Seq<u8>, x: int, y: int, q: (u8, u8, u8, u8)) -> bool {
    &&& byte_at(w, p, x, y, 0) == q.0
    &&& byte_at(w, p, x, y, 1) == q.1
    &&& byte_at(w, p, x, y, 2) == q.2
    &&& byte_at(w, p, x, y, 3) == q.3
}

/// Every pixel of the `w` x `h` image `p` holds the channels `q`.
pub open spec fn all_pixels_are(w: int, h: int, p: Seq<u8>, q: (u8, u8, u8, u8)) -> bool {
    forall|x: int, y: int| 0 <= x < w && 0 <= y < h ==> #[trigger] pixel_is(w, p, x, y, q)
}

/// Whether source position `s` of a line of `n` pixels lies within reach of
/// output position `o` when the line is resampled to `m` pixels with a
/// Lanczos3 filter: `|s - (o + 1/2) * n / m| <= 3 * max(n / m, 1) + 2`, the
/// filter's support with a margin, multiplied out by `2 * m`.
pub open spec fn lanczos3_reach(n: int, m: int, o: int, s: int) -> bool {
    let d = 2 * s * m - (2 * o + 1) * n;
    let bound = 6 * (if n > m {
        n
    } else {
        m
    }) + 4 * m;
    -bound <= d <= bound
}

/// Every pixel of the `w` x `h` image `p` within reach of output pixel
/// `(ox, oy)` of an `nw` x `nh` resampling holds the channels `q`.
pub open spec fn reach_is_uniform(
    w: int,
    h: int,
    p: Seq<u8>,
    nw: int,
    nh: int,
    ox: int,
    oy: int,
    q: (u8, u8, u8, u8),
) -> bool {
    forall|x: int, y: int|
        0 <= x < w && 0 <= y < h && lanczos3_reach(w, nw, ox, x) && lanczos3_reach(h, nh, oy, y)
            ==> #[trigger] pixel_is(w, p, x, y, q)
}

/// Sizes for which Lanczos3 resampling stays within rounding: the source is
/// not empty, every side is below 2^20 pixels (so positions are exact in
/// `f32`) and the image shrinks by at most 256 times each way.
pub open spec fn resample_in_range(w: nat, h: nat, nw: nat, nh: nat) -> bool {
    &&& 0 < w
    &&& 0 < h
    &&& w < 0x10_0000
    &&& h < 0x10_0000
    &&& nw < 0x10_0000
    &&& nh < 0x10_0000
    &&& w <= 256 * nw
    &&& h <= 256 * nh
}

/// Every output pixel of resampling an image of one color sees only that
/// color within its reach.
pub proof fn lemma_uniform_image_has_uniform_reach(
    w: nat,
    h: nat,
    p: Seq<u8>,
    nw: nat,
    nh: nat,
    q: (u8, u8, u8, u8),
)
    requires
        p.len() == w * h * 4,
        all_pixels_are(w as int, h as int, p, q),
    ensures
        forall|ox: int, oy: int|
            #![trigger reach_is_uniform(w as int, h as int, p, nw as int, nh as int, ox, oy, q)]
            reach_is_uniform(w as int, h as int, p, nw as int, nh as int, ox, oy, q),
{
}

/// Splitting a buffer index of a `ow` x `oh` image into column, row and channel.
pub proof fn lemma_index_split(i: int, ow: int, oh: int)
    requires
        0 <= ow,
        0 <= oh,
        0 <= i < ow * oh * 4,
    ensures
        ow > 0,
        oh > 0,
        0 <= col_of(ow, i) < ow,
        0 <= row_of(ow, i) < oh,
        0 <= chan_of(i) < 4,
        i == byte_index(ow, col_of(ow, i), row_of(ow, i), chan_of(i)),
{
    let q = i / 4;
    let c = i % 4;
    lemma_fundamental_div_mod(i, 4);
    assert(0 <= c < 4);
    assert(0 <= q < ow * oh);
    assert(ow * oh > 0);
    assert(ow > 0 && oh > 0) by (nonlinear_arith)
        requires
            ow * oh > 0,
            ow >= 0,
            oh >= 0,
    ;
    let dx = q % ow;
    let dy = q / ow;
    lemma_fundamental_div_mod(q, ow);
    assert(0 <= dx < ow);
    assert(q == ow * dy + dx);
    assert(0 <= dy < oh) by (nonlinear_arith)
        requires
            q == ow * dy + dx,
            0 <= dx < ow,
            0 <= q < ow * oh,
            ow > 0,
    ;
    assert(i == (dy * ow + dx) * 4 + c) by (nonlinear_arith)
        requires
            i == 4 * q + c,
            q == ow * dy + dx,
    ;
}

/// Joining a column, row and channel of a `w` x `h` image into a buffer index.
pub proof fn lemma_index_join(w: int, h: int, x: int, y: int, c: int)
    requires
        0 <= x < w,
        0 <= y < h,
        0 <= c < 4,
    ensures
        0 <= byte_index(w, x, y, c) < w * h * 4,
        col_of(w, byte_index(w, x, y, c)) == x,
        row_of(w, byte_index(w, x, y, c)) == y,
        chan_of(byte_index(w, x, y, c)) == c,
{
    let q = y * w + x;
    let i = q * 4 + c;
    assert(0 <= q < w * h) by (nonlinear_arith)
        requires
            0 <= x < w,
            0 <= y < h,
            q == y * w + x,
    ;
    assert(0 <= i < w * h * 4) by (nonlinear_arith)
        requires
            0 <= q < w * h,
            0 <= c < 4,
            i == q * 4 + c,
    ;
    lemma_fundamental_div_mod_converse(i, 4, q, c);
    lemma_fundamental_div_mod_converse(q, w, y, x);
}

/// Turning a quarter clockwise and then a quarter counter-clockwise gives back
/// the starting pixels.
pub proof fn lemma_rotate_ccw_undoes_cw(w: nat, h: nat, p: Seq<u8>)
    requires
        p.len() == w * h * 4,
    ensures
        rotated_ccw(h, w, rotated_cw(w, h, p)) == p,
{
    let a = rotated_cw(w, h, p);
    let b = rotated_ccw(h, w, a);
    assert(h * w * 4 == w * h * 4) by (nonlinear_arith);
    assert forall|i: int| 0 <= i < p.len() implies b[i] == p[i] by {
        lemma_index_split(i, w as int, h as int);
        let dx = col_of(w as int, i);
        let dy = row_of(w as int, i);
        let c = chan_of(i);
        // b's pixel (dx, dy) is a's pixel (h - 1 - dy, dx)
        lemma_index_join(h as int, w as int, h - 1 - dy, dx, c);
        // a's pixel (h - 1 - dy, dx) is p's pixel (dx, dy)
    }
    assert(b =~= p);
}

/// Turning a quarter counter-clockwise and then a quarter clockwise gives back
/// the starting pixels.
pub proof fn lemma_rotate_cw_undoes_ccw(w: nat, h: nat, p: Seq<u8>)
    requires
        p.len() == w * h * 4,
    ensures
        rotated_cw(h, w, rotated_ccw(w, h, p)) == p,
{
    let a = rotated_ccw(w, h, p);
    let b = rotated_cw(h, w, a);
    assert(h * w * 4 == w * h * 4) by (nonlinear_arith);
    assert forall|i: int| 0 <= i < p.len() implies b[i] == p[i] by {
        lemma_index_split(i, w as int, h as int);
        let dx = col_of(w as int, i);
        let dy = row_of(w as int, i);
        let c = chan_of(i);
        lemma_index_join(h as int, w as int, dy, w - 1 - dx, c);
    }
    assert(b =~= p);
}

/// Mirroring left to right twice gives back the starting pixels.
pub proof fn lemma_flip_h_involution(w: nat, h: nat, p: Seq<u8>)
    requires
        p.len() == w * h * 4,
    ensures
        flipped_h(w, h, flipped_h(w, h, p)) == p,
{
    let a = flipped_h(w, h, p);
    let b = flipped_h(w, h, a);
    assert forall|i: int| 0 <= i < p.len() implies b[i] == p[i] by {
        lemma_index_split(i, w as int, h as int);
        let dx = col_of(w as int, i);
        let dy = row_of(w as int, i);
        let c = chan_of(i);
        lemma_index_join(w as int, h as int, w - 1 - dx, dy, c);
    }
    assert(b =~= p);
}

/// Mirroring top to bottom twice gives back the starting pixels.
pub proof fn lemma_flip_v_involution(w: nat, h: nat, p: Seq<u8>)
    requires
        p.len() == w * h * 4,
    ensures
        flipped_v(w, h, flipped_v(w, h, p)) == p,
{
    let a = flipped_v(w, h, p);
    let b = flipped_v(w, h, a);
    assert forall|i: int| 0 <= i < p.len() implies b[i] == p[i] by {
        lemma_index_split(i, w as int, h as int);
        let dx = col_of(w as int, i);
        let dy = row_of(w as int, i);
        let c = chan_of(i);
        lemma_index_join(w as int, h as int, dx, h - 1 - dy, c);
    }
    assert(b =~= p);
}

/// Two quarter turns clockwise equal mirroring both ways (a half turn).
pub proof fn lemma_half_turn_is_both_flips(w: nat, h: nat, p: Seq<u8>)
    requires
        p.len() == w * h * 4,
    ensures
        rotated_cw(h, w, rotated_cw(w, h, p)) == flipped_h(w, h, flipped_v(w, h, p)),
{
    let a = rotated_cw(w, h, p);
    let b = rotated_cw(h, w, a);
    let f = flipped_h(w, h, flipped_v(w, h, p));
    assert(h * w * 4 == w * h * 4) by (nonlinear_arith);
    assert forall|i: int| 0 <= i < p.len() implies b[i] == f[i] by {
        lemma_index_split(i, w as int, h as int);
        let x = col_of(w as int, i);
        let y = row_of(w as int, i);
        let c = chan_of(i);
        lemma_index_join(h as int, w as int, y, w - 1 - x, c);
        lemma_index_join(w as int, h as int, w - 1 - x, y, c);
    }
    assert(b =~= f);
}

/// Mirroring left to right and mirroring top to bottom can be done in
/// either order.
pub proof fn lemma_flips_commute(w: nat, h: nat, p: Seq<u8>)
    requires
        p.len() == w * h * 4,
    ensures
        flipped_h(w, h, flipped_v(w, h, p)) == flipped_v(w, h, flipped_h(w, h, p)),
{
    let a = flipped_h(w, h, flipped_v(w, h, p));
    let b = flipped_v(w, h, flipped_h(w, h, p));
    assert forall|i: int| 0 <= i < p.len() implies a[i] == b[i] by {
        lemma_index_split(i, w as int, h as int);
        let x = col_of(w as int, i);
        let y = row_of(w as int, i);
        let c = chan_of(i);
        lemma_index_join(w as int, h as int, w - 1 - x, y, c);
        lemma_index_join(w as int, h as int, x, h - 1 - y, c);
    }
    assert(a =~= b);
}

/// Four quarter turns clockwise give back the starting pixels.
pub proof fn lemma_four_turns_are_identity(w: nat, h: nat, p: Seq<u8>)
    requires
        p.len() == w * h * 4,
    ensures
        rotated_cw(h, w, rotated_cw(w, h, rotated_cw(h, w, rotated_cw(w, h, p)))) == p,
{
    let fv = flipped_v(w, h, p);
    let fhv = flipped_h(w, h, fv);
    lemma_half_turn_is_both_flips(w, h, p);
    assert(rotated_cw(h, w, rotated_cw(w, h, p)) == fhv);
    lemma_half_turn_is_both_flips(w, h, fhv);
    // the second half turn mirrors `fhv` both ways again
    lemma_flips_commute(w, h, fv);
    assert(flipped_v(w, h, fhv) == flipped_h(w, h, flipped_v(w, h, fv)));
    lemma_flip_v_involution(w, h, p);
    assert(flipped_v(w, h, fhv) == flipped_h(w, h, p));
    lemma_flip_h_involution(w, h, p);
}

/// Cropping the whole image gives back the starting pixels.
pub proof fn lemma_crop_whole_is_identity(w: nat, h: nat, p: Seq<u8>)
    requires
        p.len() == w * h * 4,
    ensures
        cropped(w, p, 0, 0, w, h) == p,
{
    let b = cropped(w, p, 0, 0, w, h);
    assert forall|i: int| 0 <= i < p.len() implies b[i] == p[i] by {
        lemma_index_split(i, w as int, h as int);
    }
    assert(b =~= p);
}

/// A quarter turn clockwise of a `w` x `h` image gives an `h` x `w` image in
/// which source pixel `(x, y)` stands at `(h - 1 - y, x)`.
pub proof fn lemma_rotated_cw_moves_pixels(w: nat, h: nat, p: Seq<u8>)
    requires
        p.len() == w * h * 4,
    ensures
        rotated_cw(w, h, p).len() == h * w * 4,
        forall|x: int, y: int, c: int|
            0 <= x < w && 0 <= y < h && 0 <= c < 4 ==> byte_at(
                h as int,
                rotated_cw(w, h, p),
                h - 1 - y,
                x,
                c,
            ) == #[trigger] byte_at(w as int, p, x, y, c),
{
    let r = rotated_cw(w, h, p);
    assert(h * w * 4 == w * h * 4) by (nonlinear_arith);
    assert forall|x: int, y: int, c: int|
        0 <= x < w && 0 <= y < h && 0 <= c < 4 implies byte_at(h as int, r, h - 1 - y, x, c)
        == #[trigger] byte_at(w as int, p, x, y, c) by {
        lemma_index_join(h as int, w as int, h - 1 - y, x, c);
    }
}

/// A quarter turn counter-clockwise of a `w` x `h` image gives an `h` x `w`
/// image in which source pixel `(x, y)` stands at `(y, w - 1 - x)`.
pub proof fn lemma_rotated_ccw_moves_pixels(w: nat, h: nat, p: Seq<u8>)
    requires
        p.len() == w * h * 4,
    ensures
        rotated_ccw(w, h, p).len() == h * w * 4,
        forall|x: int, y: int, c: int|
            0 <= x < w && 0 <= y < h && 0 <= c < 4 ==> byte_at(
                h as int,
                rotated_ccw(w, h, p),
                y,
                w - 1 - x,
                c,
            ) == #[trigger] byte_at(w as int, p, x, y, c),
{
    let r = rotated_ccw(w, h, p);
    assert(h * w * 4 == w * h * 4) by (nonlinear_arith);
    assert forall|x: int, y: int, c: int|
        0 <= x < w && 0 <= y < h && 0 <= c < 4 implies byte_at(h as int, r, y, w - 1 - x, c)
        == #[trigger] byte_at(w as int, p, x, y, c) by {
        lemma_index_join(h as int, w as int, y, w - 1 - x, c);
    }
}

/// Mirroring a `w` x `h` image left to right puts source pixel `(x, y)` at
/// `(w - 1 - x, y)`: every row keeps its pixels, in reverse order.
pub proof fn lemma_flipped_h_moves_pixels(w: nat, h: nat, p: Seq<u8>)
    requires
        p.len() == w * h * 4,
    ensures
        flipped_h(w, h, p).len() == w * h * 4,
        forall|x: int, y: int, c: int|
            0 <= x < w && 0 <= y < h && 0 <= c < 4 ==> byte_at(
                w as int,
                flipped_h(w, h, p),
                w - 1 - x,
                y,
                c,
            ) == #[trigger] byte_at(w as int, p, x, y, c),
{
    let r = flipped_h(w, h, p);
    assert forall|x: int, y: int, c: int|
        0 <= x < w && 0 <= y < h && 0 <= c < 4 implies byte_at(w as int, r, w - 1 - x, y, c)
        == #[trigger] byte_at(w as int, p, x, y, c) by {
        lemma_index_join(w as int, h as int, w - 1 - x, y, c);
    }
}

/// Mirroring a `w` x `h` image top to bottom puts source pixel `(x, y)` at
/// `(x, h - 1 - y)`: every column keeps its pixels, in reverse order.
pub proof fn lemma_flipped_v_moves_pixels(w: nat, h: nat, p: Seq<u8>)
    requires
        p.len() == w * h * 4,
    ensures
        flipped_v(w, h, p).len() == w * h * 4,
        forall|x: int, y: int, c: int|
            0 <= x < w && 0 <= y < h && 0 <= c < 4 ==> byte_at(
                w as int,
                flipped_v(w, h, p),
                x,
                h - 1 - y,
                c,
            ) == #[trigger] byte_at(w as int, p, x, y, c),
{
    let r = flipped_v(w, h, p);
    assert forall|x: int, y: int, c: int|
        0 <= x < w && 0 <= y < h && 0 <= c < 4 implies byte_at(w as int, r, x, h - 1 - y, c)
        == #[trigger] byte_at(w as int, p, x, y, c) by {
        lemma_index_join(w as int, h as int, x, h - 1 - y, c);
    }
}

/// Cutting the `cw` x `ch` block at `(x, y)` out of a `w` x `h` image gives
/// an image whose pixel `(dx, dy)` is source pixel `(x + dx, y + dy)`.
pub proof fn lemma_cropped_moves_pixels(
    w: nat,
    h: nat,
    p: Seq<u8>,
    x: nat,
    y: nat,
    cw: nat,
    ch: nat,
)
    requires
        p.len() == w * h * 4,
        x + cw <= w,
        y + ch <= h,
    ensures
        cropped(w, p, x, y, cw, ch).len() == cw * ch * 4,
        forall|dx: int, dy: int, c: int|
            0 <= dx < cw && 0 <= dy < ch && 0 <= c < 4 ==> #[trigger] byte_at(
                cw as int,
                cropped(w, p, x, y, cw, ch),
                dx,
                dy,
                c,
            ) == byte_at(w as int, p, x + dx, y + dy, c),
{
    let r = cropped(w, p, x, y, cw, ch);
    assert forall|dx: int, dy: int, c: int|
        0 <= dx < cw && 0 <= dy < ch && 0 <= c < 4 implies #[trigger] byte_at(cw as int, r, dx, dy, c)
        == byte_at(w as int, p, x + dx, y + dy, c) by {
        lemma_index_join(cw as int, ch as int, dx, dy, c);
    }
}

} // verus!
