//! Perceptual lightness of a decoded frame, in exact fixed-point arithmetic.
//!
//! Each sRGB channel value is decoded to linear light (the linear segment
//! below the 0.04045 cutoff, the 2.4-power curve above it), the channels are
//! combined with the standard luminance weights 0.2126/0.7152/0.0722,
//! averaged over all pixels, and the mean relative luminance is converted to
//! CIE L* (the 903.3 linear segment below 0.008856, else 116 * Y^(1/3) - 16).
//!
//! All quantities are scaled integers: linear light and relative luminance
//! carry nine decimal places, lightness carries three (thousandths of an L*
//! unit). The power curve is computed exactly on the scaled integers:
//! t^2.4 = (t^2) * (t^2)^(1/5) via integer fifth and cube roots with proved
//! floor contracts.

use vstd::prelude::*;
use vstd::arithmetic::mul::lemma_mul_inequality;
use vstd::arithmetic::div_mod::lemma_div_is_ordered;
use vstd::arithmetic::div_mod::lemma_div_multiples_vanish;

verus! {

pub open spec fn cube(r: int) -> int {
    r * r * r
}

pub open spec fn fifth(r: int) -> int {
    r * r * r * r * r
}

/// `r` is the integer cube root of `n`, rounded down.
pub open spec fn is_floor_cbrt(n: int, r: int) -> bool {
    0 <= r && cube(r) <= n < cube(r + 1)
}

/// `r` is the integer fifth root of `n`, rounded down.
pub open spec fn is_floor_root5(n: int, r: int) -> bool {
    0 <= r && fifth(r) <= n < fifth(r + 1)
}

/// The integer cube root of `n`, rounded down.
pub open spec fn floor_cbrt(n: nat) -> nat
    decreases n,
{
    if n == 0 {
        0
    } else {
        let p = floor_cbrt((n - 1) as nat);
        if cube(p as int + 1) <= n {
            p + 1
        } else {
            p
        }
    }
}

/// The integer fifth root of `n`, rounded down.
pub open spec fn floor_root5(n: nat) -> nat
    decreases n,
{
    if n == 0 {
        0
    } else {
        let p = floor_root5((n - 1) as nat);
        if fifth(p as int + 1) <= n {
            p + 1
        } else {
            p
        }
    }
}

proof fn lemma_cube_mono(a: int, b: int)
    requires
        0 <= a <= b,
    ensures
        cube(a) <= cube(b),
{
    assert(a * a * a <= b * b * b) by (nonlinear_arith)
        requires
            0 <= a <= b,
    ;
}

proof fn lemma_fifth_mono(a: int, b: int)
    requires
        0 <= a <= b,
    ensures
        fifth(a) <= fifth(b),
{
    assert(a * a * a * a * a <= b * b * b * b * b) by (nonlinear_arith)
        requires
            0 <= a <= b,
    ;
}

proof fn lemma_floor_cbrt_is_root(n: nat)
    ensures
        is_floor_cbrt(n as int, floor_cbrt(n) as int),
    decreases n,
{
    if n == 0 {
    } else {
        lemma_floor_cbrt_is_root((n - 1) as nat);
        let p = floor_cbrt((n - 1) as nat) as int;
        if cube(p + 1) <= n {
            lemma_cube_mono(p + 1, p + 2);
            assert(cube(p + 1) < cube(p + 2)) by (nonlinear_arith)
                requires
                    p >= 0,
            ;
        }
    }
}

proof fn lemma_floor_root5_is_root(n: nat)
    ensures
        is_floor_root5(n as int, floor_root5(n) as int),
    decreases n,
{
    if n == 0 {
    } else {
        lemma_floor_root5_is_root((n - 1) as nat);
        let p = floor_root5((n - 1) as nat) as int;
        if fifth(p + 1) <= n {
            assert(fifth(p + 1) < fifth(p + 2)) by (nonlinear_arith)
                requires
                    p >= 0,
            ;
        }
    }
}

proof fn lemma_floor_cbrt_unique(n: int, r: int)
    requires
        n >= 0,
        is_floor_cbrt(n, r),
    ensures
        r == floor_cbrt(n as nat),
{
    lemma_floor_cbrt_is_root(n as nat);
    let f = floor_cbrt(n as nat) as int;
    if r < f {
        lemma_cube_mono(r + 1, f);
    }
    if f < r {
        lemma_cube_mono(f + 1, r);
    }
}

proof fn lemma_floor_root5_unique(n: int, r: int)
    requires
        n >= 0,
        is_floor_root5(n, r),
    ensures
        r == floor_root5(n as nat),
{
    lemma_floor_root5_is_root(n as nat);
    let f = floor_root5(n as nat) as int;
    if r < f {
        lemma_fifth_mono(r + 1, f);
    }
    if f < r {
        lemma_fifth_mono(f + 1, r);
    }
}

/// Integer cube root by binary search.
pub fn cube_root(n: u64) -> (r: u64)
    ensures
        r == floor_cbrt(n as nat),
        is_floor_cbrt(n as int, r as int),
{
    let mut lo: u64 = 0;
    let mut hi: u64 = 0x400000;  // 2^22; its cube exceeds every u64
    proof {
        assert(0x400000int * 0x400000 == 0x100000000000int);
        assert(0x100000000000int * 0x400000 == 0x40000000000000000int);
        assert(cube(0x400000) > u64::MAX as int);
    }
    while lo + 1 < hi
        invariant
            lo < hi <= 0x400000,
            cube(lo as int) <= n as int,
            (n as int) < cube(hi as int),
        decreases hi - lo,
    {
        let mid = lo + (hi - lo) / 2;
        let m = mid as u128;
        proof {
            assert(m * m <= 0x400000u128 * 0x400000u128) by (nonlinear_arith)
                requires
                    m <= 0x400000u128,
            ;
        }
        let m2 = m * m;
        proof {
            assert(m2 * m <= 0x100000000000u128 * 0x400000u128) by (nonlinear_arith)
                requires
                    m <= 0x400000u128,
                    m2 <= 0x100000000000u128,
            ;
        }
        let c = m2 * m;
        if c <= n as u128 {
            lo = mid;
        } else {
            hi = mid;
        }
    }
    proof {
        lemma_floor_cbrt_unique(n as int, lo as int);
    }
    lo
}

/// Integer fifth root by binary search, for inputs below `2^100`.
pub fn fifth_root(n: u128) -> (r: u128)
    requires
        n < fifth(0x100000),
    ensures
        r == floor_root5(n as nat),
        is_floor_root5(n as int, r as int),
{
    let mut lo: u128 = 0;
    let mut hi: u128 = 0x100000;  // 2^20; within range its fifth power fits u128
    while lo + 1 < hi
        invariant
            lo < hi <= 0x100000,
            fifth(lo as int) <= n as int,
            (n as int) < fifth(hi as int),
        decreases hi - lo,
    {
        let mid = lo + (hi - lo) / 2;
        proof {
            assert(mid * mid <= 0x10000000000u128 * 1) by (nonlinear_arith)
                requires
                    mid <= 0x100000u128,
            ;
        }
        let m2 = mid * mid;
        proof {
            assert(m2 * m2 <= 0x100000000000000000000u128 * 1) by (nonlinear_arith)
                requires
                    m2 <= 0x10000000000u128,
            ;
        }
        let m4 = m2 * m2;
        proof {
            assert(m4 * mid <= 0x10000000000000000000000000u128 * 1 && m4 * mid == fifth(
                mid as int,
            )) by (nonlinear_arith)
                requires
                    mid <= 0x100000u128,
                    m4 <= 0x100000000000000000000u128,
                    m2 == mid * mid,
                    m4 == m2 * m2,
            ;
        }
        let f = m4 * mid;
        if f <= n {
            lo = mid;
        } else {
            hi = mid;
        }
    }
    proof {
        lemma_floor_root5_unique(n as int, lo as int);
    }
    lo
}

/// Linear-light value of one sRGB channel, scaled by 10^9.
///
/// For channel value x and v = x/255: below the 0.04045 cutoff (x <= 10)
/// this is v/12.92 = x*5/16473; above it, with t = (v + 0.055)/1.055 =
/// (1000x + 14025)/269025, it is t^2.4 = t^2 * (t^2)^(1/5), all on integers
/// carrying nine decimal places.
pub open spec fn lin_of(x: u8) -> int {
    if x <= 10 {
        (x as int * 5_000_000_000) / 16473
    } else {
        let t = ((1000 * (x as int) + 14025) * 1_000_000_000) / 269025;
        let u = (t * t) / 1_000_000_000;
        (u * floor_root5((u * 1_000_000_000_000_000_000_000) as nat)) / 1_000_000
    }
}

/// Relative luminance of one pixel, scaled by 10^9: the standard weights
/// 0.2126, 0.7152, 0.0722 over the linear channel values.
pub open spec fn pixel_luminance(r: u8, g: u8, b: u8) -> int {
    (2126 * lin_of(r) + 7152 * lin_of(g) + 722 * lin_of(b)) / 10000
}

/// Linear-light value of one sRGB channel, scaled by 10^9.
pub fn srgb_linear(x: u8) -> (r: u64)
    ensures
        r as int == lin_of(x),
        r <= 1_000_000_000,
{
    if x <= 10 {
        let r = (x as u64 * 5_000_000_000) / 16473;
        proof {
            lemma_div_is_ordered(x as int * 5_000_000_000, 50_000_000_000, 16473);
        }
        r
    } else {
        let t: u64 = ((1000 * (x as u64) + 14025) * 1_000_000_000) / 269025;
        proof {
            lemma_div_is_ordered(
                (1000 * (x as int) + 14025) * 1_000_000_000,
                269025int * 1_000_000_000,
                269025,
            );
            lemma_div_multiples_vanish(1_000_000_000, 269025);
            assert(t as int * t as int <= 1_000_000_000i64 * 1_000_000_000i64) by (nonlinear_arith)
                requires
                    0 <= t as int <= 1_000_000_000i64,
            ;
        }
        let u: u64 = (t * t) / 1_000_000_000;
        proof {
            lemma_div_is_ordered(t as int * t as int, 1_000_000_000_000_000_000, 1_000_000_000);
            lemma_div_multiples_vanish(1_000_000_000, 1_000_000_000);
            lemma_fifth_pow20();
        }
        let n5: u128 = (u as u128) * 1_000_000_000_000_000_000_000;
        let f = fifth_root(n5);
        proof {
            lemma_fifth_million();
            if f > 1_000_000 {
                lemma_fifth_mono(1_000_001, f as int);
            }
            assert(f <= 1_000_000);
            assert(u as int * f as int <= 1_000_000_000i128 * 1_000_000i128) by (nonlinear_arith)
                requires
                    0 <= u as int <= 1_000_000_000i128,
                    0 <= f as int <= 1_000_000i128,
            ;
            lemma_div_is_ordered(u as int * f as int, 1_000_000_000_000_000int, 1_000_000);
            lemma_div_multiples_vanish(1_000_000_000, 1_000_000);
        }
        let r: u64 = ((u as u128 * f) / 1_000_000) as u64;
        r
    }
}

/// `fifth(2^20)` evaluated: `2^100`.
proof fn lemma_fifth_pow20()
    ensures
        fifth(0x100000) == 0x10000000000000000000000000int,
{
    assert(0x100000int * 0x100000 == 0x10000000000int);
    assert(0x10000000000int * 0x100000 == 0x1000000000000000int);
    assert(0x1000000000000000int * 0x100000 == 0x100000000000000000000int);
    assert(0x100000000000000000000int * 0x100000 == 0x10000000000000000000000000int);
}

/// `fifth(10^6)` evaluated: `10^30`.
proof fn lemma_fifth_million()
    ensures
        fifth(1_000_000) == 1_000_000_000_000_000_000_000_000_000_000int,
{
    assert(1_000_000int * 1_000_000 == 1_000_000_000_000int);
    assert(1_000_000_000_000int * 1_000_000 == 1_000_000_000_000_000_000int);
    assert(1_000_000_000_000_000_000int * 1_000_000 == 1_000_000_000_000_000_000_000_000int);
    assert(1_000_000_000_000_000_000_000_000int * 1_000_000
        == 1_000_000_000_000_000_000_000_000_000_000int);
}

/// `cube(10^6)` evaluated: `10^18`.
proof fn lemma_cube_million()
    ensures
        cube(1_000_000) == 1_000_000_000_000_000_000int,
{
    assert(1_000_000int * 1_000_000 == 1_000_000_000_000int);
    assert(1_000_000_000_000int * 1_000_000 == 1_000_000_000_000_000_000int);
}

/// `cube(206000)` evaluated; it lies below `8856001 * 10^9`.
proof fn lemma_cube_206000()
    ensures
        cube(206_000) == 8_741_816_000_000_000int,
{
    assert(206_000int * 206_000 == 42_436_000_000int);
    assert(42_436_000_000int * 206_000 == 8_741_816_000_000_000int);
}

/// Relative luminance of one pixel, scaled by 10^9.
pub fn pixel_luminance_exec(r: u8, g: u8, b: u8) -> (l: u64)
    ensures
        l as int == pixel_luminance(r, g, b),
        l <= 1_000_000_000,
{
    let lr = srgb_linear(r);
    let lg = srgb_linear(g);
    let lb = srgb_linear(b);
    let num: u64 = 2126 * lr + 7152 * lg + 722 * lb;
    proof {
        lemma_div_is_ordered(num as int, 10_000_000_000_000, 10000);
        lemma_div_multiples_vanish(1_000_000_000, 10000);
    }
    num / 10000
}

/// One decoded frame: an immutable width x height grid of interleaved RGB
/// triples.
pub struct Frame {
    pub width: u32,
    pub height: u32,
    pub data: Vec<u8>,
}

impl Frame {
    pub open spec fn wf(self) -> bool {
        self.data@.len() == 3 * (self.width as int) * (self.height as int)
    }

    pub open spec fn pixel_count(self) -> int {
        (self.width as int) * (self.height as int)
    }

    /// The RGB triple at column `x` of row `y`.
    pub open spec fn spec_pixel(self, x: int, y: int) -> (u8, u8, u8) {
        let base = 3 * (y * (self.width as int) + x);
        (self.data@[base], self.data@[base + 1], self.data@[base + 2])
    }

    /// Builds a frame after checking that the buffer holds exactly
    /// `3 * width * height` interleaved bytes.
    pub fn new(width: u32, height: u32, data: Vec<u8>) -> (r: Option<Frame>)
        ensures
            match r {
                Some(f) => f.wf() && f.width == width && f.height == height && f.data@ == data@,
                None => data@.len() != 3 * (width as int) * (height as int),
            },
    {
        proof {
            assert(3 * (width as int) * (height as int) <= 3 * 0xFFFF_FFFFi64 * 0xFFFF_FFFFi64)
                by (nonlinear_arith)
                requires
                    width <= 0xFFFF_FFFFu32,
                    height <= 0xFFFF_FFFFu32,
            ;
        }
        let expect: u128 = 3u128 * (width as u128) * (height as u128);
        if (data.len() as u128) == expect {
            Some(Frame { width, height, data })
        } else {
            None
        }
    }

    pub fn width(&self) -> (r: u32)
        ensures
            r == self.width,
    {
        self.width
    }

    pub fn height(&self) -> (r: u32)
        ensures
            r == self.height,
    {
        self.height
    }
}

/// `m` is `f` flipped horizontally: same dimensions, every pixel at the
/// opposite column of its row.
pub open spec fn is_mirror_of(m: Frame, f: Frame) -> bool {
    &&& m.wf()
    &&& m.width == f.width
    &&& m.height == f.height
    &&& forall|x: int, y: int|
        0 <= x < f.width as int && 0 <= y < f.height as int ==> #[trigger] m.spec_pixel(x, y)
            == f.spec_pixel(f.width as int - 1 - x, y)
}

/// The three bytes of the pixel at `(px, py)` of `out` equal the bytes of
/// the pixel at the horizontally opposite column of `data`.
pub open spec fn mirrored_pixel_ok(out: Seq<u8>, data: Seq<u8>, w: int, px: int, py: int) -> bool {
    let dst = 3 * (py * w + px);
    let src = 3 * (py * w + (w - 1 - px));
    &&& out[dst] == data[src]
    &&& out[dst + 1] == data[src + 1]
    &&& out[dst + 2] == data[src + 2]
}

/// Flips the frame horizontally: every pixel moves to the opposite column of
/// its row.
pub fn mirror_horizontal(frame: &Frame) -> (r: Frame)
    requires
        frame.wf(),
    ensures
        r.wf(),
        r.width == frame.width,
        r.height == frame.height,
        forall|x: int, y: int|
            0 <= x < frame.width as int && 0 <= y < frame.height as int
                ==> #[trigger] r.spec_pixel(x, y) == frame.spec_pixel(
                frame.width as int - 1 - x,
                y,
            ),
{
    let w = frame.width as usize;
    let h = frame.height as usize;
    proof {
        assert(3 * (frame.width as int) * (frame.height as int) == 3 * ((frame.width as int) * (
        frame.height as int))) by (nonlinear_arith);
    }
    let total: usize = frame.data.len();
    let mut out: Vec<u8> = Vec::new();
    let mut y: usize = 0;
    while y < h
        invariant
            frame.wf(),
            w == frame.width,
            h == frame.height,
            total == frame.data@.len(),
            frame.data@.len() == 3 * ((w as int) * (h as int)),
            0 <= y <= h,
            out@.len() == 3 * ((y as int) * (w as int)),
            forall|px: int, py: int|
                0 <= px < w && 0 <= py < y ==> #[trigger] mirrored_pixel_ok(
                    out@,
                    frame.data@,
                    w as int,
                    px,
                    py,
                ),
        decreases h - y,
    {
        proof {
            lemma_mul_inequality(y as int + 1, h as int, w as int);
            assert((y as int + 1) * (w as int) == (y as int) * (w as int) + (w as int))
                by (nonlinear_arith);
            assert((h as int) * (w as int) == (w as int) * (h as int)) by (nonlinear_arith);
        }
        let row = y * w;
        let mut x: usize = 0;
        while x < w
            invariant
                frame.wf(),
                w == frame.width,
                h == frame.height,
                total == frame.data@.len(),
                frame.data@.len() == 3 * ((w as int) * (h as int)),
                0 <= y < h,
                0 <= x <= w,
                row == (y as int) * (w as int),
                row + w <= (w as int) * (h as int),
                out@.len() == 3 * (row as int + x as int),
                forall|px: int, py: int|
                    0 <= px < w && 0 <= py < y ==> #[trigger] mirrored_pixel_ok(
                        out@,
                        frame.data@,
                        w as int,
                        px,
                        py,
                    ),
                forall|px: int|
                    0 <= px < x ==> #[trigger] mirrored_pixel_ok(
                        out@,
                        frame.data@,
                        w as int,
                        px,
                        y as int,
                    ),
            decreases w - x,
        {
            let src = 3 * (row + (w - 1 - x));
            let ghost prev = out@;
            out.push(frame.data[src]);
            out.push(frame.data[src + 1]);
            out.push(frame.data[src + 2]);
            proof {
                assert forall|px: int, py: int| 0 <= px < w && 0 <= py < y implies
                    #[trigger] mirrored_pixel_ok(out@, frame.data@, w as int, px, py) by {
                    assert(mirrored_pixel_ok(prev, frame.data@, w as int, px, py));
                    lemma_mul_inequality(py + 1, y as int, w as int);
                    assert((py + 1) * (w as int) == py * (w as int) + (w as int))
                        by (nonlinear_arith);
                }
                assert forall|px: int| 0 <= px < x + 1 implies #[trigger] mirrored_pixel_ok(
                    out@,
                    frame.data@,
                    w as int,
                    px,
                    y as int,
                ) by {
                    if px < x {
                        assert(mirrored_pixel_ok(prev, frame.data@, w as int, px, y as int));
                    } else {
                        assert(out@[3 * (row as int + x as int)] == frame.data@[src as int]);
                    }
                }
            }
            x += 1;
        }
        y += 1;
    }
    let r = Frame { width: frame.width, height: frame.height, data: out };
    proof {
        assert(3 * (r.width as int) * (r.height as int) == 3 * ((r.width as int) * (
        r.height as int))) by (nonlinear_arith);
        assert((h as int) * (w as int) == (w as int) * (h as int)) by (nonlinear_arith);
        assert forall|x: int, y2: int|
            0 <= x < frame.width as int && 0 <= y2 < frame.height as int implies
            #[trigger] r.spec_pixel(x, y2) == frame.spec_pixel(
            frame.width as int - 1 - x, y2) by {
            assert(mirrored_pixel_ok(r.data@, frame.data@, w as int, x, y2));
        }
    }
    r
}

/// Sum of the luminances of the first `k` pixels of an interleaved buffer.
pub open spec fn luminance_sum(data: Seq<u8>, k: nat) -> int
    decreases k,
{
    if k == 0 {
        0
    } else {
        let p = (k - 1) as int;
        luminance_sum(data, (k - 1) as nat) + pixel_luminance(
            data[3 * p],
            data[3 * p + 1],
            data[3 * p + 2],
        )
    }
}

/// Mean relative luminance over `npix` pixels, scaled by 10^9.
pub open spec fn mean_luminance(data: Seq<u8>, npix: nat) -> int {
    luminance_sum(data, npix) / (npix as int)
}

/// CIE L* of a relative luminance `y` scaled by 10^9, in thousandths of an
/// L* unit: the 903.3y linear segment below 0.008856, else 116 y^(1/3) - 16.
pub open spec fn lightness_milli_of(y: int) -> int {
    if y <= 8_856_000 {
        (9033 * y) / 10_000_000
    } else {
        (116 * floor_cbrt((y * 1_000_000_000) as nat)) / 1000 - 16000
    }
}

/// Perceptual lightness of a whole frame, in thousandths of an L* unit.
pub open spec fn frame_lightness_milli(f: Frame) -> int {
    lightness_milli_of(mean_luminance(f.data@, f.pixel_count() as nat))
}

proof fn lemma_luminance_sum_nonneg(data: Seq<u8>, k: nat)
    ensures
        luminance_sum(data, k) >= 0,
    decreases k,
{
    if k > 0 {
        lemma_luminance_sum_nonneg(data, (k - 1) as nat);
        lemma_div_is_ordered(0, 2126 * lin_of(data[3 * (k - 1)]) + 7152 * lin_of(
            data[3 * (k - 1) + 1],
        ) + 722 * lin_of(data[3 * (k - 1) + 2]), 10000);
    }
}

/// The pixel at index `p` of the interleaved buffer holds exactly `(r, g, b)`.
pub open spec fn pixel_is(data: Seq<u8>, p: int, r: u8, g: u8, b: u8) -> bool {
    &&& data[3 * p] == r
    &&& data[3 * p + 1] == g
    &&& data[3 * p + 2] == b
}

/// Every one of the first `npix` pixels of the buffer holds `(r, g, b)`.
pub open spec fn is_uniform(data: Seq<u8>, npix: nat, r: u8, g: u8, b: u8) -> bool {
    forall|p: int| 0 <= p < npix ==> #[trigger] pixel_is(data, p, r, g, b)
}

proof fn lemma_uniform_sum(data: Seq<u8>, k: nat, npix: nat, r: u8, g: u8, b: u8)
    requires
        k <= npix,
        is_uniform(data, npix, r, g, b),
    ensures
        luminance_sum(data, k) == k * pixel_luminance(r, g, b),
    decreases k,
{
    let pl = pixel_luminance(r, g, b);
    if k == 0 {
        assert(0 * pl == 0) by (nonlinear_arith);
    } else {
        lemma_uniform_sum(data, (k - 1) as nat, npix, r, g, b);
        assert(pixel_is(data, k - 1, r, g, b));
        assert((k as int) * pl == (k - 1) * pl + pl) by (nonlinear_arith);
    }
}

/// Law: a uniform frame's perceptual lightness is the lightness of its one
/// pixel value, whatever the frame's dimensions: averaging over identical
/// pixels changes nothing.
pub proof fn lemma_uniform_frame_lightness(f: Frame, r: u8, g: u8, b: u8)
    requires
        f.wf(),
        f.pixel_count() >= 1,
        is_uniform(f.data@, f.pixel_count() as nat, r, g, b),
    ensures
        frame_lightness_milli(f) == lightness_milli_of(pixel_luminance(r, g, b)),
{
    let npix = f.pixel_count() as nat;
    let pl = pixel_luminance(r, g, b);
    lemma_uniform_sum(f.data@, npix, npix, r, g, b);
    assert((npix as int) * pl == pl * (npix as int)) by (nonlinear_arith);
    lemma_div_multiples_vanish(pl, npix as int);
}

/// Perceptual lightness of the frame, in thousandths of an L* unit.
pub fn lightness_milli(frame: &Frame) -> (r: u64)
    requires
        frame.wf(),
        frame.width >= 1,
        frame.height >= 1,
    ensures
        r as int == frame_lightness_milli(*frame),
        r <= 100_000,
{
    let npix: usize = frame.data.len() / 3;
    proof {
        assert(3 * (frame.width as int) * (frame.height as int) == 3 * ((frame.width as int) * (
        frame.height as int))) by (nonlinear_arith);
        lemma_div_multiples_vanish((frame.width as int) * (frame.height as int), 3);
        assert(npix as int == frame.pixel_count());
        lemma_mul_inequality(1, frame.width as int, frame.height as int);
        assert(frame.pixel_count() >= 1) by (nonlinear_arith)
            requires
                frame.width as int >= 1,
                frame.height as int >= 1,
        ;
    }

    let total: usize = frame.data.len();
    let mut acc: u128 = 0;
    let mut k: usize = 0;
    while k < npix
        invariant
            frame.wf(),
            npix as int == frame.pixel_count(),
            total == frame.data@.len(),
            frame.data@.len() == 3 * (npix as int),
            0 <= k <= npix,
            acc == luminance_sum(frame.data@, k as nat),
            acc <= (k as int) * 1_000_000_000,
        decreases npix - k,
    {
        let base = 3 * k;
        let l = pixel_luminance_exec(frame.data[base], frame.data[base + 1], frame.data[base + 2]);
        acc = acc + (l as u128);
        k += 1;
    }

    proof {
        lemma_luminance_sum_nonneg(frame.data@, npix as nat);
        assert((npix as int) * 1_000_000_000 == 1_000_000_000 * (npix as int)) by (nonlinear_arith);
        lemma_div_is_ordered(acc as int, 1_000_000_000 * (npix as int), npix as int);
        lemma_div_multiples_vanish(1_000_000_000, npix as int);
    }
    let y: u64 = (acc / (npix as u128)) as u64;
    proof {
        assert(y as int == mean_luminance(frame.data@, npix as nat));
        assert(y <= 1_000_000_000);
    }

    if y <= 8_856_000 {
        proof {
            lemma_div_is_ordered(9033 * (y as int), 9033int * 8_856_000, 10_000_000);
        }
        let r = (9033 * y) / 10_000_000;
        r
    } else {
        let n3: u64 = y * 1_000_000_000;
        let c = cube_root(n3);
        proof {
            lemma_cube_million();
            if c > 1_000_000 {
                lemma_cube_mono(1_000_001, c as int);
            }
            assert(c <= 1_000_000);
            lemma_cube_206000();
            if c < 206_000 {
                lemma_cube_mono(c as int + 1, 206_000);
            }
            assert(c >= 206_000);
            lemma_div_is_ordered(116int * 206_000, 116 * (c as int), 1000);
            lemma_div_is_ordered(116 * (c as int), 116int * 1_000_000, 1000);
        }
        let t: u64 = (116 * c) / 1000;
        t - 16000
    }
}

} // verus!
