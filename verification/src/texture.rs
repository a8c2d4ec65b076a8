//! Texture preparation: mip chains, the gamma table, cube faces and the bytes they commit.

use crate::f32bits::F32_ONE;
use crate::layout::SamplerId;
use crate::memprof;
use crate::memprof::MemProf;
use crate::pipeline::{sampler_desc, SamplerDesc};
use crate::words::Vec4;
use vstd::arithmetic::div_mod::*;
use vstd::arithmetic::logarithm::*;
use vstd::arithmetic::power::*;
use vstd::arithmetic::power2::*;
use vstd::prelude::*;

verus! {

/// Per-face resolution of the captured environment cube.
pub const EV_CUBE_SZ: u32 = 128;

/// Mip levels of the captured environment cube.
pub const EV_CUBE_MIPS: u32 = 8;

/// Faces of a cube.
pub const CUBE_FACES: usize = 6;

/// Texel formats of uploaded textures.
#[derive(Clone, Copy, Debug, PartialEq, Eq, Structural)]
pub enum TexelFormat {
    Rgba8Unorm,
    Bgra8Unorm,
    Rgba16Float,
    Bc1RgbaUnorm,
    Bc2RgbaUnorm,
    Bc3RgbaUnorm,
    Bc4RUnorm,
    Bc5RgUnorm,
    Bc5RgSnorm,
}

// ---- sizes ------------------------------------------------------------------------------------
/// Half of `n`, but never less than one.
pub open spec fn half(n: int) -> int {
    if n / 2 < 1 {
        1
    } else {
        n / 2
    }
}

/// The extent of mip level `k` of an image that is `n` texels wide.
pub open spec fn mip_dim(n: int, k: nat) -> int {
    if n / (pow2(k) as int) < 1 {
        1
    } else {
        n / (pow2(k) as int)
    }
}

/// Levels of a full mip chain: floor(log2) of the larger extent, plus one.
pub open spec fn mip_levels(w: int, h: int) -> int {
    log(
        2,
        if w < h {
            h
        } else {
            w
        },
    ) + 1
}

/// Each level is half the one before it.
pub proof fn lemma_mip_dim_step(n: int, k: nat)
    requires
        n >= 0,
    ensures
        mip_dim(n, k + 1) == half(mip_dim(n, k)),
{
    lemma_pow2_unfold((k + 1) as nat);
    lemma_pow2_pos(k);
    lemma_div_denominator(n, pow2(k) as int, 2);
    assert(pow2(k) as int * 2 == pow2((k + 1) as nat) as int);
}

pub proof fn lemma_mip_dim_zero(n: int)
    requires
        n >= 1,
    ensures
        mip_dim(n, 0) == n,
{
    lemma2_to64();
    assert(n / 1 == n);
}

pub proof fn lemma_mip_dim_bounds(n: int, k: nat)
    requires
        n >= 1,
    ensures
        1 <= mip_dim(n, k) <= n,
{
    lemma_pow2_pos(k);
    lemma_div_is_ordered_by_denominator(n, 1, pow2(k) as int);
    assert(n / 1 == n);
}

proof fn lemma_log2_brackets(n: int)
    requires
        n >= 1,
    ensures
        log(2, n) >= 0,
        pow2(log(2, n) as nat) <= n < pow2((log(2, n) + 1) as nat),
    decreases n,
{
    lemma2_to64();
    if n < 2 {
        lemma_log0(2, n);
    } else {
        lemma_log_s(2, n);
        lemma_log2_brackets(n / 2);
        let k = log(2, n / 2) as nat;
        lemma_pow2_unfold((k + 1) as nat);
        lemma_pow2_unfold((k + 2) as nat);
    }
}

/// A full chain ends in a single texel, and in none before its last level.
pub proof fn law_chain_ends_in_one_texel(w: int, h: int, k: nat)
    requires
        w >= 1,
        h >= 1,
        k < mip_levels(w, h),
    ensures
        mip_dim(w, k) == 1 && mip_dim(h, k) == 1 <==> k == mip_levels(w, h) - 1,
{
    let m = if w < h {
        h
    } else {
        w
    };
    lemma_log2_brackets(m);
    let last = log(2, m) as nat;
    lemma_pow2_pos(k);
    let p = pow2(k) as int;
    if k == last {
        lemma_pow2_unfold((last + 1) as nat);
        assert(w / p < 2 && h / p < 2) by (nonlinear_arith)
            requires
                0 <= w < 2 * p,
                0 <= h < 2 * p,
                p > 0,
        ;
    } else {
        lemma_pow2_strictly_increases(k, last);
        lemma_pow2_unfold((k + 1) as nat);
        if k + 1 < last {
            lemma_pow2_strictly_increases((k + 1) as nat, last);
        }
        assert(m / p >= 2) by (nonlinear_arith)
            requires
                m >= 2 * p,
                p > 0,
        ;
    }
}

/// The captured environment cube has a full chain.
pub proof fn law_env_cube_chain_is_full()
    ensures
        EV_CUBE_MIPS == mip_levels(EV_CUBE_SZ as int, EV_CUBE_SZ as int),
{
    lemma_log_s(2, 128);
    lemma_log_s(2, 64);
    lemma_log_s(2, 32);
    lemma_log_s(2, 16);
    lemma_log_s(2, 8);
    lemma_log_s(2, 4);
    lemma_log_s(2, 2);
    lemma_log0(2, 1);
}

/// Levels of a full mip chain.
pub fn mip_level_count(w: u32, h: u32) -> (n: u32)
    requires
        w >= 1,
        h >= 1,
    ensures
        n == mip_levels(w as int, h as int),
        1 <= n <= 32,
{
    let mut m: u32 = if w < h { h } else { w };
    let ghost top = m as int;
    let mut n: u32 = 1;
    proof {
        lemma2_to64();
    }
    while m >= 2
        invariant
            m >= 1,
            1 <= n <= 32,
            log(2, top) == log(2, m as int) + n - 1,
            m < pow2((33 - n) as nat),
        decreases m,
    {
        proof {
            lemma_log_s(2, m as int);
            lemma2_to64();
            assert(n < 32);
            lemma_pow2_unfold((33 - n) as nat);
        }
        m = m / 2;
        n = n + 1;
    }
    proof {
        lemma_log0(2, m as int);
    }
    n
}

// ---- box filter -------------------------------------------------------------------------------
/// `a`, or the last of `n` positions where `a` lies behind it.
pub open spec fn near(a: int, n: int) -> int {
    if a < n {
        a
    } else {
        n - 1
    }
}

/// Texel of the finer level at offset (`dx`, `dy`) in the block behind texel (`x`, `y`).
pub open spec fn tap(w: int, h: int, x: int, y: int, dx: int, dy: int) -> int {
    near(2 * y + dy, h) * w + near(2 * x + dx, w)
}

/// Channel `c` of texel (`x`, `y`) of the coarser level: the mean of its block, where `bias` is
/// added before the division by four.
pub open spec fn box_value(
    src: Seq<u8>,
    w: int,
    h: int,
    bias: int,
    x: int,
    y: int,
    c: int,
) -> int {
    (src[4 * tap(w, h, x, y, 0, 0) + c] + src[4 * tap(w, h, x, y, 1, 0) + c] + src[4 * tap(
        w,
        h,
        x,
        y,
        0,
        1,
    ) + c] + src[4 * tap(w, h, x, y, 1, 1) + c] + bias) / 4
}

/// The coarser level of a level of four-byte texels.
pub open spec fn halved(src: Seq<u8>, w: int, h: int, bias: int) -> Seq<u8> {
    Seq::new(
        (half(w) * half(h) * 4) as nat,
        |n: int|
            box_value(src, w, h, bias, (n / 4) % half(w), (n / 4) / half(w), n % 4) as u8,
    )
}

/// Level `k` of the chain below `src`.
pub open spec fn mip_data(src: Seq<u8>, w: int, h: int, bias: int, k: nat) -> Seq<u8>
    decreases k,
{
    if k == 0 {
        src
    } else {
        halved(
            mip_data(src, w, h, bias, (k - 1) as nat),
            mip_dim(w, (k - 1) as nat),
            mip_dim(h, (k - 1) as nat),
            bias,
        )
    }
}

/// The four texels of the finer level behind texel (`x`, `y`) of the coarser one; the last row and
/// column repeat at an odd edge.
pub fn box_taps(w: usize, h: usize, x: usize, y: usize) -> (t: (usize, usize, usize, usize))
    requires
        w >= 1,
        h >= 1,
        w * h <= usize::MAX,
        x < half(w as int),
        y < half(h as int),
    ensures
        t.0 == tap(w as int, h as int, x as int, y as int, 0, 0),
        t.1 == tap(w as int, h as int, x as int, y as int, 1, 0),
        t.2 == tap(w as int, h as int, x as int, y as int, 0, 1),
        t.3 == tap(w as int, h as int, x as int, y as int, 1, 1),
        t.0 < w * h && t.1 < w * h && t.2 < w * h && t.3 < w * h,
{
    let x0: usize = if 2 * x < w { 2 * x } else { w - 1 };
    let y0: usize = if 2 * y < h { 2 * y } else { h - 1 };
    let x1: usize = if 2 * x < w - 1 { 2 * x + 1 } else { w - 1 };
    let y1: usize = if 2 * y < h - 1 { 2 * y + 1 } else { h - 1 };
    assert(y0 * w + x0 < w * h && y0 * w + x1 < w * h && y1 * w + x0 < w * h && y1 * w + x1 < w * h
        && y0 * w >= 0 && y1 * w >= 0) by (nonlinear_arith)
        requires
            0 <= x0 < w,
            0 <= x1 < w,
            0 <= y0 < h,
            0 <= y1 < h,
    ;
    (y0 * w + x0, y0 * w + x1, y1 * w + x0, y1 * w + x1)
}

fn box_byte(src: &[u8], t: (usize, usize, usize, usize), c: usize, bias: u32) -> (b: u8)
    requires
        c < 4,
        bias <= 2,
        4 * t.0 + c < src@.len(),
        4 * t.1 + c < src@.len(),
        4 * t.2 + c < src@.len(),
        4 * t.3 + c < src@.len(),
    ensures
        b == (src@[4 * t.0 + c] + src@[4 * t.1 + c] + src@[4 * t.2 + c] + src@[4 * t.3 + c] + bias)
            / 4,
{
    assert(src.len() == src@.len());
    let sum: u32 = src[4 * t.0 + c] as u32 + src[4 * t.1 + c] as u32 + src[4 * t.2 + c] as u32
        + src[4 * t.3 + c] as u32;
    ((sum + bias) / 4) as u8
}

fn box_filter(src: &[u8], w: u32, h: u32, bias: u32) -> (out: Vec<u8>)
    requires
        w >= 1,
        h >= 1,
        bias <= 2,
        4 * (w * h) <= src@.len(),
    ensures
        out@ == halved(src@, w as int, h as int, bias as int),
{
    let (uw, uh): (usize, usize) = (w as usize, h as usize);
    assert(src.len() == src@.len());
    assert(w * h >= 0) by (nonlinear_arith)
        requires
            w >= 0,
            h >= 0,
    ;
    let dw: usize = if uw / 2 < 1 { 1 } else { uw / 2 };
    let dh: usize = if uh / 2 < 1 { 1 } else { uh / 2 };
    let ghost want = halved(src@, w as int, h as int, bias as int);
    let mut out: Vec<u8> = Vec::new();
    let mut y: usize = 0;
    while y < dh
        invariant
            uw == w,
            uh == h,
            w >= 1,
            h >= 1,
            bias <= 2,
            4 * (w * h) <= src@.len(),
            0 <= w * h <= usize::MAX,
            dw == half(w as int),
            dh == half(h as int),
            y <= dh,
            want == halved(src@, w as int, h as int, bias as int),
            out@.len() == 4 * (y * dw),
            forall|n: int| 0 <= n < out@.len() ==> #[trigger] out@[n] == want[n],
        decreases dh - y,
    {
        let mut x: usize = 0;
        while x < dw
            invariant
                uw == w,
                uh == h,
                w >= 1,
                h >= 1,
                bias <= 2,
                4 * (w * h) <= src@.len(),
                0 <= w * h <= usize::MAX,
                dw == half(w as int),
                dh == half(h as int),
                y < dh,
                x <= dw,
                want == halved(src@, w as int, h as int, bias as int),
                out@.len() == 4 * (y * dw + x),
                forall|n: int| 0 <= n < out@.len() ==> #[trigger] out@[n] == want[n],
            decreases dw - x,
        {
            let ghost at = y * dw + x;
            proof {
                lemma_fundamental_div_mod_converse(at, dw as int, y as int, x as int);
                assert(at + 1 <= dw * dh && 0 <= at) by (nonlinear_arith)
                    requires
                        at == y * dw + x,
                        0 <= x < dw,
                        0 <= y < dh,
                ;
                assert(want.len() == 4 * (dw * dh)) by (nonlinear_arith)
                    requires
                        want.len() == dw * dh * 4,
                ;
                assert(forall|c: int|
                    0 <= c < 4 ==> #[trigger] ((4 * at + c) / 4) == at && (4 * at + c) % 4 == c);
                assert(w * h == uw * uh);
            }
            let t: (usize, usize, usize, usize) = box_taps(uw, uh, x, y);
            let b0: u8 = box_byte(src, t, 0, bias);
            let b1: u8 = box_byte(src, t, 1, bias);
            let b2: u8 = box_byte(src, t, 2, bias);
            let b3: u8 = box_byte(src, t, 3, bias);
            proof {
                assert((4 * at + 0) / 4 == at && (4 * at + 1) / 4 == at && (4 * at + 2) / 4 == at
                    && (4 * at + 3) / 4 == at);
                assert(want[4 * at] == b0);
                assert(want[4 * at + 1] == b1);
                assert(want[4 * at + 2] == b2);
                assert(want[4 * at + 3] == b3);
            }
            out.push(b0);
            out.push(b1);
            out.push(b2);
            out.push(b3);
            x = x + 1;
        }
        assert(y * dw + dw == (y + 1) * dw) by (nonlinear_arith);
        y = y + 1;
    }
    assert(4 * (dh * dw) == dw * dh * 4) by (nonlinear_arith);
    assert(out@ =~= want);
    out
}

/// Box-filter one level of four-byte texels down to half resolution (at least 1), rounding to the
/// nearest value. Channel order is irrelevant to it.
pub fn downsample_2x(src: &[u8], w: u32, h: u32) -> (r: (Vec<u8>, u32, u32))
    requires
        w >= 1,
        h >= 1,
        4 * (w * h) <= src@.len(),
    ensures
        r.0@ == halved(src@, w as int, h as int, 2),
        r.1 == half(w as int),
        r.2 == half(h as int),
{
    let out: Vec<u8> = box_filter(src, w, h, 2);
    let dw: u32 = if w / 2 < 1 { 1 } else { w / 2 };
    let dh: u32 = if h / 2 < 1 { 1 } else { h / 2 };
    (out, dw, dh)
}

/// A level of one colour stays that colour.
pub proof fn law_flat_levels_stay_flat(src: Seq<u8>, w: int, h: int, c: int, v: u8, x: int, y: int)
    requires
        w >= 1,
        h >= 1,
        0 <= c < 4,
        4 * (w * h) <= src.len(),
        forall|n: int| 0 <= n < src.len() && n % 4 == c ==> #[trigger] src[n] == v,
        0 <= x < half(w),
        0 <= y < half(h),
    ensures
        box_value(src, w, h, 2, x, y, c) == v,
        box_value(src, w, h, 0, x, y, c) == v,
{
    assert forall|dx: int, dy: int| 0 <= dx <= 1 && 0 <= dy <= 1 implies src[4 * #[trigger] tap(
        w,
        h,
        x,
        y,
        dx,
        dy,
    ) + c] == v by {
        let (a, b) = (near(2 * y + dy, h), near(2 * x + dx, w));
        assert(0 <= a * w + b < w * h) by (nonlinear_arith)
            requires
                0 <= a < h,
                0 <= b < w,
        ;
        let n = 4 * (a * w + b) + c;
        assert(n % 4 == c);
    }
}

// ---- colour table -----------------------------------------------------------------------------
/// `code` is `255 * (i/255)^(1/2.2)` rounded to the nearest integer: raised to the eleventh power,
/// with `1/2.2 = 5/11`, the two bounds of the rounding interval become integer inequalities.
pub open spec fn is_gamma_code(i: int, code: int) -> bool {
    &&& 0 <= code <= 255
    &&& code > 0 ==> pow(2 * code - 1, 11) <= pow(2, 11) * pow(255, 6) * pow(i, 5)
    &&& pow(2, 11) * pow(255, 6) * pow(i, 5) < pow(2 * code + 1, 11)
}

pub(crate) proof fn lemma_pow_grows_with_base(a: int, b: int, e: nat)
    requires
        0 <= a < b,
    ensures
        0 <= pow(a, e),
        pow(a, e) <= pow(b, e),
        e > 0 ==> pow(a, e) < pow(b, e),
    decreases e,
{
    reveal(pow);
    if e > 0 {
        lemma_pow_grows_with_base(a, b, (e - 1) as nat);
        lemma_pow_positive(b, (e - 1) as nat);
        let (p, q) = (pow(a, (e - 1) as nat), pow(b, (e - 1) as nat));
        assert(0 <= a * p && a * p < b * q) by (nonlinear_arith)
            requires
                0 <= a < b,
                0 <= p <= q,
                q > 0,
        ;
    }
}

/// Each level has one gamma code.
pub proof fn law_gamma_code_is_unique(i: int, a: int, b: int)
    requires
        0 <= i <= 255,
        is_gamma_code(i, a),
        is_gamma_code(i, b),
    ensures
        a == b,
{
    if a < b {
        lemma_pow_grows_with_base(2 * a + 1, 2 * b, 11);
        if 2 * a + 1 < 2 * b - 1 {
            lemma_pow_grows_with_base(2 * a + 1, 2 * b - 1, 11);
        }
    }
    if b < a {
        if 2 * b + 1 < 2 * a - 1 {
            lemma_pow_grows_with_base(2 * b + 1, 2 * a - 1, 11);
        }
    }
}

/// Brighter levels never get a smaller gamma code.
pub proof fn law_gamma_code_is_monotone(i: int, j: int, a: int, b: int)
    requires
        0 <= i <= j <= 255,
        is_gamma_code(i, a),
        is_gamma_code(j, b),
    ensures
        a <= b,
{
    if i < j {
        lemma_pow_grows_with_base(i, j, 5);
    }
    lemma_pow_positive(2, 11);
    lemma_pow_positive(255, 6);
    let k = pow(2, 11) * pow(255, 6);
    assert(k * pow(i, 5) <= k * pow(j, 5)) by (nonlinear_arith)
        requires
            pow(i, 5) <= pow(j, 5),
            k == pow(2, 11) * pow(255, 6),
            pow(2, 11) > 0,
            pow(255, 6) > 0,
    ;
    if b < a {
        if 2 * b + 1 < 2 * a - 1 {
            lemma_pow_grows_with_base(2 * b + 1, 2 * a - 1, 11);
        }
    }
}

proof fn lemma_pow_values(x: int)
    ensures
        pow(x, 1) == x,
        pow(x, 2) == x * x,
        pow(x, 3) == x * pow(x, 2),
        pow(x, 5) == pow(x, 2) * pow(x, 3),
        pow(x, 6) == pow(x, 3) * pow(x, 3),
        pow(x, 11) == pow(x, 5) * pow(x, 6),
{
    lemma_pow1(x);
    lemma_pow_adds(x, 1, 1);
    lemma_pow_adds(x, 1, 2);
    lemma_pow_adds(x, 2, 3);
    lemma_pow_adds(x, 3, 3);
    lemma_pow_adds(x, 5, 6);
}

fn pow5(x: u128) -> (r: u128)
    requires
        x <= 511,
    ensures
        r == pow(x as int, 5),
        r <= 511 * 511 * 511 * 511 * 511,
{
    proof {
        lemma_pow_values(x as int);
    }
    assert(x * x <= 511 * 511) by (nonlinear_arith)
        requires
            0 <= x <= 511,
    ;
    let x2: u128 = x * x;
    assert(x * x2 <= 511 * 511 * 511) by (nonlinear_arith)
        requires
            0 <= x <= 511,
            0 <= x2 <= 511 * 511,
    ;
    let x3: u128 = x * x2;
    assert(x2 * x3 <= 511 * 511 * 511 * 511 * 511) by (nonlinear_arith)
        requires
            0 <= x2 <= 511 * 511,
            0 <= x3 <= 511 * 511 * 511,
    ;
    x2 * x3
}

fn pow11(x: u128) -> (r: u128)
    requires
        x <= 511,
    ensures
        r == pow(x as int, 11),
{
    let x5: u128 = pow5(x);
    proof {
        lemma_pow_values(x as int);
        lemma_pow_adds(x as int, 1, 5);
    }
    assert(x * x5 <= 511 * 34842114263551) by (nonlinear_arith)
        requires
            0 <= x <= 511,
            0 <= x5 <= 34842114263551,
    ;
    let x6: u128 = x * x5;
    assert(x5 * x6 <= 34842114263551 * 17804320388674561) by (nonlinear_arith)
        requires
            0 <= x5 <= 34842114263551,
            0 <= x6 <= 17804320388674561,
    ;
    x5 * x6
}

/// `2^11 * 255^6`, the constant side of the gamma inequalities.
const GAMMA_SCALE: u128 = 563081209632000000;

proof fn lemma_gamma_scale()
    ensures
        pow(2, 11) * pow(255, 6) == GAMMA_SCALE,
{
    lemma_pow_values(255);
    assert(pow(255, 2) == 65025);
    assert(pow(255, 3) == 16581375);
    assert(pow(255, 6) == 16581375 * 16581375);
    lemma_pow2(11);
    lemma2_to64();
}

/// Gamma-encode table `v^(1/2.2)`, so that a shader's `pow(x, 2.2)` returns the raw texel.
pub fn gamma_encode_lut() -> (lut: [u8; 256])
    ensures
        forall|i: int| 0 <= i < 256 ==> is_gamma_code(i, #[trigger] lut@[i] as int),
        forall|i: int|
            0 <= i < 256 ==> i <= #[trigger] lut@[i] && crate::gamma::reads_back(i, lut@[i] as int),
{
    let mut lut: [u8; 256] = [0u8;256];
    let mut i: usize = 0;
    let mut v: u128 = 0;
    proof {
        lemma_gamma_scale();
    }
    while i < 256
        invariant
            i <= 256,
            v <= 255,
            GAMMA_SCALE == pow(2, 11) * pow(255, 6),
            v > 0 ==> i > 0 && pow(2 * v - 1, 11) <= GAMMA_SCALE * pow(i - 1, 5),
            forall|k: int| 0 <= k < i ==> is_gamma_code(k, #[trigger] lut@[k] as int),
        decreases 256 - i,
    {
        let p: u128 = pow5(i as u128);
        proof {
            lemma_pow_grows_with_base(i as int, 256, 5);
            lemma_pow_values(256);
            assert(pow(256, 5) == 1099511627776);
        }
        assert(GAMMA_SCALE * p <= 563081209632000000 * 1099511627776) by (nonlinear_arith)
            requires
                0 <= p <= 1099511627776,
                GAMMA_SCALE == 563081209632000000,
        ;
        let t: u128 = GAMMA_SCALE * p;
        proof {
            if v > 0 {
                lemma_pow_grows_with_base(i - 1, i as int, 5);
                assert(GAMMA_SCALE * pow(i - 1, 5) <= t) by (nonlinear_arith)
                    requires
                        pow(i - 1, 5) <= p,
                        t == GAMMA_SCALE * p,
                        GAMMA_SCALE > 0,
                ;
            }
        }
        while pow11(2 * v + 1) <= t
            invariant
                i < 256,
                v <= 255,
                t == GAMMA_SCALE * pow(i as int, 5),
                GAMMA_SCALE == pow(2, 11) * pow(255, 6),
                v > 0 ==> pow(2 * v - 1, 11) <= t,
            decreases 256 - v,
        {
            proof {
                lemma_white_is_enough(i as int);
                assert(v < 255) by {
                    if v == 255 {
                        assert(pow(511, 11) > t);
                    }
                }
            }
            v = v + 1;
        }
        lut[i] = v as u8;
        assert(forall|k: int| 0 <= k < i ==> is_gamma_code(k, #[trigger] lut@[k] as int));
        i = i + 1;
    }
    proof {
        assert forall|k: int| 0 <= k < 256 implies k <= #[trigger] lut@[k]
            && crate::gamma::reads_back(k, lut@[k] as int) by {
            crate::gamma::law_gamma_code_reads_back(k, lut@[k] as int);
        }
    }
    lut
}

proof fn lemma_white_is_enough(i: int)
    requires
        0 <= i <= 255,
    ensures
        pow(2, 11) * pow(255, 6) * pow(i, 5) < pow(511, 11),
{
    if i < 255 {
        lemma_pow_grows_with_base(i, 255, 5);
    }
    lemma_pow_positive(2, 11);
    lemma_pow_positive(255, 6);
    lemma_pow_adds(255, 6, 5);
    lemma_pow_distributes(2, 255, 11);
    lemma_pow_grows_with_base(510, 511, 11);
    let k = pow(2, 11) * pow(255, 6);
    assert(k * pow(i, 5) <= pow(2, 11) * (pow(255, 6) * pow(255, 5))) by (nonlinear_arith)
        requires
            k == pow(2, 11) * pow(255, 6),
            pow(2, 11) > 0,
            pow(255, 6) > 0,
            pow(i, 5) <= pow(255, 5),
    ;
}

/// The colour bytes of complete four-byte texels through a table; alpha and a trailing partial
/// texel stay as they are.
pub open spec fn remapped(data: Seq<u8>, lut: Option<&[u8; 256]>) -> Seq<u8> {
    match lut {
        None => data,
        Some(l) => Seq::new(
            data.len(),
            |i: int|
                if i % 4 != 3 && i - i % 4 + 4 <= data.len() {
                    l@[data[i] as int]
                } else {
                    data[i]
                },
        ),
    }
}

/// Apply a per-channel byte table to the colour of four-byte texels (alpha untouched).
pub fn remap_rgb(data: &[u8], lut: Option<&[u8; 256]>) -> (out: Vec<u8>)
    ensures
        out@ == remapped(data@, lut),
{
    let mut out: Vec<u8> = Vec::new();
    let mut i: usize = 0;
    while i < data.len()
        invariant
            i <= data@.len(),
            out@.len() == i,
            forall|k: int| 0 <= k < i ==> #[trigger] out@[k] == remapped(data@, lut)[k],
        decreases data@.len() - i,
    {
        let b: u8 = data[i];
        let v: u8 = match lut {
            None => b,
            Some(l) => if i % 4 != 3 && data.len() - i >= 4 - i % 4 {
                l[b as usize]
            } else {
                b
            },
        };
        out.push(v);
        i = i + 1;
    }
    assert(out@ =~= remapped(data@, lut));
    out
}

// ---- mip chains -------------------------------------------------------------------------------
/// One level as it is written to a texture.
pub struct MipLevel {
    pub data: Vec<u8>,
    pub width: u32,
    pub height: u32,
    pub row_bytes: u32,
}

/// `levels` are the first `count` levels of the chain below `src`, each with its colours remapped.
pub open spec fn is_chain(
    levels: Seq<MipLevel>,
    src: Seq<u8>,
    w: int,
    h: int,
    bias: int,
    lut: Option<&[u8; 256]>,
    count: int,
) -> bool {
    &&& levels.len() == count
    &&& forall|k: int|
        0 <= k < count ==> {
            let l = #[trigger] levels[k];
            &&& l.data@ == remapped(mip_data(src, w, h, bias, k as nat), lut)
            &&& l.width == mip_dim(w, k as nat)
            &&& l.height == mip_dim(h, k as nat)
            &&& l.row_bytes == 4 * mip_dim(w, k as nat)
        }
}

fn chain(
    src: &[u8],
    w: u32,
    h: u32,
    bias: u32,
    lut: Option<&[u8; 256]>,
    count: u32,
) -> (levels: Vec<MipLevel>)
    requires
        w >= 1,
        h >= 1,
        bias <= 2,
        count >= 1,
        4 * (w * h) <= src@.len(),
        4 * w <= u32::MAX,
    ensures
        is_chain(levels@, src@, w as int, h as int, bias as int, lut, count as int),
{
    let mut levels: Vec<MipLevel> = Vec::new();
    levels.push(
        MipLevel { data: remap_rgb(src, lut), width: w, height: h, row_bytes: 4 * w },
    );
    proof {
        lemma_mip_dim_zero(w as int);
        lemma_mip_dim_zero(h as int);
    }
    if count == 1 {
        return levels;
    }
    let mut cur: Vec<u8> = box_filter(src, w, h, bias);
    let mut cw: u32 = if w / 2 < 1 { 1 } else { w / 2 };
    let mut ch: u32 = if h / 2 < 1 { 1 } else { h / 2 };
    let mut k: u32 = 1;
    proof {
        lemma_mip_dim_step(w as int, 0);
        lemma_mip_dim_step(h as int, 0);
        assert(mip_data(src@, w as int, h as int, bias as int, 1) == halved(
            src@,
            w as int,
            h as int,
            bias as int,
        )) by {
            reveal_with_fuel(mip_data, 2);
        }
        assert(cw * ch * 4 == 4 * (cw * ch)) by (nonlinear_arith);
    }
    while k < count
        invariant
            1 <= k <= count,
            w >= 1,
            h >= 1,
            bias <= 2,
            4 * w <= u32::MAX,
            cw == mip_dim(w as int, k as nat),
            ch == mip_dim(h as int, k as nat),
            cw >= 1,
            ch >= 1,
            4 * (cw * ch) <= cur@.len(),
            cur@ == mip_data(src@, w as int, h as int, bias as int, k as nat),
            is_chain(levels@, src@, w as int, h as int, bias as int, lut, k as int),
        decreases count - k,
    {
        proof {
            lemma_mip_dim_bounds(w as int, k as nat);
            lemma_mip_dim_step(w as int, k as nat);
            lemma_mip_dim_step(h as int, k as nat);
        }
        let level: MipLevel = MipLevel {
            data: remap_rgb(cur.as_slice(), lut),
            width: cw,
            height: ch,
            row_bytes: 4 * cw,
        };
        let ghost before = levels@;
        levels.push(level);
        proof {
            assert forall|j: int| 0 <= j < k + 1 implies ({
                let l = #[trigger] levels@[j];
                &&& l.data@ == remapped(
                    mip_data(src@, w as int, h as int, bias as int, j as nat),
                    lut,
                )
                &&& l.width == mip_dim(w as int, j as nat)
                &&& l.height == mip_dim(h as int, j as nat)
                &&& l.row_bytes == 4 * mip_dim(w as int, j as nat)
            }) by {
                if j < k {
                    assert(levels@[j] == before[j]);
                }
            }
        }
        let next: Vec<u8> = box_filter(cur.as_slice(), cw, ch, bias);
        cur = next;
        cw = if cw / 2 < 1 { 1 } else { cw / 2 };
        ch = if ch / 2 < 1 { 1 } else { ch / 2 };
        assert(cw * ch * 4 == 4 * (cw * ch)) by (nonlinear_arith);
        k = k + 1;
    }
    levels
}

/// Bytes a texture of four-byte texels commits: the base level, and a third more for the chain.
pub open spec fn texture_bytes(w: int, h: int, mips: bool) -> int {
    w * h * 4 * (if mips {
        4int
    } else {
        3int
    }) / 3
}

/// The counters after one texture of four-byte texels: its bytes among the uncompressed ones, and
/// under the label of its kind.
pub open spec fn texture_accounted(a: MemProf, b: MemProf, w: int, h: int, mips: bool) -> bool {
    let bytes = texture_bytes(w, h, mips) as u64;
    &&& b.totals() == (
        a.totals().0.wrapping_add(bytes),
        a.totals().1,
        a.totals().2,
        a.totals().3.wrapping_add(1),
        a.totals().4,
    )
    &&& forall|name: Seq<char>|
        #![trigger b.category(name)]
        b.category(name) == if name == (if mips {
            "tex:rgba-mips"@
        } else {
            "tex:rgba-nomip"@
        }) {
            memprof::noted(a.category(name), bytes)
        } else {
            a.category(name)
        }
}

fn account_texture(p: &mut MemProf, w: u32, h: u32, mips: bool)
    requires
        old(p).wf(),
        w * h * 16 <= u64::MAX,
    ensures
        final(p).wf(),
        texture_accounted(*old(p), *final(p), w as int, h as int, mips),
{
    assert(w * h <= w * h * 16) by (nonlinear_arith)
        requires
            w >= 0,
            h >= 0,
    ;
    let texels: u64 = w as u64 * h as u64;
    let quads: u64 = texels * 4;
    let bytes: u64 = (quads * if mips { 4 } else { 3 }) / 3;
    assert(bytes == texture_bytes(w as int, h as int, mips));
    memprof::add_tex_uncompressed(p, bytes);
    memprof::note(
        p,
        if mips {
            "tex:rgba-mips"
        } else {
            "tex:rgba-nomip"
        },
        bytes,
    );
}

// ---- uploads ----------------------------------------------------------------------------------
/// A texture as it is created and written.
pub struct TexturePlan {
    pub format: TexelFormat,
    pub width: u32,
    pub height: u32,
    pub levels: Vec<MipLevel>,
}

/// The plan of a texture of four-byte texels: a full chain with `mips`, else the base level alone.
pub open spec fn is_upload(
    plan: TexturePlan,
    data: Seq<u8>,
    w: int,
    h: int,
    format: TexelFormat,
    mips: bool,
    lut: Option<&[u8; 256]>,
) -> bool {
    &&& plan.format == format
    &&& plan.width == w
    &&& plan.height == h
    &&& is_chain(
        plan.levels@,
        data,
        w,
        h,
        2,
        lut,
        if mips {
            mip_levels(w, h)
        } else {
            1
        },
    )
}

/// Red, green, blue and alpha of texel `t` of a plan's first level, as its format orders the bytes.
pub open spec fn color_at(plan: TexturePlan, t: int) -> (u8, u8, u8, u8) {
    let d = plan.levels@[0].data@;
    if plan.format == TexelFormat::Bgra8Unorm {
        (d[4 * t + 2], d[4 * t + 1], d[4 * t], d[4 * t + 3])
    } else {
        (d[4 * t], d[4 * t + 1], d[4 * t + 2], d[4 * t + 3])
    }
}

/// The first level of a plan is the image itself.
pub proof fn law_upload_keeps_the_image(
    plan: TexturePlan,
    data: Seq<u8>,
    w: int,
    h: int,
    format: TexelFormat,
    mips: bool,
)
    requires
        w >= 1,
        h >= 1,
        is_upload(plan, data, w, h, format, mips, None),
    ensures
        plan.levels@.len() > 0,
        plan.levels@[0].data@ == data,
{
    lemma_levels_positive(w, h);
    let first = plan.levels@[0];
}

/// An image whose bytes are all there and whose sizes can be counted.
pub open spec fn is_image(data: Seq<u8>, w: int, h: int) -> bool {
    &&& w >= 1
    &&& h >= 1
    &&& 4 * (w * h) <= data.len()
    &&& 4 * w <= u32::MAX
    &&& w * h * 16 <= u64::MAX
}

/// Plan and account a texture of four-byte texels. Levels are box-filtered before the table is
/// applied, so that a chain of linear values is built in linear space.
pub fn upload_texture_fmt_mips(
    p: &mut MemProf,
    data: &[u8],
    w: u32,
    h: u32,
    format: TexelFormat,
    mips: bool,
    lut: Option<&[u8; 256]>,
) -> (plan: TexturePlan)
    requires
        old(p).wf(),
        is_image(data@, w as int, h as int),
    ensures
        final(p).wf(),
        texture_accounted(*old(p), *final(p), w as int, h as int, mips),
        is_upload(plan, data@, w as int, h as int, format, mips, lut),
{
    account_texture(p, w, h, mips);
    let count: u32 = if mips { mip_level_count(w, h) } else { 1 };
    let levels: Vec<MipLevel> = chain(data, w, h, 2, lut, count);
    TexturePlan { format, width: w, height: h, levels }
}

/// An RGBA8 image with a full chain.
pub fn upload_texture_rgba(p: &mut MemProf, rgba: &[u8], w: u32, h: u32) -> (plan: TexturePlan)
    requires
        old(p).wf(),
        is_image(rgba@, w as int, h as int),
    ensures
        final(p).wf(),
        texture_accounted(*old(p), *final(p), w as int, h as int, true),
        is_upload(plan, rgba@, w as int, h as int, TexelFormat::Rgba8Unorm, true, None),
        plan.levels@.len() > 0,
        forall|t: int|
            0 <= t && 4 * t + 4 <= rgba@.len() ==> #[trigger] color_at(plan, t) == (
                rgba@[4 * t],
                rgba@[4 * t + 1],
                rgba@[4 * t + 2],
                rgba@[4 * t + 3],
            ),
{
    let plan: TexturePlan = upload_texture_fmt_mips(
        p,
        rgba,
        w,
        h,
        TexelFormat::Rgba8Unorm,
        true,
        None,
    );
    proof {
        law_upload_keeps_the_image(
            plan,
            rgba@,
            w as int,
            h as int,
            TexelFormat::Rgba8Unorm,
            true,
        );
    }
    plan
}

/// A BGRA8 image with a full chain: the byte order of decoded bitmaps, without a swizzle.
pub fn upload_texture_bgra(p: &mut MemProf, bgra: &[u8], w: u32, h: u32) -> (plan: TexturePlan)
    requires
        old(p).wf(),
        is_image(bgra@, w as int, h as int),
    ensures
        final(p).wf(),
        texture_accounted(*old(p), *final(p), w as int, h as int, true),
        is_upload(plan, bgra@, w as int, h as int, TexelFormat::Bgra8Unorm, true, None),
        plan.levels@.len() > 0,
        forall|t: int|
            0 <= t && 4 * t + 4 <= bgra@.len() ==> #[trigger] color_at(plan, t) == (
                bgra@[4 * t + 2],
                bgra@[4 * t + 1],
                bgra@[4 * t],
                bgra@[4 * t + 3],
            ),
{
    let plan: TexturePlan = upload_texture_fmt_mips(
        p,
        bgra,
        w,
        h,
        TexelFormat::Bgra8Unorm,
        true,
        None,
    );
    proof {
        law_upload_keeps_the_image(
            plan,
            bgra@,
            w as int,
            h as int,
            TexelFormat::Bgra8Unorm,
            true,
        );
    }
    plan
}

/// A linear-curve colour map: levels are box-filtered in linear space, then each one is
/// gamma-encoded.
pub fn upload_texture_bgra_gamma_enc(
    p: &mut MemProf,
    linear_bgra: &[u8],
    w: u32,
    h: u32,
) -> (plan: TexturePlan)
    requires
        old(p).wf(),
        is_image(linear_bgra@, w as int, h as int),
    ensures
        final(p).wf(),
        texture_accounted(*old(p), *final(p), w as int, h as int, true),
        exists|lut: &[u8; 256]|
            (forall|i: int| 0 <= i < 256 ==> is_gamma_code(i, #[trigger] lut@[i] as int))
                && #[trigger] is_upload(
                plan,
                linear_bgra@,
                w as int,
                h as int,
                TexelFormat::Bgra8Unorm,
                true,
                Some(lut),
            ),
{
    let lut: [u8; 256] = gamma_encode_lut();
    let plan: TexturePlan = upload_texture_fmt_mips(
        p,
        linear_bgra,
        w,
        h,
        TexelFormat::Bgra8Unorm,
        true,
        Some(&lut),
    );
    plan
}

/// A BGRA8 image without a chain: for high-count, transient or close-viewed textures.
pub fn upload_texture_bgra_nomip(
    p: &mut MemProf,
    bgra: &[u8],
    w: u32,
    h: u32,
) -> (plan: TexturePlan)
    requires
        old(p).wf(),
        is_image(bgra@, w as int, h as int),
    ensures
        final(p).wf(),
        texture_accounted(*old(p), *final(p), w as int, h as int, false),
        is_upload(plan, bgra@, w as int, h as int, TexelFormat::Bgra8Unorm, false, None),
        plan.levels@.len() == 1,
        forall|t: int|
            0 <= t && 4 * t + 4 <= bgra@.len() ==> #[trigger] color_at(plan, t) == (
                bgra@[4 * t + 2],
                bgra@[4 * t + 1],
                bgra@[4 * t],
                bgra@[4 * t + 3],
            ),
{
    let plan: TexturePlan = upload_texture_fmt_mips(
        p,
        bgra,
        w,
        h,
        TexelFormat::Bgra8Unorm,
        false,
        None,
    );
    proof {
        law_upload_keeps_the_image(
            plan,
            bgra@,
            w as int,
            h as int,
            TexelFormat::Bgra8Unorm,
            false,
        );
    }
    plan
}

/// The plan of a half-float image: one level, as it was given.
pub open spec fn is_half_upload(plan: TexturePlan, data: Seq<u8>, w: int, h: int) -> bool {
    &&& plan.format == TexelFormat::Rgba16Float
    &&& plan.width == w
    &&& plan.height == h
    &&& plan.levels@.len() == 1
    &&& plan.levels@[0].data@ == data
    &&& plan.levels@[0].width == w
    &&& plan.levels@[0].height == h
    &&& plan.levels@[0].row_bytes == 8 * w
}

/// The rows of a half-float image hold four numbers of sixteen bits per texel, and all rows
/// together are the image.
pub proof fn law_half_rows(plan: TexturePlan, data: Seq<u8>, w: int, h: int)
    requires
        is_half_upload(plan, data, w, h),
        data.len() == 8 * (w * h),
    ensures
        plan.levels@.len() == 1,
        plan.levels@[0].data@ == data,
        8 * plan.levels@[0].row_bytes == 64 * plan.width,
        plan.levels@[0].row_bytes * plan.height == data.len(),
{
    assert(8 * w * h == 8 * (w * h)) by (nonlinear_arith);
}

/// A half-float image from packed bytes, eight per texel, without a chain.
pub fn upload_texture_rgba16f_nomip(
    p: &mut MemProf,
    f16_bytes: &[u8],
    w: u32,
    h: u32,
) -> (plan: TexturePlan)
    requires
        old(p).wf(),
        8 * w <= u32::MAX,
        w * h * 8 <= u64::MAX,
    ensures
        final(p).wf(),
        is_half_upload(plan, f16_bytes@, w as int, h as int),
        final(p).totals() == (
            old(p).totals().0.wrapping_add((w * h * 8) as u64),
            old(p).totals().1,
            old(p).totals().2,
            old(p).totals().3.wrapping_add(1),
            old(p).totals().4,
        ),
        forall|name: Seq<char>|
            #![trigger final(p).category(name)]
            final(p).category(name) == if name == "tex:emis-hdr"@ {
                memprof::noted(old(p).category(name), (w * h * 8) as u64)
            } else {
                old(p).category(name)
            },
{
    assert(w * h <= w * h * 8) by (nonlinear_arith)
        requires
            w >= 0,
            h >= 0,
    ;
    let bytes: u64 = w as u64 * h as u64 * 8;
    memprof::add_tex_uncompressed(p, bytes);
    memprof::note(p, "tex:emis-hdr", bytes);
    let mut levels: Vec<MipLevel> = Vec::new();
    levels.push(
        MipLevel { data: remap_rgb(f16_bytes, None), width: w, height: h, row_bytes: 8 * w },
    );
    TexturePlan { format: TexelFormat::Rgba16Float, width: w, height: h, levels }
}

// ---- readback ---------------------------------------------------------------------------------
/// Rows compared when a texture is read back.
pub const VERIFY_ROWS: usize = 4;

/// Bytes per row of a readback buffer: rounded up to a multiple of 256.
pub open spec fn padded_row(row_bytes: int) -> int {
    (row_bytes + 255) / 256 * 256
}

/// Bytes among the first `n` that differ between the padded rows and the tight ones.
pub open spec fn mismatches(
    padded: Seq<u8>,
    tight: Seq<u8>,
    row: int,
    pitch: int,
    n: int,
) -> int
    decreases n,
{
    if n <= 0 {
        0
    } else {
        mismatches(padded, tight, row, pitch, n - 1) + if padded[(n - 1) / row * pitch + (n - 1)
            % row] != tight[n - 1] {
            1int
        } else {
            0int
        }
    }
}

/// Nothing is counted exactly when every byte came back as it was.
pub proof fn law_clean_readback(padded: Seq<u8>, tight: Seq<u8>, row: int, pitch: int, n: int)
    ensures
        mismatches(padded, tight, row, pitch, n) == 0 <==> forall|i: int|
            0 <= i < n ==> padded[i / row * pitch + i % row] == #[trigger] tight[i],
        n >= 0 ==> 0 <= mismatches(padded, tight, row, pitch, n) <= n,
    decreases n,
{
    if n > 0 {
        law_clean_readback(padded, tight, row, pitch, n - 1);
        if mismatches(padded, tight, row, pitch, n) == 0 {
            assert forall|i: int| 0 <= i < n implies padded[i / row * pitch + i % row]
                == #[trigger] tight[i] by {
                if i == n - 1 {
                }
            }
        } else {
            if mismatches(padded, tight, row, pitch, n - 1) == 0 {
                assert(tight[n - 1] != padded[(n - 1) / row * pitch + (n - 1) % row]);
            }
        }
    }
}

/// A share in whole percent, rounded down.
pub open spec fn percent_of(part: int, total: int) -> int {
    part * 100 / total
}

/// A share lies between its percent and the next one: all of it is a hundred, none of it is none.
pub proof fn law_percent(part: int, total: int)
    requires
        0 <= part <= total,
        total >= 1,
    ensures
        percent_of(part, total) * total <= 100 * part < (percent_of(part, total) + 1) * total,
        0 <= percent_of(part, total) <= 100,
{
    let q = percent_of(part, total);
    lemma_fundamental_div_mod(part * 100, total);
    lemma_mod_bound(part * 100, total);
    assert(q * total <= 100 * part < (q + 1) * total && 0 <= q <= 100) by (nonlinear_arith)
        requires
            part * 100 == total * q + (part * 100) % total,
            0 <= (part * 100) % total < total,
            0 <= part <= total,
    ;
}

/// Bytes per row of a readback buffer for a texture `w` texels wide.
pub fn readback_pitch(w: u32) -> (pitch: u32)
    requires
        4 * w + 255 <= u32::MAX,
    ensures
        pitch == padded_row(4 * w),
{
    (4 * w + 255) / 256 * 256
}

/// Compare the first rows of a readback with the source: differing bytes, compared bytes, and the
/// share that differs in percent.
pub fn readback_report(mapped: &[u8], data: &[u8], w: u32) -> (r: (u64, u64, u64))
    requires
        w >= 1,
        4 * w + 255 <= u32::MAX,
        mapped@.len() >= VERIFY_ROWS * padded_row(4 * w),
        data@.len() >= VERIFY_ROWS * (4 * w),
    ensures
        r.1 == VERIFY_ROWS * (4 * w),
        r.0 == mismatches(
            mapped@,
            data@,
            4 * w,
            padded_row(4 * w),
            VERIFY_ROWS * (4 * w),
        ),
        r.2 == percent_of(r.0 as int, r.1 as int),
{
    assert(data.len() == data@.len() && mapped.len() == mapped@.len());
    let row: usize = 4 * w as usize;
    let pitch: usize = readback_pitch(w) as usize;
    let total: usize = VERIFY_ROWS * row;
    let mut differing: u64 = 0;
    let mut i: usize = 0;
    proof {
        assert(pitch >= row);
    }
    while i < total
        invariant
            i <= total,
            row == 4 * w,
            w >= 1,
            pitch == padded_row(4 * w),
            pitch >= row,
            total == 4 * row,
            total <= 0x4_0000_0000,
            mapped@.len() >= 4 * pitch,
            data@.len() >= total,
            differing <= i,
            differing == mismatches(mapped@, data@, row as int, pitch as int, i as int),
        decreases total - i,
    {
        let r: usize = i / row;
        let c: usize = i % row;
        proof {
            lemma_fundamental_div_mod(i as int, row as int);
            lemma_mod_bound(i as int, row as int);
            assert(r < 4) by (nonlinear_arith)
                requires
                    i == row * r + c,
                    i < 4 * row,
                    c >= 0,
                    row > 0,
            ;
            assert(r * pitch + c < 4 * pitch && r * pitch >= 0) by (nonlinear_arith)
                requires
                    0 <= r < 4,
                    0 <= c < pitch,
            ;
        }
        if mapped[r * pitch + c] != data[i] {
            differing = differing + 1;
        }
        i = i + 1;
    }
    (differing, total as u64, differing * 100 / total as u64)
}

// ---- cubes ------------------------------------------------------------------------------------
/// A face set is usable: six faces, all of one nonzero extent, none short of channels.
pub open spec fn is_face_set(sizes: Seq<(usize, u32, u32)>) -> bool {
    &&& sizes.len() == 6
    &&& sizes[0].1 != 0
    &&& sizes[0].2 != 0
    &&& forall|f: int|
        0 <= f < 6 ==> {
            let s = #[trigger] sizes[f];
            &&& s.1 == sizes[0].1
            &&& s.2 == sizes[0].2
            &&& s.0 >= sizes[0].1 * sizes[0].2 * 4
        }
}

/// The extent and level count of a cube whose faces bring (channel count, width, height); `None`
/// for a malformed face set.
pub fn cube_shape(sizes: &Vec<(usize, u32, u32)>) -> (r: Option<(u32, u32, u32)>)
    ensures
        match r {
            Some((w, h, n)) => is_face_set(sizes@) && w == sizes@[0].1 && h == sizes@[0].2 && n
                == mip_levels(w as int, h as int),
            None => !is_face_set(sizes@),
        },
{
    if sizes.len() != CUBE_FACES {
        return None;
    }
    let w: u32 = sizes[0].1;
    let h: u32 = sizes[0].2;
    if w == 0 || h == 0 {
        return None;
    }
    assert(w * h <= u32::MAX * u32::MAX) by (nonlinear_arith)
        requires
            0 <= w <= u32::MAX,
            0 <= h <= u32::MAX,
    ;
    assert(0 <= w * h * 4) by (nonlinear_arith)
        requires
            0 <= w,
            0 <= h,
    ;
    let need: u128 = w as u128 * h as u128 * 4;
    let mut f: usize = 0;
    while f < CUBE_FACES
        invariant
            f <= 6,
            sizes@.len() == 6,
            w == sizes@[0].1,
            h == sizes@[0].2,
            need == w * h * 4,
            forall|g: int|
                0 <= g < f ==> {
                    let s = #[trigger] sizes@[g];
                    &&& s.1 == w
                    &&& s.2 == h
                    &&& s.0 >= need
                },
        decreases 6 - f,
    {
        let s: (usize, u32, u32) = sizes[f];
        if s.1 != w || s.2 != h || (s.0 as u128) < need {
            return None;
        }
        f = f + 1;
    }
    Some((w, h, mip_level_count(w, h)))
}

/// The first and third byte of each complete four-byte texel exchanged; the rest unchanged.
pub open spec fn swapped(data: Seq<u8>) -> Seq<u8> {
    Seq::new(
        data.len(),
        |i: int|
            if i - i % 4 + 4 <= data.len() {
                if i % 4 == 0 {
                    data[i + 2]
                } else if i % 4 == 2 {
                    data[i - 2]
                } else {
                    data[i]
                }
            } else {
                data[i]
            },
    )
}

/// Exchanging the channels twice gives the texels back.
pub proof fn law_swap_is_its_own_inverse(data: Seq<u8>)
    ensures
        swapped(swapped(data)) == data,
{
    assert forall|i: int| 0 <= i < data.len() implies swapped(swapped(data))[i] == data[i] by {
        if i - i % 4 + 4 <= data.len() {
            if i % 4 == 0 {
                assert((i + 2) % 4 == 2);
            } else if i % 4 == 2 {
                assert((i - 2) % 4 == 0);
            }
        }
    }
    assert(swapped(swapped(data)) =~= data);
}

fn swap_red_blue(data: &[u8]) -> (out: Vec<u8>)
    ensures
        out@ == swapped(data@),
{
    let mut out: Vec<u8> = Vec::new();
    let mut i: usize = 0;
    while i < data.len()
        invariant
            i <= data@.len(),
            out@.len() == i,
            forall|k: int| 0 <= k < i ==> #[trigger] out@[k] == swapped(data@)[k],
        decreases data@.len() - i,
    {
        let complete: bool = data.len() - i >= 4 - i % 4;
        let b: u8 = if complete && i % 4 == 0 {
            data[i + 2]
        } else if complete && i % 4 == 2 {
            data[i - 2]
        } else {
            data[i]
        };
        out.push(b);
        i = i + 1;
    }
    assert(out@ =~= swapped(data@));
    out
}

/// A cube as it is written to a texture: its format, extent and the levels of each face.
pub struct CubePlan {
    pub format: TexelFormat,
    pub width: u32,
    pub height: u32,
    pub mips: u32,
    pub usage: TextureUse,
    pub view: ViewKind,
    pub faces: Vec<Vec<MipLevel>>,
}

/// Where a level of a face goes, before its texels are known.
#[derive(Clone, Copy, Debug, PartialEq, Eq, Structural)]
pub struct LevelShape {
    pub width: u32,
    pub height: u32,
    pub row_bytes: u32,
}

/// A cube of half-float texels as it is created; the texels of its levels are the caller's to
/// filter.
pub struct HdrCubePlan {
    pub format: TexelFormat,
    pub width: u32,
    pub height: u32,
    pub usage: TextureUse,
    pub view: ViewKind,
    /// The levels of each of the six faces.
    pub levels: Vec<LevelShape>,
}

/// Only read by shaders once it was written.
pub open spec fn written_once() -> TextureUse {
    TextureUse { render_target: false, sampled: true, copy_from: false, copy_to: true }
}

/// What `cube_shape` reads of a set of decoded faces.
pub open spec fn face_sizes(faces: Seq<(Vec<u8>, u32, u32)>) -> Seq<(usize, u32, u32)> {
    Seq::new(faces.len(), |f: int| (faces[f].0@.len() as usize, faces[f].1, faces[f].2))
}

/// Bytes a cube with full chains commits.
pub open spec fn cube_bytes(w: int, h: int, texel: int) -> int {
    w * h * texel * 6 * 4 / 3
}

/// An authored cube: its decoded faces with red and blue exchanged, each with a full chain that
/// rounds down.
pub open spec fn is_authored_cube(c: CubePlan, faces: Seq<(Vec<u8>, u32, u32)>) -> bool {
    let w = faces[0].1 as int;
    let h = faces[0].2 as int;
    &&& c.format == TexelFormat::Rgba8Unorm
    &&& c.width == w
    &&& c.height == h
    &&& c.mips == mip_levels(w, h)
    &&& c.usage == written_once()
    &&& c.view == ViewKind::Cube
    &&& c.faces@.len() == 6
    &&& forall|f: int|
        0 <= f < 6 ==> is_chain(
            (#[trigger] c.faces@[f])@,
            swapped(faces[f].0@),
            w,
            h,
            0,
            None,
            c.mips as int,
        )
}

fn cube_size(w: u32, h: u32, texel: u64) -> (bytes: u64)
    requires
        texel == 4 || texel == 8,
        w * h * texel * 24 <= u64::MAX,
    ensures
        bytes == cube_bytes(w as int, h as int, texel as int),
{
    assert(w * h >= 0) by (nonlinear_arith)
        requires
            w >= 0,
            h >= 0,
    ;
    assert(w * h <= w * h * texel && w * h * texel >= 0) by (nonlinear_arith)
        requires
            w * h >= 0,
            texel >= 1,
    ;
    let texels: u64 = w as u64 * h as u64;
    let face: u64 = texels * texel;
    face * 6 * 4 / 3
}

/// The authored environment cube from its six decoded faces, in face order. Red and blue are
/// exchanged, alpha is kept, and each face gets a full chain by truncating box filters. `None` for
/// a malformed face set, so that the caller falls back to the captured sky; nothing is accounted
/// then.
pub fn build_authored_env_cube(
    p: &mut MemProf,
    faces: &Vec<(Vec<u8>, u32, u32)>,
) -> (r: Option<CubePlan>)
    requires
        old(p).wf(),
        is_face_set(face_sizes(faces@)) ==> 4 * faces@[0].1 <= u32::MAX && faces@[0].1 * faces@[0].2
            * 4 * 24 <= u64::MAX,
    ensures
        final(p).wf(),
        final(p).totals() == old(p).totals(),
        !is_face_set(face_sizes(faces@)) ==> r is None && forall|name: Seq<char>|
            #[trigger] final(p).category(name) == old(p).category(name),
        is_face_set(face_sizes(faces@)) ==> {
            let w = faces@[0].1 as int;
            let h = faces@[0].2 as int;
            &&& r matches Some(c) && is_authored_cube(c, faces@)
            &&& forall|name: Seq<char>|
                #![trigger final(p).category(name)]
                final(p).category(name) == if name == "tex:authored-env-cube"@ {
                    memprof::noted(old(p).category(name), cube_bytes(w, h, 4) as u64)
                } else {
                    old(p).category(name)
                }
        },
{
    let mut sizes: Vec<(usize, u32, u32)> = Vec::new();
    let mut i: usize = 0;
    while i < faces.len()
        invariant
            i <= faces@.len(),
            sizes@ == face_sizes(faces@).take(i as int),
        decreases faces@.len() - i,
    {
        sizes.push((faces[i].0.len(), faces[i].1, faces[i].2));
        i = i + 1;
        assert(sizes@ =~= face_sizes(faces@).take(i as int));
    }
    assert(face_sizes(faces@).take(faces@.len() as int) =~= face_sizes(faces@));
    match cube_shape(&sizes) {
        None => None,
        Some((w, h, mips)) => {
            assert(sizes@[0] == (faces@[0].0@.len() as usize, faces@[0].1, faces@[0].2));
            memprof::note(p, "tex:authored-env-cube", cube_size(w, h, 4));
            let mut out: Vec<Vec<MipLevel>> = Vec::new();
            let mut f: usize = 0;
            proof {
                lemma_levels_positive(w as int, h as int);
            }
            while f < CUBE_FACES
                invariant
                    f <= 6,
                    is_face_set(face_sizes(faces@)),
                    w == faces@[0].1,
                    h == faces@[0].2,
                    w >= 1,
                    h >= 1,
                    mips >= 1,
                    4 * w <= u32::MAX,
                    mips == mip_levels(w as int, h as int),
                    out@.len() == f,
                    forall|g: int|
                        0 <= g < f ==> is_chain(
                            (#[trigger] out@[g])@,
                            swapped(faces@[g].0@),
                            w as int,
                            h as int,
                            0,
                            None,
                            mips as int,
                        ),
                decreases 6 - f,
            {
                let data: Vec<u8> = swap_red_blue(faces[f].0.as_slice());
                proof {
                    let s = face_sizes(faces@)[f as int];
                    assert(s.0 >= w * h * 4);
                    assert(w * h * 4 == 4 * (w * h)) by (nonlinear_arith);
                }
                let levels: Vec<MipLevel> = chain(data.as_slice(), w, h, 0, None, mips);
                out.push(levels);
                f = f + 1;
            }
            Some(
                CubePlan {
                    format: TexelFormat::Rgba8Unorm,
                    width: w,
                    height: h,
                    mips,
                    usage: TextureUse {
                        render_target: false,
                        sampled: true,
                        copy_from: false,
                        copy_to: true,
                    },
                    view: ViewKind::Cube,
                    faces: out,
                },
            )
        },
    }
}

proof fn lemma_levels_positive(w: int, h: int)
    requires
        w >= 1,
        h >= 1,
    ensures
        mip_levels(w, h) >= 1,
{
    lemma_log2_brackets(
        if w < h {
            h
        } else {
            w
        },
    );
}

/// The levels of a face of half-float texels.
pub open spec fn hdr_levels(w: int, h: int) -> Seq<LevelShape> {
    Seq::new(
        mip_levels(w, h) as nat,
        |k: int|
            LevelShape {
                width: mip_dim(w, k as nat) as u32,
                height: mip_dim(h, k as nat) as u32,
                row_bytes: (8 * mip_dim(w, k as nat)) as u32,
            },
    )
}

/// The extent and row pitch of each level of a face of half-float texels.
pub fn hdr_cube_levels(w: u32, h: u32) -> (l: Vec<LevelShape>)
    requires
        w >= 1,
        h >= 1,
        8 * w <= u32::MAX,
    ensures
        l@ == hdr_levels(w as int, h as int),
{
    let count: u32 = mip_level_count(w, h);
    let mut l: Vec<LevelShape> = Vec::new();
    let mut cw: u32 = w;
    let mut ch: u32 = h;
    let mut k: u32 = 0;
    proof {
        lemma_mip_dim_zero(w as int);
        lemma_mip_dim_zero(h as int);
        lemma_levels_positive(w as int, h as int);
    }
    while k < count
        invariant
            k <= count,
            count == mip_levels(w as int, h as int),
            w >= 1,
            h >= 1,
            8 * w <= u32::MAX,
            cw == mip_dim(w as int, k as nat),
            ch == mip_dim(h as int, k as nat),
            l@ == hdr_levels(w as int, h as int).take(k as int),
        decreases count - k,
    {
        proof {
            lemma_mip_dim_bounds(w as int, k as nat);
            lemma_mip_dim_step(w as int, k as nat);
            lemma_mip_dim_step(h as int, k as nat);
        }
        l.push(LevelShape { width: cw, height: ch, row_bytes: 8 * cw });
        cw = if cw / 2 < 1 { 1 } else { cw / 2 };
        ch = if ch / 2 < 1 { 1 } else { ch / 2 };
        k = k + 1;
        assert(l@ =~= hdr_levels(w as int, h as int).take(k as int));
    }
    assert(l@ =~= hdr_levels(w as int, h as int));
    l
}

/// The half-float cube of six decoded float faces, given as (channel count, width, height). `None`
/// for a malformed face set; nothing is accounted then.
pub fn build_hdr_env_cube(p: &mut MemProf, sizes: &Vec<(usize, u32, u32)>) -> (r: Option<
    HdrCubePlan,
>)
    requires
        old(p).wf(),
        is_face_set(sizes@) ==> 8 * sizes@[0].1 <= u32::MAX && sizes@[0].1 * sizes@[0].2 * 8 * 24
            <= u64::MAX,
    ensures
        final(p).wf(),
        final(p).totals() == old(p).totals(),
        match r {
            Some(c) => {
                &&& is_face_set(sizes@)
                &&& c.format == TexelFormat::Rgba16Float
                &&& c.width == sizes@[0].1
                &&& c.height == sizes@[0].2
                &&& c.usage == written_once()
                &&& c.view == ViewKind::Cube
                &&& c.levels@ == hdr_levels(c.width as int, c.height as int)
                &&& forall|name: Seq<char>|
                    #![trigger final(p).category(name)]
                    final(p).category(name) == if name == "tex:cluster-env-cube"@ {
                        memprof::noted(
                            old(p).category(name),
                            cube_bytes(c.width as int, c.height as int, 8) as u64,
                        )
                    } else {
                        old(p).category(name)
                    }
            },
            None => {
                &&& !is_face_set(sizes@)
                &&& forall|name: Seq<char>| #[trigger]
                    final(p).category(name) == old(p).category(name)
            },
        },
{
    match cube_shape(sizes) {
        None => None,
        Some((w, h, _)) => {
            memprof::note(p, "tex:cluster-env-cube", cube_size(w, h, 8));
            Some(
                HdrCubePlan {
                    format: TexelFormat::Rgba16Float,
                    width: w,
                    height: h,
                    usage: TextureUse {
                        render_target: false,
                        sampled: true,
                        copy_from: false,
                        copy_to: true,
                    },
                    view: ViewKind::Cube,
                    levels: hdr_cube_levels(w, h),
                },
            )
        },
    }
}

/// What a texture may be used for.
#[derive(Clone, Copy, Debug, PartialEq, Eq, Structural)]
pub struct TextureUse {
    pub render_target: bool,
    pub sampled: bool,
    pub copy_from: bool,
    pub copy_to: bool,
}

/// How a texture's layers are read.
#[derive(Clone, Copy, Debug, PartialEq, Eq, Structural)]
pub enum ViewKind {
    Flat,
    Cube,
}

/// The target that the sky is captured into.
#[derive(Clone, Copy, Debug, PartialEq, Eq, Structural)]
pub struct CubeTarget {
    pub format: TexelFormat,
    pub size: u32,
    pub faces: u32,
    pub mips: u32,
    pub usage: TextureUse,
    /// The level of every face that is cleared at first, through a view of that face alone.
    pub clear_level: u32,
    pub clear_view: ViewKind,
    pub clear_color: Vec4,
    /// How shaders read it.
    pub view: ViewKind,
    pub sampler: SamplerDesc,
}

/// The captured environment cube as it is created.
pub open spec fn env_target() -> CubeTarget {
    CubeTarget {
        format: TexelFormat::Rgba16Float,
        size: EV_CUBE_SZ,
        faces: 6,
        mips: EV_CUBE_MIPS,
        usage: TextureUse {
            render_target: true,
            sampled: true,
            copy_from: true,
            copy_to: true,
        },
        clear_level: 0,
        clear_view: ViewKind::Flat,
        clear_color: Vec4 { x: 0, y: 0, z: 0, w: F32_ONE },
        view: ViewKind::Cube,
        sampler: crate::pipeline::sampler_of(SamplerId::Env, false),
    }
}

/// The captured environment cube: a half-float target of six faces with a full chain. It starts
/// out black, which shaders take for a sky that was not captured yet. The capture is drawn
/// elsewhere and copied here.
pub fn build_env_cube() -> (c: CubeTarget)
    ensures
        c == env_target(),
{
    CubeTarget {
        format: TexelFormat::Rgba16Float,
        size: EV_CUBE_SZ,
        faces: 6,
        mips: EV_CUBE_MIPS,
        usage: TextureUse { render_target: true, sampled: true, copy_from: true, copy_to: true },
        clear_level: 0,
        clear_view: ViewKind::Flat,
        clear_color: Vec4 { x: 0, y: 0, z: 0, w: F32_ONE },
        view: ViewKind::Cube,
        sampler: sampler_desc(SamplerId::Env, false),
    }
}

// ---- what the levels and the bytes mean -------------------------------------------------------
/// Halving: twice the half is the extent, or one less where it is odd; nothing gets below one.
pub proof fn law_extents_halve(n: int, k: nat)
    requires
        n >= 1,
    ensures
        n >= 2 ==> n - 1 <= 2 * half(n) <= n,
        half(1) == 1,
        mip_dim(n, 0) == n,
        mip_dim(n, k + 1) == half(mip_dim(n, k)),
{
    lemma_mip_dim_zero(n);
    lemma_mip_dim_step(n, k);
}

/// The channel sum of the block behind a texel of the coarser level: two texels of two rows, of
/// which the only column or the only row counts twice.
pub open spec fn block_sum(src: Seq<u8>, w: int, h: int, x: int, y: int, c: int) -> int {
    let right = if w == 1 {
        0int
    } else {
        1int
    };
    let below = if h == 1 {
        0int
    } else {
        1int
    };
    src[4 * (2 * y * w + 2 * x) + c] + src[4 * (2 * y * w + 2 * x + right) + c] + src[4 * ((2 * y
        + below) * w + 2 * x) + c] + src[4 * ((2 * y + below) * w + 2 * x + right) + c]
}

/// Texel (`x`, `y`) of the coarser level stands in row order, and each of its channels is the mean
/// of that channel over its block: rounded to the nearest with a bias of two, down with none. The
/// channels do not mix.
pub proof fn law_coarser_texel_is_the_mean(
    src: Seq<u8>,
    w: int,
    h: int,
    bias: int,
    x: int,
    y: int,
    c: int,
)
    requires
        w >= 1,
        h >= 1,
        0 <= bias <= 2,
        0 <= x < half(w),
        0 <= y < half(h),
        0 <= c < 4,
    ensures
        ({
            let v = halved(src, w, h, bias)[4 * (y * half(w) + x) + c];
            let sum = block_sum(src, w, h, x, y, c);
            &&& halved(src, w, h, bias).len() == 4 * (half(w) * half(h))
            &&& 4 * v <= sum + bias < 4 * v + 4
        }),
{
    let (dw, dh) = (half(w), half(h));
    let t = y * dw + x;
    let n = 4 * t + c;
    assert(0 <= t < dw * dh && 4 * (dw * dh) == dw * dh * 4) by (nonlinear_arith)
        requires
            t == y * dw + x,
            0 <= x < dw,
            0 <= y < dh,
    ;
    assert(n / 4 == t && n % 4 == c);
    vstd::arithmetic::div_mod::lemma_fundamental_div_mod_converse(t, dw, y, x);
    assert(t / dw == y && t % dw == x) by {
        assert(t == y * dw + x);
    }
    let (x1, y1) = (near(2 * x + 1, w), near(2 * y + 1, h));
    assert(near(2 * x, w) == 2 * x && near(2 * y, h) == 2 * y);
    assert(x1 == if w == 1 {
        2 * x
    } else {
        2 * x + 1
    });
    assert(y1 == if h == 1 {
        2 * y
    } else {
        2 * y + 1
    });
    let b = box_value(src, w, h, bias, x, y, c);
    assert(4 * b <= block_sum(src, w, h, x, y, c) + bias < 4 * b + 4);
    assert(0 <= b <= 255);
}

/// What an upload plans: the image itself as the first level, each further one half the size and
/// the mean of the one before it, down to a single texel with a chain and the first level alone
/// without; rows are tight.
pub proof fn law_upload_levels(
    plan: TexturePlan,
    data: Seq<u8>,
    w: int,
    h: int,
    format: TexelFormat,
    mips: bool,
    k: int,
)
    requires
        w >= 1,
        h >= 1,
        is_upload(plan, data, w, h, format, mips, None),
        0 <= k < plan.levels@.len(),
    ensures
        plan.format == format,
        plan.width == w,
        plan.height == h,
        plan.levels@[0].data@ == data,
        plan.levels@[0].width == w,
        plan.levels@[0].height == h,
        plan.levels@[k].row_bytes == 4 * plan.levels@[k].width,
        !mips ==> plan.levels@.len() == 1,
        mips ==> plan.levels@.last().width == 1 && plan.levels@.last().height == 1,
        k + 1 < plan.levels@.len() ==> {
            let (a, b) = (plan.levels@[k], plan.levels@[k + 1]);
            &&& b.width == half(a.width as int)
            &&& b.height == half(a.height as int)
            &&& b.data@ == halved(a.data@, a.width as int, a.height as int, 2)
            &&& a.width > 1 || a.height > 1
        },
{
    lemma_levels_positive(w, h);
    law_extents_halve(w, k as nat);
    law_extents_halve(h, k as nat);
    let n = plan.levels@.len() as int;
    let last = plan.levels@[n - 1];
    if mips {
        law_chain_ends_in_one_texel(w, h, (n - 1) as nat);
        law_chain_ends_in_one_texel(w, h, k as nat);
    }
    let first = plan.levels@[0];
    let a = plan.levels@[k];
    if k + 1 < n {
        let b = plan.levels@[k + 1];
        assert((k + 1) as nat == (k as nat) + 1);
        assert(mip_data(data, w, h, 2, (k + 1) as nat) == halved(
            mip_data(data, w, h, 2, k as nat),
            mip_dim(w, k as nat),
            mip_dim(h, k as nat),
            2,
        ));
    }
}

/// A table is applied to each level behind the filter: with a table the plan has the levels of the
/// plan without, each remapped.
pub proof fn law_table_follows_the_filter(
    a: TexturePlan,
    b: TexturePlan,
    data: Seq<u8>,
    w: int,
    h: int,
    format: TexelFormat,
    mips: bool,
    lut: &[u8; 256],
    k: int,
)
    requires
        is_upload(a, data, w, h, format, mips, None),
        is_upload(b, data, w, h, format, mips, Some(lut)),
        0 <= k < a.levels@.len(),
    ensures
        b.levels@.len() == a.levels@.len(),
        b.levels@[k].data@ == remapped(a.levels@[k].data@, Some(lut)),
        b.levels@[k].width == a.levels@[k].width,
        b.levels@[k].height == a.levels@[k].height,
{
    let (x, y) = (a.levels@[k], b.levels@[k]);
}

/// A table replaces the three colour bytes of each texel and leaves its alpha and a trailing
/// partial texel; no table leaves everything.
pub proof fn law_tables_leave_alpha(data: Seq<u8>, lut: &[u8; 256], t: int, i: int)
    requires
        0 <= t,
        4 * t + 4 <= data.len(),
    ensures
        ({
            let out = remapped(data, Some(lut));
            &&& out.len() == data.len()
            &&& out[4 * t] == lut@[data[4 * t] as int]
            &&& out[4 * t + 1] == lut@[data[4 * t + 1] as int]
            &&& out[4 * t + 2] == lut@[data[4 * t + 2] as int]
            &&& out[4 * t + 3] == data[4 * t + 3]
            &&& data.len() - data.len() % 4 <= i < data.len() ==> out[i] == data[i]
        }),
        remapped(data, None) == data,
{
    let (a, b, c, d) = (4 * t, 4 * t + 1, 4 * t + 2, 4 * t + 3);
    assert(a % 4 == 0 && b % 4 == 1 && c % 4 == 2 && d % 4 == 3);
}

/// Exchanging red and blue moves the first byte of a texel to the third place and back, and leaves
/// green, alpha and a trailing partial texel.
pub proof fn law_red_and_blue_change_places(data: Seq<u8>, t: int, i: int)
    requires
        0 <= t,
        4 * t + 4 <= data.len(),
    ensures
        ({
            let out = swapped(data);
            &&& out.len() == data.len()
            &&& out[4 * t] == data[4 * t + 2]
            &&& out[4 * t + 1] == data[4 * t + 1]
            &&& out[4 * t + 2] == data[4 * t]
            &&& out[4 * t + 3] == data[4 * t + 3]
            &&& data.len() - data.len() % 4 <= i < data.len() ==> out[i] == data[i]
        }),
{
    let (a, b, c, d) = (4 * t, 4 * t + 1, 4 * t + 2, 4 * t + 3);
    assert(a % 4 == 0 && b % 4 == 1 && c % 4 == 2 && d % 4 == 3);
}

/// A readback row is the tight row rounded up to the next multiple of 256.
pub proof fn law_padded_row(row_bytes: int)
    requires
        row_bytes >= 0,
    ensures
        padded_row(row_bytes) % 256 == 0,
        row_bytes <= padded_row(row_bytes) < row_bytes + 256,
{
}

/// Each byte of a readback is compared with the byte of the same row and column, and counts once
/// where the two differ.
pub proof fn law_readback_compares_rows(
    padded: Seq<u8>,
    tight: Seq<u8>,
    row: int,
    pitch: int,
    r: int,
    c: int,
)
    requires
        r >= 0,
        0 <= c < row,
    ensures
        mismatches(padded, tight, row, pitch, 0) == 0,
        mismatches(padded, tight, row, pitch, r * row + c + 1) - mismatches(
            padded,
            tight,
            row,
            pitch,
            r * row + c,
        ) == if padded[r * pitch + c] != tight[r * row + c] {
            1int
        } else {
            0int
        },
{
    let n = r * row + c;
    assert(n >= 0) by (nonlinear_arith)
        requires
            n == r * row + c,
            r >= 0,
            row > 0,
            c >= 0,
    ;
    vstd::arithmetic::div_mod::lemma_fundamental_div_mod_converse(n, row, r, c);
}

/// What is counted for a texture: four bytes per texel, and a third more for a chain; for a cube
/// six faces with their chains.
pub proof fn law_counted_texture_bytes(w: int, h: int, texel: int)
    requires
        w >= 0,
        h >= 0,
        texel >= 0,
    ensures
        texture_bytes(w, h, false) == 4 * (w * h),
        3 * texture_bytes(w, h, true) <= 16 * (w * h) < 3 * texture_bytes(w, h, true) + 3,
        3 * cube_bytes(w, h, texel) <= 24 * (w * h * texel) < 3 * cube_bytes(w, h, texel) + 3,
{
    let n = w * h;
    assert(w * h * 4 * 3 == 12 * n && w * h * 4 * 4 == 16 * n) by (nonlinear_arith)
        requires
            n == w * h,
    ;
    let m = w * h * texel;
    assert(w * h * texel * 6 * 4 == 24 * m) by (nonlinear_arith)
        requires
            m == w * h * texel,
    ;
}

/// The levels of a half-float face start at its extent, halve, take eight bytes per texel of a row,
/// and end in one texel.
pub proof fn law_hdr_levels(w: int, h: int, k: int)
    requires
        1 <= w,
        1 <= h <= u32::MAX,
        8 * w <= u32::MAX,
        0 <= k < hdr_levels(w, h).len(),
    ensures
        ({
            let l = hdr_levels(w, h);
            &&& l.len() == mip_levels(w, h)
            &&& l[0].width == w && l[0].height == h
            &&& l[k].row_bytes == 8 * l[k].width
            &&& l.last().width == 1 && l.last().height == 1
            &&& k + 1 < l.len() ==> l[k + 1].width == half(l[k].width as int) && l[k + 1].height
                == half(l[k].height as int)
        }),
{
    lemma_levels_positive(w, h);
    law_extents_halve(w, k as nat);
    law_extents_halve(h, k as nat);
    law_extents_halve(w, 0);
    law_extents_halve(h, 0);
    lemma_mip_dim_bounds(w, k as nat);
    lemma_mip_dim_bounds(h, k as nat);
    lemma_mip_dim_bounds(w, (k + 1) as nat);
    lemma_mip_dim_bounds(h, (k + 1) as nat);
    law_chain_ends_in_one_texel(w, h, (mip_levels(w, h) - 1) as nat);
    assert((k + 1) as nat == (k as nat) + 1);
}

/// The captured sky: a square half-float cube that is drawn to, copied from and to, and read as a
/// cube; it starts out black and opaque.
pub proof fn law_captured_cube()
    ensures
        ({
            let t = env_target();
            &&& t.format == TexelFormat::Rgba16Float
            &&& t.faces == 6
            &&& t.size == 128
            &&& t.mips == mip_levels(t.size as int, t.size as int)
            &&& t.usage.render_target && t.usage.sampled && t.usage.copy_from && t.usage.copy_to
            &&& t.clear_level == 0 && t.clear_view == ViewKind::Flat && t.view == ViewKind::Cube
            &&& t.clear_color.x == 0 && t.clear_color.y == 0 && t.clear_color.z == 0
            &&& t.clear_color.w == F32_ONE
            &&& !t.sampler.repeat && t.sampler.linear && t.sampler.linear_mips
            &&& !written_once().render_target && written_once().sampled
                && !written_once().copy_from && written_once().copy_to
        }),
{
    law_env_cube_chain_is_full();
}

/// A face set is usable exactly when it has six faces of one size that is not empty, each with
/// four channels for every texel.
pub proof fn law_face_sets(sizes: Seq<(usize, u32, u32)>)
    ensures
        is_face_set(sizes) <==> sizes.len() == 6 && forall|f: int|
            0 <= f < 6 ==> {
                let s = #[trigger] sizes[f];
                &&& s.1 > 0 && s.2 > 0
                &&& s.1 == sizes[0].1 && s.2 == sizes[0].2
                &&& s.0 >= 4 * (s.1 * s.2)
            },
{
    let (w, h) = (sizes[0].1 as int, sizes[0].2 as int);
    assert(w * h * 4 == 4 * (w * h)) by (nonlinear_arith);
    if sizes.len() == 6 && forall|f: int|
        0 <= f < 6 ==> {
            let s = #[trigger] sizes[f];
            &&& s.1 > 0 && s.2 > 0
            &&& s.1 == sizes[0].1 && s.2 == sizes[0].2
            &&& s.0 >= 4 * (s.1 * s.2)
        } {
        assert(sizes[0].1 > 0 && sizes[0].2 > 0);
        assert forall|f: int| 0 <= f < 6 implies {
            let s = #[trigger] sizes[f];
            &&& s.1 == sizes[0].1
            &&& s.2 == sizes[0].2
            &&& s.0 >= sizes[0].1 * sizes[0].2 * 4
        } by {}
    }
    if is_face_set(sizes) {
        assert forall|f: int| 0 <= f < 6 implies {
            let s = #[trigger] sizes[f];
            &&& s.1 > 0 && s.2 > 0
            &&& s.1 == sizes[0].1 && s.2 == sizes[0].2
            &&& s.0 >= 4 * (s.1 * s.2)
        } by {}
    }
}

/// The faces of an authored cube: the decoded texels with red and blue exchanged, in face order,
/// and below them levels that each are the mean of the one before, rounded down.
pub proof fn law_authored_faces(
    c: CubePlan,
    faces: Seq<(Vec<u8>, u32, u32)>,
    f: int,
    k: int,
    t: int,
)
    requires
        is_face_set(face_sizes(faces)),
        is_authored_cube(c, faces),
        0 <= f < 6,
        0 <= k < c.mips,
        0 <= t,
        4 * t + 4 <= faces[f].0@.len(),
    ensures
        c.format == TexelFormat::Rgba8Unorm && c.view == ViewKind::Cube,
        c.width == faces[f].1 && c.height == faces[f].2,
        c.faces@.len() == 6,
        c.faces@[f]@.len() == c.mips,
        c.faces@[f]@.last().width == 1 && c.faces@[f]@.last().height == 1,
        ({
            let d = c.faces@[f]@[0].data@;
            let s = faces[f].0@;
            &&& d.len() == s.len()
            &&& (d[4 * t], d[4 * t + 1], d[4 * t + 2], d[4 * t + 3]) == (
                s[4 * t + 2],
                s[4 * t + 1],
                s[4 * t],
                s[4 * t + 3],
            )
        }),
        k + 1 < c.mips ==> {
            let (a, b) = (c.faces@[f]@[k], c.faces@[f]@[k + 1]);
            &&& b.width == half(a.width as int)
            &&& b.height == half(a.height as int)
            &&& b.row_bytes == 4 * b.width
            &&& b.data@ == halved(a.data@, a.width as int, a.height as int, 0)
        },
{
    let (w, h) = (faces[0].1 as int, faces[0].2 as int);
    let size = face_sizes(faces)[f];
    let s0 = face_sizes(faces)[0];
    lemma_levels_positive(w, h);
    law_extents_halve(w, k as nat);
    law_extents_halve(h, k as nat);
    law_chain_ends_in_one_texel(w, h, (mip_levels(w, h) - 1) as nat);
    law_red_and_blue_change_places(faces[f].0@, t, 0);
    let levels = c.faces@[f]@;
    let first = levels[0];
    let a = levels[k];
    let last = levels[c.mips - 1];
    if k + 1 < c.mips {
        let b = levels[k + 1];
        assert((k + 1) as nat == (k as nat) + 1);
        assert(mip_data(swapped(faces[f].0@), w, h, 0, (k + 1) as nat) == halved(
            mip_data(swapped(faces[f].0@), w, h, 0, k as nat),
            mip_dim(w, k as nat),
            mip_dim(h, k as nat),
            0,
        ));
    }
}

/// The table keeps black black and white white, and darkens nothing.
pub proof fn law_gamma_code_brightens(i: int, code: int)
    requires
        0 <= i <= 255,
        is_gamma_code(i, code),
    ensures
        i == 0 ==> code == 0,
        i == 255 ==> code == 255,
        code >= i,
{
    lemma_gamma_at_least(i, code);
    if i == 0 {
        lemma0_pow(5);
        lemma_pow_positive(2, 11);
        if code > 0 {
            lemma_pow_positive(2 * code - 1, 11);
            assert(pow(2, 11) * pow(255, 6) * 0 == 0) by (nonlinear_arith);
        }
    }
}

proof fn lemma_gamma_at_least(i: int, code: int)
    requires
        0 <= i <= 255,
        is_gamma_code(i, code),
    ensures
        code >= i,
{
    if code < i {
        // (2 * code + 1)^11 <= (2 * i - 1)^11 < (2 * i)^11 = 2^11 * i^6 * i^5 <= 2^11 * 255^6 * i^5
        lemma_pow_grows_with_base(2 * i - 1, 2 * i, 11);
        if 2 * code + 1 < 2 * i - 1 {
            lemma_pow_grows_with_base(2 * code + 1, 2 * i - 1, 11);
        }
        lemma_pow_distributes(2, i, 11);
        lemma_pow_adds(i, 6, 5);
        lemma_pow_positive(i, 5);
        lemma_pow_positive(2, 11);
        if i < 255 {
            lemma_pow_grows_with_base(i, 255, 6);
        }
        let (t, x, y, z) = (pow(2, 11), pow(i, 6), pow(255, 6), pow(i, 5));
        assert(t * (x * z) <= t * y * z) by (nonlinear_arith)
            requires
                x <= y,
                t > 0,
                z > 0,
        ;
    }
}

} // verus!
