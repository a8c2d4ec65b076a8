//! Single-precision numbers as bit patterns.
//!
//! Every finite `f32` is an integer multiple of 2^-149, so its exact value is modelled by the
//! integer `f32_units(bits)`. An infinity is given the value that its fields would have if the
//! top exponent were an ordinary one, which places it beyond every finite number.

use vstd::arithmetic::power2::*;
use vstd::prelude::*;

verus! {

/// The bit pattern of 1.0.
pub const F32_ONE: u32 = 0x3f80_0000;

/// The bit pattern of 2.0.
pub const F32_TWO: u32 = 0x4000_0000;

/// The bit pattern of -1.0.
pub const F32_MINUS_ONE: u32 = 0xbf80_0000;

/// The bit pattern of positive infinity.
pub const F32_INFINITY: u32 = 0x7f80_0000;

/// The bit pattern of the single-precision number nearest to 1e-4.
pub const F32_TENTH_OF_MILLI: u32 = 0x38d1_b717;

/// The sign bit alone.
pub const F32_SIGN: u32 = 0x8000_0000;

/// Exponent and fraction fields: the pattern without its sign.
pub open spec fn magnitude(bits: u32) -> int {
    if bits >= F32_SIGN {
        bits - F32_SIGN
    } else {
        bits as int
    }
}

/// The absolute value, in units of 2^-149, of a pattern whose fields are `m`.
pub open spec fn magnitude_units(m: int) -> int {
    let e = m / 0x80_0000;
    let f = m % 0x80_0000;
    if e == 0 {
        f
    } else {
        (0x80_0000 + f) * pow2((e - 1) as nat)
    }
}

/// The value of a pattern in units of 2^-149.
pub open spec fn f32_units(bits: u32) -> int {
    if bits >= F32_SIGN {
        -magnitude_units(magnitude(bits))
    } else {
        magnitude_units(magnitude(bits))
    }
}

pub open spec fn is_nan(bits: u32) -> bool {
    magnitude(bits) > F32_INFINITY
}

pub open spec fn is_finite(bits: u32) -> bool {
    magnitude(bits) < F32_INFINITY
}

pub open spec fn is_infinite(bits: u32) -> bool {
    magnitude(bits) == F32_INFINITY
}

/// `a < b` as the hardware compares: false as soon as one side is not a number.
pub open spec fn f32_less(a: u32, b: u32) -> bool {
    !is_nan(a) && !is_nan(b) && f32_units(a) < f32_units(b)
}

/// The integer by which patterns are ordered: both zeros sit at the sign bit's value, and the
/// magnitude counts up or down from there.
pub open spec fn order_key_of(bits: u32) -> int {
    if bits >= F32_SIGN {
        F32_SIGN - magnitude(bits)
    } else {
        F32_SIGN + magnitude(bits)
    }
}

/// Larger fields mean a strictly larger absolute value.
pub proof fn lemma_magnitude_units_increase(a: int, b: int)
    requires
        0 <= a < b,
    ensures
        0 <= magnitude_units(a) < magnitude_units(b),
{
    let (ea, fa) = (a / 0x80_0000, a % 0x80_0000);
    let (eb, fb) = (b / 0x80_0000, b % 0x80_0000);
    if ea >= 1 {
        lemma_pow2_pos((ea - 1) as nat);
        let p = pow2((ea - 1) as nat) as int;
        assert(0 <= (0x80_0000 + fa) * p) by (nonlinear_arith)
            requires
                p > 0,
                fa >= 0,
        ;
    }
    if eb >= 1 {
        let q = pow2((eb - 1) as nat) as int;
        lemma_pow2_pos((eb - 1) as nat);
        if ea == eb {
            assert((0x80_0000 + fa) * q < (0x80_0000 + fb) * q) by (nonlinear_arith)
                requires
                    q > 0,
                    fa < fb,
            ;
        } else if ea == 0 {
            assert(fa < (0x80_0000 + fb) * q) by (nonlinear_arith)
                requires
                    q >= 1,
                    0 <= fa < 0x80_0000,
                    fb >= 0,
            ;
        } else {
            let p = pow2((ea - 1) as nat) as int;
            lemma_pow2_unfold(ea as nat);
            assert(pow2(ea as nat) <= q) by {
                if ea < eb - 1 {
                    lemma_pow2_strictly_increases(ea as nat, (eb - 1) as nat);
                }
            }
            assert((0x80_0000 + fa) * p < (0x80_0000 + fb) * q) by (nonlinear_arith)
                requires
                    p > 0,
                    2 * p <= q,
                    0 <= fa < 0x80_0000,
                    fb >= 0,
            ;
        }
    }
}

/// Ordering by `order_key_of` is ordering by value: on patterns that are numbers, one key is
/// below another exactly when the value is, so the two zeros tie and nothing else does.
pub proof fn law_order_key_follows_value(a: u32, b: u32)
    requires
        !is_nan(a),
        !is_nan(b),
    ensures
        order_key_of(a) < order_key_of(b) <==> f32_less(a, b),
        order_key_of(a) == order_key_of(b) <==> f32_units(a) == f32_units(b),
{
    let (ma, mb) = (magnitude(a), magnitude(b));
    if ma < mb {
        lemma_magnitude_units_increase(ma, mb);
    }
    if mb < ma {
        lemma_magnitude_units_increase(mb, ma);
    }
    if 0 < ma {
        lemma_magnitude_units_increase(0, ma);
    }
    if 0 < mb {
        lemma_magnitude_units_increase(0, mb);
    }
}

/// The ordering key of a bit pattern; see `law_order_key_follows_value`.
pub fn order_key(bits: u32) -> (key: u32)
    ensures
        key == order_key_of(bits),
{
    if bits >= F32_SIGN {
        F32_SIGN - (bits - F32_SIGN)
    } else {
        F32_SIGN + bits
    }
}

/// Whether `a < b`, comparing as the hardware does.
pub fn less(a: u32, b: u32) -> (r: bool)
    ensures
        r == f32_less(a, b),
{
    let ma: u32 = if a >= F32_SIGN { a - F32_SIGN } else { a };
    let mb: u32 = if b >= F32_SIGN { b - F32_SIGN } else { b };
    if ma > F32_INFINITY || mb > F32_INFINITY {
        return false;
    }
    proof {
        law_order_key_follows_value(a, b);
    }
    order_key(a) < order_key(b)
}

/// `x` limited to `[lo, hi]`; a pattern that is not a number stays as it is.
pub open spec fn clamped(x: u32, lo: u32, hi: u32) -> u32 {
    if f32_less(x, lo) {
        lo
    } else if f32_less(hi, x) {
        hi
    } else {
        x
    }
}

/// The larger of `x` and `lo`; `lo` where `x` is not a number.
pub open spec fn raised(x: u32, lo: u32) -> u32 {
    if is_nan(x) || f32_less(x, lo) {
        lo
    } else {
        x
    }
}

/// Limit a number to `[lo, hi]`.
pub fn clamp(x: u32, lo: u32, hi: u32) -> (r: u32)
    requires
        !is_nan(lo),
        !is_nan(hi),
        order_key_of(lo) <= order_key_of(hi),
    ensures
        r == clamped(x, lo, hi),
{
    if less(x, lo) {
        lo
    } else if less(hi, x) {
        hi
    } else {
        x
    }
}

/// Raise a number to at least `lo`.
pub fn at_least(x: u32, lo: u32) -> (r: u32)
    ensures
        r == raised(x, lo),
{
    let m: u32 = if x >= F32_SIGN { x - F32_SIGN } else { x };
    if m > F32_INFINITY || less(x, lo) {
        lo
    } else {
        x
    }
}

/// Lowest and highest pattern strictly within 1e-4 of 1.0.
const NEAR_ONE_LOW: u32 = 0x3f7f_f973;

const NEAR_ONE_HIGH: u32 = 0x3f80_0346;

/// Strictly closer to 1.0 than the single-precision 1e-4.
pub open spec fn within_tenth_of_milli_of_one(bits: u32) -> bool {
    &&& !is_nan(bits)
    &&& f32_units(bits) - f32_units(F32_ONE) < f32_units(F32_TENTH_OF_MILLI)
    &&& f32_units(F32_ONE) - f32_units(bits) < f32_units(F32_TENTH_OF_MILLI)
}

proof fn lemma_near_one_edges()
    ensures
        f32_units(F32_ONE) == 137438953472 * pow2(112),
        f32_units(F32_TENTH_OF_MILLI) == 13743895 * pow2(112),
        magnitude_units(NEAR_ONE_LOW as int) == 137425215488 * pow2(112),
        magnitude_units(NEAR_ONE_LOW - 1) == 137425207296 * pow2(112),
        magnitude_units(NEAR_ONE_HIGH as int) == 137452683264 * pow2(112),
        magnitude_units(NEAR_ONE_HIGH + 1) == 137452699648 * pow2(112),
        pow2(112) > 0,
{
    lemma_pow2_pos(112);
    lemma2_to64();
    lemma_pow2_adds(112, 13);
    lemma_pow2_adds(112, 14);
    assert(pow2(125) == 0x2000 * pow2(112));
    assert(pow2(126) == 0x4000 * pow2(112));
    assert(F32_ONE as int / 0x80_0000 == 127 && F32_ONE as int % 0x80_0000 == 0);
    assert(NEAR_ONE_LOW as int / 0x80_0000 == 126 && NEAR_ONE_LOW as int % 0x80_0000 == 0x7f_f973);
    assert((NEAR_ONE_LOW - 1) / 0x80_0000 == 126 && (NEAR_ONE_LOW - 1) % 0x80_0000 == 0x7f_f972);
    assert(NEAR_ONE_HIGH as int / 0x80_0000 == 127 && NEAR_ONE_HIGH as int % 0x80_0000 == 0x346);
    assert((NEAR_ONE_HIGH + 1) / 0x80_0000 == 127 && (NEAR_ONE_HIGH + 1) % 0x80_0000 == 0x347);
    let p = pow2(112) as int;
    let q = pow2(126) as int;
    assert((0x80_0000 + 0x346) * q == 137452683264 * p) by (nonlinear_arith)
        requires
            q == 0x4000 * p,
    ;
    assert((0x80_0000 + 0x347) * q == 137452699648 * p) by (nonlinear_arith)
        requires
            q == 0x4000 * p,
    ;
    assert(magnitude_units(NEAR_ONE_HIGH + 1) == (0x80_0000 + 0x347) * q);
}

/// Whether a scale still has the value 1.0 it was authored with by default: `|x - 1| < 1e-4`.
pub fn near_one(bits: u32) -> (r: bool)
    ensures
        r == within_tenth_of_milli_of_one(bits),
{
    proof {
        lemma_near_one_edges();
        lemma_magnitude_units_increase(0, F32_ONE as int);
        let m = magnitude(bits);
        if bits < F32_SIGN {
            if m < NEAR_ONE_LOW - 1 {
                lemma_magnitude_units_increase(m, NEAR_ONE_LOW - 1);
            }
            if m > NEAR_ONE_LOW {
                lemma_magnitude_units_increase(NEAR_ONE_LOW as int, m);
            }
            if m < NEAR_ONE_HIGH {
                lemma_magnitude_units_increase(m, NEAR_ONE_HIGH as int);
            }
            if m > NEAR_ONE_HIGH + 1 {
                lemma_magnitude_units_increase(NEAR_ONE_HIGH + 1, m);
            }
            assert(f32_units(bits) == magnitude_units(m));
        } else if m > 0 {
            lemma_magnitude_units_increase(0, m);
        }
    }
    NEAR_ONE_LOW <= bits && bits <= NEAR_ONE_HIGH
}

/// `r` is `8 * x` in single precision. Scaling by a power of two never rounds; it can only leave
/// the range, and then the result is the infinity of the same sign.
pub open spec fn is_eight_times(x: u32, r: u32) -> bool {
    &&& (x >= F32_SIGN <==> r >= F32_SIGN)
    &&& is_nan(x) ==> is_nan(r)
    &&& is_infinite(x) ==> is_infinite(r)
    &&& is_finite(x) ==> if 8 * magnitude_units(magnitude(x)) < magnitude_units(F32_INFINITY as int) {
        is_finite(r) && f32_units(r) == 8 * f32_units(x)
    } else {
        is_infinite(r)
    }
}

/// Eight times a single-precision number.
pub fn times_eight(bits: u32) -> (r: u32)
    ensures
        is_eight_times(bits, r),
{
    let sign: u32 = if bits >= F32_SIGN { F32_SIGN } else { 0 };
    let m: u32 = bits - sign;
    let e: u32 = m / 0x80_0000;
    let f: u32 = m % 0x80_0000;
    proof {
        lemma2_to64();
        lemma_pow2_pos(254);
    }
    if e == 255 {
        bits
    } else if e >= 252 {
        proof {
            lemma_pow2_adds((e - 1) as nat, 3);
            if e > 252 {
                lemma_pow2_strictly_increases(254, (e + 2) as nat);
            }
            let p = pow2((e - 1) as nat) as int;
            let q = pow2(254) as int;
            assert(8 * ((0x80_0000 + f) * p) >= 0x80_0000 * q) by (nonlinear_arith)
                requires
                    p * 8 >= q,
                    q > 0,
                    f >= 0,
            ;
        }
        sign + F32_INFINITY
    } else if e >= 1 {
        let rm: u32 = m + 3 * 0x80_0000;
        proof {
            lemma_pow2_adds((e - 1) as nat, 3);
            assert(rm / 0x80_0000 == e + 3 && rm % 0x80_0000 == f);
            let p = pow2((e - 1) as nat) as int;
            assert((0x80_0000 + f) * (p * 8) == 8 * ((0x80_0000 + f) * p)) by (nonlinear_arith);
            lemma_magnitude_units_increase(rm as int, F32_INFINITY as int);
        }
        sign + rm
    } else {
        let rm: u32 = if f < 0x10_0000 {
            8 * f
        } else if f < 0x20_0000 {
            0x80_0000 + (8 * f - 0x80_0000)
        } else if f < 0x40_0000 {
            2 * 0x80_0000 + (4 * f - 0x80_0000)
        } else {
            3 * 0x80_0000 + (2 * f - 0x80_0000)
        };
        proof {
            lemma_magnitude_units_increase(rm as int, F32_INFINITY as int);
            let re = rm as int / 0x80_0000;
            let rf = rm as int % 0x80_0000;
            if f < 0x10_0000 {
                assert(re == 0 && rf == 8 * f);
            } else if f < 0x20_0000 {
                assert(re == 1 && rf == 8 * f - 0x80_0000);
                assert((0x80_0000 + rf) * 1 == 8 * f);
            } else if f < 0x40_0000 {
                assert(re == 2 && rf == 4 * f - 0x80_0000);
                assert((0x80_0000 + rf) * 2 == 8 * f);
            } else {
                assert(re == 3 && rf == 2 * f - 0x80_0000);
                assert((0x80_0000 + rf) * 4 == 8 * f);
            }
            assert(magnitude(bits) == f);
        }
        sign + rm
    }
}

/// The value of a half-precision pattern in units of 2^-24, its smallest step.
pub open spec fn f16_units(h: u16) -> int {
    let m = if h >= 0x8000 {
        h - 0x8000
    } else {
        h as int
    };
    let e = m / 0x400;
    let f = m % 0x400;
    let u = if e == 0 {
        f
    } else {
        (0x400 + f) * pow2((e - 1) as nat)
    };
    if h >= 0x8000 {
        -u
    } else {
        u
    }
}

/// The single-precision pattern `r` stands for the half-precision pattern `h`: same sign, same
/// exact value (a step of 2^-24 is 2^125 steps of 2^-149), infinity for infinity, and a pattern
/// that is not a number for one that is not, with the fraction moved to the top.
pub open spec fn widens_half(h: u16, r: u32) -> bool {
    let m = if h >= 0x8000 {
        h - 0x8000
    } else {
        h as int
    };
    &&& (h >= 0x8000 <==> r >= F32_SIGN)
    &&& m < 0x7c00 ==> is_finite(r) && f32_units(r) == f16_units(h) * pow2(125)
    &&& m >= 0x7c00 ==> magnitude(r) == F32_INFINITY + (m - 0x7c00) * 0x2000
}

/// IEEE half precision to single precision, pattern to pattern.
pub fn f16_to_f32(h: u16) -> (r: u32)
    ensures
        widens_half(h, r),
{
    let sign: u32 = if h >= 0x8000 { F32_SIGN } else { 0 };
    let m: u32 = if h >= 0x8000 { (h - 0x8000) as u32 } else { h as u32 };
    let e: u32 = m / 0x400;
    let frac: u32 = m % 0x400;
    proof {
        lemma2_to64();
    }
    if e == 31 {
        return sign + F32_INFINITY + frac * 0x2000;
    }
    if e > 0 {
        let rm: u32 = (e + 112) * 0x80_0000 + frac * 0x2000;
        proof {
            assert(rm / 0x80_0000 == e + 112 && rm % 0x80_0000 == frac * 0x2000);
            lemma_pow2_adds((e - 1) as nat, 125);
            lemma_pow2_adds((e + 111) as nat, 13);
            let p = pow2((e + 111) as nat) as int;
            let q = pow2((e - 1) as nat) as int;
            let s = pow2(125) as int;
            assert((0x80_0000 + frac * 0x2000) * p == (0x400 + frac) * q * s) by (nonlinear_arith)
                requires
                    p * 0x2000 == q * s,
            ;
            assert(-((0x400 + frac) * q) * s == -((0x400 + frac) * q * s)) by (nonlinear_arith);
        }
        return sign + rm;
    }
    if frac == 0 {
        proof {
            assert(0 * pow2(125) == 0) by (nonlinear_arith);
        }
        return sign;
    }
    // Subnormal: shift the leading one into the implicit position.
    let mut f: u32 = frac;
    let mut exp: u32 = 113;
    assert(frac * pow2(0) == frac);
    while f < 0x400
        invariant
            0 < frac < 0x400,
            0 < f < 0x800,
            f == frac * pow2((113 - exp) as nat),
            exp <= 113,
            exp >= 103,
        decreases exp,
    {
        proof {
            lemma_pow2_unfold((114 - exp) as nat);
            assert(exp > 103) by {
                if exp == 103 {
                    lemma2_to64();
                    assert(f == frac * 0x400);
                }
            }
            let p = pow2((113 - exp) as nat) as int;
            assert(2 * (frac * p) == frac * (2 * p)) by (nonlinear_arith);
        }
        f = 2 * f;
        exp = exp - 1;
    }
    let rm: u32 = exp * 0x80_0000 + (f - 0x400) * 0x2000;
    proof {
        assert(rm / 0x80_0000 == exp && rm % 0x80_0000 == (f - 0x400) * 0x2000);
        lemma_pow2_adds((113 - exp) as nat, (exp - 1 + 13) as nat);
        lemma_pow2_adds((exp - 1) as nat, 13);
        let k = pow2((113 - exp) as nat) as int;
        let p = pow2((exp - 1) as nat) as int;
        let s = pow2(125) as int;
        assert((0x80_0000 + (f - 0x400) * 0x2000) * p == frac * s) by (nonlinear_arith)
            requires
                f == frac * k,
                s == k * (p * 0x2000),
        ;
        assert((-frac) * s == -(frac * s)) by (nonlinear_arith);
    }
    sign + rm
}

/// The named patterns hold the numbers they are named after: 1.0 is 2^149 units, 2.0 twice and
/// one half half of that, -1.0 its opposite, and both zeros are 0.
pub proof fn law_constant_values()
    ensures
        f32_units(F32_ONE) == pow2(149),
        f32_units(F32_TWO) == 2 * f32_units(F32_ONE),
        f32_units(F32_MINUS_ONE) == -f32_units(F32_ONE),
        2 * f32_units(0x3f00_0000) == f32_units(F32_ONE),
        is_infinite(F32_INFINITY),
        f32_units(0) == 0,
        f32_units(F32_SIGN) == 0,
{
    lemma_pow2_adds(23, 126);
    lemma2_to64();
    lemma_pow2_unfold(127);
    lemma_pow2_unfold(126);
    assert(0x3f80_0000int / 0x80_0000 == 127 && 0x3f80_0000int % 0x80_0000 == 0);
    assert(0x4000_0000int / 0x80_0000 == 128 && 0x4000_0000int % 0x80_0000 == 0);
    assert(0x3f00_0000int / 0x80_0000 == 126 && 0x3f00_0000int % 0x80_0000 == 0);
}

/// The named 1e-4 is the single-precision number nearest to a ten-thousandth.
pub proof fn law_tenth_of_milli_is_nearest()
    ensures
        -10000 * pow2(112) <= 2 * (10000 * f32_units(F32_TENTH_OF_MILLI) - f32_units(F32_ONE))
            <= 10000 * pow2(112),
        f32_units((F32_TENTH_OF_MILLI + 1) as u32) - f32_units(F32_TENTH_OF_MILLI) == pow2(112),
{
    lemma_near_one_edges();
    assert((F32_TENTH_OF_MILLI + 1) / 0x80_0000 == 113);
    assert(F32_TENTH_OF_MILLI as int / 0x80_0000 == 113);
    let (f, p) = (F32_TENTH_OF_MILLI as int % 0x80_0000, pow2(112) as int);
    assert((F32_TENTH_OF_MILLI + 1) % 0x80_0000 == f + 1);
    assert((0x80_0000 + f + 1) * p == (0x80_0000 + f) * p + p) by (nonlinear_arith);
}

/// Comparing is a strict order on the patterns that are numbers, blind to the sign of zero, and
/// says nothing of the others.
pub proof fn law_less_is_an_order(a: u32, b: u32, c: u32)
    ensures
        f32_less(a, b) ==> !f32_less(b, a),
        f32_less(a, b) && f32_less(b, c) ==> f32_less(a, c),
        is_nan(a) ==> !f32_less(a, b) && !f32_less(b, a),
        a < b < F32_SIGN && !is_nan(b) ==> f32_less(a, b),
        F32_SIGN <= a < b && !is_nan(b) ==> f32_less(b, a),
        a < F32_SIGN <= b && !is_nan(a) && !is_nan(b) ==> (f32_less(b, a) <==> a != 0 || b
            != F32_SIGN),
{
    if !is_nan(a) && !is_nan(b) {
        law_order_key_follows_value(a, b);
        law_order_key_follows_value(b, a);
    }
}

/// A limited number lies between its limits, and is itself where it already did.
pub proof fn law_clamped_lies_between(x: u32, lo: u32, hi: u32)
    requires
        !is_nan(lo),
        !is_nan(hi),
        !f32_less(hi, lo),
    ensures
        !f32_less(clamped(x, lo, hi), lo),
        !f32_less(hi, clamped(x, lo, hi)),
        !f32_less(x, lo) && !f32_less(hi, x) ==> clamped(x, lo, hi) == x,
        f32_less(x, lo) ==> clamped(x, lo, hi) == lo,
        f32_less(hi, x) ==> clamped(x, lo, hi) == hi,
        is_nan(x) ==> clamped(x, lo, hi) == x,
{
}

/// A raised number is no smaller than the floor, and is itself where it was above it.
pub proof fn law_raised_is_no_smaller(x: u32, lo: u32)
    requires
        !is_nan(lo),
    ensures
        !is_nan(raised(x, lo)),
        !f32_less(raised(x, lo), lo),
        f32_less(lo, x) ==> raised(x, lo) == x,
        is_nan(x) || f32_less(x, lo) ==> raised(x, lo) == lo,
{
}

/// Eight times a number is eight times its value wherever the result is finite, with the sign kept;
/// what leaves the range becomes infinite.
pub proof fn law_eight_times(x: u32, r: u32)
    requires
        is_eight_times(x, r),
        is_finite(x),
    ensures
        is_finite(r) ==> f32_units(r) == 8 * f32_units(x),
        !is_nan(r),
        is_infinite(r) ==> 8 * magnitude_units(magnitude(x)) >= magnitude_units(
            F32_INFINITY as int,
        ),
        x >= F32_SIGN <==> r >= F32_SIGN,
{
}

/// Widening keeps the value: the half-precision 1.0 becomes the single-precision one, a larger half
/// becomes a larger number, and opposite halves become opposite numbers.
pub proof fn law_widening_keeps_the_value(a: u16, b: u16, ra: u32, rb: u32)
    requires
        widens_half(a, ra),
        widens_half(b, rb),
        a < 0x7c00,
    ensures
        a == 0x3c00 ==> ra == F32_ONE,
        a == 0 ==> ra == 0,
        b < a ==> f32_less(rb, ra),
        b == a + 0x8000 ==> f32_units(rb) == -f32_units(ra),
        b == 0x7c00 ==> rb == F32_INFINITY,
{
    lemma_half_units_increase(0, a as int);
    let p = pow2(125) as int;
    lemma_pow2_pos(125);
    if b < a {
        lemma_half_units_increase(b as int, a as int);
        let (x, y) = (f16_units(b), f16_units(a));
        assert(x * p < y * p) by (nonlinear_arith)
            requires
                x < y,
                p > 0,
        ;
    }
    if b == a + 0x8000 {
        let x = f16_units(a);
        assert(f16_units(b) == -x);
        assert((-x) * p == -(x * p)) by (nonlinear_arith);
    }
    if a == 0x3c00 {
        lemma2_to64();
        lemma_pow2_adds(24, 125);
        law_constant_values();
        assert(0x3c00int / 0x400 == 15 && 0x3c00int % 0x400 == 0);
        lemma_pow2_adds(10, 14);
        assert(f16_units(a) == pow2(24));
        law_order_key_follows_value(ra, F32_ONE);
    }
    if a == 0 {
        assert(0 * p == 0);
        law_order_key_follows_value(ra, 0);
    }
}

proof fn lemma_half_units_increase(a: int, b: int)
    requires
        0 <= a <= b < 0x7c00,
    ensures
        a < b ==> 0 <= f16_units(a as u16) < f16_units(b as u16),
{
    let (ea, fa) = (a / 0x400, a % 0x400);
    let (eb, fb) = (b / 0x400, b % 0x400);
    if a < b {
        if ea >= 1 {
            lemma_pow2_pos((ea - 1) as nat);
            let p = pow2((ea - 1) as nat) as int;
            assert(0 <= (0x400 + fa) * p) by (nonlinear_arith)
                requires
                    p > 0,
                    fa >= 0,
            ;
        }
        if eb >= 1 {
            let q = pow2((eb - 1) as nat) as int;
            lemma_pow2_pos((eb - 1) as nat);
            if ea == eb {
                assert((0x400 + fa) * q < (0x400 + fb) * q) by (nonlinear_arith)
                    requires
                        q > 0,
                        fa < fb,
                ;
            } else if ea == 0 {
                assert(fa < (0x400 + fb) * q) by (nonlinear_arith)
                    requires
                        q >= 1,
                        0 <= fa < 0x400,
                        fb >= 0,
                ;
            } else {
                let p = pow2((ea - 1) as nat) as int;
                lemma_pow2_unfold(ea as nat);
                assert(pow2(ea as nat) <= q) by {
                    if ea < eb - 1 {
                        lemma_pow2_strictly_increases(ea as nat, (eb - 1) as nat);
                    }
                }
                assert((0x400 + fa) * p < (0x400 + fb) * q) by (nonlinear_arith)
                    requires
                        p > 0,
                        2 * p <= q,
                        0 <= fa < 0x400,
                        fb >= 0,
                ;
            }
        }
    }
}

// ---- constants --------------------------------------------------------------------------------
/// The pattern is the single-precision number nearest to `num / den`: it is off by no more than
/// half the step to the next pattern.
pub open spec fn is_nearest(bits: u32, num: int, den: int) -> bool {
    let u = f32_units(bits);
    let step = f32_units((bits + 1) as u32) - u;
    -(den * step) <= 2 * (den * u - num * f32_units(F32_ONE)) <= den * step
}

/// A pattern below two, with `e` and `f` its exponent and fraction fields, is the nearest to
/// `num / den` where its fraction is.
pub proof fn lemma_nearest(bits: u32, e: int, f: int, num: int, den: int)
    requires
        bits == e * 0x80_0000 + f,
        0 <= f,
        f + 1 < 0x80_0000,
        1 <= e <= 127,
        den > 0,
        -den <= 2 * (den * (0x80_0000 + f) - num * 0x80_0000 * pow2((127 - e) as nat)) <= den,
    ensures
        is_nearest(bits, num, den),
{
    let p = pow2((e - 1) as nat) as int;
    let k = pow2((127 - e) as nat) as int;
    lemma_pow2_adds((e - 1) as nat, (127 - e) as nat);
    lemma_pow2_pos((e - 1) as nat);
    assert(bits as int / 0x80_0000 == e && bits as int % 0x80_0000 == f);
    assert((bits + 1) / 0x80_0000 == e && (bits + 1) % 0x80_0000 == f + 1);
    assert(0x3f80_0000int / 0x80_0000 == 127 && 0x3f80_0000int % 0x80_0000 == 0);
    let u = (0x80_0000 + f) * p;
    let one = 0x80_0000 * (p * k);
    assert(f32_units(bits) == u);
    assert(f32_units(F32_ONE) == one);
    assert((0x80_0000 + f + 1) * p - u == p) by (nonlinear_arith)
        requires
            u == (0x80_0000 + f) * p,
    ;
    let d = den * (0x80_0000 + f) - num * 0x80_0000 * k;
    assert(den * u - num * one == d * p) by (nonlinear_arith)
        requires
            u == (0x80_0000 + f) * p,
            one == 0x80_0000 * (p * k),
            d == den * (0x80_0000 + f) - num * 0x80_0000 * k,
    ;
    assert(-(den * p) <= 2 * (d * p) <= den * p) by (nonlinear_arith)
        requires
            -den <= 2 * d <= den,
            p > 0,
    ;
}

/// A pattern of one or more, with `e` and `f` its fields, is a whole number where its fraction
/// says so.
pub proof fn lemma_whole_number(bits: u32, e: int, f: int, n: int)
    requires
        bits == e * 0x80_0000 + f,
        0 <= f < 0x80_0000,
        127 <= e < 255,
        (0x80_0000 + f) * pow2((e - 127) as nat) == n * 0x80_0000,
    ensures
        f32_units(bits) == n * f32_units(F32_ONE),
{
    let p = pow2(126) as int;
    let k = pow2((e - 127) as nat) as int;
    lemma_pow2_adds(126, (e - 127) as nat);
    assert(bits as int / 0x80_0000 == e && bits as int % 0x80_0000 == f);
    assert(0x3f80_0000int / 0x80_0000 == 127 && 0x3f80_0000int % 0x80_0000 == 0);
    assert((0x80_0000 + f) * (p * k) == n * (0x80_0000 * p)) by (nonlinear_arith)
        requires
            (0x80_0000 + f) * k == n * 0x80_0000,
    ;
}

} // verus!
