//! How well the gamma table undoes a shader's `pow(x, 2.2)`.
//!
//! `255 * (code / 255)^2.2` is the level that a shader reads back. The exponent is 11/5, so the
//! fifth power of that level is `code^11 / 255^6`, and each bound on it is one on integer powers.

use vstd::arithmetic::power::*;
use vstd::prelude::*;

verus! {

/// The level that a shader reads back for `code` is less than 1.2 away from `level`:
/// `5 * level - 6 < 5 * 255 * (code / 255)^2.2 < 5 * level + 6`, raised to the fifth power.
pub open spec fn reads_back(level: int, code: int) -> bool {
    &&& pow(255, 6) * pow(5 * level - 6, 5) < pow(5, 5) * pow(code, 11)
    &&& pow(5, 5) * pow(code, 11) < pow(255, 6) * pow(5 * level + 6, 5)
}

proof fn lemma_shift(q: int, k: nat)
    requires
        q >= 1,
    ensures
        (q + k) * pow(q - 1, k) <= pow(q, k + 1),
    decreases k,
{
    reveal(pow);
    if k == 0 {
        lemma_pow0(q - 1);
        lemma_pow1(q);
    } else {
        let before = pow(q - 1, (k - 1) as nat);
        lemma_shift(q, (k - 1) as nat);
        assert(before >= 0) by {
            if q > 1 {
                lemma_pow_positive(q - 1, (k - 1) as nat);
            } else if k > 1 {
                lemma0_pow((k - 1) as nat);
            }
        }
        let next = pow(q, k);
        assert((q + k) * ((q - 1) * before) <= q * next) by (nonlinear_arith)
            requires
                (q + k - 1) * before <= next,
                before >= 0,
                q >= 1,
                k >= 1,
        ;
    }
}

proof fn lemma_not_smaller(a: int, b: int, e: nat)
    requires
        0 <= a <= b,
    ensures
        0 <= pow(a, e) <= pow(b, e),
{
    crate::texture::lemma_pow_grows_with_base(a, b + 1, e);
    if a < b {
        crate::texture::lemma_pow_grows_with_base(a, b, e);
    }
}

/// Five factors of `z - 11` and six of `z` have the mean `z - 5`.
proof fn lemma_mean(z: int)
    requires
        z >= 11,
    ensures
        pow(z, 6) * pow(z - 11, 5) <= pow(z - 5, 11),
{
    let q = z - 5;
    assert(0 <= z * (z - 11) && z * (z - 11) <= q * (q - 1)) by (nonlinear_arith)
        requires
            z >= 11,
            q == z - 5,
    ;
    lemma_not_smaller(z * (z - 11), q * (q - 1), 5);
    lemma_pow_distributes(z, z - 11, 5);
    lemma_pow_distributes(q, q - 1, 5);
    lemma_shift(q, 5);
    lemma_pow_adds(z, 1, 5);
    lemma_pow1(z);
    lemma_pow_adds(q, 5, 6);
    lemma_pow_positive(q, 5);
    let (z5, v5, q5, r5, q6) = (pow(z, 5), pow(z - 11, 5), pow(q, 5), pow(q - 1, 5), pow(q, 6));
    assert(z * z5 * v5 <= q5 * q6) by (nonlinear_arith)
        requires
            z5 * v5 <= q5 * r5,
            z * r5 <= q6,
            q5 > 0,
            z >= 11,
    ;
}

/// The mean bound for `z = 5 * b`.
proof fn lemma_tangent(b: int)
    requires
        b >= 3,
    ensures
        pow(b, 6) * pow(5 * b - 11, 5) <= pow(5, 5) * pow(b - 1, 11),
{
    lemma_mean(5 * b);
    lemma_pow_distributes(5, b, 6);
    lemma_pow_distributes(5, b - 1, 11);
    assert(5 * b - 5 == 5 * (b - 1));
    lemma_pow_adds(5, 6, 5);
    lemma_pow_positive(5, 6);
    let (s, t, b6, v5, a11) = (pow(5, 6), pow(5, 5), pow(b, 6), pow(5 * b - 11, 5), pow(b - 1, 11));
    assert(b6 * v5 <= t * a11) by (nonlinear_arith)
        requires
            s * b6 * v5 <= s * t * a11,
            s > 0,
    ;
}

proof fn lemma_step_up(m: int, n: int, u: int, v: int)
    requires
        0 < n <= m,
        u >= 0,
        v > 0,
        m * pow(u, 5) >= n * pow(v, 5),
    ensures
        m * pow(u + 12, 5) > n * pow(v + 11, 5),
{
    let (u5, v5, x5, y5) = (pow(u, 5), pow(v, 5), pow(u + 12, 5), pow(v + 11, 5));
    lemma_pow_positive(v, 5);
    lemma_pow_positive(v + 11, 5);
    if u >= v {
        crate::texture::lemma_pow_grows_with_base(v + 11, u + 12, 5);
        assert(m * x5 > n * y5) by (nonlinear_arith)
            requires
                x5 > y5,
                y5 > 0,
                0 < n <= m,
        ;
    } else {
        assert(0 <= u * (v + 11) && u * (v + 11) < (u + 12) * v) by (nonlinear_arith)
            requires
                0 <= u < v,
        ;
        crate::texture::lemma_pow_grows_with_base(u * (v + 11), (u + 12) * v, 5);
        lemma_pow_distributes(u, v + 11, 5);
        lemma_pow_distributes(u + 12, v, 5);
        assert(m * x5 > n * y5) by (nonlinear_arith)
            requires
                u5 * y5 < x5 * v5,
                m * u5 >= n * v5,
                m > 0,
                v5 > 0,
                y5 > 0,
        {
            assert(m * (x5 * v5) > m * (u5 * y5));
            assert((m * u5) * y5 >= (n * v5) * y5);
            assert(v5 * (m * x5) > v5 * (n * y5));
        }
    }
}

proof fn lemma_step_down(m: int, n: int, u: int, w: int)
    requires
        m > 0,
        n > 0,
        12 < u < w,
        m * pow(u, 5) < n * pow(w, 5),
    ensures
        m * pow(u - 12, 5) < n * pow(w - 11, 5),
{
    let (u5, w5, x5, y5) = (pow(u, 5), pow(w, 5), pow(u - 12, 5), pow(w - 11, 5));
    lemma_pow_positive(w, 5);
    lemma_pow_positive(w - 11, 5);
    assert(0 <= (u - 12) * w && (u - 12) * w < u * (w - 11)) by (nonlinear_arith)
        requires
            12 < u < w,
    ;
    crate::texture::lemma_pow_grows_with_base((u - 12) * w, u * (w - 11), 5);
    lemma_pow_distributes(u - 12, w, 5);
    lemma_pow_distributes(u, w - 11, 5);
    assert(m * x5 < n * y5) by (nonlinear_arith)
        requires
            x5 * w5 < u5 * y5,
            m * u5 < n * w5,
            m > 0,
            w5 > 0,
            y5 > 0,
    {
        assert(m * (x5 * w5) < m * (u5 * y5));
        assert((m * u5) * y5 < (n * w5) * y5);
        assert(w5 * (m * x5) < w5 * (n * y5));
    }
}

/// The constant side of the code's inequalities, with the factor 2 drawn into the levels.
proof fn lemma_scale(x: int)
    ensures
        pow(510, 6) * pow(2 * x, 5) == pow(2, 11) * pow(255, 6) * pow(x, 5),
        pow(510, 6) > 0,
{
    lemma_pow_distributes(2, 255, 6);
    lemma_pow_distributes(2, x, 5);
    lemma_pow_adds(2, 6, 5);
    lemma_pow_positive(510, 6);
    let (s, t, l, x5) = (pow(2, 6), pow(2, 5), pow(255, 6), pow(x, 5));
    assert((s * l) * (t * x5) == (s * t) * l * x5) by (nonlinear_arith);
}

proof fn lemma_scaled_level(i: int)
    ensures
        pow(510, 6) * pow(10 * i, 5) == pow(5, 5) * (pow(2, 11) * pow(255, 6) * pow(i, 5)),
{
    lemma_scale(5 * i);
    lemma_pow_distributes(5, i, 5);
    assert(2 * (5 * i) == 10 * i);
    let (k, t, i5) = (pow(2, 11) * pow(255, 6), pow(5, 5), pow(i, 5));
    assert(k * (t * i5) == t * (k * i5)) by (nonlinear_arith);
}

proof fn lemma_upper(i: int, code: int)
    requires
        0 <= i <= 255,
        crate::texture::is_gamma_code(i, code),
        code >= 2,
    ensures
        pow(5, 5) * pow(code, 11) < pow(255, 6) * pow(5 * i + 6, 5),
{
    let b = 2 * code;
    let (m, n) = (pow(510, 6), pow(b, 6));
    lemma_tangent(b);
    lemma_scaled_level(i);
    lemma_scale(5 * i + 6);
    lemma_not_smaller(b, 510, 6);
    lemma_pow_positive(b, 6);
    lemma_pow_positive(5, 5);
    let (t, a11, k5) = (pow(5, 5), pow(b - 1, 11), pow(2, 11) * pow(255, 6) * pow(i, 5));
    assert(t * a11 <= t * k5) by (nonlinear_arith)
        requires
            a11 <= k5,
            t > 0,
    ;
    lemma_step_up(m, n, 10 * i, 5 * b - 11);
    assert(10 * i + 12 == 2 * (5 * i + 6));
    lemma_pow_distributes(5, b, 5);
    lemma_pow_adds(b, 6, 5);
    lemma_pow_distributes(2, code, 11);
    lemma_pow_positive(2, 11);
    let (b5, s, l, x5, c11) = (
        pow(b, 5),
        pow(2, 11),
        pow(255, 6),
        pow(5 * i + 6, 5),
        pow(code, 11),
    );
    assert(t * c11 < l * x5) by (nonlinear_arith)
        requires
            n * (t * b5) < s * l * x5,
            n * b5 == s * c11,
            s > 0,
    {
        assert(n * (t * b5) == t * (n * b5));
        assert(s * (t * c11) < s * (l * x5));
    }
}

proof fn lemma_lower(i: int, code: int)
    requires
        2 <= i <= 255,
        crate::texture::is_gamma_code(i, code),
    ensures
        pow(255, 6) * pow(5 * i - 6, 5) < pow(5, 5) * pow(code, 11),
{
    let d = 2 * code + 1;
    let (m, n) = (pow(510, 6), pow(d, 6));
    let (t, d11, k) = (pow(5, 5), pow(d, 11), pow(2, 11) * pow(255, 6));
    let i5 = pow(i, 5);
    lemma_pow_positive(2, 11);
    lemma_pow_positive(255, 6);
    lemma_pow_positive(i, 5);
    lemma_pow_positive(5, 5);
    lemma_pow_positive(d, 6);
    if code == 0 {
        lemma1_pow(11);
        assert(k * i5 >= 1) by (nonlinear_arith)
            requires
                k == pow(2, 11) * pow(255, 6),
                pow(2, 11) > 0,
                pow(255, 6) > 0,
                i5 > 0,
        ;
    }
    lemma_scaled_level(i);
    lemma_scale(5 * i - 6);
    lemma_pow_distributes(5, d, 5);
    lemma_pow_adds(d, 6, 5);
    let (u5, w5, d5) = (pow(10 * i, 5), pow(5 * d, 5), pow(d, 5));
    assert(m * u5 < n * w5) by (nonlinear_arith)
        requires
            m * u5 == t * (k * i5),
            k * i5 < d11,
            d11 == n * d5,
            w5 == t * d5,
            t > 0,
    {
        assert(t * (k * i5) < t * d11);
        assert(t * (n * d5) == n * (t * d5));
    }
    if d <= 510 && 10 * i >= 5 * d {
        lemma_not_smaller(d, 510, 6);
        lemma_not_smaller(5 * d, 10 * i, 5);
        assert(m * u5 >= n * w5) by (nonlinear_arith)
            requires
                m >= n,
                n > 0,
                u5 >= w5,
                w5 >= 0,
        ;
    }
    lemma_step_down(m, n, 10 * i, 5 * d);
    lemma_tangent(d);
    assert(10 * i - 12 == 2 * (5 * i - 6));
    lemma_pow_distributes(2, code, 11);
    let (s, l, x5, c11) = (pow(2, 11), pow(255, 6), pow(5 * i - 6, 5), pow(code, 11));
    assert(l * x5 < t * c11) by (nonlinear_arith)
        requires
            s * l * x5 < t * (s * c11),
            s > 0,
    {
        assert(s * (l * x5) < s * (t * c11));
    }
}

proof fn lemma_negative(x: int)
    requires
        x < 0,
    ensures
        pow(x, 5) < 0,
{
    lemma_pow1(x);
    lemma_pow_adds(x, 1, 1);
    lemma_pow_adds(x, 2, 2);
    lemma_pow_adds(x, 4, 1);
    let p2 = pow(x, 2);
    assert(p2 * p2 * x < 0) by (nonlinear_arith)
        requires
            p2 == x * x,
            x < 0,
    ;
}

/// The gamma code of a level is at least the level, and a shader's `pow(x, 2.2)` returns the level
/// to within 1.2.
pub proof fn law_gamma_code_reads_back(i: int, code: int)
    requires
        0 <= i <= 255,
        crate::texture::is_gamma_code(i, code),
    ensures
        i <= code,
        reads_back(i, code),
{
    let (s, l, i5) = (pow(2, 11), pow(255, 6), pow(i, 5));
    lemma_pow_positive(2, 11);
    lemma_pow_positive(255, 6);
    lemma_pow_positive(5, 5);
    lemma_not_smaller(i, 255, 6);
    lemma_not_smaller(0, i, 5);
    lemma_not_smaller(0, code, 11);
    if 2 * code + 1 <= 2 * i {
        lemma_not_smaller(2 * code + 1, 2 * i, 11);
        lemma_pow_distributes(2, i, 11);
        lemma_pow_adds(i, 6, 5);
        let i6 = pow(i, 6);
        assert(s * (i6 * i5) <= s * l * i5) by (nonlinear_arith)
            requires
                i6 <= l,
                i5 >= 0,
                s > 0,
        ;
    }
    let (t, c11, x5, y5) = (pow(5, 5), pow(code, 11), pow(5 * i - 6, 5), pow(5 * i + 6, 5));
    if i >= 2 {
        lemma_lower(i, code);
    } else {
        lemma_negative(5 * i - 6);
        assert(l * x5 < t * c11) by (nonlinear_arith)
            requires
                x5 < 0,
                l > 0,
                t > 0,
                c11 >= 0,
        ;
    }
    if code >= 2 {
        lemma_upper(i, code);
    } else {
        lemma_not_smaller(code, 1, 11);
        lemma1_pow(11);
        crate::texture::lemma_pow_grows_with_base(5, 5 * i + 6, 5);
        assert(t * c11 < l * y5) by (nonlinear_arith)
            requires
                0 <= c11 <= 1,
                t > 0,
                y5 > t,
                l >= 1,
        ;
    }
}

} // verus!
