//! What the environment settings mean, once their text has been read.

use crate::f32bits;
use crate::rtgi::MAX_PROBES;
use vstd::prelude::*;
use vstd::string::*;

verus! {

/// Number of rays each thread shoots when nothing is set.
pub const DEFAULT_RAYS_PER_THREAD: u32 = 2;

/// Probe cap when nothing is set.
pub const DEFAULT_MAX_PROBES: u32 = 16_384;

/// Probes updated per frame when nothing is set.
pub const DEFAULT_PROBES_PER_FRAME: u32 = 4096;

pub open spec fn is_digit(b: u8) -> bool {
    48 <= b <= 57
}

/// The number that a string of decimal digits spells.
pub open spec fn digits_value(d: Seq<u8>) -> int
    decreases d.len(),
{
    if d.len() == 0 {
        0
    } else {
        10 * digits_value(d.drop_last()) + (d.last() - 48)
    }
}

/// At least one character, and only decimal digits.
pub open spec fn is_number(d: Seq<u8>) -> bool {
    d.len() > 0 && forall|i: int| 0 <= i < d.len() ==> is_digit(#[trigger] d[i])
}

/// What is left of a text behind one optional sign character.
pub open spec fn unsigned_part(text: Seq<u8>, minus: bool) -> Seq<u8> {
    if text.len() > 0 && (text[0] == 43 || (minus && text[0] == 45)) {
        text.skip(1)
    } else {
        text
    }
}

/// A text as an unsigned 32-bit number: an optional `+`, then digits, within range.
pub open spec fn as_u32(text: Seq<u8>) -> Option<u32> {
    let d = unsigned_part(text, false);
    if is_number(d) && digits_value(d) <= u32::MAX {
        Some(digits_value(d) as u32)
    } else {
        None
    }
}

/// A text as a signed 32-bit number: an optional `+` or `-`, then digits, within range.
pub open spec fn as_i32(text: Seq<u8>) -> Option<i32> {
    let d = unsigned_part(text, true);
    let v = if text.len() > 0 && text[0] == 45 {
        -digits_value(d)
    } else {
        digits_value(d)
    };
    if is_number(d) && i32::MIN <= v <= i32::MAX {
        Some(v as i32)
    } else {
        None
    }
}

proof fn lemma_digits_value_grows(d: Seq<u8>, n: int)
    requires
        0 <= n <= d.len(),
        forall|i: int| 0 <= i < d.len() ==> is_digit(#[trigger] d[i]),
    ensures
        0 <= digits_value(d.take(n)) <= digits_value(d),
    decreases d.len(),
{
    if n < d.len() {
        lemma_digits_value_grows(d.drop_last(), n);
        assert(d.drop_last().take(n) =~= d.take(n));
    } else {
        assert(d.take(n) =~= d);
        if d.len() > 0 {
            lemma_digits_value_grows(d.drop_last(), d.len() - 1);
            assert(d.drop_last().take(d.len() - 1) =~= d.drop_last());
        }
    }
}

/// The number spelled by the digits of `text` from `from` on, if it does not exceed `limit`.
fn parse_digits(text: &[u8], from: usize, limit: u64) -> (r: Option<u64>)
    requires
        from <= text@.len(),
        limit <= u32::MAX,
    ensures
        r == if is_number(text@.skip(from as int)) && digits_value(text@.skip(from as int))
            <= limit {
            Some(digits_value(text@.skip(from as int)) as u64)
        } else {
            None::<u64>
        },
{
    let ghost d = text@.skip(from as int);
    if from == text.len() {
        return None;
    }
    let mut v: u64 = 0;
    let mut i: usize = from;
    let mut over: bool = false;
    assert(d.take(0) =~= Seq::<u8>::empty());
    while i < text.len()
        invariant
            d == text@.skip(from as int),
            from <= i <= text@.len(),
            limit <= u32::MAX,
            forall|k: int| 0 <= k < i - from ==> is_digit(#[trigger] d[k]),
            over <==> digits_value(d.take(i - from)) > limit,
            !over ==> v == digits_value(d.take(i - from)),
            0 <= digits_value(d.take(i - from)),
        decreases text@.len() - i,
    {
        let b: u8 = text[i];
        assert(d[i - from] == b);
        if b < 48 || b > 57 {
            return None;
        }
        proof {
            assert(d.take(i + 1 - from).drop_last() =~= d.take(i - from));
        }
        if !over {
            v = 10 * v + (b - 48) as u64;
            over = v > limit;
        }
        i = i + 1;
    }
    assert(d.take(d.len() as int) =~= d);
    if over {
        None
    } else {
        Some(v)
    }
}

/// Read a text as an unsigned 32-bit number.
pub fn parse_u32(text: &str) -> (r: Option<u32>)
    ensures
        r == as_u32(text.spec_bytes()),
{
    let t: &[u8] = text.as_bytes();
    let from: usize = if t.len() > 0 && t[0] == 43 { 1 } else { 0 };
    assert(t@.skip(0) =~= t@);
    proof {
        let d = unsigned_part(t@, false);
        if is_number(d) {
            lemma_digits_value_grows(d, 0);
        }
    }
    match parse_digits(t, from, u32::MAX as u64) {
        Some(v) => Some(v as u32),
        None => None,
    }
}

/// Read a text as a signed 32-bit number.
pub fn parse_i32(text: &str) -> (r: Option<i32>)
    ensures
        r == as_i32(text.spec_bytes()),
{
    let t: &[u8] = text.as_bytes();
    let minus: bool = t.len() > 0 && t[0] == 45;
    let from: usize = if minus || (t.len() > 0 && t[0] == 43) { 1 } else { 0 };
    assert(t@.skip(0) =~= t@);
    let ghost d = unsigned_part(t@, true);
    proof {
        if is_number(d) {
            lemma_digits_value_grows(d, 0);
        }
    }
    if minus {
        match parse_digits(t, from, 0x8000_0000) {
            Some(v) => Some((-(v as i64)) as i32),
            None => None,
        }
    } else {
        match parse_digits(t, from, 0x7fff_ffff) {
            Some(v) => Some(v as i32),
            None => None,
        }
    }
}

/// The number a setting spells; `default` when it is unset or spells none.
pub open spec fn setting_or(text: Option<&str>, default: u32) -> u32 {
    match text {
        Some(t) => match as_u32(t.spec_bytes()) {
            Some(v) => v,
            None => default,
        },
        None => default,
    }
}

/// `v` limited to `[lo, hi]`.
pub open spec fn limited(v: int, lo: int, hi: int) -> int {
    if v < lo {
        lo
    } else if v > hi {
        hi
    } else {
        v
    }
}

fn number_or(text: Option<&str>, default: u32) -> (r: u32)
    ensures
        r == setting_or(text, default),
{
    match text {
        Some(t) => match parse_u32(t) {
            Some(v) => v,
            None => default,
        },
        None => default,
    }
}

fn limit(v: u32, lo: u32, hi: u32) -> (r: u32)
    ensures
        r == limited(v as int, lo as int, hi as int),
{
    if v < lo {
        lo
    } else if v > hi {
        hi
    } else {
        v
    }
}

/// The rays that a setting asks for.
pub open spec fn rays_of(text: Option<&str>) -> int {
    limited(setting_or(text, DEFAULT_RAYS_PER_THREAD) as int, 1, 4)
}

/// The probe cap that a setting asks for.
pub open spec fn cap_of(text: Option<&str>) -> int {
    limited(setting_or(text, DEFAULT_MAX_PROBES) as int, 64, MAX_PROBES as int)
}

/// The smallest spacing that a setting asks for.
pub open spec fn spacing_of(v: Option<u32>) -> u32 {
    f32bits::raised(
        match v {
            Some(x) => x,
            None => DEFAULT_MIN_SPACING,
        },
        LEAST_MIN_SPACING,
    )
}

/// The debug lane that a setting asks for.
pub open spec fn lane_of(text: Option<&str>) -> i32 {
    match text {
        Some(t) => match as_i32(t.spec_bytes()) {
            Some(v) => v,
            None => 0i32,
        },
        None => 0i32,
    }
}

/// Rays per thread and update: 1 to 4.
pub fn rays_per_thread(text: Option<&str>) -> (r: u32)
    ensures
        r == rays_of(text),
{
    limit(number_or(text, DEFAULT_RAYS_PER_THREAD), 1, 4)
}

/// The probe cap: 64 up to the hard cap.
pub fn max_probes(text: Option<&str>) -> (r: u32)
    ensures
        r == cap_of(text),
{
    limit(number_or(text, DEFAULT_MAX_PROBES), 64, MAX_PROBES)
}

/// The smallest probe spacing when nothing is set: 1.5.
pub const DEFAULT_MIN_SPACING: u32 = 0x3fc0_0000;

/// The smallest probe spacing that can be set: 0.25.
pub const LEAST_MIN_SPACING: u32 = 0x3e80_0000;

/// The smallest probe spacing.
pub fn min_spacing(v: Option<u32>) -> (r: u32)
    ensures
        r == spacing_of(v),
{
    let x: u32 = match v {
        Some(x) => x,
        None => DEFAULT_MIN_SPACING,
    };
    f32bits::at_least(x, LEAST_MIN_SPACING)
}

/// How many probes one frame should update.
pub fn probes_per_frame(text: Option<&str>) -> (r: u32)
    ensures
        r == setting_or(text, DEFAULT_PROBES_PER_FRAME),
{
    number_or(text, DEFAULT_PROBES_PER_FRAME)
}

/// The number of a debug lane; 0 when it is unset or spells none.
pub fn debug_lane(text: Option<&str>) -> (r: i32)
    ensures
        r == lane_of(text),
{
    match text {
        Some(t) => match parse_i32(t) {
            Some(v) => v,
            None => 0,
        },
        None => 0,
    }
}

/// Whether the legacy sky path is selected: set to anything but `0`.
pub fn sky_legacy(text: Option<&str>) -> (r: bool)
    ensures
        r == match text {
            Some(t) => t@ != "0"@,
            None => false,
        },
{
    proof {
        reveal_strlit("0");
    }
    match text {
        Some(t) => {
            let b: &[u8] = t.as_bytes();
            proof {
                let zero = seq!['0'];
                assert("0"@ =~= zero);
                vstd::utf8::encode_utf8_decode_utf8(t@);
                vstd::utf8::encode_utf8_decode_utf8(zero);
                assert(vstd::utf8::is_ascii_chars(zero));
                vstd::utf8::is_ascii_chars_encode_utf8(zero);
                if b@.len() == 1 && b@[0] == 48 {
                    assert(b@ =~= vstd::utf8::encode_utf8(zero));
                }
            }
            !(b.len() == 1 && b[0] == 48)
        },
        None => false,
    }
}

// ---- how texts are read -----------------------------------------------------------------------
/// One digit spells itself.
pub proof fn law_single_digit(k: int)
    requires
        0 <= k < 10,
    ensures
        as_u32(seq![(48 + k) as u8]) == Some(k as u32),
        as_i32(seq![(48 + k) as u8]) == Some(k as i32),
{
    let d = seq![(48 + k) as u8];
    assert(d.drop_last() =~= Seq::<u8>::empty());
    assert(digits_value(Seq::<u8>::empty()) == 0);
    assert(digits_value(d) == k);
}

/// A digit behind a number makes it ten times as large and adds itself, as long as it fits;
/// anything else behind a number spells none.
pub proof fn law_digit_appended(t: Seq<u8>, c: u8, v: u32)
    requires
        as_u32(t) == Some(v),
    ensures
        48 <= c <= 57 && 10 * v + (c - 48) <= u32::MAX ==> as_u32(t.push(c)) == Some(
            (10 * v + (c - 48)) as u32,
        ),
        48 <= c <= 57 && 10 * v + (c - 48) > u32::MAX ==> as_u32(t.push(c)) is None,
        !(48 <= c <= 57) ==> as_u32(t.push(c)) is None,
{
    let d = unsigned_part(t, false);
    let e = unsigned_part(t.push(c), false);
    lemma_digits_value_grows(d, 0);
    assert(e =~= d.push(c));
    assert(e.drop_last() =~= d);
    assert(e.last() == c);
    assert(digits_value(e) == 10 * digits_value(d) + (c - 48));
    assert(e[d.len() as int] == c);
    if 48 <= c <= 57 {
        assert forall|i: int| 0 <= i < e.len() implies is_digit(#[trigger] e[i]) by {
            if i < d.len() {
                assert(e[i] == d[i]);
            }
        }
    }
}

/// A plus changes nothing and a minus the sign; the unsigned reading knows no minus. Nothing spells
/// no number, and neither does a sign alone.
pub proof fn law_signs(t: Seq<u8>)
    requires
        t.len() > 0,
        t[0] != 43,
        t[0] != 45,
    ensures
        as_u32(seq![43u8] + t) == as_u32(t),
        as_i32(seq![43u8] + t) == as_i32(t),
        as_u32(seq![45u8] + t) is None,
        as_i32(t) matches Some(v) ==> as_i32(seq![45u8] + t) == Some((-v) as i32),
        as_u32(Seq::<u8>::empty()) is None,
        as_i32(Seq::<u8>::empty()) is None,
        as_i32(seq![45u8]) is None,
{
    let (p, m) = (seq![43u8] + t, seq![45u8] + t);
    assert(p.skip(1) =~= t);
    assert(m.skip(1) =~= t);
    assert(m[0] == 45 && p[0] == 43);
    assert(!is_digit(m[0]));
    assert(seq![45u8].skip(1) =~= Seq::<u8>::empty());
    if as_i32(t) is Some {
        lemma_digits_value_grows(t, 0);
        assert(digits_value(t.take(0)) == 0);
    }
}

/// Both readings agree on what they both spell without a sign.
pub proof fn law_readings_agree(t: Seq<u8>)
    requires
        t.len() > 0,
        t[0] != 43,
        t[0] != 45,
    ensures
        as_i32(t) matches Some(v) ==> v >= 0 && as_u32(t) == Some(v as u32),
        as_u32(t) matches Some(v) ==> (v <= i32::MAX ==> as_i32(t) == Some(v as i32)),
{
    if is_number(t) {
        lemma_digits_value_grows(t, 0);
        assert(digits_value(t.take(0)) == 0);
    }
}

/// A setting within its limits is taken as it is, one outside as the nearest limit, and one that
/// is missing or spells no number as the default.
pub proof fn law_settings(text: Option<&str>, v: Option<u32>)
    ensures
        1 <= rays_of(text) <= 4,
        64 <= cap_of(text) <= MAX_PROBES,
        text is None ==> rays_of(text) == 2 && cap_of(text) == 16384 && setting_or(
            text,
            DEFAULT_PROBES_PER_FRAME,
        ) == 4096 && lane_of(text) == 0,
        text matches Some(t) ==> {
            &&& as_u32(t.spec_bytes()) is None ==> rays_of(text) == 2 && cap_of(text) == 16384
                && setting_or(text, DEFAULT_PROBES_PER_FRAME) == 4096
            &&& as_u32(t.spec_bytes()) matches Some(x) ==> {
                &&& 1 <= x <= 4 ==> rays_of(text) == x
                &&& x < 1 ==> rays_of(text) == 1
                &&& x > 4 ==> rays_of(text) == 4
                &&& 64 <= x <= MAX_PROBES ==> cap_of(text) == x
                &&& x < 64 ==> cap_of(text) == 64
                &&& x > MAX_PROBES ==> cap_of(text) == MAX_PROBES
                &&& setting_or(text, DEFAULT_PROBES_PER_FRAME) == x
            }
            &&& as_i32(t.spec_bytes()) is None ==> lane_of(text) == 0
            &&& as_i32(t.spec_bytes()) matches Some(x) ==> lane_of(text) == x
        },
        !f32bits::f32_less(spacing_of(v), LEAST_MIN_SPACING),
        v matches Some(x) ==> (f32bits::f32_less(LEAST_MIN_SPACING, x) ==> spacing_of(v) == x),
        v is None ==> 2 * f32bits::f32_units(spacing_of(v)) == 3 * f32bits::f32_units(
            f32bits::F32_ONE,
        ),
        4 * f32bits::f32_units(LEAST_MIN_SPACING) == f32bits::f32_units(f32bits::F32_ONE),
{
    vstd::arithmetic::power2::lemma_pow2_unfold(126);
    vstd::arithmetic::power2::lemma_pow2_unfold(125);
    let p = vstd::arithmetic::power2::pow2(124) as int;
    assert(0x3fc0_0000int / 0x80_0000 == 127 && 0x3fc0_0000int % 0x80_0000 == 0x40_0000);
    assert(0x3e80_0000int / 0x80_0000 == 125 && 0x3e80_0000int % 0x80_0000 == 0);
    assert(0x3f80_0000int / 0x80_0000 == 127 && 0x3f80_0000int % 0x80_0000 == 0);
    f32bits::law_order_key_follows_value(LEAST_MIN_SPACING, DEFAULT_MIN_SPACING);
    f32bits::law_order_key_follows_value(DEFAULT_MIN_SPACING, LEAST_MIN_SPACING);
    if let Some(x) = v {
        f32bits::law_raised_is_no_smaller(x, LEAST_MIN_SPACING);
    }
}

} // verus!
