//! IEEE 754 binary64 values, carried everywhere as their raw bit patterns.
//!
//! The interpreter's float kind is represented as a `u64` holding the bits of
//! a double. Arithmetic, comparison, conversion and formatting of doubles are
//! performed by `rustc_apfloat`, a pure software implementation of IEEE 754
//! whose results depend on nothing but its arguments; each operation the
//! library relies on is named by an uninterpreted spec function, so every
//! contract above this module states results exactly in terms of these names.

use vstd::prelude::*;

use rustc_apfloat::Float;

use crate::text::INT_LIT_BOUND;
use crate::text::all_digits;
use crate::text::digits_val;
use crate::text::is_digit;
use crate::text::is_digit_byte;

verus! {

pub const SIGN_MASK: u64 = 0x8000_0000_0000_0000;
pub const ABS_MASK: u64 = 0x7fff_ffff_ffff_ffff;
pub const INF_BITS: u64 = 0x7ff0_0000_0000_0000;
pub const NEG_INF_BITS: u64 = 0xfff0_0000_0000_0000;
pub const QNAN_BITS: u64 = 0x7ff8_0000_0000_0000;
pub const NEG_QNAN_BITS: u64 = 0xfff8_0000_0000_0000;
pub const ONE_BITS: u64 = 0x3ff0_0000_0000_0000;
/// Bits of 2^53, the magnitude above which every integral double is even.
pub const TWO_POW_53_BITS: u64 = 0x4340_0000_0000_0000;

// ---- properties a double's bit pattern shows directly ----

pub open spec fn fp_is_nan(a: u64) -> bool {
    (a & ABS_MASK) > INF_BITS
}

pub open spec fn fp_is_inf(a: u64) -> bool {
    (a & ABS_MASK) == INF_BITS
}

pub open spec fn fp_is_zero(a: u64) -> bool {
    (a & ABS_MASK) == 0
}

pub open spec fn fp_is_neg(a: u64) -> bool {
    (a & SIGN_MASK) != 0
}

pub open spec fn fp_abs(a: u64) -> u64 {
    a & ABS_MASK
}

pub fn is_nan_bits(a: u64) -> (r: bool)
    ensures
        r == fp_is_nan(a),
{
    (a & ABS_MASK) > INF_BITS
}

pub fn is_inf_bits(a: u64) -> (r: bool)
    ensures
        r == fp_is_inf(a),
{
    (a & ABS_MASK) == INF_BITS
}

pub fn is_zero_bits(a: u64) -> (r: bool)
    ensures
        r == fp_is_zero(a),
{
    (a & ABS_MASK) == 0
}

pub fn is_neg_bits(a: u64) -> (r: bool)
    ensures
        r == fp_is_neg(a),
{
    (a & SIGN_MASK) != 0
}

pub fn abs_bits(a: u64) -> (r: u64)
    ensures
        r == fp_abs(a),
{
    a & ABS_MASK
}

// ---- names for what the outside float operations return ----

pub uninterp spec fn fp_add(a: u64, b: u64) -> u64;

pub uninterp spec fn fp_sub(a: u64, b: u64) -> u64;

pub uninterp spec fn fp_mul(a: u64, b: u64) -> u64;

pub uninterp spec fn fp_div(a: u64, b: u64) -> u64;

pub uninterp spec fn fp_rem(a: u64, b: u64) -> u64;

pub uninterp spec fn fp_of_int(i: i128) -> u64;

pub uninterp spec fn fp_eq(a: u64, b: u64) -> bool;

pub uninterp spec fn fp_lt(a: u64, b: u64) -> bool;

pub uninterp spec fn fp_le(a: u64, b: u64) -> bool;

pub uninterp spec fn fp_trunc(a: u64) -> u64;

pub uninterp spec fn fp_to_i128(a: u64) -> i128;

pub uninterp spec fn fp_parse(s: Seq<u8>) -> u64;

pub uninterp spec fn fp_sci(a: u64, prec: usize) -> Seq<u8>;

// ---- the trusted calls themselves ----

/// Relies on `rustc_apfloat::ieee::Double` addition (`Add`), which rounds to
/// nearest, ties to even — the same function IEEE 754 binary64 hardware
/// addition computes.
#[verifier::external_body]
pub(crate) fn float_add(a: u64, b: u64) -> (r: u64)
    ensures
        r == fp_add(a, b),
{
    let x = rustc_apfloat::ieee::Double::from_bits(a as u128);
    let y = rustc_apfloat::ieee::Double::from_bits(b as u128);
    (x + y).value.to_bits() as u64
}

/// Relies on `rustc_apfloat::ieee::Double` subtraction (`Sub`), round to
/// nearest, ties to even.
#[verifier::external_body]
pub(crate) fn float_sub(a: u64, b: u64) -> (r: u64)
    ensures
        r == fp_sub(a, b),
{
    let x = rustc_apfloat::ieee::Double::from_bits(a as u128);
    let y = rustc_apfloat::ieee::Double::from_bits(b as u128);
    (x - y).value.to_bits() as u64
}

/// Relies on `rustc_apfloat::ieee::Double` multiplication (`Mul`), round to
/// nearest, ties to even.
#[verifier::external_body]
pub(crate) fn float_mul(a: u64, b: u64) -> (r: u64)
    ensures
        r == fp_mul(a, b),
{
    let x = rustc_apfloat::ieee::Double::from_bits(a as u128);
    let y = rustc_apfloat::ieee::Double::from_bits(b as u128);
    (x * y).value.to_bits() as u64
}

/// Relies on `rustc_apfloat::ieee::Double` division (`Div`), round to
/// nearest, ties to even.
#[verifier::external_body]
pub(crate) fn float_div(a: u64, b: u64) -> (r: u64)
    ensures
        r == fp_div(a, b),
{
    let x = rustc_apfloat::ieee::Double::from_bits(a as u128);
    let y = rustc_apfloat::ieee::Double::from_bits(b as u128);
    (x / y).value.to_bits() as u64
}

/// Relies on `rustc_apfloat::Float::c_fmod`, the C `fmod` — the function the
/// `%` operator computes on doubles.
#[verifier::external_body]
pub(crate) fn float_rem(a: u64, b: u64) -> (r: u64)
    ensures
        r == fp_rem(a, b),
{
    let x = rustc_apfloat::ieee::Double::from_bits(a as u128);
    let y = rustc_apfloat::ieee::Double::from_bits(b as u128);
    x.c_fmod(y).value.to_bits() as u64
}

/// Relies on `rustc_apfloat::Float::from_i128`, which rounds the integer to
/// the nearest double, ties to even — the rounding an `as` conversion to a
/// double performs.
#[verifier::external_body]
pub(crate) fn float_of_int(i: i128) -> (r: u64)
    ensures
        r == fp_of_int(i),
{
    rustc_apfloat::ieee::Double::from_i128(i).value.to_bits() as u64
}

/// Relies on `rustc_apfloat::ieee::IeeeFloat`'s `PartialOrd`, the IEEE 754
/// comparison predicate: equality never holds beside a NaN, and the two
/// zeroes are equal.
#[verifier::external_body]
pub(crate) fn float_eq(a: u64, b: u64) -> (r: bool)
    ensures
        r == fp_eq(a, b),
{
    let x = rustc_apfloat::ieee::Double::from_bits(a as u128);
    let y = rustc_apfloat::ieee::Double::from_bits(b as u128);
    x.partial_cmp(&y) == Some(core::cmp::Ordering::Equal)
}

/// Relies on `rustc_apfloat::ieee::IeeeFloat`'s `PartialOrd`: strictly-below
/// in the IEEE 754 order, false beside a NaN.
#[verifier::external_body]
pub(crate) fn float_lt(a: u64, b: u64) -> (r: bool)
    ensures
        r == fp_lt(a, b),
{
    let x = rustc_apfloat::ieee::Double::from_bits(a as u128);
    let y = rustc_apfloat::ieee::Double::from_bits(b as u128);
    x.partial_cmp(&y) == Some(core::cmp::Ordering::Less)
}

/// Relies on `rustc_apfloat::ieee::IeeeFloat`'s `PartialOrd`: below-or-equal
/// in the IEEE 754 order, false beside a NaN.
#[verifier::external_body]
pub(crate) fn float_le(a: u64, b: u64) -> (r: bool)
    ensures
        r == fp_le(a, b),
{
    let x = rustc_apfloat::ieee::Double::from_bits(a as u128);
    let y = rustc_apfloat::ieee::Double::from_bits(b as u128);
    match x.partial_cmp(&y) {
        Some(core::cmp::Ordering::Less) | Some(core::cmp::Ordering::Equal) => true,
        _ => false,
    }
}

/// Relies on `rustc_apfloat::Float::round_to_integral` with rounding toward
/// zero: truncation of a double to an integral double.
#[verifier::external_body]
pub(crate) fn float_trunc(a: u64) -> (r: u64)
    ensures
        r == fp_trunc(a),
{
    let x = rustc_apfloat::ieee::Double::from_bits(a as u128);
    x.round_to_integral(rustc_apfloat::Round::TowardZero).value.to_bits() as u64
}

/// Relies on `rustc_apfloat::Float::to_i128`, conversion of a double toward
/// zero into a 128-bit signed integer, saturating at the bounds.
#[verifier::external_body]
pub(crate) fn float_to_i128(a: u64) -> (r: i128)
    requires
        !fp_is_nan(a),
    ensures
        r == fp_to_i128(a),
{
    let x = rustc_apfloat::ieee::Double::from_bits(a as u128);
    x.to_i128(128).value
}

/// Relies on `rustc_apfloat::ieee::Double::from_str` (through `str::parse`),
/// which rounds the decimal in the string to the nearest double, ties to
/// even — the rounding the standard library's float parsing performs. The
/// argument is required to match the plain decimal grammar, on which the
/// parse cannot fail and cannot panic (its exponent arithmetic saturates).
#[verifier::external_body]
pub(crate) fn float_parse(s: &[u8]) -> (r: u64)
    requires
        wf_decimal(s@),
    ensures
        r == fp_parse(s@),
{
    match core::str::from_utf8(s) {
        Ok(t) => match t.parse::<rustc_apfloat::ieee::Double>() {
            Ok(v) => v.to_bits() as u64,
            Err(_) => QNAN_BITS,
        },
        Err(_) => QNAN_BITS,
    }
}

/// Relies on `rustc_apfloat::ieee::IeeeFloat`'s `Display` with an explicit
/// width of zero (always scientific form) and an explicit precision: the
/// value rounded to `prec` significant decimal digits, written as
/// `d.dddE±x`. The result depends on the bits and the precision alone.
#[verifier::external_body]
pub(crate) fn float_fmt_sci(a: u64, prec: usize) -> (r: Vec<u8>)
    requires
        1 <= prec <= 17,
    ensures
        r@ == fp_sci(a, prec),
{
    let x = rustc_apfloat::ieee::Double::from_bits(a as u128);
    format!("{:1$.2$}", x, 0usize, prec).into_bytes()
}

// ---- the plain decimal grammar the float parser is given ----

/// First index at or after `i` that does not hold a decimal digit.
pub open spec fn digits_end(s: Seq<u8>, i: int) -> int
    decreases s.len() - i,
{
    if 0 <= i < s.len() && is_digit(s[i]) {
        digits_end(s, i + 1)
    } else {
        i
    }
}

/// An optional exponent part filling the rest of the text: nothing, or
/// `e`/`E`, an optional sign, and at least one digit.
pub open spec fn wf_exp(s: Seq<u8>, i: int) -> bool {
    if i == s.len() {
        true
    } else if 0 <= i < s.len() && (s[i] == 101 || s[i] == 69) {
        let j0: int = if i + 1 < s.len() && (s[i + 1] == 43 || s[i + 1] == 45) {
            i + 2
        } else {
            i + 1
        };
        let j = digits_end(s, j0);
        j > j0 && j == s.len()
    } else {
        false
    }
}

/// The decimal float grammar of the standard library's float parsing, minus
/// the spelled-out infinities and NaNs: an optional sign, digits with at
/// most one point (at least one digit in all), and an optional exponent.
pub open spec fn wf_decimal(s: Seq<u8>) -> bool {
    let i0: int = if s.len() > 0 && (s[0] == 43 || s[0] == 45) {
        1
    } else {
        0
    };
    let i1 = digits_end(s, i0);
    if 0 <= i1 < s.len() && s[i1] == 46 {
        let i2 = digits_end(s, i1 + 1);
        (i1 > i0 || i2 > i1 + 1) && wf_exp(s, i2)
    } else {
        i1 > i0 && wf_exp(s, i1)
    }
}

/// Scans a digit run: returns the first index at or after `from` without a
/// digit.
pub fn scan_digits(s: &[u8], from: usize) -> (r: usize)
    requires
        from <= s@.len(),
    ensures
        r == digits_end(s@, from as int),
        from <= r <= s@.len(),
{
    let mut i: usize = from;
    while i < s.len() && is_digit_byte(s[i])
        invariant
            from <= i <= s@.len(),
            digits_end(s@, from as int) == digits_end(s@, i as int),
        decreases s@.len() - i,
    {
        i += 1;
    }
    i
}

pub fn is_wf_decimal(s: &[u8]) -> (r: bool)
    ensures
        r == wf_decimal(s@),
{
    let i0: usize = if s.len() > 0 && (s[0] == 43 || s[0] == 45) {
        1
    } else {
        0
    };
    let i1 = scan_digits(s, i0);
    if i1 < s.len() && s[i1] == 46 {
        let i2 = scan_digits(s, i1 + 1);
        (i1 > i0 || i2 > i1 + 1) && is_wf_exp(s, i2)
    } else {
        i1 > i0 && is_wf_exp(s, i1)
    }
}

fn is_wf_exp(s: &[u8], i: usize) -> (r: bool)
    requires
        i <= s@.len(),
    ensures
        r == wf_exp(s@, i as int),
{
    if i == s.len() {
        true
    } else if s[i] == 101 || s[i] == 69 {
        let j0: usize = if i + 1 < s.len() && (s[i + 1] == 43 || s[i + 1] == 45) {
            i + 2
        } else {
            i + 1
        };
        let j = scan_digits(s, j0);
        j > j0 && j == s.len()
    } else {
        false
    }
}

// ---- composing a decimal literal out of two integer literals ----

pub open spec fn num_digits(n: nat) -> nat
    decreases n,
{
    if n < 10 {
        1
    } else {
        1 + num_digits(n / 10)
    }
}

proof fn lemma_pow10_38()
    ensures
        pow10(38) == 100000000000000000000000000000000000000u128,
        pow10(39) == 10 * (100000000000000000000000000000000000000u128 as nat),
    decreases 0int,
{
    reveal_with_fuel(pow10, 41);
}

proof fn lemma_pow10_mono(a: nat, b: nat)
    requires
        a <= b,
    ensures
        pow10(a) <= pow10(b),
    decreases b,
{
    if a < b {
        lemma_pow10_mono(a, (b - 1) as nat);
        assert(pow10(b) == 10 * pow10((b - 1) as nat));
    }
}

proof fn lemma_num_digits_le(n: nat, k: nat)
    requires
        n < pow10(k),
        k >= 1,
    ensures
        num_digits(n) <= k,
    decreases k,
{
    if n >= 10 {
        assert(pow10(k) == 10 * pow10((k - 1) as nat));
        lemma_num_digits_le(n / 10, (k - 1) as nat);
    }
}

/// The divisor that scales the fractional digits: ten to the number of
/// digits, as a double.
pub open spec fn pow10_bits(d: nat) -> u64 {
    if d <= 38 {
        fp_of_int(pow10(d) as i128)
    } else {
        fp_mul(fp_of_int(pow10(38) as i128), fp_of_int(10))
    }
}

/// The double a decimal literal `a.b` names: the whole part plus the
/// fraction's digits scaled down by ten to their count.
pub open spec fn fp_of_decimal(a: u128, b: u128) -> u64 {
    fp_add(
        fp_of_int(a as i128),
        fp_div(fp_of_int(b as i128), pow10_bits(num_digits(b as nat))),
    )
}

fn pow10_exec(d: u32) -> (r: u128)
    requires
        d <= 38,
    ensures
        r == pow10(d as nat),
{
    proof {
        lemma_pow10_38();
    }
    let mut acc: u128 = 1;
    let mut i: u32 = 0;
    while i < d
        invariant
            i <= d <= 38,
            acc == pow10(i as nat),
        decreases d - i,
    {
        proof {
            lemma_pow10_38();
            lemma_pow10_mono((i + 1) as nat, 38);
            assert(pow10((i + 1) as nat) == 10 * pow10(i as nat));
        }
        acc = acc * 10;
        i += 1;
    }
    acc
}

fn num_digits_exec(b: u128) -> (r: u32)
    requires
        b < INT_LIT_BOUND,
    ensures
        r == num_digits(b as nat),
        r <= 39,
{
    proof {
        lemma_pow10_38();
        lemma_num_digits_le(b as nat, 39);
    }
    let mut m: u128 = b;
    let mut d: u32 = 1;
    while m >= 10
        invariant
            num_digits(b as nat) == (d - 1) + num_digits(m as nat),
            1 <= d <= num_digits(b as nat),
            num_digits(b as nat) <= 39,
        decreases m,
    {
        m = m / 10;
        d += 1;
    }
    d
}

/// The double named by the decimal literal with whole part `a` and
/// fractional digits `b`.
pub fn float_of_decimal(a: u128, b: u128) -> (r: u64)
    requires
        a < INT_LIT_BOUND,
        b < INT_LIT_BOUND,
    ensures
        r == fp_of_decimal(a, b),
{
    let d = num_digits_exec(b);
    let divisor: u64 = if d <= 38 {
        let p = pow10_exec(d);
        proof {
            lemma_pow10_38();
            lemma_pow10_mono(d as nat, 38);
        }
        float_of_int(p as i128)
    } else {
        proof {
            lemma_pow10_38();
        }
        float_mul(
            float_of_int(100000000000000000000000000000000000000i128),
            float_of_int(10),
        )
    };
    float_add(float_of_int(a as i128), float_div(float_of_int(b as i128), divisor))
}

// ---- reading a double out of arbitrary text ----

pub open spec fn lower(b: u8) -> u8 {
    if 65 <= b <= 90 {
        (b + 32) as u8
    } else {
        b
    }
}

pub open spec fn is_inf_at(s: Seq<u8>, o: int) -> bool {
    s.len() - o == 3 && lower(s[o]) == 105 && lower(s[o + 1]) == 110 && lower(s[o + 2]) == 102
}

pub open spec fn is_infinity_at(s: Seq<u8>, o: int) -> bool {
    s.len() - o == 8 && lower(s[o]) == 105 && lower(s[o + 1]) == 110 && lower(s[o + 2]) == 102
        && lower(s[o + 3]) == 105 && lower(s[o + 4]) == 110 && lower(s[o + 5]) == 105 && lower(
        s[o + 6],
    ) == 116 && lower(s[o + 7]) == 121
}

pub open spec fn is_nan_at(s: Seq<u8>, o: int) -> bool {
    s.len() - o == 3 && lower(s[o]) == 110 && lower(s[o + 1]) == 97 && lower(s[o + 2]) == 110
}

/// The double a piece of text names under the standard library's float
/// grammar: the spelled-out specials, case-insensitive, or a plain decimal;
/// `None` on any other text.
pub open spec fn float_of_text(s: Seq<u8>) -> Option<u64> {
    let o: int = if s.len() > 0 && (s[0] == 43 || s[0] == 45) {
        1
    } else {
        0
    };
    let neg = s.len() > 0 && s[0] == 45;
    if is_inf_at(s, o) || is_infinity_at(s, o) {
        Some(
            if neg {
                NEG_INF_BITS
            } else {
                INF_BITS
            },
        )
    } else if is_nan_at(s, o) {
        Some(
            if neg {
                NEG_QNAN_BITS
            } else {
                QNAN_BITS
            },
        )
    } else if wf_decimal(s) {
        Some(fp_parse(s))
    } else {
        None
    }
}

fn lower_byte(b: u8) -> (r: u8)
    ensures
        r == lower(b),
{
    if 65 <= b && b <= 90 {
        b + 32
    } else {
        b
    }
}

/// Reads a double out of text exactly where the standard library's float
/// parsing would.
pub fn parse_float_text(s: &[u8]) -> (r: Option<u64>)
    ensures
        r == float_of_text(s@),
{
    let n = s.len();
    let o: usize = if n > 0 && (s[0] == 43 || s[0] == 45) {
        1
    } else {
        0
    };
    let neg = n > 0 && s[0] == 45;
    let inf3 = n - o == 3 && lower_byte(s[o]) == 105 && lower_byte(s[o + 1]) == 110 && lower_byte(
        s[o + 2],
    ) == 102;
    let inf8 = n - o == 8 && lower_byte(s[o]) == 105 && lower_byte(s[o + 1]) == 110 && lower_byte(
        s[o + 2],
    ) == 102 && lower_byte(s[o + 3]) == 105 && lower_byte(s[o + 4]) == 110 && lower_byte(
        s[o + 5],
    ) == 105 && lower_byte(s[o + 6]) == 116 && lower_byte(s[o + 7]) == 121;
    if inf3 || inf8 {
        Some(
            if neg {
                NEG_INF_BITS
            } else {
                INF_BITS
            },
        )
    } else if n - o == 3 && lower_byte(s[o]) == 110 && lower_byte(s[o + 1]) == 97 && lower_byte(
        s[o + 2],
    ) == 110 {
        Some(
            if neg {
                NEG_QNAN_BITS
            } else {
                QNAN_BITS
            },
        )
    } else if is_wf_decimal(s) {
        Some(float_parse(s))
    } else {
        None
    }
}

// ---- raising a double to a power ----

/// Square-and-multiply over IEEE multiplications, each step rounded: the
/// value this library gives `base` raised to the natural number `n`.
pub open spec fn fp_binexp(acc: u64, base: u64, n: nat) -> u64
    decreases n,
{
    if n == 0 {
        acc
    } else {
        fp_binexp(
            if n % 2 == 1 {
                fp_mul(acc, base)
            } else {
                acc
            },
            fp_mul(base, base),
            n / 2,
        )
    }
}

/// Raising a double to a double. `None` on a finite exponent with a
/// fractional part, which this library does not evaluate; every other case
/// follows the IEEE 754 `pow` conventions for its special values.
pub open spec fn fp_pow(a: u64, b: u64) -> Option<u64> {
    if fp_is_zero(b) {
        Some(ONE_BITS)
    } else if fp_eq(a, ONE_BITS) {
        Some(ONE_BITS)
    } else if fp_is_nan(a) || fp_is_nan(b) {
        Some(QNAN_BITS)
    } else if fp_is_inf(b) || !fp_lt(fp_abs(b), TWO_POW_53_BITS) {
        // an infinite or huge exponent: every integral double at least 2^53
        // is even, so the magnitude of the base alone decides
        if fp_eq(fp_abs(a), ONE_BITS) {
            Some(ONE_BITS)
        } else if fp_lt(fp_abs(a), ONE_BITS) == !fp_is_neg(b) {
            Some(0)
        } else {
            Some(INF_BITS)
        }
    } else if fp_eq(fp_trunc(b), b) {
        let n = fp_to_i128(b);
        if 0 <= n < 0x20_0000_0000_0000 {
            Some(fp_binexp(ONE_BITS, a, n as nat))
        } else if -0x20_0000_0000_0000 < n < 0 {
            Some(fp_div(ONE_BITS, fp_binexp(ONE_BITS, a, (-n) as nat)))
        } else {
            Some(QNAN_BITS)
        }
    } else {
        None
    }
}

fn pow_bits_uint(base: u64, n: u64) -> (r: u64)
    ensures
        r == fp_binexp(ONE_BITS, base, n as nat),
{
    let mut acc: u64 = ONE_BITS;
    let mut b: u64 = base;
    let mut m: u64 = n;
    while m > 0
        invariant
            fp_binexp(ONE_BITS, base, n as nat) == fp_binexp(acc, b, m as nat),
        decreases m,
    {
        if m % 2 == 1 {
            acc = float_mul(acc, b);
        }
        b = float_mul(b, b);
        m = m / 2;
    }
    acc
}

// ---- rendering a double as plain decimal text ----

/// First index at or after `i` holding `E`, or -1.
pub open spec fn find_e(s: Seq<u8>, i: int) -> int
    decreases s.len() - i,
{
    if 0 <= i < s.len() {
        if s[i] == 69 {
            i
        } else {
            find_e(s, i + 1)
        }
    } else {
        -1
    }
}

/// The sequence with every `.` removed.
pub open spec fn strip_dots(s: Seq<u8>) -> Seq<u8>
    decreases s.len(),
{
    if s.len() == 0 {
        s
    } else if s.last() == 46 {
        strip_dots(s.drop_last())
    } else {
        strip_dots(s.drop_last()) + seq![s.last()]
    }
}

/// The sequence with trailing `0` bytes removed, keeping at least one byte.
pub open spec fn strip_tz(s: Seq<u8>) -> Seq<u8>
    decreases s.len(),
{
    if s.len() > 1 && s.last() == 48 {
        strip_tz(s.drop_last())
    } else {
        s
    }
}

pub open spec fn zeros(n: nat) -> Seq<u8> {
    Seq::new(n, |i: int| 48u8)
}

pub open spec fn pow10(n: nat) -> nat
    decreases n,
{
    if n == 0 {
        1
    } else {
        10 * pow10((n - 1) as nat)
    }
}

proof fn lemma_digits_val_lt(s: Seq<u8>)
    requires
        all_digits(s),
    ensures
        digits_val(s) < pow10(s.len()),
    decreases s.len(),
{
    if s.len() > 0 {
        assert(all_digits(s.drop_last()));
        lemma_digits_val_lt(s.drop_last());
        assert(is_digit(s.last()));
    }
}

/// Turns scientific text `±d.dddE±x` into the plain decimal form the
/// standard library's float formatting uses; text of another shape is
/// handed back unchanged.
pub open spec fn sci_expand(s: Seq<u8>) -> Seq<u8> {
    let neg = s.len() > 0 && s[0] == 45;
    let body = if neg {
        s.skip(1)
    } else {
        s
    };
    let e = find_e(body, 0);
    if e < 0 {
        s
    } else {
        let mant = body.take(e);
        let ep = body.skip(e + 1);
        let esign = ep.len() > 0 && (ep[0] == 43 || ep[0] == 45);
        let eneg = ep.len() > 0 && ep[0] == 45;
        let edigs = if esign {
            ep.skip(1)
        } else {
            ep
        };
        let digs0 = strip_dots(mant);
        if edigs.len() == 0 || edigs.len() > 4 || !all_digits(edigs) || digs0.len() == 0
            || !all_digits(digs0) {
            s
        } else {
            let x: int = if eneg {
                -(digits_val(edigs) as int)
            } else {
                digits_val(edigs) as int
            };
            let digs = strip_tz(digs0);
            let k = digs.len() as int;
            let sign: Seq<u8> = if neg {
                seq![45u8]
            } else {
                Seq::<u8>::empty()
            };
            if x >= 0 {
                if x + 1 >= k {
                    sign + digs + zeros((x + 1 - k) as nat)
                } else {
                    sign + digs.take(x + 1) + seq![46u8] + digs.skip(x + 1)
                }
            } else {
                sign + seq![48u8, 46u8] + zeros((-x - 1) as nat) + digs
            }
        }
    }
}

/// The smallest precision from `p` up whose scientific form reads back as
/// exactly the same double, or 17, at which every double reads back.
pub open spec fn fp_shortest(a: u64, p: int) -> int
    decreases 17 - p,
{
    if p < 1 || p >= 17 {
        17
    } else if wf_decimal(fp_sci(a, p as usize)) && fp_parse(fp_sci(a, p as usize)) == a {
        p
    } else {
        fp_shortest(a, p + 1)
    }
}

/// The text this library renders a double as: the standard special
/// spellings, or the shortest round-tripping decimal, written out plainly.
pub open spec fn float_text_spec(a: u64) -> Seq<u8> {
    if fp_is_nan(a) {
        seq![78u8, 97u8, 78u8]
    } else if fp_is_inf(a) {
        if fp_is_neg(a) {
            seq![45u8, 105u8, 110u8, 102u8]
        } else {
            seq![105u8, 110u8, 102u8]
        }
    } else if fp_is_zero(a) {
        if fp_is_neg(a) {
            seq![45u8, 48u8]
        } else {
            seq![48u8]
        }
    } else {
        sci_expand(fp_sci(a, fp_shortest(a, 1) as usize))
    }
}

fn expand_checks(mant: &Vec<u8>, edigs: &Vec<u8>) -> (r: bool)
    ensures
        r == (edigs@.len() != 0 && edigs@.len() <= 4 && all_digits(edigs@) && strip_dots(
            mant@,
        ).len() != 0 && all_digits(strip_dots(mant@))),
{
    let digs0 = strip_dots_exec(mant);
    edigs.len() != 0 && edigs.len() <= 4 && all_digits_exec(edigs) && digs0.len() != 0
        && all_digits_exec(&digs0)
}

fn all_digits_exec(s: &Vec<u8>) -> (r: bool)
    ensures
        r == all_digits(s@),
{
    let mut i: usize = 0;
    while i < s.len()
        invariant
            i <= s@.len(),
            forall|j: int| 0 <= j < i ==> is_digit(#[trigger] s@[j]),
        decreases s@.len() - i,
    {
        if !is_digit_byte(s[i]) {
            return false;
        }
        i += 1;
    }
    true
}

fn strip_dots_exec(s: &Vec<u8>) -> (r: Vec<u8>)
    ensures
        r@ == strip_dots(s@),
{
    let mut out: Vec<u8> = Vec::new();
    let mut i: usize = 0;
    while i < s.len()
        invariant
            i <= s@.len(),
            out@ == strip_dots(s@.take(i as int)),
        decreases s@.len() - i,
    {
        proof {
            assert(s@.take(i + 1).drop_last() =~= s@.take(i as int));
            assert(s@.take(i + 1).last() == s@[i as int]);
        }
        if s[i] != 46 {
            out.push(s[i]);
            proof {
                assert(out@ =~= strip_dots(s@.take(i + 1)));
            }
        }
        i += 1;
    }
    proof {
        assert(s@.take(s@.len() as int) =~= s@);
    }
    out
}

fn digits_val_exec(s: &Vec<u8>) -> (r: u32)
    requires
        all_digits(s@),
        s@.len() <= 4,
    ensures
        r == digits_val(s@),
        r < 10000,
{
    let mut val: u32 = 0;
    let mut i: usize = 0;
    while i < s.len()
        invariant
            i <= s@.len() <= 4,
            all_digits(s@),
            val == digits_val(s@.take(i as int)),
            val < 1000 || i == s@.len(),
        decreases s@.len() - i,
    {
        proof {
            assert(s@.take(i + 1).drop_last() =~= s@.take(i as int));
            assert(is_digit(s@[i as int]));
            assert(all_digits(s@.take(i + 1))) by {
                assert(forall|j: int|
                    0 <= j < i + 1 ==> #[trigger] s@.take(i + 1)[j] == s@[j]);
            };
            lemma_digits_val_lt(s@.take(i + 1));
            reveal_with_fuel(pow10, 5);
        }
        val = val * 10 + (s[i] - 48) as u32;
        i += 1;
    }
    proof {
        assert(s@.take(s@.len() as int) =~= s@);
        lemma_digits_val_lt(s@);
        reveal_with_fuel(pow10, 5);
    }
    val
}

fn sci_expand_exec(s: &[u8]) -> (r: Vec<u8>)
    ensures
        r@ == sci_expand(s@),
{
    let neg = s.len() > 0 && s[0] == 45;
    let body: Vec<u8> = if neg {
        vstd::slice::slice_to_vec(vstd::slice::slice_subrange(s, 1, s.len()))
    } else {
        vstd::slice::slice_to_vec(s)
    };
    proof {
        assert(body@ =~= if neg {
            s@.skip(1)
        } else {
            s@
        });
    }
    let mut e: usize = 0;
    let mut found = false;
    while !found && e < body.len()
        invariant
            e <= body@.len(),
            found ==> e < body@.len() && body@[e as int] == 69,
            find_e(body@, 0) == find_e(body@, e as int),
        decreases body@.len() - e + (if found {
            0int
        } else {
            1int
        }),
    {
        if body[e] == 69 {
            found = true;
        } else {
            e += 1;
        }
    }
    proof {
        if found {
            assert(find_e(body@, 0) == e);
        } else {
            assert(find_e(body@, 0) == -1);
        }
    }
    if !found {
        return vstd::slice::slice_to_vec(s);
    }
    let mant: Vec<u8> = vstd::slice::slice_to_vec(
        vstd::slice::slice_subrange(body.as_slice(), 0, e),
    );
    let ep: Vec<u8> = vstd::slice::slice_to_vec(
        vstd::slice::slice_subrange(body.as_slice(), e + 1, body.len()),
    );
    proof {
        assert(mant@ =~= body@.take(e as int));
        assert(ep@ =~= body@.skip(e + 1));
    }
    let esign = ep.len() > 0 && (ep[0] == 43 || ep[0] == 45);
    let eneg = ep.len() > 0 && ep[0] == 45;
    let edigs: Vec<u8> = if esign {
        vstd::slice::slice_to_vec(vstd::slice::slice_subrange(ep.as_slice(), 1, ep.len()))
    } else {
        ep
    };
    proof {
        assert(edigs@ =~= if esign {
            body@.skip(e + 1).skip(1)
        } else {
            body@.skip(e + 1)
        });
    }
    if !expand_checks(&mant, &edigs) {
        return vstd::slice::slice_to_vec(s);
    }
    let xval = digits_val_exec(&edigs);
    let digs0 = strip_dots_exec(&mant);
    let digs = strip_tz_exec(&digs0);
    let mut out: Vec<u8> = Vec::new();
    if neg {
        out.push(45);
    }
    if !eneg || xval == 0 {
        let xu = xval as usize;
        let k = digs.len();
        if xu + 1 >= k {
            let mut rest = digs;
            out.append(&mut rest);
            let mut z: usize = 0;
            while z < xu + 1 - k
                invariant
                    z <= xu + 1 - k,
                    xu + 1 >= k,
                    xu < 10000,
                    out@ == (if neg {
                        seq![45u8]
                    } else {
                        Seq::<u8>::empty()
                    }) + strip_tz(strip_dots(body@.take(e as int))) + zeros(z as nat),
                decreases xu + 1 - k - z,
            {
                out.push(48);
                proof {
                    assert(zeros(z as nat) + seq![48u8] =~= zeros((z + 1) as nat));
                    assert(out@ =~= (if neg {
                        seq![45u8]
                    } else {
                        Seq::<u8>::empty()
                    }) + strip_tz(strip_dots(body@.take(e as int))) + zeros((z + 1) as nat));
                }
                z += 1;
            }
            proof {
                assert(out@ =~= sci_expand(s@));
            }
            out
        } else {
            let mut head = vstd::slice::slice_to_vec(
                vstd::slice::slice_subrange(digs.as_slice(), 0, xu + 1),
            );
            let mut tail = vstd::slice::slice_to_vec(
                vstd::slice::slice_subrange(digs.as_slice(), xu + 1, digs.len()),
            );
            proof {
                assert(head@ =~= digs@.take(xu + 1));
                assert(tail@ =~= digs@.skip(xu + 1));
            }
            out.append(&mut head);
            out.push(46);
            out.append(&mut tail);
            proof {
                assert(out@ =~= sci_expand(s@));
            }
            out
        }
    } else {
        out.push(48);
        out.push(46);
        let xu = xval as usize;
        let mut z: usize = 0;
        while z < xu - 1
            invariant
                xu >= 1,
                z <= xu - 1,
                out@ == (if neg {
                    seq![45u8]
                } else {
                    Seq::<u8>::empty()
                }) + seq![48u8, 46u8] + zeros(z as nat),
            decreases xu - 1 - z,
        {
            out.push(48);
            proof {
                assert(zeros(z as nat) + seq![48u8] =~= zeros((z + 1) as nat));
                assert(out@ =~= (if neg {
                    seq![45u8]
                } else {
                    Seq::<u8>::empty()
                }) + seq![48u8, 46u8] + zeros((z + 1) as nat));
            }
            z += 1;
        }
        let mut rest = digs;
        out.append(&mut rest);
        proof {
            assert(out@ =~= sci_expand(s@));
        }
        out
    }
}

fn strip_tz_exec(s: &Vec<u8>) -> (r: Vec<u8>)
    ensures
        r@ == strip_tz(s@),
{
    let mut k: usize = s.len();
    proof {
        assert(s@.take(s@.len() as int) =~= s@);
    }
    while k > 1 && s[k - 1] == 48
        invariant
            k <= s@.len(),
            strip_tz(s@) == strip_tz(s@.take(k as int)),
        decreases k,
    {
        proof {
            assert(s@.take(k as int).drop_last() =~= s@.take(k - 1));
        }
        k -= 1;
    }
    let r = vstd::slice::slice_to_vec(vstd::slice::slice_subrange(s.as_slice(), 0, k));
    proof {
        assert(r@ =~= s@.take(k as int));
    }
    r
}

/// Renders a double as text, as the interpreter's text coercion shows it.
pub fn float_text(a: u64) -> (r: Vec<u8>)
    ensures
        r@ == float_text_spec(a),
{
    if is_nan_bits(a) {
        let mut out: Vec<u8> = Vec::new();
        out.push(78);
        out.push(97);
        out.push(78);
        proof {
            assert(out@ =~= float_text_spec(a));
        }
        out
    } else if is_inf_bits(a) {
        let mut out: Vec<u8> = Vec::new();
        if is_neg_bits(a) {
            out.push(45);
        }
        out.push(105);
        out.push(110);
        out.push(102);
        proof {
            assert(out@ =~= float_text_spec(a));
        }
        out
    } else if is_zero_bits(a) {
        let mut out: Vec<u8> = Vec::new();
        if is_neg_bits(a) {
            out.push(45);
        }
        out.push(48);
        proof {
            assert(out@ =~= float_text_spec(a));
        }
        out
    } else {
        let mut p: usize = 1;
        while p < 17
            invariant
                1 <= p <= 17,
                fp_shortest(a, 1) == fp_shortest(a, p as int),
                !fp_is_nan(a),
                !fp_is_inf(a),
                !fp_is_zero(a),
            decreases 17 - p,
        {
            let s = float_fmt_sci(a, p);
            if is_wf_decimal(s.as_slice()) && float_parse(s.as_slice()) == a {
                return sci_expand_exec(s.as_slice());
            }
            p += 1;
        }
        let s = float_fmt_sci(a, 17);
        sci_expand_exec(s.as_slice())
    }
}

/// Raises a double to a double; `None` exactly on a finite exponent with a
/// fractional part.
pub fn float_pow(a: u64, b: u64) -> (r: Option<u64>)
    ensures
        r == fp_pow(a, b),
{
    if is_zero_bits(b) {
        Some(ONE_BITS)
    } else if float_eq(a, ONE_BITS) {
        Some(ONE_BITS)
    } else if is_nan_bits(a) || is_nan_bits(b) {
        Some(QNAN_BITS)
    } else if is_inf_bits(b) || !float_lt(abs_bits(b), TWO_POW_53_BITS) {
        if float_eq(abs_bits(a), ONE_BITS) {
            Some(ONE_BITS)
        } else if float_lt(abs_bits(a), ONE_BITS) == !is_neg_bits(b) {
            Some(0)
        } else {
            Some(INF_BITS)
        }
    } else if float_eq(float_trunc(b), b) {
        let n = float_to_i128(b);
        if 0 <= n && n < 0x20_0000_0000_0000 {
            Some(pow_bits_uint(a, n as u64))
        } else if -0x20_0000_0000_0000 < n && n < 0 {
            Some(float_div(ONE_BITS, pow_bits_uint(a, (-n) as u64)))
        } else {
            Some(QNAN_BITS)
        }
    } else {
        None
    }
}

}
