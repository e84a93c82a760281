//! The numeric domain of the language: IEEE-754 binary64 values, carried as
//! their raw 64-bit patterns.
//!
//! Equality, ordering, negation and the classification of a pattern as NaN,
//! infinite, zero or a small integer are pure bit arithmetic and are verified
//! here against bit-level definitions. The four arithmetic operations, the
//! conversion from a decimal literal and the rendering of a non-integral
//! value are performed by the `rustc_apfloat` software implementation of
//! IEEE-754 behind trusted wrappers; their results are named by
//! uninterpreted functions, since each is a function of its arguments alone.

use rustc_apfloat::Float;
use rustc_apfloat::ieee::Double;
use vstd::prelude::*;

verus! {

/// The sign bit of a binary64 pattern.
pub const SIGN_MASK: u64 = 0x8000_0000_0000_0000;

/// The exponent field of a binary64 pattern.
pub const EXP_MASK: u64 = 0x7FF0_0000_0000_0000;

/// The fraction (significand) field of a binary64 pattern.
pub const FRAC_MASK: u64 = 0x000F_FFFF_FFFF_FFFF;

/// A pattern is a NaN when its exponent field is all ones and its fraction
/// field is not zero.
pub open spec fn is_nan_bits(b: u64) -> bool {
    b & EXP_MASK == EXP_MASK && b & FRAC_MASK != 0
}

/// A pattern is an infinity when its exponent field is all ones and its
/// fraction field is zero.
pub open spec fn is_inf_bits(b: u64) -> bool {
    b & EXP_MASK == EXP_MASK && b & FRAC_MASK == 0
}

/// A pattern is a zero (of either sign) when everything but the sign bit is
/// zero.
pub open spec fn is_zero_bits(b: u64) -> bool {
    b & (EXP_MASK | FRAC_MASK) == 0
}

/// The sign bit, as the value's negativity.
pub open spec fn is_neg_bits(b: u64) -> bool {
    b & SIGN_MASK != 0
}

/// IEEE-754 equality on two binary64 patterns: a NaN equals nothing, the two
/// zeros are equal, and any other value is equal exactly to itself.
pub open spec fn num_eq(a: u64, b: u64) -> bool {
    if is_nan_bits(a) || is_nan_bits(b) {
        false
    } else if is_zero_bits(a) && is_zero_bits(b) {
        true
    } else {
        a == b
    }
}

/// IEEE-754 `<` on two binary64 patterns: false when a NaN is involved,
/// otherwise the sign-magnitude order of the patterns.
pub open spec fn num_lt(a: u64, b: u64) -> bool {
    if is_nan_bits(a) || is_nan_bits(b) {
        false
    } else if is_zero_bits(a) && is_zero_bits(b) {
        false
    } else if is_neg_bits(a) != is_neg_bits(b) {
        is_neg_bits(a)
    } else if !is_neg_bits(a) {
        a < b
    } else {
        a > b
    }
}

/// IEEE-754 `<=`: `<` or equal; false when a NaN is involved.
pub open spec fn num_le(a: u64, b: u64) -> bool {
    num_lt(a, b) || num_eq(a, b)
}

/// IEEE-754 negation flips the sign bit and changes nothing else.
pub open spec fn num_neg(b: u64) -> u64 {
    b ^ SIGN_MASK
}

pub fn eq_bits(a: u64, b: u64) -> (r: bool)
    ensures
        r == num_eq(a, b),
{
    let a_nan = a & EXP_MASK == EXP_MASK && a & FRAC_MASK != 0;
    let b_nan = b & EXP_MASK == EXP_MASK && b & FRAC_MASK != 0;
    if a_nan || b_nan {
        false
    } else if a & (EXP_MASK | FRAC_MASK) == 0 && b & (EXP_MASK | FRAC_MASK) == 0 {
        true
    } else {
        a == b
    }
}

pub fn lt_bits(a: u64, b: u64) -> (r: bool)
    ensures
        r == num_lt(a, b),
{
    let a_nan = a & EXP_MASK == EXP_MASK && a & FRAC_MASK != 0;
    let b_nan = b & EXP_MASK == EXP_MASK && b & FRAC_MASK != 0;
    if a_nan || b_nan {
        false
    } else if a & (EXP_MASK | FRAC_MASK) == 0 && b & (EXP_MASK | FRAC_MASK) == 0 {
        false
    } else if (a & SIGN_MASK != 0) != (b & SIGN_MASK != 0) {
        a & SIGN_MASK != 0
    } else if a & SIGN_MASK == 0 {
        a < b
    } else {
        a > b
    }
}

pub fn le_bits(a: u64, b: u64) -> (r: bool)
    ensures
        r == num_le(a, b),
{
    lt_bits(a, b) || eq_bits(a, b)
}

pub fn neg_bits(b: u64) -> (r: u64)
    ensures
        r == num_neg(b),
{
    b ^ SIGN_MASK
}

/// The pattern of the IEEE-754 sum of the two values, rounded to nearest
/// even.
pub uninterp spec fn add_bits(a: u64, b: u64) -> u64;

/// The pattern of the IEEE-754 difference of the two values.
pub uninterp spec fn sub_bits(a: u64, b: u64) -> u64;

/// The pattern of the IEEE-754 product of the two values.
pub uninterp spec fn mul_bits(a: u64, b: u64) -> u64;

/// The pattern of the IEEE-754 quotient of the two values; division by zero
/// yields an infinity or NaN per the float rules, never an error.
pub uninterp spec fn div_bits(a: u64, b: u64) -> u64;

/// Relies on `rustc_apfloat::ieee::Double::add_r` (through the `Add` operator
/// with round-to-nearest-even): binary64 addition on raw patterns.
#[verifier::external_body]
pub fn add_bits_exec(a: u64, b: u64) -> (r: u64)
    ensures
        r == add_bits(a, b),
{
    let x = Double::from_bits(a as u128);
    let y = Double::from_bits(b as u128);
    (x + y).value.to_bits() as u64
}

/// Relies on `rustc_apfloat::ieee::Double::sub_r` (through the `Sub` operator
/// with round-to-nearest-even): binary64 subtraction on raw patterns.
#[verifier::external_body]
pub fn sub_bits_exec(a: u64, b: u64) -> (r: u64)
    ensures
        r == sub_bits(a, b),
{
    let x = Double::from_bits(a as u128);
    let y = Double::from_bits(b as u128);
    (x - y).value.to_bits() as u64
}

/// Relies on `rustc_apfloat::ieee::Double::mul_r` (through the `Mul` operator
/// with round-to-nearest-even): binary64 multiplication on raw patterns.
#[verifier::external_body]
pub fn mul_bits_exec(a: u64, b: u64) -> (r: u64)
    ensures
        r == mul_bits(a, b),
{
    let x = Double::from_bits(a as u128);
    let y = Double::from_bits(b as u128);
    (x * y).value.to_bits() as u64
}

/// Relies on `rustc_apfloat::ieee::Double::div_r` (through the `Div` operator
/// with round-to-nearest-even): binary64 division on raw patterns.
#[verifier::external_body]
pub fn div_bits_exec(a: u64, b: u64) -> (r: u64)
    ensures
        r == div_bits(a, b),
{
    let x = Double::from_bits(a as u128);
    let y = Double::from_bits(b as u128);
    (x / y).value.to_bits() as u64
}

/// The character of a single decimal digit.
pub open spec fn digit_char(d: nat) -> char {
    (('0' as u8) + (d as u8)) as char
}

/// Whether a character is an ASCII decimal digit.
pub open spec fn is_digit_char(c: char) -> bool {
    '0' <= c && c <= '9'
}

/// The shape of a numeric literal as the language's grammar produces it:
/// one or more digits, optionally followed by a point and one or more
/// digits.
pub open spec fn is_decimal_literal(s: Seq<char>) -> bool {
    if exists|i: int| 0 <= i < s.len() && s[i] == '.' {
        let i = choose|i: int| 0 <= i < s.len() && s[i] == '.';
        &&& 1 <= i < s.len() - 1
        &&& forall|j: int| 0 <= j < s.len() && j != i ==> is_digit_char(s[j])
    } else {
        s.len() >= 1 && forall|j: int| 0 <= j < s.len() ==> is_digit_char(s[j])
    }
}

/// The pattern of the binary64 value nearest to the decimal literal, rounded
/// to nearest even.
pub uninterp spec fn bits_of_decimal(s: Seq<char>) -> u64;

/// Relies on `rustc_apfloat::ieee::Double::from_str` (via `from_str_r` with
/// round-to-nearest-even): correctly rounded conversion of a decimal literal
/// to binary64. A string of digits with at most one interior point always
/// parses; any other input yields `None` here.
#[verifier::external_body]
pub fn bits_from_decimal(s: &str) -> (r: Option<u64>)
    ensures
        is_decimal_literal(s@) ==> r == Some(bits_of_decimal(s@)),
{
    match s.parse::<Double>() {
        Ok(d) => Some(d.to_bits() as u64),
        Err(_) => None,
    }
}

/// The decimal rendering that `rustc_apfloat`'s `Display` gives a finite,
/// non-integral binary64 value: up to seventeen significant digits,
/// scientific notation for extreme magnitudes. This can differ from the
/// shortest round-tripping form (`0.1` renders with a seventeen-digit
/// tail).
pub uninterp spec fn text_of_bits(b: u64) -> Seq<char>;

/// Relies on the `Display` implementation of `rustc_apfloat::ieee::Double`:
/// a decimal rendering whose digits depend on the pattern alone.
#[verifier::external_body]
pub fn bits_to_text(b: u64) -> (r: String)
    ensures
        r@ == text_of_bits(b),
{
    let d = Double::from_bits(b as u128);
    format!("{}", d)
}


/// The biased exponent field of a pattern.
pub open spec fn biased_exp(b: u64) -> u64 {
    (b >> 52) & 0x7FF
}

/// A mask of the low `k` bits, for `k <= 52`.
pub open spec fn low_mask(k: u64) -> u64 {
    ((1u64 << k) - 1) as u64
}

/// Whether the pattern denotes an integer of magnitude below 2^53: its
/// fraction bits under the binary point are all zero. Zeros of either sign
/// qualify; NaNs, infinities and subnormals do not.
pub open spec fn is_small_integral(b: u64) -> bool {
    if is_nan_bits(b) || is_inf_bits(b) {
        false
    } else if biased_exp(b) == 0 {
        b & FRAC_MASK == 0
    } else {
        1023 <= biased_exp(b) <= 1075 && (b & FRAC_MASK) & low_mask(
            (1075 - biased_exp(b)) as u64,
        ) == 0
    }
}

/// The magnitude of a small integral pattern: the significand with its
/// implicit leading bit, shifted down by the number of fraction places.
pub open spec fn int_val(b: u64) -> nat {
    if biased_exp(b) == 0 {
        0
    } else {
        ((0x0010_0000_0000_0000u64 | (b & FRAC_MASK)) >> ((1075 - biased_exp(b)) as u64)) as nat
    }
}

/// The decimal digits of a natural number, most significant first.
pub open spec fn dec_digits(n: nat) -> Seq<char>
    decreases n,
{
    if n < 10 {
        seq![digit_char(n)]
    } else {
        dec_digits(n / 10).push(digit_char(n % 10))
    }
}

/// The canonical rendering of a binary64 pattern: `NaN`, `inf` and `-inf`
/// for the special values, plain decimal digits (no point, no exponent) for
/// integers of magnitude below 2^53, and the `rustc_apfloat` decimal form
/// (`text_of_bits`) for everything else — which, unlike the shortest
/// round-tripping decimal, may carry up to seventeen significant digits or
/// an exponent.
pub open spec fn num_text(b: u64) -> Seq<char> {
    if is_nan_bits(b) {
        "NaN"@
    } else if is_inf_bits(b) {
        if is_neg_bits(b) {
            "-inf"@
        } else {
            "inf"@
        }
    } else if is_small_integral(b) {
        if is_neg_bits(b) {
            seq!['-'] + dec_digits(int_val(b))
        } else {
            dec_digits(int_val(b))
        }
    } else {
        text_of_bits(b)
    }
}

/// A one-character string holding a single decimal digit.
fn digit_string(d: u64) -> (r: String)
    requires
        d < 10,
    ensures
        r@ =~= seq![digit_char(d as nat)],
{
    let r: &str = if d == 0 {
        "0"
    } else if d == 1 {
        "1"
    } else if d == 2 {
        "2"
    } else if d == 3 {
        "3"
    } else if d == 4 {
        "4"
    } else if d == 5 {
        "5"
    } else if d == 6 {
        "6"
    } else if d == 7 {
        "7"
    } else if d == 8 {
        "8"
    } else {
        "9"
    };
    proof {
        reveal_strlit("0");
        reveal_strlit("1");
        reveal_strlit("2");
        reveal_strlit("3");
        reveal_strlit("4");
        reveal_strlit("5");
        reveal_strlit("6");
        reveal_strlit("7");
        reveal_strlit("8");
        reveal_strlit("9");
    }
    r.to_owned()
}

/// The decimal rendering of a natural number.
pub fn u64_to_dec_string(n: u64) -> (r: String)
    ensures
        r@ == dec_digits(n as nat),
    decreases n,
{
    if n < 10 {
        let s = digit_string(n);
        proof {
            assert(s@ =~= dec_digits(n as nat));
        }
        s
    } else {
        let mut s = u64_to_dec_string(n / 10);
        let d = digit_string(n % 10);
        s.append(d.as_str());
        proof {
            assert(s@ =~= dec_digits(n as nat));
        }
        s
    }
}

fn is_small_integral_exec(b: u64) -> (r: bool)
    ensures
        r == is_small_integral(b),
{
    let e = (b >> 52) & 0x7FF;
    proof {
        assert(((b >> 52) & 0x7FF == 0x7FF) == (b & 0x7FF0_0000_0000_0000u64
            == 0x7FF0_0000_0000_0000u64)) by (bit_vector);
    }
    if e == 0x7FF {
        false
    } else if e == 0 {
        b & FRAC_MASK == 0
    } else if 1023 <= e && e <= 1075 {
        let sh = 1075 - e;
        proof {
            assert(1u64 << sh >= 1) by (bit_vector)
                requires
                    sh <= 52,
            ;
        }
        (b & FRAC_MASK) & ((1u64 << sh) - 1) == 0
    } else {
        false
    }
}

fn int_val_exec(b: u64) -> (r: u64)
    requires
        is_small_integral(b),
    ensures
        r as nat == int_val(b),
{
    let e = (b >> 52) & 0x7FF;
    proof {
        assert(((b >> 52) & 0x7FF == 0x7FF) == (b & 0x7FF0_0000_0000_0000u64
            == 0x7FF0_0000_0000_0000u64)) by (bit_vector);
    }
    if e == 0 {
        0
    } else {
        (0x0010_0000_0000_0000u64 | (b & FRAC_MASK)) >> (1075 - e)
    }
}

/// The canonical rendering of a number value, as `num_text` describes it.
pub fn num_to_text(b: u64) -> (r: String)
    ensures
        r@ == num_text(b),
{
    let e = b & EXP_MASK == EXP_MASK;
    let frac_zero = b & FRAC_MASK == 0;
    if e && !frac_zero {
        "NaN".to_owned()
    } else if e && frac_zero {
        if b & SIGN_MASK != 0 {
            "-inf".to_owned()
        } else {
            "inf".to_owned()
        }
    } else if is_small_integral_exec(b) {
        let digits = u64_to_dec_string(int_val_exec(b));
        if b & SIGN_MASK != 0 {
            let mut s = "-".to_owned();
            s.append(digits.as_str());
            proof {
                reveal_strlit("-");
                assert(s@ =~= num_text(b));
            }
            s
        } else {
            digits
        }
    } else {
        bits_to_text(b)
    }
}

} // verus!
