//! IEEE-754 double precision numbers, held as their 64-bit patterns.
//!
//! Arithmetic and conversions are done in software by `rustc_apfloat`, so
//! that a result depends on the operands alone. Comparisons are decided on
//! the bit patterns directly.

use rustc_apfloat::ieee::Double;
use rustc_apfloat::Float;
use vstd::prelude::*;

verus! {

/// The double nearest to the sum of two doubles (ties to even).
pub uninterp spec fn real_sum(a: u64, b: u64) -> u64;

/// The double nearest to the difference of two doubles (ties to even).
pub uninterp spec fn real_difference(a: u64, b: u64) -> u64;

/// The double nearest to the product of two doubles (ties to even).
pub uninterp spec fn real_product(a: u64, b: u64) -> u64;

/// The double nearest to the quotient of two doubles (ties to even).
pub uninterp spec fn real_quotient(a: u64, b: u64) -> u64;

/// The double nearest to an integer (ties to even).
pub uninterp spec fn real_from_int(i: i64) -> u64;

/// The double nearest to the number that an unsigned decimal text denotes,
/// where the text denotes one.
pub uninterp spec fn real_from_text(t: Seq<char>) -> Option<u64>;

/// `Double::add` of `rustc_apfloat`, on the operands' bit patterns: the
/// result is the pattern of the rounded sum and depends on nothing else.
#[verifier::external_body]
pub(crate) fn sum_bits(a: u64, b: u64) -> (r: u64)
    ensures
        r == real_sum(a, b),
{
    (Double::from_bits(a as u128) + Double::from_bits(b as u128)).value.to_bits() as u64
}

/// `Double::sub` of `rustc_apfloat`, on the operands' bit patterns.
#[verifier::external_body]
pub(crate) fn difference_bits(a: u64, b: u64) -> (r: u64)
    ensures
        r == real_difference(a, b),
{
    (Double::from_bits(a as u128) - Double::from_bits(b as u128)).value.to_bits() as u64
}

/// `Double::mul` of `rustc_apfloat`, on the operands' bit patterns.
#[verifier::external_body]
pub(crate) fn product_bits(a: u64, b: u64) -> (r: u64)
    ensures
        r == real_product(a, b),
{
    (Double::from_bits(a as u128) * Double::from_bits(b as u128)).value.to_bits() as u64
}

/// `Double::div` of `rustc_apfloat`, on the operands' bit patterns. A zero
/// divisor is no error: the quotient is then an infinity or a NaN.
#[verifier::external_body]
pub(crate) fn quotient_bits(a: u64, b: u64) -> (r: u64)
    ensures
        r == real_quotient(a, b),
{
    (Double::from_bits(a as u128) / Double::from_bits(b as u128)).value.to_bits() as u64
}

/// `Double::from_i128` of `rustc_apfloat`: the pattern of the double
/// nearest to the integer.
#[verifier::external_body]
pub(crate) fn int_bits(i: i64) -> (r: u64)
    ensures
        r == real_from_int(i),
{
    Double::from_i128(i as i128).value.to_bits() as u64
}

/// What `text_bits` accepts: decimal digits with exactly one point among
/// them and at least one digit.
pub open spec fn is_decimal_text(t: Seq<char>) -> bool {
    &&& exists|i: int| 0 <= i < t.len() && t[i] == '.'
    &&& exists|i: int| 0 <= i < t.len() && is_digit(t[i])
    &&& forall|i: int| 0 <= i < t.len() ==> is_digit(#[trigger] t[i]) || t[i] == '.'
    &&& forall|i: int, j: int| 0 <= i < j < t.len() ==> !(t[i] == '.' && t[j] == '.')
}

/// One of the ten decimal digits.
pub open spec fn is_digit(c: char) -> bool {
    '0' <= c <= '9'
}

/// `Double::from_str` of `rustc_apfloat` on a decimal text: where it reads
/// a number, the pattern of the double nearest to it.
#[verifier::external_body]
pub(crate) fn text_bits(text: &str) -> (r: Option<u64>)
    requires
        is_decimal_text(text@),
    ensures
        r == real_from_text(text@),
{
    match text.parse::<Double>() {
        Ok(d) => Some(d.to_bits() as u64),
        Err(_) => None,
    }
}

/// All bits but the sign.
pub const MAGNITUDE: u64 = 0x7fff_ffff_ffff_ffff;

/// The magnitude of positive infinity; every larger magnitude is a NaN.
pub const INFINITY: u64 = 0x7ff0_0000_0000_0000;

/// The sign bit alone.
pub const SIGN: u64 = 0x8000_0000_0000_0000;

/// The pattern is not a number.
pub open spec fn is_nan(a: u64) -> bool {
    (a & MAGNITUDE) > INFINITY
}

/// Where a pattern that is a number stands on the number line: patterns
/// with a smaller rank denote smaller numbers, and both zeros share rank 0.
pub open spec fn rank(a: u64) -> int {
    if a & SIGN == 0 {
        (a & MAGNITUDE) as int
    } else {
        -((a & MAGNITUDE) as int)
    }
}

/// IEEE equality: both are numbers and denote the same one.
pub open spec fn real_eq(a: u64, b: u64) -> bool {
    !is_nan(a) && !is_nan(b) && rank(a) == rank(b)
}

/// IEEE order: both are numbers and the first is the smaller.
pub open spec fn real_lt(a: u64, b: u64) -> bool {
    !is_nan(a) && !is_nan(b) && rank(a) < rank(b)
}

/// The same number with the opposite sign.
pub open spec fn real_neg(a: u64) -> u64 {
    a ^ SIGN
}

/// Whether the pattern is not a number.
pub fn nan(a: u64) -> (r: bool)
    ensures
        r == is_nan(a),
{
    (a & MAGNITUDE) > INFINITY
}

fn rank_of(a: u64) -> (r: i128)
    ensures
        r == rank(a),
{
    let m: u64 = a & MAGNITUDE;
    if a & SIGN == 0 {
        m as i128
    } else {
        -(m as i128)
    }
}

/// IEEE equality of two doubles.
pub fn eq(a: u64, b: u64) -> (r: bool)
    ensures
        r == real_eq(a, b),
{
    !nan(a) && !nan(b) && rank_of(a) == rank_of(b)
}

/// IEEE order of two doubles.
pub fn lt(a: u64, b: u64) -> (r: bool)
    ensures
        r == real_lt(a, b),
{
    !nan(a) && !nan(b) && rank_of(a) < rank_of(b)
}

/// The same number with the opposite sign.
pub fn neg(a: u64) -> (r: u64)
    ensures
        r == real_neg(a),
{
    a ^ SIGN
}

} // verus!
