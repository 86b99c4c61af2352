//! IEEE-754 binary64 values carried as 64-bit patterns.
//!
//! The numeric tower stores a floating-point value as the `u64` bit pattern
//! of an IEEE-754 double. Classification and comparison are defined here
//! directly over the bits and verified; rounding arithmetic, conversion
//! from integers and decimal rendering are delegated to `rustc_apfloat`,
//! whose results are deterministic functions of the operand bit patterns
//! and are therefore given names that the wrappers' contracts apply.

use rustc_apfloat::ieee::Double;
use rustc_apfloat::Float;
use vstd::prelude::*;

verus! {

/// Sign bit of an IEEE-754 double.
pub const F64_SIGN_MASK: u64 = 0x8000_0000_0000_0000;

/// All bits but the sign: exponent and fraction.
pub const F64_MAG_MASK: u64 = 0x7FFF_FFFF_FFFF_FFFF;

/// Exponent field of an IEEE-754 double.
pub const F64_EXP_MASK: u64 = 0x7FF0_0000_0000_0000;

/// Fraction field of an IEEE-754 double.
pub const F64_FRAC_MASK: u64 = 0x000F_FFFF_FFFF_FFFF;

/// The pattern is a NaN: exponent all ones and a nonzero fraction.
pub open spec fn f64_is_nan(b: u64) -> bool {
    b & F64_EXP_MASK == F64_EXP_MASK && b & F64_FRAC_MASK != 0
}

/// The pattern is a zero (positive or negative).
pub open spec fn f64_is_zero(b: u64) -> bool {
    b & F64_MAG_MASK == 0
}

/// The pattern's sign bit is set.
pub open spec fn f64_is_neg(b: u64) -> bool {
    b & F64_SIGN_MASK != 0
}

/// IEEE-754 equality on bit patterns: NaN compares equal to nothing,
/// the two zeroes compare equal to each other, and any other value
/// is equal exactly to its own pattern.
pub open spec fn f64_eq(a: u64, b: u64) -> bool {
    &&& !f64_is_nan(a)
    &&& !f64_is_nan(b)
    &&& (a == b || (f64_is_zero(a) && f64_is_zero(b)))
}

/// IEEE-754 strict less-than on bit patterns: false whenever either
/// operand is NaN or the operands are equal; otherwise sign-magnitude
/// order, with positive patterns ordered by their bits and negative
/// patterns in reverse.
pub open spec fn f64_lt(a: u64, b: u64) -> bool {
    &&& !f64_is_nan(a)
    &&& !f64_is_nan(b)
    &&& !(f64_is_zero(a) && f64_is_zero(b))
    &&& if f64_is_neg(a) != f64_is_neg(b) {
        f64_is_neg(a)
    } else if !f64_is_neg(a) {
        a < b
    } else {
        a > b
    }
}

/// IEEE-754 less-than-or-equal on bit patterns.
pub open spec fn f64_le(a: u64, b: u64) -> bool {
    f64_lt(a, b) || f64_eq(a, b)
}

/// IEEE-754 negation: the sign bit flips, on every pattern.
pub open spec fn f64_neg(b: u64) -> u64 {
    b ^ F64_SIGN_MASK
}

pub(crate) fn is_zero_bits(b: u64) -> (r: bool)
    ensures
        r == f64_is_zero(b),
{
    b & F64_MAG_MASK == 0
}

pub(crate) fn is_nan_bits(b: u64) -> (r: bool)
    ensures
        r == f64_is_nan(b),
{
    b & F64_EXP_MASK == F64_EXP_MASK && b & F64_FRAC_MASK != 0
}

pub(crate) fn eq_bits(a: u64, b: u64) -> (r: bool)
    ensures
        r == f64_eq(a, b),
{
    !is_nan_bits(a) && !is_nan_bits(b) && (a == b || (is_zero_bits(a) && is_zero_bits(b)))
}

pub(crate) fn lt_bits(a: u64, b: u64) -> (r: bool)
    ensures
        r == f64_lt(a, b),
{
    if is_nan_bits(a) || is_nan_bits(b) {
        false
    } else if is_zero_bits(a) && is_zero_bits(b) {
        false
    } else {
        let na = a & F64_SIGN_MASK != 0;
        let nb = b & F64_SIGN_MASK != 0;
        if na != nb {
            na
        } else if !na {
            a < b
        } else {
            a > b
        }
    }
}

pub(crate) fn le_bits(a: u64, b: u64) -> (r: bool)
    ensures
        r == f64_le(a, b),
{
    lt_bits(a, b) || eq_bits(a, b)
}

pub(crate) fn neg_bits(b: u64) -> (r: u64)
    ensures
        r == f64_neg(b),
{
    b ^ F64_SIGN_MASK
}

/// The IEEE-754 sum of two binary64 patterns, rounded to nearest even.
pub uninterp spec fn f64_add_bits(a: u64, b: u64) -> u64;

/// The IEEE-754 difference of two binary64 patterns, rounded to nearest even.
pub uninterp spec fn f64_sub_bits(a: u64, b: u64) -> u64;

/// The IEEE-754 product of two binary64 patterns, rounded to nearest even.
pub uninterp spec fn f64_mul_bits(a: u64, b: u64) -> u64;

/// The IEEE-754 quotient of two binary64 patterns, rounded to nearest even.
pub uninterp spec fn f64_div_bits(a: u64, b: u64) -> u64;

/// The C `fmod` remainder of two binary64 patterns.
pub uninterp spec fn f64_rem_bits(a: u64, b: u64) -> u64;

/// The binary64 pattern nearest to the given integer, ties to even.
pub uninterp spec fn f64_of_i64(i: i64) -> u64;

/// The decimal rendering of a binary64 pattern.
pub uninterp spec fn f64_str_bits(b: u64) -> Seq<char>;

/// Relies on rustc_apfloat's binary64 addition (`Double::add_r`, round to
/// nearest even): the result depends on the operand bit patterns alone.
#[verifier::external_body]
pub(crate) fn add_bits(a: u64, b: u64) -> (r: u64)
    ensures
        r == f64_add_bits(a, b),
{
    (Double::from_bits(a as u128) + Double::from_bits(b as u128)).value.to_bits() as u64
}

/// Relies on rustc_apfloat's binary64 subtraction (`Double::sub_r`, round to
/// nearest even): the result depends on the operand bit patterns alone.
#[verifier::external_body]
pub(crate) fn sub_bits(a: u64, b: u64) -> (r: u64)
    ensures
        r == f64_sub_bits(a, b),
{
    (Double::from_bits(a as u128) - Double::from_bits(b as u128)).value.to_bits() as u64
}

/// Relies on rustc_apfloat's binary64 multiplication (`Double::mul_r`, round
/// to nearest even): the result depends on the operand bit patterns alone.
#[verifier::external_body]
pub(crate) fn mul_bits(a: u64, b: u64) -> (r: u64)
    ensures
        r == f64_mul_bits(a, b),
{
    (Double::from_bits(a as u128) * Double::from_bits(b as u128)).value.to_bits() as u64
}

/// Relies on rustc_apfloat's binary64 division (`Double::div_r`, round to
/// nearest even): the result depends on the operand bit patterns alone.
#[verifier::external_body]
pub(crate) fn div_bits(a: u64, b: u64) -> (r: u64)
    ensures
        r == f64_div_bits(a, b),
{
    (Double::from_bits(a as u128) / Double::from_bits(b as u128)).value.to_bits() as u64
}

/// Relies on rustc_apfloat's binary64 remainder (`Double::c_fmod`): the
/// result depends on the operand bit patterns alone.
#[verifier::external_body]
pub(crate) fn rem_bits(a: u64, b: u64) -> (r: u64)
    ensures
        r == f64_rem_bits(a, b),
{
    (Double::from_bits(a as u128) % Double::from_bits(b as u128)).value.to_bits() as u64
}

/// Relies on rustc_apfloat's integer conversion (`Double::from_i128`, round
/// to nearest even): the result depends on the integer alone.
#[verifier::external_body]
pub(crate) fn of_i64(i: i64) -> (r: u64)
    ensures
        r == f64_of_i64(i),
{
    Double::from_i128(i as i128).value.to_bits() as u64
}

/// Relies on rustc_apfloat's decimal rendering (`Double`'s `Display`): the
/// text depends on the bit pattern alone.
#[verifier::external_body]
pub(crate) fn str_bits(b: u64) -> (r: String)
    ensures
        r@ == f64_str_bits(b),
{
    format!("{}", Double::from_bits(b as u128))
}

} // verus!
