//! The numeric tower: exact machine integers and IEEE-754 doubles.
//!
//! Mixed integer/float operations promote the integer operand to a float;
//! true division always produces a float; bitwise operations are defined
//! on integer pairs only. Integer pairs are computed exactly, float
//! operands through the bit-pattern operations of [`crate::float`].

use core::cmp::Ordering;
use vstd::arithmetic::power::pow;
use vstd::prelude::*;

use crate::float;
use crate::float::f64_add_bits;
use crate::float::f64_div_bits;
use crate::float::f64_eq;
use crate::float::f64_is_zero;
use crate::float::f64_le;
use crate::float::f64_lt;
use crate::float::f64_mul_bits;
use crate::float::f64_neg;
use crate::float::f64_of_i64;
use crate::float::f64_rem_bits;
use crate::float::f64_sub_bits;

verus! {

/// A value of the numeric tower: an exact machine integer, or an IEEE-754
/// double-precision floating-point value carried as its 64-bit pattern.
#[derive(Clone, Copy, PartialEq, Eq, Structural, Debug)]
pub enum NumericType {
    Integer(i64),
    Float(u64),
}

/// The float pattern a tower value stands for when promoted.
pub open spec fn to_f64(n: NumericType) -> u64 {
    match n {
        NumericType::Integer(i) => f64_of_i64(i),
        NumericType::Float(b) => b,
    }
}

/// Both operands are integers.
pub open spec fn both_int(a: NumericType, b: NumericType) -> bool {
    a is Integer && b is Integer
}

/// The truncated remainder: magnitude of `|x| % |y|`, sign of the dividend.
pub open spec fn trunc_rem(x: int, y: int) -> int {
    let m = (if x < 0 {
        -x
    } else {
        x
    }) % (if y < 0 {
        -y
    } else {
        y
    });
    if x < 0 {
        -m
    } else {
        m
    }
}

/// Tower addition.
pub open spec fn num_add(a: NumericType, b: NumericType) -> NumericType {
    match (a, b) {
        (NumericType::Integer(x), NumericType::Integer(y)) => NumericType::Integer(
            (x + y) as i64,
        ),
        _ => NumericType::Float(f64_add_bits(to_f64(a), to_f64(b))),
    }
}

/// Tower subtraction.
pub open spec fn num_sub(a: NumericType, b: NumericType) -> NumericType {
    match (a, b) {
        (NumericType::Integer(x), NumericType::Integer(y)) => NumericType::Integer(
            (x - y) as i64,
        ),
        _ => NumericType::Float(f64_sub_bits(to_f64(a), to_f64(b))),
    }
}

/// Tower multiplication.
pub open spec fn num_mul(a: NumericType, b: NumericType) -> NumericType {
    match (a, b) {
        (NumericType::Integer(x), NumericType::Integer(y)) => NumericType::Integer(
            (x * y) as i64,
        ),
        _ => NumericType::Float(f64_mul_bits(to_f64(a), to_f64(b))),
    }
}

/// Tower true division: always a float, as the source language's `/`.
pub open spec fn num_div(a: NumericType, b: NumericType) -> NumericType {
    NumericType::Float(f64_div_bits(to_f64(a), to_f64(b)))
}

/// Tower remainder: truncated remainder on integer pairs, `fmod` otherwise.
pub open spec fn num_rem(a: NumericType, b: NumericType) -> NumericType {
    match (a, b) {
        (NumericType::Integer(x), NumericType::Integer(y)) => NumericType::Integer(
            trunc_rem(x as int, y as int) as i64,
        ),
        _ => NumericType::Float(f64_rem_bits(to_f64(a), to_f64(b))),
    }
}

/// Tower negation.
pub open spec fn num_neg(a: NumericType) -> NumericType {
    match a {
        NumericType::Integer(x) => NumericType::Integer((-x) as i64),
        NumericType::Float(b) => NumericType::Float(f64_neg(b)),
    }
}

/// Tower exponentiation on integers.
pub open spec fn num_pow(a: NumericType, b: NumericType) -> NumericType {
    match (a, b) {
        (NumericType::Integer(x), NumericType::Integer(y)) => NumericType::Integer(
            pow(x as int, y as nat) as i64,
        ),
        _ => a,
    }
}

/// Tower equality: exact on integer pairs, IEEE-754 equality after
/// promotion when a float is involved.
pub open spec fn num_eq(a: NumericType, b: NumericType) -> bool {
    match (a, b) {
        (NumericType::Integer(x), NumericType::Integer(y)) => x == y,
        _ => f64_eq(to_f64(a), to_f64(b)),
    }
}

/// Tower strict order: exact on integer pairs, IEEE-754 order after
/// promotion when a float is involved (false on NaN).
pub open spec fn num_lt(a: NumericType, b: NumericType) -> bool {
    match (a, b) {
        (NumericType::Integer(x), NumericType::Integer(y)) => x < y,
        _ => f64_lt(to_f64(a), to_f64(b)),
    }
}

/// Tower non-strict order.
pub open spec fn num_le(a: NumericType, b: NumericType) -> bool {
    match (a, b) {
        (NumericType::Integer(x), NumericType::Integer(y)) => x <= y,
        _ => f64_le(to_f64(a), to_f64(b)),
    }
}

/// Tower boolean coercion: nonzero is true; NaN is nonzero.
pub open spec fn num_truthy(a: NumericType) -> bool {
    match a {
        NumericType::Integer(x) => x != 0,
        NumericType::Float(b) => !f64_is_zero(b),
    }
}

/// Integer addition stays in range; float operations never fail.
pub open spec fn num_add_ok(a: NumericType, b: NumericType) -> bool {
    match (a, b) {
        (NumericType::Integer(x), NumericType::Integer(y)) => i64::MIN <= x + y <= i64::MAX,
        _ => true,
    }
}

/// Integer subtraction stays in range; float operations never fail.
pub open spec fn num_sub_ok(a: NumericType, b: NumericType) -> bool {
    match (a, b) {
        (NumericType::Integer(x), NumericType::Integer(y)) => i64::MIN <= x - y <= i64::MAX,
        _ => true,
    }
}

/// Integer multiplication stays in range; float operations never fail.
pub open spec fn num_mul_ok(a: NumericType, b: NumericType) -> bool {
    match (a, b) {
        (NumericType::Integer(x), NumericType::Integer(y)) => i64::MIN <= x * y <= i64::MAX,
        _ => true,
    }
}

/// An integer divisor must be nonzero; float remainders never fail.
pub open spec fn num_rem_ok(a: NumericType, b: NumericType) -> bool {
    match (a, b) {
        (NumericType::Integer(x), NumericType::Integer(y)) => y != 0,
        _ => true,
    }
}

/// Negating the smallest integer would overflow; floats never fail.
pub open spec fn num_neg_ok(a: NumericType) -> bool {
    match a {
        NumericType::Integer(x) => x != i64::MIN,
        NumericType::Float(b) => true,
    }
}

/// Exponentiation is defined on an integer base with a non-negative
/// integer exponent whose exact power stays in range.
pub open spec fn num_pow_ok(a: NumericType, b: NumericType) -> bool {
    match (a, b) {
        (NumericType::Integer(x), NumericType::Integer(y)) => y >= 0 && i64::MIN <= pow(
            x as int,
            y as nat,
        ) <= i64::MAX,
        _ => false,
    }
}

/// Both operands are integers: bitwise operations accept nothing else.
pub open spec fn num_bits_ok(a: NumericType, b: NumericType) -> bool {
    both_int(a, b)
}

/// A shift needs integer operands and a shift amount within the word.
pub open spec fn num_shift_ok(a: NumericType, b: NumericType) -> bool {
    match (a, b) {
        (NumericType::Integer(x), NumericType::Integer(y)) => 0 <= y < 64,
        _ => false,
    }
}

/// Tower bitwise and, on integers.
pub open spec fn num_band(a: NumericType, b: NumericType) -> NumericType {
    match (a, b) {
        (NumericType::Integer(x), NumericType::Integer(y)) => NumericType::Integer(x & y),
        _ => a,
    }
}

/// Tower bitwise or, on integers.
pub open spec fn num_bor(a: NumericType, b: NumericType) -> NumericType {
    match (a, b) {
        (NumericType::Integer(x), NumericType::Integer(y)) => NumericType::Integer(x | y),
        _ => a,
    }
}

/// Tower bitwise xor, on integers.
pub open spec fn num_bxor(a: NumericType, b: NumericType) -> NumericType {
    match (a, b) {
        (NumericType::Integer(x), NumericType::Integer(y)) => NumericType::Integer(x ^ y),
        _ => a,
    }
}

/// Tower left shift, on integers.
pub open spec fn num_shl(a: NumericType, b: NumericType) -> NumericType {
    match (a, b) {
        (NumericType::Integer(x), NumericType::Integer(y)) => NumericType::Integer(x << y),
        _ => a,
    }
}

/// Tower right shift (arithmetic), on integers.
pub open spec fn num_shr(a: NumericType, b: NumericType) -> NumericType {
    match (a, b) {
        (NumericType::Integer(x), NumericType::Integer(y)) => NumericType::Integer(x >> y),
        _ => a,
    }
}

/// Tower bitwise complement, on integers.
pub open spec fn num_not(a: NumericType) -> NumericType {
    match a {
        NumericType::Integer(x) => NumericType::Integer(!x),
        _ => a,
    }
}

impl NumericType {
    /// The promoted bit pattern of this value.
    pub(crate) fn to_f64_bits(&self) -> (r: u64)
        ensures
            r == to_f64(*self),
    {
        match self {
            NumericType::Integer(i) => float::of_i64(*i),
            NumericType::Float(b) => *b,
        }
    }

    /// Boolean coercion by the nonzero rule.
    pub fn to_bool(&self) -> (r: bool)
        ensures
            r == num_truthy(*self),
    {
        match self {
            NumericType::Integer(i) => *i != 0,
            NumericType::Float(b) => !float::is_zero_bits(*b),
        }
    }

    pub fn add(&self, other: &NumericType) -> (r: NumericType)
        requires
            num_add_ok(*self, *other),
        ensures
            r == num_add(*self, *other),
    {
        match (self, other) {
            (NumericType::Integer(x), NumericType::Integer(y)) => NumericType::Integer(*x + *y),
            _ => NumericType::Float(float::add_bits(self.to_f64_bits(), other.to_f64_bits())),
        }
    }

    pub fn sub(&self, other: &NumericType) -> (r: NumericType)
        requires
            num_sub_ok(*self, *other),
        ensures
            r == num_sub(*self, *other),
    {
        match (self, other) {
            (NumericType::Integer(x), NumericType::Integer(y)) => NumericType::Integer(*x - *y),
            _ => NumericType::Float(float::sub_bits(self.to_f64_bits(), other.to_f64_bits())),
        }
    }

    pub fn mul(&self, other: &NumericType) -> (r: NumericType)
        requires
            num_mul_ok(*self, *other),
        ensures
            r == num_mul(*self, *other),
    {
        match (self, other) {
            (NumericType::Integer(x), NumericType::Integer(y)) => NumericType::Integer(*x * *y),
            _ => NumericType::Float(float::mul_bits(self.to_f64_bits(), other.to_f64_bits())),
        }
    }

    /// True division: the result is always a float.
    pub fn div(&self, other: &NumericType) -> (r: NumericType)
        ensures
            r == num_div(*self, *other),
    {
        NumericType::Float(float::div_bits(self.to_f64_bits(), other.to_f64_bits()))
    }

    pub fn rem(&self, other: &NumericType) -> (r: NumericType)
        requires
            num_rem_ok(*self, *other),
        ensures
            r == num_rem(*self, *other),
    {
        match (self, other) {
            (NumericType::Integer(x), NumericType::Integer(y)) => {
                let ux: u64 = if *x >= 0 {
                    *x as u64
                } else {
                    (-(*x as i128)) as u64
                };
                let uy: u64 = if *y >= 0 {
                    *y as u64
                } else {
                    (-(*y as i128)) as u64
                };
                let m = ux % uy;
                if *x < 0 {
                    NumericType::Integer(-(m as i64))
                } else {
                    NumericType::Integer(m as i64)
                }
            },
            _ => NumericType::Float(float::rem_bits(self.to_f64_bits(), other.to_f64_bits())),
        }
    }

    pub fn neg(&self) -> (r: NumericType)
        requires
            num_neg_ok(*self),
        ensures
            r == num_neg(*self),
    {
        match self {
            NumericType::Integer(x) => NumericType::Integer(-*x),
            NumericType::Float(b) => NumericType::Float(float::neg_bits(*b)),
        }
    }

    /// Exponentiation: exact integer power.
    pub fn pow(&self, other: &NumericType) -> (r: NumericType)
        requires
            num_pow_ok(*self, *other),
        ensures
            r == num_pow(*self, *other),
    {
        match (self, other) {
            (NumericType::Integer(x), NumericType::Integer(y)) => {
                let mut acc: i128 = 1;
                let mut k: i64 = 0;
                proof {
                    vstd::arithmetic::power::lemma_pow0(*x as int);
                }
                while k < *y
                    invariant
                        0 <= k <= *y,
                        num_pow_ok(*self, *other),
                        self == NumericType::Integer(*x),
                        other == NumericType::Integer(*y),
                        acc == pow(*x as int, k as nat),
                    decreases *y - k,
                {
                    proof {
                        lemma_pow_step_in_range(*x as int, k as nat, *y as nat);
                    }
                    acc = acc * (*x as i128);
                    k = k + 1;
                }
                NumericType::Integer(acc as i64)
            },
            _ => {
                // excluded by the precondition
                proof {
                    assert(false);
                }
                *self
            },
        }
    }

    /// Bitwise and, integers only.
    pub fn band(&self, other: &NumericType) -> (r: NumericType)
        requires
            num_bits_ok(*self, *other),
        ensures
            r == num_band(*self, *other),
    {
        match (self, other) {
            (NumericType::Integer(x), NumericType::Integer(y)) => NumericType::Integer(*x & *y),
            _ => *self,
        }
    }

    /// Bitwise or, integers only.
    pub fn bor(&self, other: &NumericType) -> (r: NumericType)
        requires
            num_bits_ok(*self, *other),
        ensures
            r == num_bor(*self, *other),
    {
        match (self, other) {
            (NumericType::Integer(x), NumericType::Integer(y)) => NumericType::Integer(*x | *y),
            _ => *self,
        }
    }

    /// Bitwise xor, integers only.
    pub fn bxor(&self, other: &NumericType) -> (r: NumericType)
        requires
            num_bits_ok(*self, *other),
        ensures
            r == num_bxor(*self, *other),
    {
        match (self, other) {
            (NumericType::Integer(x), NumericType::Integer(y)) => NumericType::Integer(*x ^ *y),
            _ => *self,
        }
    }

    /// Left shift, integers only, by less than the word size.
    pub fn shl(&self, other: &NumericType) -> (r: NumericType)
        requires
            num_shift_ok(*self, *other),
        ensures
            r == num_shl(*self, *other),
    {
        match (self, other) {
            (NumericType::Integer(x), NumericType::Integer(y)) => NumericType::Integer(*x << *y),
            _ => *self,
        }
    }

    /// Arithmetic right shift, integers only, by less than the word size.
    pub fn shr(&self, other: &NumericType) -> (r: NumericType)
        requires
            num_shift_ok(*self, *other),
        ensures
            r == num_shr(*self, *other),
    {
        match (self, other) {
            (NumericType::Integer(x), NumericType::Integer(y)) => NumericType::Integer(*x >> *y),
            _ => *self,
        }
    }

    /// Bitwise complement, integers only.
    pub fn complement(&self) -> (r: NumericType)
        requires
            self is Integer,
        ensures
            r == num_not(*self),
    {
        match self {
            NumericType::Integer(x) => NumericType::Integer(!*x),
            _ => *self,
        }
    }

    /// Tower equality.
    pub fn eq_num(&self, other: &NumericType) -> (r: bool)
        ensures
            r == num_eq(*self, *other),
    {
        match (self, other) {
            (NumericType::Integer(x), NumericType::Integer(y)) => *x == *y,
            _ => float::eq_bits(self.to_f64_bits(), other.to_f64_bits()),
        }
    }

    /// Tower strict order.
    pub fn lt_num(&self, other: &NumericType) -> (r: bool)
        ensures
            r == num_lt(*self, *other),
    {
        match (self, other) {
            (NumericType::Integer(x), NumericType::Integer(y)) => *x < *y,
            _ => float::lt_bits(self.to_f64_bits(), other.to_f64_bits()),
        }
    }

    /// Tower non-strict order.
    pub fn le_num(&self, other: &NumericType) -> (r: bool)
        ensures
            r == num_le(*self, *other),
    {
        match (self, other) {
            (NumericType::Integer(x), NumericType::Integer(y)) => *x <= *y,
            _ => float::le_bits(self.to_f64_bits(), other.to_f64_bits()),
        }
    }

    /// Tower comparison: `None` exactly when the operands are unordered
    /// (a NaN is involved).
    pub fn cmp_num(&self, other: &NumericType) -> (r: Option<Ordering>)
        ensures
            r == (if num_eq(*self, *other) {
                Some(Ordering::Equal)
            } else if num_lt(*self, *other) {
                Some(Ordering::Less)
            } else if num_lt(*other, *self) {
                Some(Ordering::Greater)
            } else {
                None::<Ordering>
            }),
    {
        if self.eq_num(other) {
            Some(Ordering::Equal)
        } else if self.lt_num(other) {
            Some(Ordering::Less)
        } else if other.lt_num(self) {
            Some(Ordering::Greater)
        } else {
            None
        }
    }
}

/// Within a power computation whose final value fits in `i64`, every
/// intermediate power fits comfortably in `i128`.
proof fn lemma_pow_step_in_range(x: int, k: nat, e: nat)
    requires
        k < e,
        i64::MIN <= pow(x, e) <= i64::MAX,
    ensures
        i128::MIN <= pow(x, k) * x <= i128::MAX,
        pow(x, k) * x == pow(x, (k + 1) as nat),
{
    lemma_pow_abs(x, (k + 1) as nat);
    lemma_pow_abs(x, e);
    let m: int = if x < 0 {
        -x
    } else {
        x
    };
    vstd::arithmetic::power::lemma_pow1(x);
    vstd::arithmetic::power::lemma_pow_adds(x, k, 1nat);
    if m == 0 {
        vstd::arithmetic::power::lemma0_pow((k + 1) as nat);
    } else if m == 1 {
        vstd::arithmetic::power::lemma1_pow((k + 1) as nat);
    } else {
        vstd::arithmetic::power::lemma_pow_increases(m as nat, (k + 1) as nat, e);
    }
}

/// The magnitude of a power is the power of the magnitude.
proof fn lemma_pow_abs(x: int, e: nat)
    ensures
        (if pow(x, e) < 0 {
            -pow(x, e)
        } else {
            pow(x, e)
        }) == pow(
            if x < 0 {
                -x
            } else {
                x
            },
            e,
        ),
    decreases e,
{
    reveal(pow);
    if e == 0 {
    } else {
        let e1 = (e - 1) as nat;
        lemma_pow_abs(x, e1);
        let p = pow(x, e1);
        let ax: int = if x < 0 {
            -x
        } else {
            x
        };
        let ap: int = if p < 0 {
            -p
        } else {
            p
        };
        assert(ax * ap == (if x * p < 0 {
            -(x * p)
        } else {
            x * p
        })) by (nonlinear_arith)
            requires
                ax == (if x < 0 {
                    -x
                } else {
                    x
                }),
                ap == (if p < 0 {
                    -p
                } else {
                    p
                }),
        ;
    }
}

} // verus!
