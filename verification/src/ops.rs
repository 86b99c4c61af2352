//! The operator dispatch of values.
//!
//! Arithmetic is defined on number pairs, with `+` also accepting a
//! string pair as concatenation; bitwise operations and shifts apply to
//! integer pairs alone; the unary operators negate a number or coerce a
//! boolean to an integer first. Every other combination is a fatal
//! contract violation of the emitting code and is excluded by the
//! preconditions: these methods never fail.

use vstd::prelude::*;
use vstd::string::StringExecFns;

use crate::numeric::num_add;
use crate::numeric::num_add_ok;
use crate::numeric::num_band;
use crate::numeric::num_bits_ok;
use crate::numeric::num_bor;
use crate::numeric::num_bxor;
use crate::numeric::num_div;
use crate::numeric::num_mul;
use crate::numeric::num_mul_ok;
use crate::numeric::num_neg;
use crate::numeric::num_neg_ok;
use crate::numeric::num_not;
use crate::numeric::num_pow;
use crate::numeric::num_pow_ok;
use crate::numeric::num_rem;
use crate::numeric::num_rem_ok;
use crate::numeric::num_shift_ok;
use crate::numeric::num_shl;
use crate::numeric::num_shr;
use crate::numeric::num_sub;
use crate::numeric::num_sub_ok;
use crate::numeric::NumericType;
use crate::value::AbsVal;
use crate::value::Value;

verus! {

/// `+` accepts a number pair whose integer sum stays in range, or a
/// string pair.
pub open spec fn val_add_ok(a: AbsVal, b: AbsVal) -> bool {
    match (a, b) {
        (AbsVal::Num(n1), AbsVal::Num(n2)) => num_add_ok(n1, n2),
        (AbsVal::Str(s1), AbsVal::Str(s2)) => true,
        _ => false,
    }
}

/// `+`: tower addition on numbers, concatenation on strings.
pub open spec fn val_add(a: AbsVal, b: AbsVal) -> AbsVal {
    match (a, b) {
        (AbsVal::Num(n1), AbsVal::Num(n2)) => AbsVal::Num(num_add(n1, n2)),
        (AbsVal::Str(s1), AbsVal::Str(s2)) => AbsVal::Str(s1 + s2),
        _ => a,
    }
}

/// A binary operator defined on number pairs alone.
pub open spec fn num_pair(a: AbsVal, b: AbsVal) -> bool {
    a is Num && b is Num
}

/// The unary operators accept a number or a boolean.
pub open spec fn val_unary_ok(a: AbsVal) -> bool {
    match a {
        AbsVal::Num(n) => num_neg_ok(n),
        AbsVal::Bool(_) => true,
        _ => false,
    }
}

/// Unary `-`: tower negation; a boolean coerces to the integer 0 or 1
/// first.
pub open spec fn val_neg(a: AbsVal) -> AbsVal {
    match a {
        AbsVal::Num(n) => AbsVal::Num(num_neg(n)),
        AbsVal::Bool(b) => AbsVal::Num(
            NumericType::Integer(
                if b {
                    -1i64
                } else {
                    0i64
                },
            ),
        ),
        _ => a,
    }
}

/// The complement accepts an integer or a boolean.
pub open spec fn val_not_ok(a: AbsVal) -> bool {
    match a {
        AbsVal::Num(n) => n is Integer,
        AbsVal::Bool(_) => true,
        _ => false,
    }
}

/// Unary `~`: tower complement; a boolean coerces to the integer 0 or 1
/// first.
pub open spec fn val_not(a: AbsVal) -> AbsVal {
    match a {
        AbsVal::Num(n) => AbsVal::Num(num_not(n)),
        AbsVal::Bool(b) => AbsVal::Num(
            NumericType::Integer(
                if b {
                    -2i64
                } else {
                    -1i64
                },
            ),
        ),
        _ => a,
    }
}

impl Value {
    /// `+`: tower addition on a number pair, concatenation on a string
    /// pair.
    pub fn add(self, other: Value) -> (r: Value)
        requires
            val_add_ok(self.model(), other.model()),
        ensures
            r.model() == val_add(self.model(), other.model()),
    {
        match (self, other) {
            (Value::Number(n1), Value::Number(n2)) => Value::Number(n1.add(&n2)),
            (Value::Str(s1), Value::Str(s2)) => Value::Str(s1.concat(s2.as_str())),
            _ => {
                // excluded by the precondition
                proof {
                    assert(false);
                }
                Value::NoneVal
            },
        }
    }

    /// `-` on a number pair: tower subtraction.
    pub fn sub(self, other: Value) -> (r: Value)
        requires
            num_pair(self.model(), other.model()),
            self.model() matches AbsVal::Num(n1) && other.model() matches AbsVal::Num(n2)
                ==> num_sub_ok(n1, n2),
        ensures
            self.model() matches AbsVal::Num(n1) && other.model() matches AbsVal::Num(n2)
                ==> r.model() == AbsVal::Num(num_sub(n1, n2)),
    {
        match (self, other) {
            (Value::Number(n1), Value::Number(n2)) => Value::Number(n1.sub(&n2)),
            _ => {
                // excluded by the precondition
                proof {
                    assert(false);
                }
                Value::NoneVal
            },
        }
    }

    /// `*` on a number pair: tower multiplication.
    pub fn mul(self, other: Value) -> (r: Value)
        requires
            num_pair(self.model(), other.model()),
            self.model() matches AbsVal::Num(n1) && other.model() matches AbsVal::Num(n2)
                ==> num_mul_ok(n1, n2),
        ensures
            self.model() matches AbsVal::Num(n1) && other.model() matches AbsVal::Num(n2)
                ==> r.model() == AbsVal::Num(num_mul(n1, n2)),
    {
        match (self, other) {
            (Value::Number(n1), Value::Number(n2)) => Value::Number(n1.mul(&n2)),
            _ => {
                // excluded by the precondition
                proof {
                    assert(false);
                }
                Value::NoneVal
            },
        }
    }

    /// `/` on a number pair: tower true division, always a float.
    pub fn div(self, other: Value) -> (r: Value)
        requires
            num_pair(self.model(), other.model()),
        ensures
            self.model() matches AbsVal::Num(n1) && other.model() matches AbsVal::Num(n2)
                ==> r.model() == AbsVal::Num(num_div(n1, n2)),
    {
        match (self, other) {
            (Value::Number(n1), Value::Number(n2)) => Value::Number(n1.div(&n2)),
            _ => {
                // excluded by the precondition
                proof {
                    assert(false);
                }
                Value::NoneVal
            },
        }
    }

    /// `%` on a number pair: tower remainder.
    pub fn rem(self, other: Value) -> (r: Value)
        requires
            num_pair(self.model(), other.model()),
            self.model() matches AbsVal::Num(n1) && other.model() matches AbsVal::Num(n2)
                ==> num_rem_ok(n1, n2),
        ensures
            self.model() matches AbsVal::Num(n1) && other.model() matches AbsVal::Num(n2)
                ==> r.model() == AbsVal::Num(num_rem(n1, n2)),
    {
        match (self, other) {
            (Value::Number(n1), Value::Number(n2)) => Value::Number(n1.rem(&n2)),
            _ => {
                // excluded by the precondition
                proof {
                    assert(false);
                }
                Value::NoneVal
            },
        }
    }

    /// `**` on a number pair: tower exponentiation.
    pub fn pow(&self, value: &Value) -> (r: Value)
        requires
            num_pair(self.model(), value.model()),
            self.model() matches AbsVal::Num(n1) && value.model() matches AbsVal::Num(n2)
                ==> num_pow_ok(n1, n2),
        ensures
            self.model() matches AbsVal::Num(n1) && value.model() matches AbsVal::Num(n2)
                ==> r.model() == AbsVal::Num(num_pow(n1, n2)),
    {
        match (self, value) {
            (Value::Number(n1), Value::Number(n2)) => Value::Number(n1.pow(n2)),
            _ => {
                // excluded by the precondition
                proof {
                    assert(false);
                }
                Value::NoneVal
            },
        }
    }

    /// `&` on an integer pair.
    pub fn bitand(self, other: Value) -> (r: Value)
        requires
            self.model() matches AbsVal::Num(n1) && other.model() matches AbsVal::Num(n2)
                && num_bits_ok(n1, n2),
        ensures
            self.model() matches AbsVal::Num(n1) && other.model() matches AbsVal::Num(n2)
                ==> r.model() == AbsVal::Num(num_band(n1, n2)),
    {
        match (self, other) {
            (Value::Number(n1), Value::Number(n2)) => Value::Number(n1.band(&n2)),
            _ => {
                // excluded by the precondition
                proof {
                    assert(false);
                }
                Value::NoneVal
            },
        }
    }

    /// `|` on an integer pair.
    pub fn bitor(self, other: Value) -> (r: Value)
        requires
            self.model() matches AbsVal::Num(n1) && other.model() matches AbsVal::Num(n2)
                && num_bits_ok(n1, n2),
        ensures
            self.model() matches AbsVal::Num(n1) && other.model() matches AbsVal::Num(n2)
                ==> r.model() == AbsVal::Num(num_bor(n1, n2)),
    {
        match (self, other) {
            (Value::Number(n1), Value::Number(n2)) => Value::Number(n1.bor(&n2)),
            _ => {
                // excluded by the precondition
                proof {
                    assert(false);
                }
                Value::NoneVal
            },
        }
    }

    /// `^` on an integer pair.
    pub fn bitxor(self, other: Value) -> (r: Value)
        requires
            self.model() matches AbsVal::Num(n1) && other.model() matches AbsVal::Num(n2)
                && num_bits_ok(n1, n2),
        ensures
            self.model() matches AbsVal::Num(n1) && other.model() matches AbsVal::Num(n2)
                ==> r.model() == AbsVal::Num(num_bxor(n1, n2)),
    {
        match (self, other) {
            (Value::Number(n1), Value::Number(n2)) => Value::Number(n1.bxor(&n2)),
            _ => {
                // excluded by the precondition
                proof {
                    assert(false);
                }
                Value::NoneVal
            },
        }
    }

    /// `<<` on an integer pair, the shift within the word.
    pub fn shl(self, other: Value) -> (r: Value)
        requires
            self.model() matches AbsVal::Num(n1) && other.model() matches AbsVal::Num(n2)
                && num_shift_ok(n1, n2),
        ensures
            self.model() matches AbsVal::Num(n1) && other.model() matches AbsVal::Num(n2)
                ==> r.model() == AbsVal::Num(num_shl(n1, n2)),
    {
        match (self, other) {
            (Value::Number(n1), Value::Number(n2)) => Value::Number(n1.shl(&n2)),
            _ => {
                // excluded by the precondition
                proof {
                    assert(false);
                }
                Value::NoneVal
            },
        }
    }

    /// `>>` on an integer pair, the shift within the word.
    pub fn shr(self, other: Value) -> (r: Value)
        requires
            self.model() matches AbsVal::Num(n1) && other.model() matches AbsVal::Num(n2)
                && num_shift_ok(n1, n2),
        ensures
            self.model() matches AbsVal::Num(n1) && other.model() matches AbsVal::Num(n2)
                ==> r.model() == AbsVal::Num(num_shr(n1, n2)),
    {
        match (self, other) {
            (Value::Number(n1), Value::Number(n2)) => Value::Number(n1.shr(&n2)),
            _ => {
                // excluded by the precondition
                proof {
                    assert(false);
                }
                Value::NoneVal
            },
        }
    }

    /// Unary `-`: tower negation; a boolean coerces to 0 or 1 first.
    pub fn neg(self) -> (r: Value)
        requires
            val_unary_ok(self.model()),
        ensures
            r.model() == val_neg(self.model()),
    {
        match self {
            Value::Number(n) => Value::Number(n.neg()),
            Value::Bool(b) => {
                if b {
                    Value::Number(NumericType::Integer(-1))
                } else {
                    Value::Number(NumericType::Integer(0))
                }
            },
            _ => {
                // excluded by the precondition
                proof {
                    assert(false);
                }
                Value::NoneVal
            },
        }
    }

    /// Unary `~`, the bitwise complement; a boolean coerces to 0 or 1
    /// first. Distinct from `logical_not`.
    pub fn not(self) -> (r: Value)
        requires
            val_not_ok(self.model()),
        ensures
            r.model() == val_not(self.model()),
    {
        match self {
            Value::Number(n) => Value::Number(n.complement()),
            Value::Bool(b) => {
                if b {
                    Value::Number(NumericType::Integer(-2))
                } else {
                    Value::Number(NumericType::Integer(-1))
                }
            },
            _ => {
                // excluded by the precondition
                proof {
                    assert(false);
                }
                Value::NoneVal
            },
        }
    }
}

} // verus!
