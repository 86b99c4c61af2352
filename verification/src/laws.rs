//! Laws of the value model, stated and proved over the same spec
//! functions the operation contracts use.

use vstd::prelude::*;

use crate::cmp::eq_defined;
use crate::cmp::eq_defined_from;
use crate::cmp::lemma_val_eq_agrees;
use crate::cmp::seq_eq_from;
use crate::cmp::val_eq;
use crate::cmp::val_eq_at;
use crate::cmp::val_eq_defined;
use crate::float::f64_is_zero;
use crate::float::F64_SIGN_MASK;
use crate::numeric::NumericType;
use crate::seq_ops::seq_of;
use crate::value::truthy;
use crate::value::AbsVal;

verus! {

/// Truthiness: zero numbers (the integer zero and both float zeroes),
/// the empty string, empty sequences and the absence sentinel are
/// false; nonzero numbers, non-empty strings and sequences, callables,
/// classes and objects are true.
pub proof fn lemma_truthiness(lists: Seq<Seq<AbsVal>>)
    ensures
        forall|i: i64| truthy(lists, AbsVal::Num(NumericType::Integer(i))) == (i != 0),
        forall|b: u64| truthy(lists, AbsVal::Num(NumericType::Float(b))) == !f64_is_zero(b),
        forall|b: u64| f64_is_zero(b) <==> (b == 0 || b == F64_SIGN_MASK),
        forall|s: Seq<char>| truthy(lists, AbsVal::Str(s)) == (s.len() > 0),
        forall|h: int|
            0 <= h < lists.len() ==> truthy(lists, AbsVal::List(h)) == (lists[h].len() > 0),
        forall|es: Seq<AbsVal>| truthy(lists, AbsVal::Tuple(es)) == (es.len() > 0),
        forall|f: u64| truthy(lists, AbsVal::Function(f)),
        forall|t: Seq<(Seq<char>, AbsVal)>| truthy(lists, AbsVal::Class(t)),
        forall|h: int| truthy(lists, AbsVal::Object(h)),
        !truthy(lists, AbsVal::Null),
{
    assert forall|b: u64| f64_is_zero(b) <==> (b == 0 || b == F64_SIGN_MASK) by {
        assert((b & 0x7FFF_FFFF_FFFF_FFFFu64 == 0) <==> (b == 0 || b
            == 0x8000_0000_0000_0000u64)) by (bit_vector);
    }
}

/// Logical negation is involutive on booleans: negating the negation of
/// a boolean value yields the value again.
pub proof fn lemma_logical_not_involutive(lists: Seq<Seq<AbsVal>>, b: bool)
    ensures
        AbsVal::Bool(!truthy(lists, AbsVal::Bool(!truthy(lists, AbsVal::Bool(b)))))
            == AbsVal::Bool(b),
{
}

/// The value contains no float anywhere equality would look, within the
/// given fuel: on such values equality is reflexive (a NaN payload is
/// the input that breaks reflexivity).
pub open spec fn float_free(lists: Seq<Seq<AbsVal>>, a: AbsVal, fuel: nat) -> bool
    decreases fuel, a, 0nat,
{
    match a {
        AbsVal::Num(n) => n is Integer,
        AbsVal::Str(_) => true,
        AbsVal::Bool(_) => true,
        AbsVal::Null => true,
        AbsVal::List(h) => fuel > 0 && 0 <= h < lists.len() && seq_float_free(
            lists,
            lists[h],
            0,
            (fuel - 1) as nat,
        ),
        AbsVal::Tuple(es) => seq_float_free(lists, es, 0, fuel),
        _ => false,
    }
}

/// Every element from the index on is float-free.
pub open spec fn seq_float_free(
    lists: Seq<Seq<AbsVal>>,
    xs: Seq<AbsVal>,
    i: int,
    fuel: nat,
) -> bool
    decreases fuel, xs, xs.len() - i,
{
    if i < 0 || i >= xs.len() {
        true
    } else {
        float_free(lists, xs[i], fuel) && seq_float_free(lists, xs, i + 1, fuel)
    }
}

/// Equality is reflexive on float-free values.
pub proof fn lemma_eq_reflexive_at(lists: Seq<Seq<AbsVal>>, a: AbsVal, fuel: nat)
    requires
        float_free(lists, a, fuel),
    ensures
        eq_defined(lists, a, a, fuel),
        val_eq_at(lists, a, a, fuel),
    decreases fuel, a, 0nat,
{
    match a {
        AbsVal::List(h) => {
            lemma_seq_eq_reflexive(lists, lists[h], 0, (fuel - 1) as nat);
        },
        AbsVal::Tuple(es) => {
            lemma_seq_eq_reflexive(lists, es, 0, fuel);
        },
        _ => {},
    }
}

/// Element-wise equality is reflexive on float-free sequences.
pub proof fn lemma_seq_eq_reflexive(lists: Seq<Seq<AbsVal>>, xs: Seq<AbsVal>, i: int, fuel: nat)
    requires
        seq_float_free(lists, xs, i, fuel),
    ensures
        eq_defined_from(lists, xs, xs, i, fuel),
        seq_eq_from(lists, xs, xs, i, fuel),
    decreases fuel, xs, xs.len() - i,
{
    if 0 <= i < xs.len() {
        lemma_eq_reflexive_at(lists, xs[i], fuel);
        lemma_seq_eq_reflexive(lists, xs, i + 1, fuel);
    }
}

/// Equality is reflexive: a float-free value equals itself.
pub proof fn lemma_eq_reflexive(lists: Seq<Seq<AbsVal>>, a: AbsVal, fuel: nat)
    requires
        float_free(lists, a, fuel),
    ensures
        val_eq_defined(lists, a, a),
        val_eq(lists, a, a),
{
    lemma_eq_reflexive_at(lists, a, fuel);
    lemma_val_eq_agrees(lists, a, a, fuel);
}

/// The two values are the same variant of the union.
pub open spec fn same_variant(a: AbsVal, b: AbsVal) -> bool {
    ||| (a is Num && b is Num)
    ||| (a is Str && b is Str)
    ||| (a is Bool && b is Bool)
    ||| (a is List && b is List)
    ||| (a is Tuple && b is Tuple)
    ||| (a is Function && b is Function)
    ||| (a is Class && b is Class)
    ||| (a is Object && b is Object)
    ||| (a is Stream && b is Stream)
    ||| (a is Null && b is Null)
}

/// Equality is variant-exclusive: a cross-variant pair is never equal —
/// and, being defined, never an error.
pub proof fn lemma_eq_variant_exclusive(lists: Seq<Seq<AbsVal>>, a: AbsVal, b: AbsVal, fuel: nat)
    requires
        !same_variant(a, b),
    ensures
        !val_eq_at(lists, a, b, fuel),
{
}

/// List aliasing: two bindings holding the same list handle observe an
/// in-place update made through either of them.
pub proof fn lemma_list_aliasing(
    lists: Seq<Seq<AbsVal>>,
    x: AbsVal,
    y: AbsVal,
    h: int,
    i: int,
    v: AbsVal,
)
    requires
        x == AbsVal::List(h),
        y == AbsVal::List(h),
        0 <= h < lists.len(),
        0 <= i < lists[h].len(),
    ensures
        seq_of(lists.update(h, lists[h].update(i, v)), y)[i] == v,
        seq_of(lists.update(h, lists[h].update(i, v)), x) == seq_of(
            lists.update(h, lists[h].update(i, v)),
            y,
        ),
{
}

/// Tuple value semantics: a tuple is owned, so duplicating one copies
/// its contents, and two independently constructed tuples with the same
/// float-free contents are structurally equal.
pub proof fn lemma_tuple_value_semantics(lists: Seq<Seq<AbsVal>>, es: Seq<AbsVal>, fuel: nat)
    requires
        seq_float_free(lists, es, 0, fuel),
    ensures
        val_eq_defined(lists, AbsVal::Tuple(es), AbsVal::Tuple(es)),
        val_eq(lists, AbsVal::Tuple(es), AbsVal::Tuple(es)),
{
    lemma_eq_reflexive(lists, AbsVal::Tuple(es), fuel);
}

} // verus!
