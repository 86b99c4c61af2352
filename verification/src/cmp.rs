//! Equality and ordering of values.
//!
//! Equality is structural and variant-aligned: two values are equal only
//! when they are the same variant with equal payloads, lists element-wise
//! through the shared store, tuples element-wise; any cross-variant pair
//! is unequal, never an error. Because a list may (through the store)
//! reach further lists, the defining recursion is bounded by a fuel that
//! counts list indirections; equality is asked only of pairs for which
//! some fuel suffices, and its value does not depend on which.
//!
//! Ordering is defined for number, string and boolean pairs only.

use core::cmp::Ordering;
use vstd::prelude::*;
use vstd::string::StrSliceExecFns;

use crate::heap::Heap;
use crate::numeric::num_eq;
use crate::numeric::num_le;
use crate::numeric::num_lt;
use crate::value::lemma_models;
use crate::value::AbsVal;
use crate::value::Value;

verus! {

/// Structural equality of a pair is defined: the left operand is a
/// variant equality covers, and where both sides are lists or tuples,
/// every element pair is defined in turn, with one unit of fuel spent
/// per list indirection.
pub open spec fn eq_defined(lists: Seq<Seq<AbsVal>>, a: AbsVal, b: AbsVal, fuel: nat) -> bool
    decreases fuel, a, 0nat,
{
    match a {
        AbsVal::Num(_) => true,
        AbsVal::Str(_) => true,
        AbsVal::Bool(_) => true,
        AbsVal::Null => true,
        AbsVal::List(h) => b matches AbsVal::List(k) ==> {
            &&& fuel > 0
            &&& 0 <= h < lists.len()
            &&& 0 <= k < lists.len()
            &&& eq_defined_from(lists, lists[h], lists[k], 0, (fuel - 1) as nat)
        },
        AbsVal::Tuple(es) => b matches AbsVal::Tuple(fs) ==> eq_defined_from(
            lists,
            es,
            fs,
            0,
            fuel,
        ),
        _ => false,
    }
}

/// Element-wise definedness from an index on; sequences of different
/// lengths are unequal without any element being compared.
pub open spec fn eq_defined_from(
    lists: Seq<Seq<AbsVal>>,
    x: Seq<AbsVal>,
    y: Seq<AbsVal>,
    i: int,
    fuel: nat,
) -> bool
    decreases fuel, x, x.len() - i,
{
    if x.len() != y.len() {
        true
    } else if i < 0 || i >= x.len() {
        true
    } else {
        eq_defined(lists, x[i], y[i], fuel) && eq_defined_from(lists, x, y, i + 1, fuel)
    }
}

/// Structural equality at a given fuel. Meaningful where `eq_defined`
/// holds at that fuel.
pub open spec fn val_eq_at(lists: Seq<Seq<AbsVal>>, a: AbsVal, b: AbsVal, fuel: nat) -> bool
    decreases fuel, a, 0nat,
{
    match a {
        AbsVal::Num(n1) => b matches AbsVal::Num(n2) && num_eq(n1, n2),
        AbsVal::Str(s1) => b matches AbsVal::Str(s2) && s1 == s2,
        AbsVal::Bool(b1) => b matches AbsVal::Bool(b2) && b1 == b2,
        AbsVal::Null => b is Null,
        AbsVal::List(h) => b matches AbsVal::List(k) && fuel > 0 && seq_eq_from(
            lists,
            lists[h],
            lists[k],
            0,
            (fuel - 1) as nat,
        ),
        AbsVal::Tuple(es) => b matches AbsVal::Tuple(fs) && seq_eq_from(lists, es, fs, 0, fuel),
        _ => false,
    }
}

/// Element-wise equality from an index on.
pub open spec fn seq_eq_from(
    lists: Seq<Seq<AbsVal>>,
    x: Seq<AbsVal>,
    y: Seq<AbsVal>,
    i: int,
    fuel: nat,
) -> bool
    decreases fuel, x, x.len() - i,
{
    if x.len() != y.len() {
        false
    } else if i < 0 || i >= x.len() {
        true
    } else {
        val_eq_at(lists, x[i], y[i], fuel) && seq_eq_from(lists, x, y, i + 1, fuel)
    }
}

/// Some fuel suffices to compare the pair.
pub open spec fn val_eq_defined(lists: Seq<Seq<AbsVal>>, a: AbsVal, b: AbsVal) -> bool {
    exists|f: nat| eq_defined(lists, a, b, f)
}

/// Structural equality of a pair for which some fuel suffices.
pub open spec fn val_eq(lists: Seq<Seq<AbsVal>>, a: AbsVal, b: AbsVal) -> bool {
    val_eq_at(lists, a, b, choose|f: nat| eq_defined(lists, a, b, f))
}

/// Raising the fuel preserves definedness and the compared result.
pub proof fn lemma_val_eq_fuel(lists: Seq<Seq<AbsVal>>, a: AbsVal, b: AbsVal, f1: nat, f2: nat)
    requires
        eq_defined(lists, a, b, f1),
        f1 <= f2,
    ensures
        eq_defined(lists, a, b, f2),
        val_eq_at(lists, a, b, f1) == val_eq_at(lists, a, b, f2),
    decreases f1, a, 0nat,
{
    match (a, b) {
        (AbsVal::List(h), AbsVal::List(k)) => {
            lemma_seq_eq_fuel(lists, lists[h], lists[k], 0, (f1 - 1) as nat, (f2 - 1) as nat);
        },
        (AbsVal::Tuple(es), AbsVal::Tuple(fs)) => {
            lemma_seq_eq_fuel(lists, es, fs, 0, f1, f2);
        },
        _ => {},
    }
}

/// Raising the fuel preserves element-wise definedness and equality.
pub proof fn lemma_seq_eq_fuel(
    lists: Seq<Seq<AbsVal>>,
    x: Seq<AbsVal>,
    y: Seq<AbsVal>,
    i: int,
    f1: nat,
    f2: nat,
)
    requires
        eq_defined_from(lists, x, y, i, f1),
        f1 <= f2,
    ensures
        eq_defined_from(lists, x, y, i, f2),
        seq_eq_from(lists, x, y, i, f1) == seq_eq_from(lists, x, y, i, f2),
    decreases f1, x, x.len() - i,
{
    if x.len() == y.len() && 0 <= i < x.len() {
        lemma_val_eq_fuel(lists, x[i], y[i], f1, f2);
        lemma_seq_eq_fuel(lists, x, y, i + 1, f1, f2);
    }
}

/// Every sufficient fuel yields the same equality.
pub proof fn lemma_val_eq_agrees(lists: Seq<Seq<AbsVal>>, a: AbsVal, b: AbsVal, f: nat)
    requires
        eq_defined(lists, a, b, f),
    ensures
        val_eq_defined(lists, a, b),
        val_eq(lists, a, b) == val_eq_at(lists, a, b, f),
{
    let f0 = choose|g: nat| eq_defined(lists, a, b, g);
    if f0 <= f {
        lemma_val_eq_fuel(lists, a, b, f0, f);
    } else {
        lemma_val_eq_fuel(lists, a, b, f, f0);
    }
}

/// Definedness from an index is definedness of every element pair from
/// that index on (or a length mismatch).
pub proof fn lemma_eq_defined_pointwise(
    lists: Seq<Seq<AbsVal>>,
    x: Seq<AbsVal>,
    y: Seq<AbsVal>,
    i: int,
    fuel: nat,
)
    requires
        0 <= i,
    ensures
        eq_defined_from(lists, x, y, i, fuel) <==> (x.len() != y.len() || forall|j: int|
            i <= j < x.len() ==> eq_defined(lists, #[trigger] x[j], y[j], fuel)),
    decreases x.len() - i,
{
    if x.len() == y.len() && i < x.len() {
        lemma_eq_defined_pointwise(lists, x, y, i + 1, fuel);
    }
}

/// Element-wise equality from an index is equality of every element pair
/// from that index on, lengths being equal.
pub proof fn lemma_seq_eq_pointwise(
    lists: Seq<Seq<AbsVal>>,
    x: Seq<AbsVal>,
    y: Seq<AbsVal>,
    i: int,
    fuel: nat,
)
    requires
        0 <= i,
    ensures
        seq_eq_from(lists, x, y, i, fuel) <==> (x.len() == y.len() && forall|j: int|
            i <= j < x.len() ==> val_eq_at(lists, #[trigger] x[j], y[j], fuel)),
    decreases x.len() - i,
{
    if x.len() == y.len() && i < x.len() {
        lemma_seq_eq_pointwise(lists, x, y, i + 1, fuel);
    }
}

/// Lexicographic order on character sequences, from an index on.
pub open spec fn lex_lt_from(s1: Seq<char>, s2: Seq<char>, i: int) -> bool
    decreases s2.len() - i,
{
    if i < 0 || i >= s2.len() {
        false
    } else if i >= s1.len() {
        true
    } else if s1[i] != s2[i] {
        s1[i] < s2[i]
    } else {
        lex_lt_from(s1, s2, i + 1)
    }
}

/// Lexicographic order on character sequences.
pub open spec fn lex_lt(s1: Seq<char>, s2: Seq<char>) -> bool {
    lex_lt_from(s1, s2, 0)
}

/// Two sequences that agree up to an index are ordered one way or the
/// other from that index on, or agree entirely.
pub proof fn lemma_lex_from_total(s1: Seq<char>, s2: Seq<char>, i: int)
    requires
        0 <= i <= s1.len(),
        i <= s2.len(),
    ensures
        lex_lt_from(s1, s2, i) || lex_lt_from(s2, s1, i) || (s1.len() == s2.len() && forall|
            j: int,
        |
            i <= j < s1.len() ==> s1[j] == s2[j]),
    decreases s1.len() - i,
{
    if i < s1.len() && i < s2.len() && s1[i] == s2[i] {
        lemma_lex_from_total(s1, s2, i + 1);
    }
}

/// Ordering is defined for number, string and boolean pairs alone.
pub open spec fn ord_defined(a: AbsVal, b: AbsVal) -> bool {
    ||| (a is Num && b is Num)
    ||| (a is Str && b is Str)
    ||| (a is Bool && b is Bool)
}

/// Strict order: tower order on numbers, lexicographic on strings,
/// false-before-true on booleans; false on every other pair.
pub open spec fn val_lt(a: AbsVal, b: AbsVal) -> bool {
    match (a, b) {
        (AbsVal::Num(n1), AbsVal::Num(n2)) => num_lt(n1, n2),
        (AbsVal::Str(s1), AbsVal::Str(s2)) => lex_lt(s1, s2),
        (AbsVal::Bool(b1), AbsVal::Bool(b2)) => !b1 && b2,
        _ => false,
    }
}

/// Non-strict order on the same pairs.
pub open spec fn val_le(a: AbsVal, b: AbsVal) -> bool {
    match (a, b) {
        (AbsVal::Num(n1), AbsVal::Num(n2)) => num_le(n1, n2),
        (AbsVal::Str(s1), AbsVal::Str(s2)) => lex_lt(s1, s2) || s1 == s2,
        (AbsVal::Bool(b1), AbsVal::Bool(b2)) => b1 ==> b2,
        _ => false,
    }
}

/// The comparison the order methods follow: `None` exactly on unordered
/// number pairs (a NaN is involved).
pub open spec fn val_cmp(a: AbsVal, b: AbsVal) -> Option<Ordering> {
    if val_eq_at(Seq::empty(), a, b, 0) {
        Some(Ordering::Equal)
    } else if val_lt(a, b) {
        Some(Ordering::Less)
    } else if val_lt(b, a) {
        Some(Ordering::Greater)
    } else {
        None
    }
}

/// Lexicographic order of two strings, character by character.
fn str_lt(a: &String, b: &String) -> (r: bool)
    ensures
        r == lex_lt(a@, b@),
{
    let na = a.as_str().unicode_len();
    let nb = b.as_str().unicode_len();
    let mut i: usize = 0;
    loop
        invariant
            0 <= i <= na,
            0 <= i <= nb,
            na == a@.len(),
            nb == b@.len(),
            lex_lt(a@, b@) == lex_lt_from(a@, b@, i as int),
        decreases nb - i,
    {
        if i >= nb {
            return false;
        }
        if i >= na {
            return true;
        }
        let ca = a.as_str().get_char(i);
        let cb = b.as_str().get_char(i);
        if ca != cb {
            return ca < cb;
        }
        i = i + 1;
    }
}

impl Value {
    /// Structural equality at a given fuel: the recursion that realises
    /// `val_eq_at`.
    fn eq_at(&self, other: &Value, heap: &Heap, Ghost(fuel): Ghost<nat>) -> (r: bool)
        requires
            eq_defined(heap.lists_model(), self.model(), other.model(), fuel),
        ensures
            r == val_eq_at(heap.lists_model(), self.model(), other.model(), fuel),
        decreases fuel, self, 0nat,
    {
        match (self, other) {
            (Value::Number(n1), Value::Number(n2)) => n1.eq_num(n2),
            (Value::Number(_), _) => false,
            (Value::Str(s1), Value::Str(s2)) => *s1 == *s2,
            (Value::Str(_), _) => false,
            (Value::Bool(b1), Value::Bool(b2)) => b1 == b2,
            (Value::Bool(_), _) => false,
            (Value::List(h), Value::List(k)) => {
                let ghost lists = heap.lists_model();
                let ghost x = lists[*h as int];
                let ghost y = lists[*k as int];
                proof {
                    lemma_models(heap.lists@[*h as int]@);
                    lemma_models(heap.lists@[*k as int]@);
                    lemma_eq_defined_pointwise(lists, x, y, 0, (fuel - 1) as nat);
                }
                let n = heap.lists[*h].len();
                if heap.lists[*k].len() != n {
                    proof {
                        lemma_seq_eq_pointwise(lists, x, y, 0, (fuel - 1) as nat);
                    }
                    return false;
                }
                let mut j: usize = 0;
                while j < n
                    invariant
                        heap.lists_model() == lists,
                        heap.valid_list(*h as int),
                        heap.valid_list(*k as int),
                        *self == Value::List(*h),
                        *other == Value::List(*k),
                        x == lists[*h as int],
                        y == lists[*k as int],
                        x == crate::value::models(heap.lists@[*h as int]@),
                        y == crate::value::models(heap.lists@[*k as int]@),
                        n == x.len(),
                        n == y.len(),
                        n == heap.lists@[*h as int]@.len(),
                        n == heap.lists@[*k as int]@.len(),
                        0 <= j <= n,
                        fuel > 0,
                        forall|j2: int|
                            0 <= j2 < x.len() ==> eq_defined(
                                lists,
                                #[trigger] x[j2],
                                y[j2],
                                (fuel - 1) as nat,
                            ),
                        forall|j2: int|
                            0 <= j2 < j ==> val_eq_at(
                                lists,
                                #[trigger] x[j2],
                                y[j2],
                                (fuel - 1) as nat,
                            ),
                    decreases n - j,
                {
                    proof {
                        lemma_models(heap.lists@[*h as int]@);
                        lemma_models(heap.lists@[*k as int]@);
                        assert(x[j as int] == heap.lists@[*h as int]@[j as int].model());
                        assert(y[j as int] == heap.lists@[*k as int]@[j as int].model());
                    }
                    let same = heap.lists[*h][j].eq_at(
                        &heap.lists[*k][j],
                        heap,
                        Ghost((fuel - 1) as nat),
                    );
                    if !same {
                        proof {
                            lemma_seq_eq_pointwise(lists, x, y, 0, (fuel - 1) as nat);
                        }
                        return false;
                    }
                    j = j + 1;
                }
                proof {
                    lemma_seq_eq_pointwise(lists, x, y, 0, (fuel - 1) as nat);
                }
                true
            },
            (Value::List(_), _) => false,
            (Value::Tuple(es), Value::Tuple(fs)) => {
                let ghost lists = heap.lists_model();
                let ghost x = self.model()->Tuple_0;
                let ghost y = other.model()->Tuple_0;
                proof {
                    lemma_models(es@);
                    lemma_models(fs@);
                    lemma_eq_defined_pointwise(lists, x, y, 0, fuel);
                }
                let n = es.len();
                if fs.len() != n {
                    proof {
                        lemma_seq_eq_pointwise(lists, x, y, 0, fuel);
                    }
                    return false;
                }
                let mut j: usize = 0;
                while j < n
                    invariant
                        heap.lists_model() == lists,
                        *self == Value::Tuple(*es),
                        *other == Value::Tuple(*fs),
                        x == crate::value::models(es@),
                        y == crate::value::models(fs@),
                        n == es@.len(),
                        n == fs@.len(),
                        n == x.len(),
                        n == y.len(),
                        0 <= j <= n,
                        forall|j2: int|
                            0 <= j2 < x.len() ==> eq_defined(lists, #[trigger] x[j2], y[j2], fuel),
                        forall|j2: int|
                            0 <= j2 < j ==> val_eq_at(lists, #[trigger] x[j2], y[j2], fuel),
                    decreases n - j,
                {
                    proof {
                        lemma_models(es@);
                        lemma_models(fs@);
                        assert(x[j as int] == es@[j as int].model());
                        assert(y[j as int] == fs@[j as int].model());
                        assert(decreases_to!(*self => self->Tuple_0));
                        assert(decreases_to!(*es => es@[j as int]));
                    }
                    let same = es[j].eq_at(&fs[j], heap, Ghost(fuel));
                    if !same {
                        proof {
                            lemma_seq_eq_pointwise(lists, x, y, 0, fuel);
                        }
                        return false;
                    }
                    j = j + 1;
                }
                proof {
                    lemma_seq_eq_pointwise(lists, x, y, 0, fuel);
                }
                true
            },
            (Value::Tuple(_), _) => false,
            (Value::NoneVal, Value::NoneVal) => true,
            (Value::NoneVal, _) => false,
            _ => {
                // excluded by the precondition
                proof {
                    assert(false);
                }
                false
            },
        }
    }

    /// Structural equality: same variant with equal payloads, lists
    /// element-wise through the shared store, tuples element-wise;
    /// any cross-variant pair is unequal.
    pub fn eq(&self, other: &Value, heap: &Heap) -> (r: bool)
        requires
            val_eq_defined(heap.lists_model(), self.model(), other.model()),
        ensures
            r == val_eq(heap.lists_model(), self.model(), other.model()),
    {
        let ghost f = choose|f: nat|
            eq_defined(heap.lists_model(), self.model(), other.model(), f);
        let r = self.eq_at(other, heap, Ghost(f));
        proof {
            lemma_val_eq_agrees(heap.lists_model(), self.model(), other.model(), f);
        }
        r
    }

    /// Structural inequality: the negation of `eq`.
    pub fn ne(&self, other: &Value, heap: &Heap) -> (r: bool)
        requires
            val_eq_defined(heap.lists_model(), self.model(), other.model()),
        ensures
            r == !val_eq(heap.lists_model(), self.model(), other.model()),
    {
        !self.eq(other, heap)
    }

    /// Strict order, defined on number, string and boolean pairs.
    pub fn lt(&self, other: &Value) -> (r: bool)
        requires
            ord_defined(self.model(), other.model()),
        ensures
            r == val_lt(self.model(), other.model()),
    {
        match (self, other) {
            (Value::Number(n1), Value::Number(n2)) => n1.lt_num(n2),
            (Value::Str(s1), Value::Str(s2)) => str_lt(s1, s2),
            (Value::Bool(b1), Value::Bool(b2)) => !*b1 && *b2,
            _ => {
                // excluded by the precondition
                proof {
                    assert(false);
                }
                false
            },
        }
    }

    /// Non-strict order, defined on number, string and boolean pairs.
    pub fn le(&self, other: &Value) -> (r: bool)
        requires
            ord_defined(self.model(), other.model()),
        ensures
            r == val_le(self.model(), other.model()),
    {
        match (self, other) {
            (Value::Number(n1), Value::Number(n2)) => n1.le_num(n2),
            (Value::Str(s1), Value::Str(s2)) => {
                if *s1 == *s2 {
                    true
                } else {
                    str_lt(s1, s2)
                }
            },
            (Value::Bool(b1), Value::Bool(b2)) => !*b1 || *b2,
            _ => {
                // excluded by the precondition
                proof {
                    assert(false);
                }
                false
            },
        }
    }

    /// Strict reverse order, defined on number, string and boolean pairs.
    pub fn gt(&self, other: &Value) -> (r: bool)
        requires
            ord_defined(self.model(), other.model()),
        ensures
            r == val_lt(other.model(), self.model()),
    {
        other.lt(self)
    }

    /// Non-strict reverse order, defined on number, string and boolean
    /// pairs.
    pub fn ge(&self, other: &Value) -> (r: bool)
        requires
            ord_defined(self.model(), other.model()),
        ensures
            r == val_le(other.model(), self.model()),
    {
        other.le(self)
    }

    /// Comparison of number, string and boolean pairs: `None` exactly on
    /// unordered number pairs (a NaN is involved).
    pub fn partial_cmp(&self, other: &Value) -> (r: Option<Ordering>)
        requires
            ord_defined(self.model(), other.model()),
        ensures
            r == val_cmp(self.model(), other.model()),
    {
        match (self, other) {
            (Value::Number(n1), Value::Number(n2)) => n1.cmp_num(n2),
            (Value::Str(s1), Value::Str(s2)) => {
                if *s1 == *s2 {
                    Some(Ordering::Equal)
                } else if str_lt(s1, s2) {
                    Some(Ordering::Less)
                } else {
                    proof {
                        lemma_lex_from_total(s1@, s2@, 0);
                        if !lex_lt(s2@, s1@) {
                            assert(s1@ =~= s2@);
                        }
                    }
                    Some(Ordering::Greater)
                }
            },
            (Value::Bool(b1), Value::Bool(b2)) => {
                if *b1 == *b2 {
                    Some(Ordering::Equal)
                } else if !*b1 {
                    Some(Ordering::Less)
                } else {
                    Some(Ordering::Greater)
                }
            },
            _ => {
                // excluded by the precondition
                proof {
                    assert(false);
                }
                None
            },
        }
    }
}

} // verus!
