//! Indexing, slicing, containment and iteration snapshots.
//!
//! Lists and tuples are indexed with negative-from-end indices and
//! sliced with optional, clamped lower/upper/step bounds, as the source
//! language defines them. Containment tests string-in-string as
//! substring search and element-in-sequence through structural
//! equality. `clone_seq` snapshots a sequence for iteration.

use vstd::prelude::*;
use vstd::string::StrSliceExecFns;

use crate::cmp::val_eq;
use crate::cmp::val_eq_defined;
use crate::heap::Heap;
use crate::numeric::NumericType;
use crate::value::lemma_models;
use crate::value::models;
use crate::value::AbsVal;
use crate::value::Value;

verus! {

/// The value is an integer index.
pub open spec fn is_int_value(v: AbsVal) -> bool {
    v matches AbsVal::Num(n) && n is Integer
}

/// The integer a `Value` index carries.
pub open spec fn int_of(v: AbsVal) -> int {
    match v {
        AbsVal::Num(NumericType::Integer(i)) => i as int,
        _ => 0,
    }
}

/// A negative index counts from the end.
pub open spec fn norm_index(i: int, len: int) -> int {
    if i < 0 {
        i + len
    } else {
        i
    }
}

/// The sequence a list or tuple value holds, given the list store.
pub open spec fn seq_of(lists: Seq<Seq<AbsVal>>, a: AbsVal) -> Seq<AbsVal> {
    match a {
        AbsVal::List(h) => lists[h],
        AbsVal::Tuple(es) => es,
        _ => Seq::empty(),
    }
}

/// The value is a list with a live handle or a tuple.
pub open spec fn is_sequence(lists: Seq<Seq<AbsVal>>, a: AbsVal) -> bool {
    match a {
        AbsVal::List(h) => 0 <= h < lists.len(),
        AbsVal::Tuple(_) => true,
        _ => false,
    }
}

/// Indexing is defined: a sequence, an integer index, in bounds after
/// normalisation.
pub open spec fn index_ok(lists: Seq<Seq<AbsVal>>, a: AbsVal, idx: AbsVal) -> bool {
    &&& is_sequence(lists, a)
    &&& is_int_value(idx)
    &&& 0 <= norm_index(int_of(idx), seq_of(lists, a).len() as int) < seq_of(lists, a).len()
}

/// The optional bound is absent or an integer value.
pub open spec fn opt_int_ok(o: Option<Value>) -> bool {
    match o {
        Some(v) => is_int_value(v.model()),
        None => true,
    }
}

/// The integer an optional bound carries.
pub open spec fn opt_int(o: Option<Value>) -> Option<int> {
    match o {
        Some(v) => Some(int_of(v.model())),
        None => None,
    }
}

/// The step of a slice: absent means one.
pub open spec fn step_of(o: Option<Value>) -> int {
    match opt_int(o) {
        Some(s) => s,
        None => 1,
    }
}

/// Where a slice starts: the lower bound normalised and clamped, or the
/// front (back, for a negative step).
pub open spec fn slice_start(l: Option<int>, len: int, step: int) -> int {
    match l {
        Some(i0) => {
            let i = norm_index(i0, len);
            if step > 0 {
                if i < 0 {
                    0
                } else if i > len {
                    len
                } else {
                    i
                }
            } else {
                if i < 0 {
                    -1
                } else if i > len - 1 {
                    len - 1
                } else {
                    i
                }
            }
        },
        None => if step > 0 {
            0
        } else {
            len - 1
        },
    }
}

/// Where a slice stops (exclusive): the upper bound normalised and
/// clamped, or the back (front, for a negative step).
pub open spec fn slice_stop(u: Option<int>, len: int, step: int) -> int {
    match u {
        Some(i0) => {
            let i = norm_index(i0, len);
            if step > 0 {
                if i < 0 {
                    0
                } else if i > len {
                    len
                } else {
                    i
                }
            } else {
                if i < 0 {
                    -1
                } else if i > len - 1 {
                    len - 1
                } else {
                    i
                }
            }
        },
        None => if step > 0 {
            len
        } else {
            -1
        },
    }
}

/// The elements a slice walk collects, from `idx` toward `stop` by
/// `step`.
pub open spec fn slice_walk(contents: Seq<AbsVal>, idx: int, stop: int, step: int) -> Seq<AbsVal>
    decreases
            (if step > 0 {
                if stop - idx > 0 {
                    stop - idx
                } else {
                    0
                }
            } else {
                if idx - stop > 0 {
                    idx - stop
                } else {
                    0
                }
            }),
{
    if step == 0 {
        Seq::empty()
    } else if step > 0 {
        if idx < stop {
            seq![contents[idx]] + slice_walk(contents, idx + step, stop, step)
        } else {
            Seq::empty()
        }
    } else {
        if idx > stop {
            seq![contents[idx]] + slice_walk(contents, idx + step, stop, step)
        } else {
            Seq::empty()
        }
    }
}

/// The contents of a slice of a sequence.
pub open spec fn slice_model(contents: Seq<AbsVal>, l: Option<int>, u: Option<int>, step: int) -> Seq<
    AbsVal,
> {
    slice_walk(
        contents,
        slice_start(l, contents.len() as int, step),
        slice_stop(u, contents.len() as int, step),
        step,
    )
}

/// The needle occurs contiguously in the haystack.
pub open spec fn is_substring(sub: Seq<char>, s: Seq<char>) -> bool {
    exists|i: int| 0 <= i <= s.len() - sub.len() && #[trigger] s.subrange(i, i + sub.len()) == sub
}

/// Every element of the sequence is comparable with the value.
pub open spec fn seq_all_comparable(lists: Seq<Seq<AbsVal>>, a: AbsVal, xs: Seq<AbsVal>) -> bool {
    forall|j: int| 0 <= j < xs.len() ==> #[trigger] val_eq_defined(lists, a, xs[j])
}

/// Some element of the sequence equals the value.
pub open spec fn seq_any_equal(lists: Seq<Seq<AbsVal>>, a: AbsVal, xs: Seq<AbsVal>) -> bool {
    exists|j: int| 0 <= j < xs.len() && #[trigger] val_eq(lists, a, xs[j])
}

/// Containment is defined: string in string, or a value against the
/// elements of a list or tuple, each pair comparable.
pub open spec fn contains_defined(lists: Seq<Seq<AbsVal>>, a: AbsVal, it: AbsVal) -> bool {
    match it {
        AbsVal::Str(_) => a is Str,
        AbsVal::List(h) => 0 <= h < lists.len() && seq_all_comparable(lists, a, seq_of(lists, it)),
        AbsVal::Tuple(_) => seq_all_comparable(lists, a, seq_of(lists, it)),
        _ => false,
    }
}

/// Containment: substring search for strings, structural membership for
/// lists and tuples.
pub open spec fn val_contains(lists: Seq<Seq<AbsVal>>, a: AbsVal, it: AbsVal) -> bool {
    match it {
        AbsVal::Str(s) => a matches AbsVal::Str(sub) && is_substring(sub, s),
        AbsVal::List(_) => seq_any_equal(lists, a, seq_of(lists, it)),
        AbsVal::Tuple(_) => seq_any_equal(lists, a, seq_of(lists, it)),
        _ => false,
    }
}

/// Substring search, character by character.
fn str_contains(s: &String, sub: &String) -> (r: bool)
    ensures
        r == is_substring(sub@, s@),
{
    let n = s.as_str().unicode_len();
    let m = sub.as_str().unicode_len();
    if m > n {
        proof {
            assert(s@.len() - sub@.len() < 0);
        }
        return false;
    }
    if m == 0 {
        proof {
            assert(s@.subrange(0, 0 + sub@.len() as int) =~= sub@);
        }
        return true;
    }
    let mut i: usize = 0;
    while i <= n - m
        invariant
            m >= 1,
            m <= n,
            n == s@.len(),
            m == sub@.len(),
            0 <= i <= n - m + 1,
            forall|i2: int| 0 <= i2 < i ==> #[trigger] s@.subrange(i2, i2 + m) != sub@,
        decreases n - i,
    {
        let mut j: usize = 0;
        let mut hit = true;
        while j < m && hit
            invariant
                m >= 1,
                m <= n,
                n == s@.len(),
                m == sub@.len(),
                0 <= i <= n - m,
                0 <= j <= m,
                hit ==> forall|t: int| 0 <= t < j ==> s@[i + t] == sub@[t],
                !hit ==> s@.subrange(i as int, i + m) != sub@,
            decreases m - j + (if hit { 1int } else { 0int }),
        {
            let cs = s.as_str().get_char(i + j);
            let cp = sub.as_str().get_char(j);
            if cs != cp {
                proof {
                    if s@.subrange(i as int, i + m) == sub@ {
                        assert(s@.subrange(i as int, i + m)[j as int] == s@[i + j]);
                    }
                }
                hit = false;
            } else {
                j = j + 1;
            }
        }
        if hit {
            proof {
                assert(s@.subrange(i as int, i + m) =~= sub@);
            }
            return true;
        }
        i = i + 1;
    }
    proof {
        assert forall|i2: int| 0 <= i2 <= s@.len() - sub@.len() implies #[trigger] s@.subrange(
            i2,
            i2 + sub@.len(),
        ) != sub@ by {}
    }
    false
}

impl Value {
    /// The element of a list or tuple at an integer index, counted from
    /// the end when negative.
    pub fn index(&self, index: Value, heap: &Heap) -> (r: Value)
        requires
            index_ok(heap.lists_model(), self.model(), index.model()),
        ensures
            r.model() == seq_of(heap.lists_model(), self.model())[norm_index(
                int_of(index.model()),
                seq_of(heap.lists_model(), self.model()).len() as int,
            )],
    {
        let i: i64 = match index {
            Value::Number(NumericType::Integer(i)) => i,
            _ => {
                // excluded by the precondition
                proof {
                    assert(false);
                }
                0
            },
        };
        match self {
            Value::List(h) => {
                let len = heap.list_len(*h);
                let j: usize = if i < 0 {
                    len - ((-(i as i128)) as usize)
                } else {
                    i as usize
                };
                heap.list_get(*h, j)
            },
            Value::Tuple(es) => {
                proof {
                    lemma_models(es@);
                }
                let len = es.len();
                let j: usize = if i < 0 {
                    len - ((-(i as i128)) as usize)
                } else {
                    i as usize
                };
                es[j].dup()
            },
            _ => {
                // excluded by the precondition
                proof {
                    assert(false);
                }
                Value::NoneVal
            },
        }
    }

    /// A slice of a list or tuple, with optional lower, upper and step
    /// bounds: a fresh list, or a fresh tuple, of the walked elements.
    pub fn slice(&self, lower: Option<Value>, upper: Option<Value>, step: Option<Value>, heap: &mut Heap) -> (r: Value)
        requires
            is_sequence(old(heap).lists_model(), self.model()),
            opt_int_ok(lower),
            opt_int_ok(upper),
            opt_int_ok(step),
            step_of(step) != 0,
        ensures
            ({
                let contents = seq_of(old(heap).lists_model(), self.model());
                let picked = slice_model(contents, opt_int(lower), opt_int(upper), step_of(step));
                match self.model() {
                    AbsVal::List(_) => {
                        &&& r.model() == AbsVal::List(old(heap).lists_model().len() as int)
                        &&& final(heap).lists_model() == old(heap).lists_model().push(picked)
                    },
                    AbsVal::Tuple(_) => {
                        &&& r.model() == AbsVal::Tuple(picked)
                        &&& final(heap).lists_model() == old(heap).lists_model()
                    },
                    _ => false,
                }
            }),
            final(heap).objects_model() == old(heap).objects_model(),
    {
        let l: Option<i64> = match &lower {
            Some(Value::Number(NumericType::Integer(i))) => Some(*i),
            None => None,
            _ => {
                // excluded by the precondition
                proof {
                    assert(false);
                }
                None
            },
        };
        let u: Option<i64> = match &upper {
            Some(Value::Number(NumericType::Integer(i))) => Some(*i),
            None => None,
            _ => {
                // excluded by the precondition
                proof {
                    assert(false);
                }
                None
            },
        };
        let st: i64 = match &step {
            Some(Value::Number(NumericType::Integer(i))) => *i,
            None => 1,
            _ => {
                // excluded by the precondition
                proof {
                    assert(false);
                }
                1
            },
        };
        match self {
            Value::List(h) => {
                let picked = walk_slice(&heap.lists[*h], l, u, st);
                proof {
                    lemma_models(heap.lists@[*h as int]@);
                }
                let nh = heap.alloc_list(picked);
                Value::List(nh)
            },
            Value::Tuple(es) => {
                let picked = walk_slice(es, l, u, st);
                proof {
                    lemma_models(es@);
                }
                Value::Tuple(picked)
            },
            _ => {
                // excluded by the precondition
                proof {
                    assert(false);
                }
                Value::NoneVal
            },
        }
    }

    /// The source language's `in`: substring search on strings,
    /// structural membership on lists and tuples.
    pub fn contained_in(&self, iterable: &Value, heap: &Heap) -> (r: bool)
        requires
            contains_defined(heap.lists_model(), self.model(), iterable.model()),
        ensures
            r == val_contains(heap.lists_model(), self.model(), iterable.model()),
    {
        match iterable {
            Value::Str(s) => {
                let sub = match self {
                    Value::Str(sub) => sub,
                    _ => {
                        // excluded by the precondition
                        proof {
                            assert(false);
                        }
                        s
                    },
                };
                str_contains(s, sub)
            },
            Value::List(..) | Value::Tuple(..) => {
                let ghost lists = heap.lists_model();
                let ghost x = seq_of(lists, iterable.model());
                proof {
                    if let Value::List(h) = iterable {
                        lemma_models(heap.lists@[*h as int]@);
                    }
                    if let Value::Tuple(es) = iterable {
                        lemma_models(es@);
                    }
                    assert(seq_all_comparable(lists, self.model(), x));
                }
                let n = match iterable {
                    Value::List(h) => heap.lists[*h].len(),
                    Value::Tuple(es) => es.len(),
                    _ => 0,
                };
                let mut j: usize = 0;
                while j < n
                    invariant
                        heap.lists_model() == lists,
                        iterable matches Value::List(h2) ==> heap.valid_list(h2 as int),
                        iterable is List || iterable is Tuple,
                        x == seq_of(lists, iterable.model()),
                        n == x.len(),
                        iterable matches Value::List(h2) ==> n == heap.lists@[h2 as int]@.len(),
                        iterable matches Value::Tuple(es2) ==> n == es2@.len(),
                        0 <= j <= n,
                        seq_all_comparable(lists, self.model(), x),
                        forall|j2: int|
                            0 <= j2 < j ==> !(#[trigger] val_eq(lists, self.model(), x[j2])),
                    decreases n - j,
                {
                    let elem: &Value = match iterable {
                        Value::List(h) => {
                            proof {
                                lemma_models(heap.lists@[*h as int]@);
                            }
                            &heap.lists[*h][j]
                        },
                        Value::Tuple(es) => {
                            proof {
                                lemma_models(es@);
                            }
                            &es[j]
                        },
                        _ => {
                            proof {
                                assert(false);
                            }
                            iterable
                        },
                    };
                    proof {
                        assert(x[j as int] == elem.model());
                        assert(val_eq_defined(lists, self.model(), x[j as int]));
                    }
                    if self.eq(elem, heap) {
                        proof {
                            assert(val_eq(lists, self.model(), x[j as int]));
                            assert(seq_any_equal(lists, self.model(), x));
                        }
                        return true;
                    }
                    j = j + 1;
                }
                proof {
                    assert(!seq_any_equal(lists, self.model(), x)) by {
                        if seq_any_equal(lists, self.model(), x) {
                            let j2 = choose|j2: int|
                                0 <= j2 < x.len() && #[trigger] val_eq(lists, self.model(), x[j2]);
                            assert(!val_eq(lists, self.model(), x[j2]));
                        }
                    }
                }
                false
            },
            _ => {
                // excluded by the precondition
                proof {
                    assert(false);
                }
                false
            },
        }
    }

    /// The source language's `not in`, provided as a first-class
    /// operation: the negation of `contained_in`.
    pub fn not_contained_in(&self, iterable: &Value, heap: &Heap) -> (r: bool)
        requires
            contains_defined(heap.lists_model(), self.model(), iterable.model()),
        ensures
            r == !val_contains(heap.lists_model(), self.model(), iterable.model()),
    {
        !self.contained_in(iterable, heap)
    }

    /// A fresh, independent snapshot of a list's or tuple's elements,
    /// used to drive iteration.
    pub fn clone_seq(&self, heap: &Heap) -> (r: Vec<Value>)
        requires
            is_sequence(heap.lists_model(), self.model()),
        ensures
            models(r@) == seq_of(heap.lists_model(), self.model()),
    {
        match self {
            Value::List(h) => {
                proof {
                    lemma_models(heap.lists@[*h as int]@);
                }
                let n = heap.lists[*h].len();
                let mut out: Vec<Value> = Vec::new();
                let mut j: usize = 0;
                while j < n
                    invariant
                        heap.valid_list(*h as int),
                        n == heap.lists@[*h as int]@.len(),
                        0 <= j <= n,
                        out@.len() == j,
                        forall|j2: int|
                            0 <= j2 < j ==> (#[trigger] out@[j2]).model() == heap.lists@[*h as int]@[j2].model(),
                    decreases n - j,
                {
                    proof {
                        lemma_models(heap.lists@[*h as int]@);
                    }
                    out.push(heap.list_get(*h, j));
                    j = j + 1;
                }
                proof {
                    lemma_models(out@);
                    lemma_models(heap.lists@[*h as int]@);
                    assert(models(out@) =~= models(heap.lists@[*h as int]@));
                }
                out
            },
            Value::Tuple(es) => {
                let copy = self.dup();
                match copy {
                    Value::Tuple(out) => out,
                    _ => {
                        // dup keeps the variant
                        proof {
                            assert(false);
                        }
                        Vec::new()
                    },
                }
            },
            _ => {
                // excluded by the precondition
                proof {
                    assert(false);
                }
                Vec::new()
            },
        }
    }
}

/// The elements a slice walk collects, executed.
fn walk_slice(contents: &Vec<Value>, l: Option<i64>, u: Option<i64>, st: i64) -> (r: Vec<Value>)
    requires
        st != 0,
    ensures
        models(r@) == slice_walk(
            models(contents@),
            slice_start(
                match l {
                    Some(i) => Some(i as int),
                    None => None,
                },
                contents@.len() as int,
                st as int,
            ),
            slice_stop(
                match u {
                    Some(i) => Some(i as int),
                    None => None,
                },
                contents@.len() as int,
                st as int,
            ),
            st as int,
        ),
{
    proof {
        lemma_models(contents@);
    }
    let ghost cm = models(contents@);
    let n: i128 = contents.len() as i128;
    let start: i128 = match l {
        Some(i0) => {
            let i: i128 = if i0 < 0 {
                i0 as i128 + n
            } else {
                i0 as i128
            };
            if st > 0 {
                if i < 0 {
                    0
                } else if i > n {
                    n
                } else {
                    i
                }
            } else {
                if i < 0 {
                    -1
                } else if i > n - 1 {
                    n - 1
                } else {
                    i
                }
            }
        },
        None => if st > 0 {
            0
        } else {
            n - 1
        },
    };
    let stop: i128 = match u {
        Some(i0) => {
            let i: i128 = if i0 < 0 {
                i0 as i128 + n
            } else {
                i0 as i128
            };
            if st > 0 {
                if i < 0 {
                    0
                } else if i > n {
                    n
                } else {
                    i
                }
            } else {
                if i < 0 {
                    -1
                } else if i > n - 1 {
                    n - 1
                } else {
                    i
                }
            }
        },
        None => if st > 0 {
            n
        } else {
            -1
        },
    };
    let mut out: Vec<Value> = Vec::new();
    let mut idx: i128 = start;
    while (st > 0 && idx < stop) || (st < 0 && idx > stop)
        invariant
            st != 0,
            n == contents@.len(),
            0 <= n <= usize::MAX,
            cm == models(contents@),
            cm.len() == n,
            st > 0 ==> 0 <= start && stop <= n && idx >= start,
            st < 0 ==> start <= n - 1 && stop >= -1 && idx <= start,
            models(out@) + slice_walk(cm, idx as int, stop as int, st as int) == slice_walk(
                cm,
                start as int,
                stop as int,
                st as int,
            ),
        decreases
                (if st > 0 {
                    if stop - idx > 0 {
                        stop - idx
                    } else {
                        0
                    }
                } else {
                    if idx - stop > 0 {
                        idx - stop
                    } else {
                        0
                    }
                }),
    {
        proof {
            lemma_models(contents@);
            lemma_models(out@);
            assert(cm[idx as int] == contents@[idx as int].model());
        }
        let ghost before = models(out@);
        out.push(contents[idx as usize].dup());
        proof {
            lemma_models(out@);
            assert(models(out@) =~= before.push(cm[idx as int]));
            assert(before.push(cm[idx as int]) =~= before + seq![cm[idx as int]]);
        }
        idx = idx + st as i128;
    }
    proof {
        assert(models(out@) + Seq::<AbsVal>::empty() =~= models(out@));
    }
    out
}

} // verus!
