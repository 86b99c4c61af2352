//! Rendering of values.
//!
//! The human-facing and the debug-facing text of this value model are
//! identical. Numbers render in decimal (floats through the tower's
//! decimal rendering), booleans as the source language's `True` and
//! `False`, lists and tuples element-wise in brackets, callables as an
//! opaque token, classes and objects in an angle-bracketed form naming
//! the mandatory `__name__` member, an object also carrying its handle
//! as a stable identity token, and the absence sentinel as `None`.
//! Lists can reach further lists through the store, so the defining
//! recursion is bounded by a fuel, as equality's is.

use vstd::prelude::*;
use vstd::string::StringExecFns;

use crate::float;
use crate::float::f64_str_bits;
use crate::heap::Heap;
use crate::numeric::NumericType;
use crate::table::lemma_entries_model;
use crate::table::tbl_lookup;
use crate::value::lemma_models;
use crate::value::models;
use crate::value::AbsVal;
use crate::value::Value;

verus! {

/// The decimal digit character.
pub open spec fn digit_char(d: nat) -> char {
    if d == 0 {
        '0'
    } else if d == 1 {
        '1'
    } else if d == 2 {
        '2'
    } else if d == 3 {
        '3'
    } else if d == 4 {
        '4'
    } else if d == 5 {
        '5'
    } else if d == 6 {
        '6'
    } else if d == 7 {
        '7'
    } else if d == 8 {
        '8'
    } else {
        '9'
    }
}

/// Decimal digits of a non-negative integer, most significant first.
pub open spec fn udec(n: nat) -> Seq<char>
    decreases n,
{
    if n < 10 {
        seq![digit_char(n)]
    } else {
        udec(n / 10).push(digit_char(n % 10))
    }
}

/// Decimal rendering of an integer, with a leading minus when negative.
pub open spec fn int_dec(i: int) -> Seq<char> {
    if i < 0 {
        seq!['-'] + udec((-i) as nat)
    } else {
        udec(i as nat)
    }
}

fn digit_str(d: u64) -> (r: &'static str)
    requires
        d < 10,
    ensures
        r@ == seq![digit_char(d as nat)],
{
    if d == 0 {
        proof {
            reveal_strlit("0");
            assert("0"@ =~= seq![digit_char(0)]);
        }
        "0"
    } else if d == 1 {
        proof {
            reveal_strlit("1");
            assert("1"@ =~= seq![digit_char(1)]);
        }
        "1"
    } else if d == 2 {
        proof {
            reveal_strlit("2");
            assert("2"@ =~= seq![digit_char(2)]);
        }
        "2"
    } else if d == 3 {
        proof {
            reveal_strlit("3");
            assert("3"@ =~= seq![digit_char(3)]);
        }
        "3"
    } else if d == 4 {
        proof {
            reveal_strlit("4");
            assert("4"@ =~= seq![digit_char(4)]);
        }
        "4"
    } else if d == 5 {
        proof {
            reveal_strlit("5");
            assert("5"@ =~= seq![digit_char(5)]);
        }
        "5"
    } else if d == 6 {
        proof {
            reveal_strlit("6");
            assert("6"@ =~= seq![digit_char(6)]);
        }
        "6"
    } else if d == 7 {
        proof {
            reveal_strlit("7");
            assert("7"@ =~= seq![digit_char(7)]);
        }
        "7"
    } else if d == 8 {
        proof {
            reveal_strlit("8");
            assert("8"@ =~= seq![digit_char(8)]);
        }
        "8"
    } else {
        proof {
            reveal_strlit("9");
            assert("9"@ =~= seq![digit_char(9)]);
        }
        "9"
    }
}

/// The decimal text of an unsigned integer.
pub fn u64_dec(n: u64) -> (s: String)
    ensures
        s@ == udec(n as nat),
    decreases n,
{
    if n < 10 {
        String::from_str(digit_str(n))
    } else {
        let mut s = u64_dec(n / 10);
        s.append(digit_str(n % 10));
        proof {
            assert(s@ =~= udec((n / 10) as nat).push(digit_char((n % 10) as nat)));
        }
        s
    }
}

/// The decimal text of a signed integer.
pub fn i64_dec(i: i64) -> (s: String)
    ensures
        s@ == int_dec(i as int),
{
    if i >= 0 {
        u64_dec(i as u64)
    } else {
        let mut s = String::from_str("-");
        proof {
            reveal_strlit("-");
            assert("-"@ =~= seq!['-']);
        }
        let mag = u64_dec((-(i as i128)) as u64);
        s.append(mag.as_str());
        s
    }
}

/// Rendering is defined: handles are live, every class or object shown
/// carries `__name__`, and one unit of fuel is spent per list or object
/// indirection.
pub open spec fn repr_defined(
    lists: Seq<Seq<AbsVal>>,
    objects: Seq<Seq<(Seq<char>, AbsVal)>>,
    a: AbsVal,
    fuel: nat,
) -> bool
    decreases fuel, a, 0nat,
{
    match a {
        AbsVal::Num(_) => true,
        AbsVal::Str(_) => true,
        AbsVal::Bool(_) => true,
        AbsVal::Null => true,
        AbsVal::Function(_) => true,
        AbsVal::Stream(_) => true,
        AbsVal::List(h) => fuel > 0 && 0 <= h < lists.len() && items_defined(
            lists,
            objects,
            lists[h],
            0,
            (fuel - 1) as nat,
        ),
        AbsVal::Tuple(es) => items_defined(lists, objects, es, 0, fuel),
        AbsVal::Class(t) => fuel > 0 && match tbl_lookup(t, "__name__"@) {
            Some(nm) => repr_defined(lists, objects, nm, (fuel - 1) as nat),
            None => false,
        },
        AbsVal::Object(h) => fuel > 0 && 0 <= h < objects.len() && match tbl_lookup(
            objects[h],
            "__name__"@,
        ) {
            Some(nm) => repr_defined(lists, objects, nm, (fuel - 1) as nat),
            None => false,
        },
    }
}

/// Rendering of the elements from an index on is defined.
pub open spec fn items_defined(
    lists: Seq<Seq<AbsVal>>,
    objects: Seq<Seq<(Seq<char>, AbsVal)>>,
    xs: Seq<AbsVal>,
    i: int,
    fuel: nat,
) -> bool
    decreases fuel, xs, xs.len() - i,
{
    if i < 0 || i >= xs.len() {
        true
    } else {
        repr_defined(lists, objects, xs[i], fuel) && items_defined(lists, objects, xs, i + 1, fuel)
    }
}

/// The rendered text at a given fuel. Meaningful where `repr_defined`
/// holds at that fuel.
pub open spec fn repr_spec(
    lists: Seq<Seq<AbsVal>>,
    objects: Seq<Seq<(Seq<char>, AbsVal)>>,
    a: AbsVal,
    fuel: nat,
) -> Seq<char>
    decreases fuel, a, 0nat,
{
    match a {
        AbsVal::Num(NumericType::Integer(i)) => int_dec(i as int),
        AbsVal::Num(NumericType::Float(b)) => f64_str_bits(b),
        AbsVal::Str(s) => s,
        AbsVal::Bool(b) => if b {
            "True"@
        } else {
            "False"@
        },
        AbsVal::Null => "None"@,
        AbsVal::Function(_) => "<cannoli function>"@,
        AbsVal::Stream(_) => "TextIOWrapper"@,
        AbsVal::List(h) => if fuel > 0 {
            "["@ + items_spec(lists, objects, lists[h], 0, (fuel - 1) as nat) + "]"@
        } else {
            Seq::empty()
        },
        AbsVal::Tuple(es) => "("@ + items_spec(lists, objects, es, 0, fuel) + ")"@,
        AbsVal::Class(t) => if fuel > 0 {
            match tbl_lookup(t, "__name__"@) {
                Some(nm) => "<'"@ + repr_spec(lists, objects, nm, (fuel - 1) as nat) + "' class>"@,
                None => Seq::empty(),
            }
        } else {
            Seq::empty()
        },
        AbsVal::Object(h) => if fuel > 0 {
            match tbl_lookup(objects[h], "__name__"@) {
                Some(nm) => "<'"@ + repr_spec(lists, objects, nm, (fuel - 1) as nat)
                    + "' object at "@ + int_dec(h) + ">"@,
                None => Seq::empty(),
            }
        } else {
            Seq::empty()
        },
    }
}

/// The rendered elements from an index on, separated by a comma and a
/// space.
pub open spec fn items_spec(
    lists: Seq<Seq<AbsVal>>,
    objects: Seq<Seq<(Seq<char>, AbsVal)>>,
    xs: Seq<AbsVal>,
    i: int,
    fuel: nat,
) -> Seq<char>
    decreases fuel, xs, xs.len() - i,
{
    if i < 0 || i >= xs.len() {
        Seq::empty()
    } else if i + 1 == xs.len() {
        repr_spec(lists, objects, xs[i], fuel)
    } else {
        repr_spec(lists, objects, xs[i], fuel) + ", "@ + items_spec(lists, objects, xs, i + 1, fuel)
    }
}

/// Raising the fuel preserves definedness and the rendered text.
pub proof fn lemma_repr_fuel(
    lists: Seq<Seq<AbsVal>>,
    objects: Seq<Seq<(Seq<char>, AbsVal)>>,
    a: AbsVal,
    f1: nat,
    f2: nat,
)
    requires
        repr_defined(lists, objects, a, f1),
        f1 <= f2,
    ensures
        repr_defined(lists, objects, a, f2),
        repr_spec(lists, objects, a, f1) == repr_spec(lists, objects, a, f2),
    decreases f1, a, 0nat,
{
    match a {
        AbsVal::List(h) => {
            lemma_items_fuel(lists, objects, lists[h], 0, (f1 - 1) as nat, (f2 - 1) as nat);
        },
        AbsVal::Tuple(es) => {
            lemma_items_fuel(lists, objects, es, 0, f1, f2);
        },
        AbsVal::Class(t) => {
            if let Some(nm) = tbl_lookup(t, "__name__"@) {
                lemma_repr_fuel(lists, objects, nm, (f1 - 1) as nat, (f2 - 1) as nat);
            }
        },
        AbsVal::Object(h) => {
            if let Some(nm) = tbl_lookup(objects[h], "__name__"@) {
                lemma_repr_fuel(lists, objects, nm, (f1 - 1) as nat, (f2 - 1) as nat);
            }
        },
        _ => {},
    }
}

/// Raising the fuel preserves element-wise definedness and text.
pub proof fn lemma_items_fuel(
    lists: Seq<Seq<AbsVal>>,
    objects: Seq<Seq<(Seq<char>, AbsVal)>>,
    xs: Seq<AbsVal>,
    i: int,
    f1: nat,
    f2: nat,
)
    requires
        items_defined(lists, objects, xs, i, f1),
        f1 <= f2,
    ensures
        items_defined(lists, objects, xs, i, f2),
        items_spec(lists, objects, xs, i, f1) == items_spec(lists, objects, xs, i, f2),
    decreases f1, xs, xs.len() - i,
{
    if 0 <= i < xs.len() {
        lemma_repr_fuel(lists, objects, xs[i], f1, f2);
        lemma_items_fuel(lists, objects, xs, i + 1, f1, f2);
    }
}

/// Definedness of the elements from an index is definedness of each.
pub proof fn lemma_items_defined_pointwise(
    lists: Seq<Seq<AbsVal>>,
    objects: Seq<Seq<(Seq<char>, AbsVal)>>,
    xs: Seq<AbsVal>,
    i: int,
    fuel: nat,
)
    requires
        0 <= i,
    ensures
        items_defined(lists, objects, xs, i, fuel) <==> forall|j: int|
            i <= j < xs.len() ==> repr_defined(lists, objects, #[trigger] xs[j], fuel),
    decreases xs.len() - i,
{
    if i < xs.len() {
        lemma_items_defined_pointwise(lists, objects, xs, i + 1, fuel);
    }
}

/// Some fuel suffices to render the value.
pub open spec fn val_repr_defined(
    lists: Seq<Seq<AbsVal>>,
    objects: Seq<Seq<(Seq<char>, AbsVal)>>,
    a: AbsVal,
) -> bool {
    exists|f: nat| repr_defined(lists, objects, a, f)
}

/// The rendered text of a value for which some fuel suffices.
pub open spec fn val_repr(
    lists: Seq<Seq<AbsVal>>,
    objects: Seq<Seq<(Seq<char>, AbsVal)>>,
    a: AbsVal,
) -> Seq<char> {
    repr_spec(lists, objects, a, choose|f: nat| repr_defined(lists, objects, a, f))
}

/// Every sufficient fuel yields the same text.
pub proof fn lemma_repr_agrees(
    lists: Seq<Seq<AbsVal>>,
    objects: Seq<Seq<(Seq<char>, AbsVal)>>,
    a: AbsVal,
    f: nat,
)
    requires
        repr_defined(lists, objects, a, f),
    ensures
        val_repr_defined(lists, objects, a),
        val_repr(lists, objects, a) == repr_spec(lists, objects, a, f),
{
    let f0 = choose|g: nat| repr_defined(lists, objects, a, g);
    if f0 <= f {
        lemma_repr_fuel(lists, objects, a, f0, f);
    } else {
        lemma_repr_fuel(lists, objects, a, f, f0);
    }
}

impl Value {
    /// The rendered text at a given fuel: the recursion that realises
    /// `repr_spec`.
    fn repr_at(&self, heap: &Heap, Ghost(fuel): Ghost<nat>) -> (r: String)
        requires
            repr_defined(heap.lists_model(), heap.objects_model(), self.model(), fuel),
        ensures
            r@ == repr_spec(heap.lists_model(), heap.objects_model(), self.model(), fuel),
        decreases fuel, self, 0nat,
    {
        let ghost lists = heap.lists_model();
        let ghost objects = heap.objects_model();
        match self {
            Value::Number(NumericType::Integer(i)) => i64_dec(*i),
            Value::Number(NumericType::Float(b)) => float::str_bits(*b),
            Value::Str(s) => s.clone(),
            Value::Bool(b) => {
                if *b {
                    String::from_str("True")
                } else {
                    String::from_str("False")
                }
            },
            Value::NoneVal => String::from_str("None"),
            Value::Function(_) => String::from_str("<cannoli function>"),
            Value::TextIOWrapper(_) => String::from_str("TextIOWrapper"),
            Value::List(h) => {
                let ghost x = lists[*h as int];
                proof {
                    lemma_models(heap.lists@[*h as int]@);
                    lemma_items_defined_pointwise(lists, objects, x, 0, (fuel - 1) as nat);
                }
                let mut out = String::from_str("[");
                let n = heap.lists[*h].len();
                let mut j: usize = 0;
                while j < n
                    invariant
                        heap.lists_model() == lists,
                        heap.objects_model() == objects,
                        heap.valid_list(*h as int),
                        *self == Value::List(*h),
                        fuel > 0,
                        x == lists[*h as int],
                        x == models(heap.lists@[*h as int]@),
                        n == x.len(),
                        n == heap.lists@[*h as int]@.len(),
                        0 <= j <= n,
                        forall|j2: int|
                            0 <= j2 < n ==> repr_defined(
                                lists,
                                objects,
                                #[trigger] x[j2],
                                (fuel - 1) as nat,
                            ),
                        out@ + items_spec(lists, objects, x, j as int, (fuel - 1) as nat) == "["@
                            + items_spec(lists, objects, x, 0, (fuel - 1) as nat),
                    decreases n - j,
                {
                    proof {
                        lemma_models(heap.lists@[*h as int]@);
                        assert(x[j as int] == heap.lists@[*h as int]@[j as int].model());
                    }
                    let piece = heap.lists[*h][j].repr_at(heap, Ghost((fuel - 1) as nat));
                    let ghost before = out@;
                    out.append(piece.as_str());
                    if j + 1 < n {
                        let ghost mid = out@;
                        out.append(", ");
                        proof {
                            assert(out@ + items_spec(lists, objects, x, j + 1, (fuel - 1) as nat)
                                =~= before + items_spec(lists, objects, x, j as int, (fuel - 1) as nat));
                        }
                    } else {
                        proof {
                            assert(out@ + items_spec(lists, objects, x, j + 1, (fuel - 1) as nat)
                                =~= before + items_spec(lists, objects, x, j as int, (fuel - 1) as nat));
                        }
                    }
                    j = j + 1;
                }
                out.append("]");
                proof {
                    assert(out@ =~= "["@ + items_spec(lists, objects, x, 0, (fuel - 1) as nat)
                        + "]"@);
                }
                out
            },
            Value::Tuple(es) => {
                let ghost x = models(es@);
                proof {
                    lemma_models(es@);
                    lemma_items_defined_pointwise(lists, objects, x, 0, fuel);
                }
                let mut out = String::from_str("(");
                let n = es.len();
                let mut j: usize = 0;
                while j < n
                    invariant
                        heap.lists_model() == lists,
                        heap.objects_model() == objects,
                        *self == Value::Tuple(*es),
                        x == models(es@),
                        n == es@.len(),
                        n == x.len(),
                        0 <= j <= n,
                        forall|j2: int|
                            0 <= j2 < n ==> repr_defined(lists, objects, #[trigger] x[j2], fuel),
                        out@ + items_spec(lists, objects, x, j as int, fuel) == "("@ + items_spec(
                            lists,
                            objects,
                            x,
                            0,
                            fuel,
                        ),
                    decreases n - j,
                {
                    proof {
                        lemma_models(es@);
                        assert(x[j as int] == es@[j as int].model());
                        assert(decreases_to!(*self => self->Tuple_0));
                        assert(decreases_to!(*es => es@[j as int]));
                    }
                    let piece = es[j].repr_at(heap, Ghost(fuel));
                    let ghost before = out@;
                    out.append(piece.as_str());
                    if j + 1 < n {
                        out.append(", ");
                        proof {
                            assert(out@ + items_spec(lists, objects, x, j + 1, fuel) =~= before
                                + items_spec(lists, objects, x, j as int, fuel));
                        }
                    } else {
                        proof {
                            assert(out@ + items_spec(lists, objects, x, j + 1, fuel) =~= before
                                + items_spec(lists, objects, x, j as int, fuel));
                        }
                    }
                    j = j + 1;
                }
                out.append(")");
                proof {
                    assert(out@ =~= "("@ + items_spec(lists, objects, x, 0, fuel) + ")"@);
                }
                out
            },
            Value::Class(tbl) => {
                match tbl.find("__name__") {
                    Some(i) => {
                        proof {
                            lemma_entries_model(tbl.entries@);
                        }
                        let piece = tbl.entries[i].1.repr_at(heap, Ghost((fuel - 1) as nat));
                        let mut out = String::from_str("<'");
                        out.append(piece.as_str());
                        out.append("' class>");
                        proof {
                            assert(out@ =~= repr_spec(lists, objects, self.model(), fuel));
                        }
                        out
                    },
                    None => {
                        // excluded by the precondition
                        proof {
                            assert(false);
                        }
                        String::new()
                    },
                }
            },
            Value::Object(h) => {
                let tbl = &heap.objects[*h];
                match tbl.find("__name__") {
                    Some(i) => {
                        proof {
                            lemma_entries_model(tbl.entries@);
                        }
                        let piece = tbl.entries[i].1.repr_at(heap, Ghost((fuel - 1) as nat));
                        let mut out = String::from_str("<'");
                        out.append(piece.as_str());
                        out.append("' object at ");
                        let hd = u64_dec(*h as u64);
                        out.append(hd.as_str());
                        out.append(">");
                        proof {
                            assert(out@ =~= repr_spec(lists, objects, self.model(), fuel));
                        }
                        out
                    },
                    None => {
                        // excluded by the precondition
                        proof {
                            assert(false);
                        }
                        String::new()
                    },
                }
            },
        }
    }

    /// The rendered text of this value: identical for human-facing and
    /// debug-facing output.
    pub fn repr(&self, heap: &Heap) -> (r: String)
        requires
            val_repr_defined(heap.lists_model(), heap.objects_model(), self.model()),
        ensures
            r@ == val_repr(heap.lists_model(), heap.objects_model(), self.model()),
    {
        let ghost f = choose|f: nat|
            repr_defined(heap.lists_model(), heap.objects_model(), self.model(), f);
        let r = self.repr_at(heap, Ghost(f));
        proof {
            lemma_repr_agrees(heap.lists_model(), heap.objects_model(), self.model(), f);
        }
        r
    }
}

} // verus!
