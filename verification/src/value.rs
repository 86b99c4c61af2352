use vstd::prelude::*;

use crate::heap::Heap;
use crate::numeric::NumericType;
use crate::table::Table;

verus! {

/// The uniform runtime representation of every value a generated program
/// can manipulate: a closed tagged union over numbers, strings, booleans,
/// shared mutable lists, immutable tuples, callables, classes, object
/// instances, opaque stream handles, and the absence-of-value sentinel.
///
/// `List` and `Object` payloads are handles into a [`Heap`](crate::heap::Heap):
/// every binding holding the same handle observes the same underlying
/// mutable state, which reproduces the source language's reference model.
/// `Tuple` and `Class` payloads are owned and copied by value.
/// `Function` and `TextIOWrapper` payloads are opaque identifiers that the
/// embedding host resolves to closures and streams of its own.
pub enum Value {
    Number(NumericType),
    Str(String),
    Bool(bool),
    List(usize),
    Tuple(Vec<Value>),
    Function(u64),
    Class(Table),
    Object(usize),
    TextIOWrapper(u64),
    NoneVal,
}

/// The mathematical model of a [`Value`]: strings become character
/// sequences, tuples and class tables become sequences, and list/object
/// handles stay abstract indices into the heap model.
pub enum AbsVal {
    Num(NumericType),
    Str(Seq<char>),
    Bool(bool),
    List(int),
    Tuple(Seq<AbsVal>),
    Function(u64),
    Class(Seq<(Seq<char>, AbsVal)>),
    Object(int),
    Stream(u64),
    Null,
}

impl Value {
    /// The model of this value.
    pub open spec fn model(self) -> AbsVal
        decreases self,
    {
        match self {
            Value::Number(n) => AbsVal::Num(n),
            Value::Str(s) => AbsVal::Str(s@),
            Value::Bool(b) => AbsVal::Bool(b),
            Value::List(h) => AbsVal::List(h as int),
            Value::Tuple(es) => AbsVal::Tuple(models(es@)),
            Value::Function(f) => AbsVal::Function(f),
            Value::Class(tbl) => AbsVal::Class(crate::table::entries_model(tbl.entries@)),
            Value::Object(h) => AbsVal::Object(h as int),
            Value::TextIOWrapper(s) => AbsVal::Stream(s),
            Value::NoneVal => AbsVal::Null,
        }
    }
}

/// The models of a sequence of values, element by element.
pub open spec fn models(s: Seq<Value>) -> Seq<AbsVal>
    decreases s,
{
    if s.len() == 0 {
        Seq::empty()
    } else {
        models(s.drop_last()).push(s.last().model())
    }
}

/// Boolean coercion of a value, given the model of the list store:
/// numbers by the tower's nonzero rule, strings and sequences by
/// non-emptiness, callables, classes and objects always true, the
/// absence sentinel always false. Coercion is not defined on stream
/// handles; the spec extends it arbitrarily there.
pub open spec fn truthy(lists: Seq<Seq<AbsVal>>, a: AbsVal) -> bool {
    match a {
        AbsVal::Num(n) => crate::numeric::num_truthy(n),
        AbsVal::Str(s) => s.len() > 0,
        AbsVal::Bool(b) => b,
        AbsVal::List(h) => lists[h].len() > 0,
        AbsVal::Tuple(es) => es.len() > 0,
        AbsVal::Function(_) => true,
        AbsVal::Class(_) => true,
        AbsVal::Object(_) => true,
        AbsVal::Stream(_) => false,
        AbsVal::Null => false,
    }
}

impl Value {
    /// A duplicate with the same model: owned payloads are copied,
    /// list and object handles are shared, as assignment in the source
    /// language requires.
    pub fn dup(&self) -> (r: Value)
        ensures
            r.model() == self.model(),
        decreases self,
    {
        match self {
            Value::Number(n) => Value::Number(*n),
            Value::Str(s) => Value::Str(s.clone()),
            Value::Bool(b) => Value::Bool(*b),
            Value::List(h) => Value::List(*h),
            Value::Tuple(es) => {
                let n = es.len();
                let mut out: Vec<Value> = Vec::new();
                let mut i: usize = 0;
                while i < n
                    invariant
                        *self == Value::Tuple(*es),
                        n == es@.len(),
                        0 <= i <= n,
                        out@.len() == i,
                        forall|j: int|
                            0 <= j < i ==> (#[trigger] out@[j]).model() == es@[j].model(),
                    decreases n - i,
                {
                    proof {
                        assert(decreases_to!(*self => self->Tuple_0));
                        assert(decreases_to!(*es => es@[i as int]));
                    }
                    out.push(es[i].dup());
                    i = i + 1;
                }
                proof {
                    lemma_models(out@);
                    lemma_models(es@);
                    assert(models(out@) =~= models(es@));
                }
                Value::Tuple(out)
            },
            Value::Function(f) => Value::Function(*f),
            Value::Class(tbl) => Value::Class(tbl.dup()),
            Value::Object(h) => Value::Object(*h),
            Value::TextIOWrapper(s) => Value::TextIOWrapper(*s),
            Value::NoneVal => Value::NoneVal,
        }
    }

    /// Boolean coercion. Not defined on stream handles; a list handle
    /// must be live in the given heap.
    pub fn to_bool(&self, heap: &Heap) -> (r: bool)
        requires
            !(self is TextIOWrapper),
            self matches Value::List(h) ==> heap.valid_list(h as int),
        ensures
            r == truthy(heap.lists_model(), self.model()),
    {
        match self {
            Value::Number(n) => n.to_bool(),
            Value::Str(s) => !s.as_str().is_empty(),
            Value::Bool(b) => *b,
            Value::List(h) => {
                let n = heap.lists[*h].len();
                proof {
                    lemma_models(heap.lists@[*h as int]@);
                }
                n != 0
            },
            Value::Tuple(es) => {
                proof {
                    lemma_models(es@);
                }
                es.len() != 0
            },
            Value::Function(_) => true,
            Value::Class(_) => true,
            Value::Object(_) => true,
            Value::TextIOWrapper(_) => false,
            Value::NoneVal => false,
        }
    }

    /// The source language's `not`: always a `Bool`, the negation of the
    /// boolean coercion. Distinct from the bitwise complement.
    pub fn logical_not(&self, heap: &Heap) -> (r: Value)
        requires
            !(self is TextIOWrapper),
            self matches Value::List(h) ==> heap.valid_list(h as int),
        ensures
            r.model() == AbsVal::Bool(!truthy(heap.lists_model(), self.model())),
    {
        Value::Bool(!self.to_bool(heap))
    }
}

/// `models` maps the sequence pointwise.
pub proof fn lemma_models(s: Seq<Value>)
    ensures
        models(s).len() == s.len(),
        forall|i: int| 0 <= i < s.len() ==> #[trigger] models(s)[i] == s[i].model(),
    decreases s.len(),
{
    if s.len() > 0 {
        lemma_models(s.drop_last());
        assert(forall|i: int|
            0 <= i < s.len() - 1 ==> s.drop_last()[i] == #[trigger] s[i]);
    }
}

impl View for Value {
    type V = AbsVal;

    open spec fn view(&self) -> AbsVal {
        self.model()
    }
}

} // verus!
