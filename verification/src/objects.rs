//! The callable / class / object protocol.
//!
//! Calling a `Function` value is a request to the embedding host, which
//! owns the closures; calling a `Class` value constructs a fresh object
//! whose attribute table is a copy of the class's immutable member
//! table, and hands the host the class's initializer, if there is one,
//! to run with the new object prepended to the arguments. Attribute
//! access resolves in the object's shared table or the class's own.

use vstd::prelude::*;

use crate::heap::Heap;
use crate::table::lemma_entries_model;
use crate::table::tbl_lookup;
use crate::table::Table;
use crate::value::lemma_models;
use crate::value::models;
use crate::value::AbsVal;
use crate::value::Value;

verus! {

/// A call for the embedding host to perform: the callee, the positional
/// arguments, and the keyword mapping, passed through verbatim.
pub struct PendingCall {
    pub callee: Value,
    pub args: Vec<Value>,
    pub kwargs: Table,
}

/// What a `call` asks of the embedding host.
pub enum CallStep {
    /// Apply the host closure the `Function` callee names; the closure's
    /// result is the call's result.
    Invoke(PendingCall),
    /// A fresh object was constructed. If an initializer is pending, the
    /// host performs that call and discards its result; the object is
    /// the call's result either way.
    Constructed { obj: Value, init: Option<PendingCall> },
}

/// The member table a class value carries.
pub open spec fn class_table(a: AbsVal) -> Seq<(Seq<char>, AbsVal)> {
    match a {
        AbsVal::Class(t) => t,
        _ => Seq::empty(),
    }
}

/// Where an attribute of a value resolves: the object's table in the
/// store, or the class's own member table.
pub open spec fn attr_lookup(
    objects: Seq<Seq<(Seq<char>, AbsVal)>>,
    a: AbsVal,
    name: Seq<char>,
) -> Option<AbsVal> {
    match a {
        AbsVal::Object(h) => tbl_lookup(objects[h], name),
        AbsVal::Class(t) => tbl_lookup(t, name),
        _ => None,
    }
}

/// The value carries attributes: an object with a live handle, or a
/// class.
pub open spec fn has_attrs(objects: Seq<Seq<(Seq<char>, AbsVal)>>, a: AbsVal) -> bool {
    match a {
        AbsVal::Object(h) => 0 <= h < objects.len(),
        AbsVal::Class(_) => true,
        _ => false,
    }
}

impl Value {
    /// Calls this value: a `Function` becomes a host invocation, a
    /// `Class` constructs a fresh object from a copy of its member table
    /// and pends its initializer, with the object prepended to the
    /// positional arguments and the keyword mapping passed verbatim.
    pub fn call(&self, args: Vec<Value>, kwargs: Table, heap: &mut Heap) -> (r: CallStep)
        requires
            self is Function || self is Class,
        ensures
            final(heap).lists_model() == old(heap).lists_model(),
            self is Function ==> final(heap).objects_model() == old(heap).objects_model(),
            self matches Value::Function(f) ==> (r matches CallStep::Invoke(pc) && {
                &&& pc.callee.model() == self.model()
                &&& models(pc.args@) == models(args@)
                &&& pc.kwargs.model() == kwargs.model()
            }),
            self is Class ==> {
                let members = class_table(self.model());
                &&& final(heap).objects_model() == old(heap).objects_model().push(members)
                &&& (r matches CallStep::Constructed { obj, init } && {
                    &&& obj.model() == AbsVal::Object(old(heap).objects_model().len() as int)
                    &&& match tbl_lookup(members, "__init__"@) {
                        Some(initv) => init matches Some(pc) && {
                            &&& pc.callee.model() == initv
                            &&& models(pc.args@) == seq![obj.model()] + models(args@)
                            &&& pc.kwargs.model() == kwargs.model()
                        },
                        None => init is None,
                    }
                })
            },
    {
        match self {
            Value::Function(f) => CallStep::Invoke(
                PendingCall { callee: Value::Function(*f), args, kwargs },
            ),
            Value::Class(tbl) => {
                let copy = tbl.dup();
                let h = heap.alloc_object(copy);
                let obj = Value::Object(h);
                match tbl.find("__init__") {
                    Some(i) => {
                        proof {
                            lemma_entries_model(tbl.entries@);
                        }
                        let callee = tbl.entries[i].1.dup();
                        let ghost old_args = args@;
                        let mut args = args;
                        let mut amended: Vec<Value> = Vec::new();
                        amended.push(obj.dup());
                        amended.append(&mut args);
                        proof {
                            lemma_models(amended@);
                            lemma_models(old_args);
                            assert(models(amended@) =~= seq![obj.model()] + models(old_args));
                        }
                        CallStep::Constructed {
                            obj,
                            init: Some(PendingCall { callee, args: amended, kwargs }),
                        }
                    },
                    None => CallStep::Constructed { obj, init: None },
                }
            },
            _ => {
                // excluded by the precondition
                proof {
                    assert(false);
                }
                CallStep::Constructed { obj: Value::NoneVal, init: None }
            },
        }
    }

    /// The value bound to an attribute, which must be present: missing
    /// attributes are a fatal, reported error at the caller's level.
    pub fn get_attr(&self, attr: &str, heap: &Heap) -> (r: Value)
        requires
            has_attrs(heap.objects_model(), self.model()),
            attr_lookup(heap.objects_model(), self.model(), attr@) is Some,
        ensures
            Some(r.model()) == attr_lookup(heap.objects_model(), self.model(), attr@),
    {
        let found = self.lookup_attr(attr, heap);
        match found {
            Some(v) => v,
            None => {
                // excluded by the precondition
                proof {
                    assert(false);
                }
                Value::NoneVal
            },
        }
    }

    /// The value bound to an attribute, or `None` exactly when the
    /// object or class does not carry the attribute.
    pub fn lookup_attr(&self, attr: &str, heap: &Heap) -> (r: Option<Value>)
        requires
            has_attrs(heap.objects_model(), self.model()),
        ensures
            match r {
                Some(v) => attr_lookup(heap.objects_model(), self.model(), attr@) == Some(
                    v.model(),
                ),
                None => attr_lookup(heap.objects_model(), self.model(), attr@) is None,
            },
    {
        match self {
            Value::Object(h) => heap.object_lookup(*h, attr),
            Value::Class(tbl) => {
                match tbl.find(attr) {
                    Some(i) => {
                        proof {
                            lemma_entries_model(tbl.entries@);
                        }
                        Some(tbl.entries[i].1.dup())
                    },
                    None => None,
                }
            },
            _ => {
                // excluded by the precondition
                proof {
                    assert(false);
                }
                None
            },
        }
    }

    /// Binds an attribute of an object to a value. Every binding holding
    /// the same object observes the change; class tables are immutable
    /// and cannot be assigned to.
    pub fn set_attr(&self, attr: String, v: Value, heap: &mut Heap)
        requires
            self matches Value::Object(h) && old(heap).valid_object(h as int),
        ensures
            self matches Value::Object(h) ==> {
                &&& attr_lookup(final(heap).objects_model(), self.model(), attr@) == Some(
                    v.model(),
                )
                &&& forall|k2: Seq<char>|
                    k2 != attr@ ==> tbl_lookup(
                        final(heap).objects_model()[h as int],
                        k2,
                    ) == tbl_lookup(old(heap).objects_model()[h as int], k2)
                &&& forall|j: int|
                    0 <= j < old(heap).objects_model().len() && j != h as int
                        ==> final(heap).objects_model()[j] == old(heap).objects_model()[j]
                &&& final(heap).objects_model().len() == old(heap).objects_model().len()
                &&& final(heap).lists_model() == old(heap).lists_model()
            },
    {
        match self {
            Value::Object(h) => {
                heap.object_set(*h, attr, v);
            },
            _ => {
                // excluded by the precondition
                proof {
                    assert(false);
                }
            },
        }
    }
}

} // verus!
