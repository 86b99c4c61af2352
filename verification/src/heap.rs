//! The shared store behind list and object handles.
//!
//! The source language gives lists and object instances reference
//! semantics: every binding holding the same value observes the same
//! mutation. The store realises that with index-based handles: a
//! `Value::List(h)` or `Value::Object(h)` names a slot here, copying the
//! value copies the handle, and mutation through any copy is visible
//! through all of them.

use vstd::prelude::*;

use crate::table::entries_model;
use crate::table::lemma_entries_model;
use crate::table::tbl_lookup;
use crate::table::Table;
use crate::value::lemma_models;
use crate::value::models;
use crate::value::AbsVal;
use crate::value::Value;

verus! {

/// The store: one vector of element vectors for lists, one vector of
/// attribute tables for object instances.
pub struct Heap {
    pub lists: Vec<Vec<Value>>,
    pub objects: Vec<Table>,
}

impl Heap {
    /// The contents of every list slot, as sequences of abstract values.
    pub open spec fn lists_model(self) -> Seq<Seq<AbsVal>> {
        Seq::new(self.lists@.len(), |i: int| models(self.lists@[i]@))
    }

    /// The contents of every object slot, as attribute tables.
    pub open spec fn objects_model(self) -> Seq<Seq<(Seq<char>, AbsVal)>> {
        Seq::new(self.objects@.len(), |i: int| entries_model(self.objects@[i].entries@))
    }

    /// The handle names a live list slot.
    pub open spec fn valid_list(self, h: int) -> bool {
        0 <= h < self.lists@.len()
    }

    /// The handle names a live object slot.
    pub open spec fn valid_object(self, h: int) -> bool {
        0 <= h < self.objects@.len()
    }

    /// An empty store.
    pub fn new() -> (r: Heap)
        ensures
            r.lists_model() == Seq::<Seq<AbsVal>>::empty(),
            r.objects_model() == Seq::<Seq<(Seq<char>, AbsVal)>>::empty(),
    {
        let r = Heap { lists: Vec::new(), objects: Vec::new() };
        proof {
            assert(r.lists_model() =~= Seq::<Seq<AbsVal>>::empty());
            assert(r.objects_model() =~= Seq::<Seq<(Seq<char>, AbsVal)>>::empty());
        }
        r
    }

    /// Allocates a fresh list slot holding the given elements and returns
    /// its handle.
    pub fn alloc_list(&mut self, elems: Vec<Value>) -> (h: usize)
        ensures
            h as int == old(self).lists_model().len(),
            final(self).lists_model() == old(self).lists_model().push(models(elems@)),
            final(self).objects_model() == old(self).objects_model(),
    {
        let h = self.lists.len();
        let ghost elems_view = elems@;
        self.lists.push(elems);
        proof {
            assert(self.lists_model() =~= old(self).lists_model().push(models(elems_view)));
            assert(self.objects_model() =~= old(self).objects_model());
        }
        h
    }

    /// The number of elements in a list slot.
    pub fn list_len(&self, h: usize) -> (n: usize)
        requires
            self.valid_list(h as int),
        ensures
            n as int == self.lists_model()[h as int].len(),
    {
        proof {
            lemma_models(self.lists@[h as int]@);
        }
        self.lists[h].len()
    }

    /// A duplicate of the element at a position of a list slot.
    pub fn list_get(&self, h: usize, i: usize) -> (r: Value)
        requires
            self.valid_list(h as int),
            (i as int) < self.lists_model()[h as int].len(),
        ensures
            r.model() == self.lists_model()[h as int][i as int],
    {
        proof {
            lemma_models(self.lists@[h as int]@);
        }
        self.lists[h][i].dup()
    }

    /// Replaces the element at a position of a list slot. Every value
    /// holding this handle observes the change.
    pub fn list_set(&mut self, h: usize, i: usize, v: Value)
        requires
            old(self).valid_list(h as int),
            (i as int) < old(self).lists_model()[h as int].len(),
        ensures
            final(self).lists_model() == old(self).lists_model().update(
                h as int,
                old(self).lists_model()[h as int].update(i as int, v.model()),
            ),
            final(self).objects_model() == old(self).objects_model(),
    {
        proof {
            lemma_models(self.lists@[h as int]@);
        }
        let ghost vm = v.model();
        let row: &mut Vec<Value> = vstd::std_specs::vec::vec_index_mut(&mut self.lists, h);
        row.set(i, v);
        proof {
            lemma_models(old(self).lists@[h as int]@);
            lemma_models(self.lists@[h as int]@);
            assert(models(self.lists@[h as int]@) =~= models(old(self).lists@[h as int]@).update(
                i as int,
                vm,
            ));
            assert(self.lists_model() =~= old(self).lists_model().update(
                h as int,
                old(self).lists_model()[h as int].update(i as int, vm),
            ));
            assert(self.objects_model() =~= old(self).objects_model());
        }
    }

    /// Appends an element to a list slot. Every value holding this handle
    /// observes the change.
    pub fn list_push(&mut self, h: usize, v: Value)
        requires
            old(self).valid_list(h as int),
        ensures
            final(self).lists_model() == old(self).lists_model().update(
                h as int,
                old(self).lists_model()[h as int].push(v.model()),
            ),
            final(self).objects_model() == old(self).objects_model(),
    {
        let ghost vm = v.model();
        let row: &mut Vec<Value> = vstd::std_specs::vec::vec_index_mut(&mut self.lists, h);
        row.push(v);
        proof {
            lemma_models(old(self).lists@[h as int]@);
            lemma_models(self.lists@[h as int]@);
            assert(models(self.lists@[h as int]@) =~= models(old(self).lists@[h as int]@).push(vm));
            assert(self.lists_model() =~= old(self).lists_model().update(
                h as int,
                old(self).lists_model()[h as int].push(vm),
            ));
            assert(self.objects_model() =~= old(self).objects_model());
        }
    }

    /// Allocates a fresh object slot holding the given attribute table and
    /// returns its handle.
    pub fn alloc_object(&mut self, tbl: Table) -> (h: usize)
        ensures
            h as int == old(self).objects_model().len(),
            final(self).objects_model() == old(self).objects_model().push(tbl.model()),
            final(self).lists_model() == old(self).lists_model(),
    {
        let h = self.objects.len();
        let ghost tm = tbl.model();
        self.objects.push(tbl);
        proof {
            assert(self.objects_model() =~= old(self).objects_model().push(tm));
            assert(self.lists_model() =~= old(self).lists_model());
        }
        h
    }

    /// A duplicate of the value bound to an attribute of an object slot,
    /// if the attribute is present.
    pub fn object_lookup(&self, h: usize, attr: &str) -> (r: Option<Value>)
        requires
            self.valid_object(h as int),
        ensures
            match r {
                Some(v) => tbl_lookup(self.objects_model()[h as int], attr@) == Some(v.model()),
                None => tbl_lookup(self.objects_model()[h as int], attr@) is None,
            },
    {
        let tbl = &self.objects[h];
        match tbl.find(attr) {
            Some(i) => {
                proof {
                    lemma_entries_model(tbl.entries@);
                }
                Some(tbl.entries[i].1.dup())
            },
            None => None,
        }
    }

    /// Binds an attribute of an object slot to a value. Every value
    /// holding this handle observes the change.
    pub fn object_set(&mut self, h: usize, attr: String, v: Value)
        requires
            old(self).valid_object(h as int),
        ensures
            tbl_lookup(final(self).objects_model()[h as int], attr@) == Some(v.model()),
            forall|k2: Seq<char>|
                k2 != attr@ ==> tbl_lookup(final(self).objects_model()[h as int], k2) == tbl_lookup(
                    old(self).objects_model()[h as int],
                    k2,
                ),
            forall|j: int|
                0 <= j < old(self).objects_model().len() && j != h as int
                    ==> final(self).objects_model()[j] == old(self).objects_model()[j],
            final(self).objects_model().len() == old(self).objects_model().len(),
            final(self).lists_model() == old(self).lists_model(),
    {
        let tbl: &mut Table = vstd::std_specs::vec::vec_index_mut(&mut self.objects, h);
        tbl.set(attr, v);
        proof {
            assert(self.lists_model() =~= old(self).lists_model());
            assert(self.objects_model().len() == old(self).objects_model().len());
            assert(forall|j: int|
                0 <= j < old(self).objects_model().len() && j != h as int ==> self.objects_model()[j]
                    == old(self).objects_model()[j]);
        }
    }
}

} // verus!
