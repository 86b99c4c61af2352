//! Name-to-value tables.
//!
//! Class member tables, object attribute tables and keyword-argument maps
//! are association lists over `String` keys. Lookup takes the first entry
//! whose key matches; `set` replaces that entry or appends a new one, so a
//! table built through this interface keeps one entry per key.

use vstd::prelude::*;

use crate::value::AbsVal;
use crate::value::Value;

verus! {

/// A name-to-value mapping backed by a vector of pairs.
pub struct Table {
    pub entries: Vec<(String, Value)>,
}

/// The models of a sequence of table entries, element by element.
pub open spec fn entries_model(s: Seq<(String, Value)>) -> Seq<(Seq<char>, AbsVal)>
    decreases s,
{
    if s.len() == 0 {
        Seq::empty()
    } else {
        entries_model(s.drop_last()).push((s.last().0@, s.last().1.model()))
    }
}

/// `entries_model` maps the sequence pointwise.
pub proof fn lemma_entries_model(s: Seq<(String, Value)>)
    ensures
        entries_model(s).len() == s.len(),
        forall|i: int| 0 <= i < s.len() ==> #[trigger] entries_model(s)[i] == (
            s[i].0@,
            s[i].1.model(),
        ),
    decreases s.len(),
{
    if s.len() > 0 {
        lemma_entries_model(s.drop_last());
        assert(forall|i: int|
            0 <= i < s.len() - 1 ==> s.drop_last()[i] == #[trigger] s[i]);
    }
}

/// First-match lookup among (key, value) pairs.
pub open spec fn tbl_lookup(s: Seq<(Seq<char>, AbsVal)>, k: Seq<char>) -> Option<AbsVal>
    decreases s.len(),
{
    if s.len() == 0 {
        None
    } else if s[0].0 == k {
        Some(s[0].1)
    } else {
        tbl_lookup(s.drop_first(), k)
    }
}

/// Entries without the key do not affect lookup.
pub proof fn lemma_tbl_lookup_skip(s: Seq<(Seq<char>, AbsVal)>, k: Seq<char>, i: int)
    requires
        0 <= i <= s.len(),
        forall|j: int| 0 <= j < i ==> (#[trigger] s[j]).0 != k,
    ensures
        tbl_lookup(s, k) == tbl_lookup(s.skip(i), k),
    decreases i,
{
    if i > 0 {
        assert(s.skip(i) =~= s.drop_first().skip(i - 1));
        assert(forall|j: int|
            0 <= j < i - 1 ==> (#[trigger] s.drop_first()[j]).0 != k);
        lemma_tbl_lookup_skip(s.drop_first(), k, i - 1);
    } else {
        assert(s.skip(0) =~= s);
    }
}

/// Replacing the first entry that carries a key changes the lookup of that
/// key alone.
pub proof fn lemma_tbl_lookup_update(
    s: Seq<(Seq<char>, AbsVal)>,
    i: int,
    k: Seq<char>,
    v: AbsVal,
)
    requires
        0 <= i < s.len(),
        s[i].0 == k,
        forall|j: int| 0 <= j < i ==> (#[trigger] s[j]).0 != k,
    ensures
        tbl_lookup(s.update(i, (k, v)), k) == Some(v),
        forall|k2: Seq<char>|
            k2 != k ==> tbl_lookup(s.update(i, (k, v)), k2) == tbl_lookup(s, k2),
    decreases i,
{
    let t = s.update(i, (k, v));
    if i == 0 {
        assert(t.drop_first() =~= s.drop_first());
    } else {
        assert(t.drop_first() =~= s.drop_first().update(i - 1, (k, v)));
        assert(forall|j: int|
            0 <= j < i - 1 ==> (#[trigger] s.drop_first()[j]).0 != k);
        lemma_tbl_lookup_update(s.drop_first(), i - 1, k, v);
        assert(t[0] == s[0]);
        assert forall|k2: Seq<char>| k2 != k implies tbl_lookup(t, k2) == tbl_lookup(
            s,
            k2,
        ) by {
            if s[0].0 != k2 {
                assert(tbl_lookup(t, k2) == tbl_lookup(t.drop_first(), k2));
                assert(tbl_lookup(s, k2) == tbl_lookup(s.drop_first(), k2));
            }
        }
    }
}

/// Appending an entry under a fresh key changes the lookup of that key
/// alone.
pub proof fn lemma_tbl_lookup_push(s: Seq<(Seq<char>, AbsVal)>, k: Seq<char>, v: AbsVal)
    requires
        tbl_lookup(s, k) is None,
    ensures
        tbl_lookup(s.push((k, v)), k) == Some(v),
        forall|k2: Seq<char>|
            k2 != k ==> tbl_lookup(s.push((k, v)), k2) == tbl_lookup(s, k2),
    decreases s.len(),
{
    let t = s.push((k, v));
    if s.len() == 0 {
        assert(t[0] == (k, v));
        assert(t.drop_first() =~= Seq::<(Seq<char>, AbsVal)>::empty());
        assert forall|k2: Seq<char>| k2 != k implies tbl_lookup(t, k2) == tbl_lookup(
            s,
            k2,
        ) by {
            assert(tbl_lookup(t, k2) == tbl_lookup(t.drop_first(), k2));
        }
    } else {
        assert(t[0] == s[0]);
        assert(t.drop_first() =~= s.drop_first().push((k, v)));
        lemma_tbl_lookup_push(s.drop_first(), k, v);
        assert forall|k2: Seq<char>| k2 != k implies tbl_lookup(t, k2) == tbl_lookup(
            s,
            k2,
        ) by {
            if s[0].0 != k2 {
                assert(tbl_lookup(t, k2) == tbl_lookup(t.drop_first(), k2));
                assert(tbl_lookup(s, k2) == tbl_lookup(s.drop_first(), k2));
            }
        }
    }
}

impl Table {
    /// The table as a sequence of (key, abstract value) pairs.
    pub open spec fn model(self) -> Seq<(Seq<char>, AbsVal)> {
        entries_model(self.entries@)
    }

    /// An empty table.
    pub fn new() -> (r: Table)
        ensures
            r.model() == Seq::<(Seq<char>, AbsVal)>::empty(),
    {
        Table { entries: Vec::new() }
    }

    /// The position of the first entry carrying the key, if any.
    pub fn find(&self, key: &str) -> (r: Option<usize>)
        ensures
            match r {
                Some(i) => {
                    &&& i < self.model().len()
                    &&& self.model()[i as int].0 == key@
                    &&& tbl_lookup(self.model(), key@) == Some(self.model()[i as int].1)
                    &&& forall|j: int| 0 <= j < i ==> (#[trigger] self.model()[j]).0 != key@
                },
                None => tbl_lookup(self.model(), key@) is None,
            },
    {
        proof {
            lemma_entries_model(self.entries@);
        }
        let owned: String = key.to_owned();
        let n = self.entries.len();
        let mut i: usize = 0;
        while i < n
            invariant
                n == self.entries@.len(),
                owned@ == key@,
                0 <= i <= n,
                self.model().len() == n,
                forall|j: int| 0 <= j < i ==> (#[trigger] self.model()[j]).0 != key@,
                forall|j: int|
                    0 <= j < self.entries@.len() ==> self.model()[j] == (
                        #[trigger] self.entries@[j].0@,
                        self.entries@[j].1.model(),
                    ),
            decreases n - i,
        {
            if self.entries[i].0 == owned {
                proof {
                    lemma_tbl_lookup_skip(self.model(), key@, i as int);
                    assert(self.model().skip(i as int)[0] == self.model()[i as int]);
                }
                return Some(i);
            }
            i = i + 1;
        }
        proof {
            lemma_tbl_lookup_skip(self.model(), key@, n as int);
            assert(self.model().skip(n as int) =~= Seq::<(Seq<char>, AbsVal)>::empty());
        }
        None
    }

    /// Binds the key to the value: replaces the entry carrying the key, or
    /// appends one. Other keys keep their bindings.
    pub fn set(&mut self, key: String, v: Value)
        ensures
            tbl_lookup(final(self).model(), key@) == Some(v.model()),
            forall|k2: Seq<char>|
                k2 != key@ ==> tbl_lookup(final(self).model(), k2) == tbl_lookup(
                    old(self).model(),
                    k2,
                ),
    {
        proof {
            lemma_entries_model(self.entries@);
        }
        let found = self.find(key.as_str());
        match found {
            Some(i) => {
                let ghost old_entries = self.entries@;
                let ghost vm = v.model();
                self.entries.set(i, (key, v));
                proof {
                    lemma_entries_model(old_entries);
                    lemma_entries_model(self.entries@);
                    assert(self.model() =~= entries_model(old_entries).update(
                        i as int,
                        (key@, vm),
                    ));
                    lemma_tbl_lookup_update(entries_model(old_entries), i as int, key@, vm);
                }
            },
            None => {
                let ghost old_entries = self.entries@;
                let ghost vm = v.model();
                self.entries.push((key, v));
                proof {
                    lemma_entries_model(old_entries);
                    lemma_entries_model(self.entries@);
                    assert(self.model() =~= entries_model(old_entries).push((key@, vm)));
                    lemma_tbl_lookup_push(entries_model(old_entries), key@, vm);
                }
            },
        }
    }

    /// A duplicate with the same model.
    pub fn dup(&self) -> (r: Table)
        ensures
            r.model() == self.model(),
        decreases self,
    {
        let n = self.entries.len();
        let mut out: Vec<(String, Value)> = Vec::new();
        let mut i: usize = 0;
        while i < n
            invariant
                n == self.entries@.len(),
                0 <= i <= n,
                out@.len() == i,
                forall|j: int|
                    0 <= j < i ==> (#[trigger] out@[j]).0@ == self.entries@[j].0@
                        && out@[j].1.model() == self.entries@[j].1.model(),
            decreases n - i,
        {
            let pair = &self.entries[i];
            proof {
                assert(decreases_to!(*self => self.entries));
                assert(decreases_to!(self.entries => self.entries@[i as int]));
            }
            out.push((pair.0.clone(), pair.1.dup()));
            i = i + 1;
        }
        proof {
            lemma_entries_model(out@);
            lemma_entries_model(self.entries@);
            assert(entries_model(out@) =~= entries_model(self.entries@));
        }
        Table { entries: out }
    }
}

} // verus!
