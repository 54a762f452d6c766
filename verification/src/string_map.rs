//! A map keyed by strings, with at most one entry per key.
use vstd::prelude::*;
use crate::text::str_eq;

verus! {

/// A map from string keys to values; each key occurs at most once, and
/// entries stay in the order in which their keys were first inserted.
pub struct StringMap<V> {
    entries: Vec<(String, V)>,
}

impl<V> StringMap<V> {
    #[verifier::type_invariant]
    spec fn keys_unique(self) -> bool {
        forall|i: int, j: int|
            0 <= i < j < self.entries@.len() ==> #[trigger] self.entries@[i].0@ != #[trigger] self.entries@[j].0@
    }

    /// The entries, in insertion order.
    pub closed spec fn entries_view(self) -> Seq<(String, V)> {
        self.entries@
    }

    /// Whether some entry has key `k`.
    pub open spec fn has_key(self, k: Seq<char>) -> bool {
        exists|i: int| 0 <= i < self.entries_view().len() && #[trigger] self.entries_view()[i].0@ == k
    }

    /// The value stored under `k`.
    pub open spec fn lookup(self, k: Seq<char>) -> Option<V> {
        if self.has_key(k) {
            let i = choose|i: int| 0 <= i < self.entries_view().len() && #[trigger] self.entries_view()[i].0@ == k;
            Some(self.entries_view()[i].1)
        } else {
            None
        }
    }

    /// The number of keys.
    pub open spec fn size(self) -> nat {
        self.entries_view().len()
    }

    /// An empty map.
    pub fn new() -> (m: Self)
        ensures
            m.size() == 0,
            forall|k: Seq<char>| !m.has_key(k),
    {
        StringMap { entries: Vec::new() }
    }

    fn position(&self, k: &str) -> (r: Option<usize>)
        ensures
            match r {
                Some(i) => i < self.entries@.len() && self.entries@[i as int].0@ == k@,
                None => forall|j: int| 0 <= j < self.entries@.len() ==> self.entries@[j].0@ != k@,
            },
    {
        let mut i: usize = 0;
        while i < self.entries.len()
            invariant
                i <= self.entries@.len(),
                forall|j: int| 0 <= j < i ==> self.entries@[j].0@ != k@,
            decreases self.entries.len() - i,
        {
            if str_eq(self.entries[i].0.as_str(), k) {
                return Some(i);
            }
            i = i + 1;
        }
        None
    }

    /// The value stored under `k`, if any.
    pub fn get(&self, k: &str) -> (r: Option<&V>)
        ensures
            match r {
                Some(v) => self.lookup(k@) == Some(*v),
                None => self.lookup(k@) is None,
            },
    {
        proof { use_type_invariant(self); }
        match self.position(k) {
            Some(i) => {
                proof {
                    let j = choose|j: int| 0 <= j < self.entries_view().len() && #[trigger] self.entries_view()[j].0@ == k@;
                    if j != i {
                        if j < i { assert(self.entries@[j].0@ != self.entries@[i as int].0@); }
                        else { assert(self.entries@[i as int].0@ != self.entries@[j].0@); }
                    }
                }
                Some(&self.entries[i].1)
            },
            None => None,
        }
    }

    /// Whether `k` has an entry.
    pub fn contains_key(&self, k: &str) -> (r: bool)
        ensures r == self.has_key(k@),
    {
        match self.position(k) {
            Some(i) => {
                assert(self.entries_view()[i as int].0@ == k@);
                true
            },
            None => false,
        }
    }

    /// The number of keys.
    pub fn len(&self) -> (r: usize)
        ensures r == self.size(),
    {
        self.entries.len()
    }

    /// Whether the map has no entries.
    pub fn is_empty(&self) -> (r: bool)
        ensures r == (self.size() == 0),
    {
        self.entries.len() == 0
    }

    /// Stores `v` under `k`, replacing the value that was there.
    pub fn insert(&mut self, k: String, v: V)
        ensures
            final(self).lookup(k@) == Some(v),
            forall|other: Seq<char>| other != k@ ==> #[trigger] final(self).lookup(other) == old(self).lookup(other),
            forall|other: Seq<char>| #[trigger] final(self).has_key(other) == (old(self).has_key(other) || other == k@),
            final(self).size() == if old(self).has_key(k@) { old(self).size() } else { old(self).size() + 1 },
    {
        proof { use_type_invariant(&*self); }
        let ghost old_entries = self.entries@;
        let ghost kv = k@;
        match self.position(k.as_str()) {
            Some(i) => {
                let mut entries: Vec<(String, V)> = Vec::new();
                std::mem::swap(&mut entries, &mut self.entries);
                entries.set(i, (k, v));
                proof {
                    assert forall|a: int, b: int| 0 <= a < b < entries@.len() implies
                        #[trigger] entries@[a].0@ != #[trigger] entries@[b].0@ by {
                        assert(old(self).entries_view()[a].0@ != old(self).entries_view()[b].0@);
                    }
                }
                self.entries = entries;
                proof {
                    assert forall|other: Seq<char>| #[trigger] self.has_key(other) == (old(self).has_key(other) || other == kv) by {
                        if old(self).has_key(other) {
                            let j = choose|j: int| 0 <= j < old(self).entries_view().len() && #[trigger] old(self).entries_view()[j].0@ == other;
                            if j != i { assert(self.entries_view()[j].0@ == other); } else { assert(other == kv); }
                        }
                        if self.has_key(other) {
                            let j = choose|j: int| 0 <= j < self.entries_view().len() && #[trigger] self.entries_view()[j].0@ == other;
                            if j != i { assert(old(self).entries_view()[j].0@ == other); }
                        }
                    }
                    assert forall|other: Seq<char>| other != kv implies #[trigger] self.lookup(other) == old(self).lookup(other) by {
                        if self.has_key(other) {
                            let j = choose|j: int| 0 <= j < self.entries_view().len() && #[trigger] self.entries_view()[j].0@ == other;
                            let j0 = choose|j: int| 0 <= j < old(self).entries_view().len() && #[trigger] old(self).entries_view()[j].0@ == other;
                            assert(j != i);
                            assert(old(self).entries_view()[j].0@ == other);
                            if j0 != j {
                                if j0 < j { assert(old(self).entries_view()[j0].0@ != old(self).entries_view()[j].0@); }
                                else { assert(old(self).entries_view()[j].0@ != old(self).entries_view()[j0].0@); }
                            }
                        }
                    }
                    let j = choose|j: int| 0 <= j < self.entries_view().len() && #[trigger] self.entries_view()[j].0@ == kv;
                    if j != i {
                        if j < i { assert(self.entries_view()[j].0@ != self.entries_view()[i as int].0@); }
                        else { assert(self.entries_view()[i as int].0@ != self.entries_view()[j].0@); }
                    }
                }
            },
            None => {
                let mut entries: Vec<(String, V)> = Vec::new();
                std::mem::swap(&mut entries, &mut self.entries);
                entries.push((k, v));
                proof {
                    assert forall|a: int, b: int| 0 <= a < b < entries@.len() implies
                        #[trigger] entries@[a].0@ != #[trigger] entries@[b].0@ by {
                        if b < old(self).entries_view().len() { assert(old(self).entries_view()[a].0@ != old(self).entries_view()[b].0@); }
                    }
                }
                self.entries = entries;
                proof {
                    let n = old(self).entries_view().len() as int;
                    assert(self.entries_view()[n].0@ == kv);
                    assert forall|other: Seq<char>| #[trigger] self.has_key(other) == (old(self).has_key(other) || other == kv) by {
                        if old(self).has_key(other) {
                            let j = choose|j: int| 0 <= j < old(self).entries_view().len() && #[trigger] old(self).entries_view()[j].0@ == other;
                            assert(self.entries_view()[j].0@ == other);
                        }
                        if self.has_key(other) && other != kv {
                            let j = choose|j: int| 0 <= j < self.entries_view().len() && #[trigger] self.entries_view()[j].0@ == other;
                            assert(j != n);
                            assert(old(self).entries_view()[j].0@ == other);
                        }
                    }
                    assert forall|other: Seq<char>| other != kv implies #[trigger] self.lookup(other) == old(self).lookup(other) by {
                        if self.has_key(other) {
                            let j = choose|j: int| 0 <= j < self.entries_view().len() && #[trigger] self.entries_view()[j].0@ == other;
                            let j0 = choose|j: int| 0 <= j < old(self).entries_view().len() && #[trigger] old(self).entries_view()[j].0@ == other;
                            assert(j != n);
                            assert(self.entries_view()[j0].0@ == other);
                            if j0 != j {
                                if j0 < j { assert(self.entries_view()[j0].0@ != self.entries_view()[j].0@); }
                                else { assert(self.entries_view()[j].0@ != self.entries_view()[j0].0@); }
                            }
                        }
                    }
                    let j = choose|j: int| 0 <= j < self.entries_view().len() && #[trigger] self.entries_view()[j].0@ == kv;
                    assert(j == n);
                }
            },
        }
    }
}

} // verus!
