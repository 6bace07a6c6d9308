//! A small map keyed by 16-bit ids, kept as a vector of entries.
//!
//! Driver ids and passenger ids are both `u16`. The map keeps at most one
//! entry per key; its meaning is the mathematical map `Map<u16, V>` that the
//! view gives.
use vstd::prelude::*;

verus! {

/// What it means for a list of entries to represent a map: each key occurs
/// once, each entry agrees with the map, and every key of the map occurs.
pub open spec fn entries_match<V>(entries: Seq<(u16, V)>, m: Map<u16, V>) -> bool {
    &&& forall|i: int, j: int|
        0 <= i < j < entries.len() ==> #[trigger] entries[i].0 != #[trigger] entries[j].0
    &&& forall|i: int|
        0 <= i < entries.len() ==> #[trigger] m.contains_key(entries[i].0) && m[entries[i].0]
            == entries[i].1
    &&& forall|k: u16| #[trigger]
        m.contains_key(k) ==> exists|i: int| 0 <= i < entries.len() && entries[i].0 == k
}

/// A finite map from `u16` ids to values.
pub struct IdMap<V> {
    entries: Vec<(u16, V)>,
    model: Ghost<Map<u16, V>>,
}

impl<V> View for IdMap<V> {
    type V = Map<u16, V>;

    closed spec fn view(&self) -> Map<u16, V> {
        self.model@
    }
}

impl<V> IdMap<V> {
    /// The entries in storage order.
    pub closed spec fn entry_seq(&self) -> Seq<(u16, V)> {
        self.entries@
    }

    /// Well-formedness: the entries represent the view.
    pub closed spec fn wf(&self) -> bool {
        entries_match(self.entries@, self.model@)
    }

    /// Exposes how the entries represent the view.
    pub proof fn lemma_entries(&self)
        requires
            self.wf(),
        ensures
            entries_match(self.entry_seq(), self@),
    {
    }

    /// An empty map.
    pub fn new() -> (r: Self)
        ensures
            r.wf(),
            r@ == Map::<u16, V>::empty(),
    {
        IdMap { entries: Vec::new(), model: Ghost(Map::empty()) }
    }

    /// Number of entries.
    pub fn len(&self) -> (r: usize)
        ensures
            r == self.entry_seq().len(),
    {
        self.entries.len()
    }

    /// The key of the entry at position `i`.
    pub fn key_at(&self, i: usize) -> (r: u16)
        requires
            i < self.entry_seq().len(),
        ensures
            r == self.entry_seq()[i as int].0,
    {
        self.entries[i].0
    }

    /// The value of the entry at position `i`.
    pub fn value_at(&self, i: usize) -> (r: &V)
        requires
            i < self.entry_seq().len(),
        ensures
            *r == self.entry_seq()[i as int].1,
    {
        &self.entries[i].1
    }

    fn find(&self, k: u16) -> (r: Option<usize>)
        requires
            self.wf(),
        ensures
            match r {
                Some(i) => i < self.entries@.len() && self.entries@[i as int].0 == k,
                None => !self@.contains_key(k),
            },
    {
        let mut i: usize = 0;
        while i < self.entries.len()
            invariant
                i <= self.entries@.len(),
                forall|j: int| 0 <= j < i ==> self.entries@[j].0 != k,
            decreases self.entries@.len() - i,
        {
            if self.entries[i].0 == k {
                return Some(i);
            }
            i = i + 1;
        }
        None
    }

    /// Whether `k` has an entry.
    pub fn contains_key(&self, k: u16) -> (r: bool)
        requires
            self.wf(),
        ensures
            r == self@.contains_key(k),
    {
        match self.find(k) {
            Some(_) => true,
            None => false,
        }
    }

    /// The value stored under `k`, if any.
    pub fn get(&self, k: u16) -> (r: Option<&V>)
        requires
            self.wf(),
        ensures
            r.is_some() == self@.contains_key(k),
            r.is_some() ==> *r.unwrap() == self@[k],
    {
        match self.find(k) {
            Some(i) => Some(&self.entries[i].1),
            None => None,
        }
    }

    /// Stores `v` under `k`, replacing any previous value.
    pub fn insert(&mut self, k: u16, v: V)
        requires
            old(self).wf(),
        ensures
            final(self).wf(),
            final(self)@ == old(self)@.insert(k, v),
    {
        let ghost old_entries = self.entries@;
        let ghost old_model = self.model@;
        let ghost new_model = old_model.insert(k, v);
        match self.find(k) {
            Some(i) => {
                self.entries.set(i, (k, v));
                self.model = Ghost(new_model);
                assert forall|k2: u16| #[trigger] new_model.contains_key(k2) implies exists|j: int|
                    0 <= j < self.entries@.len() && self.entries@[j].0 == k2 by {
                    if k2 == k {
                        assert(self.entries@[i as int].0 == k2);
                    } else {
                        let j = choose|j: int| 0 <= j < old_entries.len() && old_entries[j].0 == k2;
                        assert(self.entries@[j].0 == k2);
                    }
                }
            },
            None => {
                self.entries.push((k, v));
                self.model = Ghost(new_model);
                assert forall|k2: u16| #[trigger] new_model.contains_key(k2) implies exists|j: int|
                    0 <= j < self.entries@.len() && self.entries@[j].0 == k2 by {
                    if k2 == k {
                        assert(self.entries@[old_entries.len() as int].0 == k2);
                    } else {
                        let j = choose|j: int| 0 <= j < old_entries.len() && old_entries[j].0 == k2;
                        assert(self.entries@[j].0 == k2);
                    }
                }
            },
        }
    }

    /// Removes the entry of `k` and returns its value, if there was one.
    pub fn remove(&mut self, k: u16) -> (r: Option<V>)
        requires
            old(self).wf(),
        ensures
            final(self).wf(),
            final(self)@ == old(self)@.remove(k),
            r.is_some() == old(self)@.contains_key(k),
            r.is_some() ==> r.unwrap() == old(self)@[k],
    {
        let ghost old_entries = self.entries@;
        let ghost old_model = self.model@;
        let ghost new_model = old_model.remove(k);
        match self.find(k) {
            Some(i) => {
                let e = self.entries.remove(i);
                self.model = Ghost(new_model);
                assert(e == old_entries[i as int]);
                assert(old_model.contains_key(old_entries[i as int].0));
                let ghost ne = self.entries@;
                assert forall|j: int| 0 <= j < ne.len() implies #[trigger] ne[j] == if j < i {
                    old_entries[j]
                } else {
                    old_entries[j + 1]
                } by {}
                assert forall|k2: u16| #[trigger] new_model.contains_key(k2) implies exists|j: int|
                    0 <= j < ne.len() && ne[j].0 == k2 by {
                    let j = choose|j: int| 0 <= j < old_entries.len() && old_entries[j].0 == k2;
                    if j < i {
                        assert(ne[j].0 == k2);
                    } else {
                        assert(ne[j - 1].0 == k2);
                    }
                }
                assert forall|a: int, b: int| 0 <= a < b < ne.len() implies #[trigger] ne[a].0
                    != #[trigger] ne[b].0 by {
                    let oa = if a < i { a } else { a + 1 };
                    let ob = if b < i { b } else { b + 1 };
                    assert(old_entries[oa].0 != old_entries[ob].0);
                }
                assert forall|j: int| 0 <= j < ne.len() implies #[trigger] new_model.contains_key(
                    ne[j].0,
                ) && new_model[ne[j].0] == ne[j].1 by {
                    let oj = if j < i { j } else { j + 1 };
                    assert(ne[j] == old_entries[oj]);
                    assert(old_entries[oj].0 != old_entries[i as int].0);
                    assert(old_model.contains_key(old_entries[oj].0));
                }
                Some(e.1)
            },
            None => {
                assert(new_model =~= old_model);
                None
            },
        }
    }
}

impl IdMap<u16> {
    /// A key whose value is `v`, if any.
    pub fn key_of(&self, v: u16) -> (r: Option<u16>)
        requires
            self.wf(),
        ensures
            match r {
                Some(k) => self@.contains_key(k) && self@[k] == v,
                None => forall|k: u16| #[trigger] self@.contains_key(k) ==> self@[k] != v,
            },
    {
        let mut i: usize = 0;
        while i < self.entries.len()
            invariant
                self.wf(),
                i <= self.entries@.len(),
                forall|j: int| 0 <= j < i ==> self.entries@[j].1 != v,
            decreases self.entries@.len() - i,
        {
            if self.entries[i].1 == v {
                assert(self.model@.contains_key(self.entries@[i as int].0));
                return Some(self.entries[i].0);
            }
            i = i + 1;
        }
        assert forall|k: u16| #[trigger] self@.contains_key(k) implies self@[k] != v by {
            let j = choose|j: int| 0 <= j < self.entries@.len() && self.entries@[j].0 == k;
            assert(self.model@.contains_key(self.entries@[j].0));
        }
        None
    }
}

} // verus!
