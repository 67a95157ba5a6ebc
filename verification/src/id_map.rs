//! Small keyed collections used by the replication managers: an
//! insertion-ordered map and a duplicate-free set, both keyed by `u32`
//! identifiers, with exact contracts over their sequence views.

use vstd::prelude::*;

verus! {

/// Index of the first entry of `s` whose key is `k`.
pub open spec fn spec_find<V>(s: Seq<(u32, V)>, k: u32) -> Option<int>
    decreases s.len(),
{
    if s.len() == 0 {
        None
    } else if s[0].0 == k {
        Some(0int)
    } else {
        match spec_find(s.drop_first(), k) {
            Some(i) => Some(i + 1),
            None => None,
        }
    }
}

/// Value of the first entry of `s` whose key is `k`.
pub open spec fn spec_get<V>(s: Seq<(u32, V)>, k: u32) -> Option<V> {
    match spec_find(s, k) {
        Some(i) => Some(s[i].1),
        None => None,
    }
}

/// Whether some entry of `s` has key `k`.
pub open spec fn spec_contains<V>(s: Seq<(u32, V)>, k: u32) -> bool {
    spec_find(s, k) is Some
}

/// `s` after inserting `k -> v`: the value replaced in place where `k` is
/// present, a new entry appended otherwise.
pub open spec fn spec_insert<V>(s: Seq<(u32, V)>, k: u32, v: V) -> Seq<(u32, V)> {
    match spec_find(s, k) {
        Some(i) => s.update(i, (k, v)),
        None => s.push((k, v)),
    }
}

/// `s` after removing the entry with key `k`, if any.
pub open spec fn spec_remove<V>(s: Seq<(u32, V)>, k: u32) -> Seq<(u32, V)> {
    match spec_find(s, k) {
        Some(i) => s.remove(i),
        None => s,
    }
}

/// No two entries of `s` share a key.
pub open spec fn spec_unique_keys<V>(s: Seq<(u32, V)>) -> bool {
    forall|i: int, j: int| 0 <= i < j < s.len() ==> s[i].0 != s[j].0
}

pub proof fn lemma_find_characterization<V>(s: Seq<(u32, V)>, k: u32)
    ensures
        match spec_find(s, k) {
            Some(i) => 0 <= i < s.len() && s[i].0 == k && (forall|j: int|
                0 <= j < i ==> s[j].0 != k),
            None => forall|j: int| 0 <= j < s.len() ==> s[j].0 != k,
        },
    decreases s.len(),
{
    if s.len() > 0 && s[0].0 != k {
        let t = s.drop_first();
        lemma_find_characterization(t, k);
        assert(forall|j: int| 0 <= j < t.len() ==> t[j] == s[j + 1]);
        match spec_find(t, k) {
            Some(i) => {
                assert(s[i + 1].0 == k);
                assert forall|j: int| 0 <= j < i + 1 implies s[j].0 != k by {
                    if j > 0 {
                        assert(t[j - 1].0 != k);
                    }
                }
            },
            None => {
                assert forall|j: int| 0 <= j < s.len() implies s[j].0 != k by {
                    if j > 0 {
                        assert(t[j - 1].0 != k);
                    }
                }
            },
        }
    }
}

/// Two entry sequences with the same keys in the same positions are
/// searched alike.
pub proof fn lemma_find_preserved<V, W>(s: Seq<(u32, V)>, t: Seq<(u32, W)>, k: u32)
    requires
        s.len() == t.len(),
        forall|i: int| 0 <= i < s.len() ==> (#[trigger] s[i]).0 == (#[trigger] t[i]).0,
    ensures
        spec_find(s, k) == spec_find(t, k),
    decreases s.len(),
{
    if s.len() > 0 {
        let s1 = s.drop_first();
        let t1 = t.drop_first();
        assert(forall|i: int| 0 <= i < s1.len() ==> (#[trigger] s1[i]) == s[i + 1]);
        assert(forall|i: int| 0 <= i < t1.len() ==> (#[trigger] t1[i]) == t[i + 1]);
        lemma_find_preserved(s1, t1, k);
    }
}

pub proof fn lemma_find_first<V>(s: Seq<(u32, V)>, k: u32, i: int)
    requires
        0 <= i < s.len(),
        s[i].0 == k,
        forall|j: int| 0 <= j < i ==> s[j].0 != k,
    ensures
        spec_find(s, k) == Some(i),
    decreases s.len(),
{
    if i > 0 {
        lemma_find_first(s.drop_first(), k, i - 1);
    }
}

/// An insertion-ordered map from `u32` keys to values, with unique keys.
///
/// Its view is the sequence of entries in insertion order; `insert` on an
/// existing key replaces the value in place.
pub struct IdMap<V> {
    entries: Vec<(u32, V)>,
}

impl<V> View for IdMap<V> {
    type V = Seq<(u32, V)>;

    closed spec fn view(&self) -> Seq<(u32, V)> {
        self.entries@
    }
}

impl<V> IdMap<V> {
    /// Every well-formed map has pairwise distinct keys.
    pub open spec fn wf(&self) -> bool {
        spec_unique_keys(self@)
    }

    pub fn new() -> (r: IdMap<V>)
        ensures
            r@ == Seq::<(u32, V)>::empty(),
            r.wf(),
    {
        IdMap { entries: Vec::new() }
    }

    pub fn len(&self) -> (r: usize)
        ensures
            r == self@.len(),
    {
        self.entries.len()
    }

    pub fn is_empty(&self) -> (r: bool)
        ensures
            r == (self@.len() == 0),
    {
        self.entries.is_empty()
    }

    /// Key of the entry at position `i`.
    pub fn key_at(&self, i: usize) -> (r: u32)
        requires
            i < self@.len(),
        ensures
            r == self@[i as int].0,
    {
        self.entries[i].0
    }

    /// Value of the entry at position `i`.
    pub fn value_at(&self, i: usize) -> (r: &V)
        requires
            i < self@.len(),
        ensures
            *r == self@[i as int].1,
    {
        &self.entries[i].1
    }

    fn find(&self, k: u32) -> (r: Option<usize>)
        ensures
            match r {
                Some(i) => spec_find(self@, k) == Some(i as int),
                None => spec_find(self@, k) is None,
            },
    {
        let mut i: usize = 0;
        while i < self.entries.len()
            invariant
                i <= self@.len(),
                forall|j: int| 0 <= j < i ==> self@[j].0 != k,

            decreases self@.len() - i,
        {
            if self.entries[i].0 == k {
                proof {
                    lemma_find_first(self@, k, i as int);
                }
                return Some(i);
            }
            i = i + 1;
        }
        proof {
            lemma_find_characterization(self@, k);
            if spec_find(self@, k) is Some {
                let w = spec_find(self@, k)->Some_0;
                assert(self@[w].0 == k);
            }
        }
        None
    }

    pub fn contains_key(&self, k: u32) -> (r: bool)
        ensures
            r == spec_contains(self@, k),
    {
        self.find(k).is_some()
    }

    pub fn get(&self, k: u32) -> (r: Option<&V>)
        ensures
            match r {
                Some(v) => spec_get(self@, k) == Some(*v),
                None => spec_get(self@, k) is None,
            },
    {
        proof {
            lemma_find_characterization(self@, k);
        }
        match self.find(k) {
            Some(i) => Some(&self.entries[i].1),
            None => None,
        }
    }

    /// Inserts `k -> v`: replaces the value in place where `k` is present,
    /// appends a new entry otherwise.
    pub fn insert(&mut self, k: u32, v: V)
        requires
            old(self).wf(),
        ensures
            final(self).wf(),
            match spec_find(old(self)@, k) {
                Some(i) => final(self)@ == old(self)@.update(i, (k, v)),
                None => final(self)@ == old(self)@.push((k, v)),
            },
    {
        proof {
            lemma_find_characterization(self@, k);
        }
        match self.find(k) {
            Some(i) => {
                self.entries[i] = (k, v);
            },
            None => {
                self.entries.push((k, v));
            },
        }
    }

    /// Mutable access to the value stored under `k`, if any.
    pub fn get_mut(&mut self, k: u32) -> (r: Option<&mut V>)
        requires
            old(self).wf(),
        ensures
            match r {
                Some(v) => {
                    &&& spec_find(old(self)@, k) is Some
                    &&& *v == old(self)@[spec_find(old(self)@, k)->Some_0].1
                    &&& final(self)@ == old(self)@.update(
                        spec_find(old(self)@, k)->Some_0,
                        (k, *final(v)),
                    )
                    &&& final(self).wf()
                },
                None => {
                    &&& spec_find(old(self)@, k) is None
                    &&& final(self)@ == old(self)@
                    &&& final(self).wf()
                },
            },
    {
        proof {
            lemma_find_characterization(self@, k);
        }
        match self.find(k) {
            Some(i) => {
                let entry = &mut self.entries[i];
                Some(&mut entry.1)
            },
            None => None,
        }
    }

    /// Removes the entry with key `k`, shifting later entries forward.
    pub fn remove(&mut self, k: u32) -> (r: Option<V>)
        requires
            old(self).wf(),
        ensures
            final(self).wf(),
            match spec_find(old(self)@, k) {
                Some(i) => r == Some(old(self)@[i].1) && final(self)@ == old(self)@.remove(i),
                None => r is None && final(self)@ == old(self)@,
            },
    {
        proof {
            lemma_find_characterization(self@, k);
        }
        match self.find(k) {
            Some(i) => {
                let (_, v) = self.entries.remove(i);
                proof {
                    let s = old(self)@;
                    let t = self@;
                    assert(t == s.remove(i as int));
                    assert forall|a: int, b: int| 0 <= a < b < t.len() implies t[a].0 != t[b].0 by {
                        let a0 = if a < i { a } else { a + 1 };
                        let b0 = if b < i { b } else { b + 1 };
                        assert(t[a] == s[a0]);
                        assert(t[b] == s[b0]);
                    }
                }
                Some(v)
            },
            None => None,
        }
    }

    pub fn clear(&mut self)
        ensures
            final(self)@ == Seq::<(u32, V)>::empty(),
            final(self).wf(),
    {
        self.entries.clear();
    }
}

/// Helper: what `spec_get` reads after an `IdMap` insert.
pub proof fn lemma_get_after_insert<V>(
    before: Seq<(u32, V)>,
    after: Seq<(u32, V)>,
    k: u32,
    v: V,
)
    requires
        spec_unique_keys(before),
        match spec_find(before, k) {
            Some(i) => after == before.update(i, (k, v)),
            None => after == before.push((k, v)),
        },
    ensures
        spec_get(after, k) == Some(v),
        forall|t: u32| t != k ==> #[trigger] spec_get(after, t) == spec_get(before, t),
{
    lemma_find_characterization(before, k);
    match spec_find(before, k) {
        Some(i) => {
            lemma_find_first(after, k, i);
            assert forall|t: u32| t != k implies #[trigger] spec_get(after, t) == spec_get(
                before,
                t,
            ) by {
                lemma_find_characterization(before, t);
                lemma_find_characterization(after, t);
                match spec_find(before, t) {
                    Some(j) => {
                        assert(after[j] == before[j]);
                        lemma_find_first(after, t, j);
                    },
                    None => {
                        if spec_find(after, t) is Some {
                            let j = spec_find(after, t)->Some_0;
                            assert(after[j].0 == t);
                            assert(before[j].0 == t);
                        }
                    },
                }
            }
        },
        None => {
            lemma_find_first(after, k, before.len() as int);
            assert forall|t: u32| t != k implies #[trigger] spec_get(after, t) == spec_get(
                before,
                t,
            ) by {
                lemma_find_characterization(before, t);
                lemma_find_characterization(after, t);
                match spec_find(before, t) {
                    Some(j) => {
                        assert(after[j] == before[j]);
                        lemma_find_first(after, t, j);
                    },
                    None => {
                        if spec_find(after, t) is Some {
                            let j = spec_find(after, t)->Some_0;
                            assert(after[j].0 == t);
                            if j < before.len() {
                                assert(before[j].0 == t);
                            }
                        }
                    },
                }
            }
        },
    }
}

/// A duplicate-free set of `u32` identifiers that remembers insertion order.
pub struct IdSet {
    items: Vec<u32>,
}

impl View for IdSet {
    type V = Seq<u32>;

    closed spec fn view(&self) -> Seq<u32> {
        self.items@
    }
}

impl IdSet {
    /// Every well-formed set holds pairwise distinct identifiers.
    pub open spec fn wf(&self) -> bool {
        forall|i: int, j: int| 0 <= i < j < self@.len() ==> self@[i] != self@[j]
    }

    pub fn new() -> (r: IdSet)
        ensures
            r@ == Seq::<u32>::empty(),
            r.wf(),
    {
        IdSet { items: Vec::new() }
    }

    pub fn len(&self) -> (r: usize)
        ensures
            r == self@.len(),
    {
        self.items.len()
    }

    pub fn at(&self, i: usize) -> (r: u32)
        requires
            i < self@.len(),
        ensures
            r == self@[i as int],
    {
        self.items[i]
    }

    pub fn contains(&self, k: u32) -> (r: bool)
        ensures
            r == self@.contains(k),
    {
        let mut i: usize = 0;
        while i < self.items.len()
            invariant
                i <= self@.len(),
                forall|j: int| 0 <= j < i ==> self@[j] != k,
            decreases self@.len() - i,
        {
            if self.items[i] == k {
                return true;
            }
            i = i + 1;
        }
        false
    }

    /// Idempotent insert: a second insert of the same identifier in the same
    /// lifetime of the set changes nothing.
    pub fn insert(&mut self, k: u32)
        requires
            old(self).wf(),
        ensures
            final(self).wf(),
            old(self)@.contains(k) ==> final(self)@ == old(self)@,
            !old(self)@.contains(k) ==> final(self)@ == old(self)@.push(k),
    {
        if !self.contains(k) {
            self.items.push(k);
        }
    }

    pub fn clear(&mut self)
        ensures
            final(self)@ == Seq::<u32>::empty(),
            final(self).wf(),
    {
        self.items.clear();
    }
}

} // verus!
