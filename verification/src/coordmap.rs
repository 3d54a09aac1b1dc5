//! An associative store from chunk coordinates to values, with at most
//! one entry per coordinate. It backs the chunk store, the status map
//! and the pending-modification store, and its mathematical view is a
//! `Map` from coordinates to values.

use vstd::prelude::*;
use crate::coords::IVec3;

verus! {

/// One coordinate-to-value binding.
pub struct Entry<T> {
    pub key: IVec3,
    pub val: T,
}

/// Whether a sequence of bindings has pairwise distinct keys.
pub open spec fn distinct_keys<T>(s: Seq<Entry<T>>) -> bool {
    forall|i: int, j: int| 0 <= i < j < s.len() ==> s[i].key != s[j].key
}

/// Index of the binding for a key, meaningful when one exists.
pub open spec fn seq_index_of<T>(s: Seq<Entry<T>>, k: IVec3) -> int {
    choose|i: int| 0 <= i < s.len() && s[i].key == k
}

pub open spec fn seq_contains_key<T>(s: Seq<Entry<T>>, k: IVec3) -> bool {
    exists|i: int| 0 <= i < s.len() && s[i].key == k
}

/// The map a binding sequence stands for.
pub open spec fn map_of<T>(s: Seq<Entry<T>>) -> Map<IVec3, T> {
    Map::new(
        |k: IVec3| seq_contains_key(s, k),
        |k: IVec3| s[seq_index_of(s, k)].val,
    )
}

/// With distinct keys, the binding for a key sits at exactly one index.
pub proof fn lemma_index_unique<T>(s: Seq<Entry<T>>, k: IVec3, i: int)
    requires
        distinct_keys(s),
        0 <= i < s.len(),
        s[i].key == k,
    ensures
        seq_index_of(s, k) == i,
        map_of(s).contains_key(k),
        map_of(s)[k] == s[i].val,
{
    assert(seq_contains_key(s, k));
    let j = seq_index_of(s, k);
    assert(0 <= j < s.len() && s[j].key == k);
    if i != j {
        if i < j {
            assert(s[i].key != s[j].key);
        } else {
            assert(s[j].key != s[i].key);
        }
    }
}

/// Appending a fresh key inserts it into the map.
pub proof fn lemma_map_of_push<T>(s: Seq<Entry<T>>, k: IVec3, v: T)
    requires
        distinct_keys(s),
        !seq_contains_key(s, k),
    ensures
        distinct_keys(s.push(Entry { key: k, val: v })),
        map_of(s.push(Entry { key: k, val: v })) == map_of(s).insert(k, v),
{
    let s2 = s.push(Entry { key: k, val: v });
    assert forall|i: int, j: int| 0 <= i < j < s2.len() implies s2[i].key != s2[j].key by {
        if j < s.len() {
            assert(s[i].key != s[j].key);
        } else {
            assert(s2[j].key == k);
            assert(s2[i] == s[i]);
            assert(s[i].key != k);
        }
    }
    assert forall|k2: IVec3| #[trigger] map_of(s2).contains_key(k2)
        == map_of(s).insert(k, v).contains_key(k2) by {
        if k2 == k {
            assert(s2[s.len() as int].key == k);
            assert(seq_contains_key(s2, k));
        } else {
            if seq_contains_key(s2, k2) {
                let i = choose|i: int| 0 <= i < s2.len() && s2[i].key == k2;
                assert(i < s.len());
                assert(s[i].key == k2);
                assert(seq_contains_key(s, k2));
            }
            if seq_contains_key(s, k2) {
                let i = choose|i: int| 0 <= i < s.len() && s[i].key == k2;
                assert(s2[i].key == k2);
                assert(seq_contains_key(s2, k2));
            }
        }
    }
    assert forall|k2: IVec3| map_of(s2).contains_key(k2)
        implies #[trigger] map_of(s2)[k2] == map_of(s).insert(k, v)[k2] by {
        if k2 == k {
            lemma_index_unique(s2, k, s.len() as int);
        } else {
            let i = choose|i: int| 0 <= i < s2.len() && s2[i].key == k2;
            assert(i < s.len());
            assert(s[i].key == k2);
            lemma_index_unique(s2, k2, i);
            lemma_index_unique(s, k2, i);
        }
    }
    assert(map_of(s2) =~= map_of(s).insert(k, v));
}

/// Replacing the value at an index overwrites that key's binding.
pub proof fn lemma_map_of_update<T>(s: Seq<Entry<T>>, i: int, v: T)
    requires
        distinct_keys(s),
        0 <= i < s.len(),
    ensures
        distinct_keys(s.update(i, Entry { key: s[i].key, val: v })),
        map_of(s.update(i, Entry { key: s[i].key, val: v })) == map_of(s).insert(s[i].key, v),
{
    let k = s[i].key;
    let s2 = s.update(i, Entry { key: k, val: v });
    assert forall|a: int, b: int| 0 <= a < b < s2.len() implies s2[a].key != s2[b].key by {
        assert(s2[a].key == s[a].key);
        assert(s2[b].key == s[b].key);
        assert(s[a].key != s[b].key);
    }
    assert forall|k2: IVec3| #[trigger] map_of(s2).contains_key(k2)
        == map_of(s).insert(k, v).contains_key(k2) by {
        if seq_contains_key(s2, k2) {
            let a = choose|a: int| 0 <= a < s2.len() && s2[a].key == k2;
            assert(s[a].key == k2);
            assert(seq_contains_key(s, k2));
        }
        if seq_contains_key(s, k2) {
            let a = choose|a: int| 0 <= a < s.len() && s[a].key == k2;
            assert(s2[a].key == k2);
            assert(seq_contains_key(s2, k2));
        }
        if k2 == k {
            assert(s[i].key == k2);
            assert(seq_contains_key(s, k2));
        }
    }
    assert forall|k2: IVec3| map_of(s2).contains_key(k2)
        implies #[trigger] map_of(s2)[k2] == map_of(s).insert(k, v)[k2] by {
        if k2 == k {
            lemma_index_unique(s2, k, i);
        } else {
            let a = choose|a: int| 0 <= a < s2.len() && s2[a].key == k2;
            assert(a != i);
            assert(s[a].key == k2);
            lemma_index_unique(s2, k2, a);
            lemma_index_unique(s, k2, a);
        }
    }
    assert(map_of(s2) =~= map_of(s).insert(k, v));
}

/// Deleting the binding at an index removes that key from the map.
pub proof fn lemma_map_of_remove<T>(s: Seq<Entry<T>>, i: int)
    requires
        distinct_keys(s),
        0 <= i < s.len(),
    ensures
        distinct_keys(s.remove(i)),
        map_of(s.remove(i)) == map_of(s).remove(s[i].key),
{
    let k = s[i].key;
    let s2 = s.remove(i);
    assert forall|a: int, b: int| 0 <= a < b < s2.len() implies s2[a].key != s2[b].key by {
        let a0: int = if a < i { a } else { a + 1 };
        let b0: int = if b < i { b } else { b + 1 };
        assert(s2[a] == s[a0]);
        assert(s2[b] == s[b0]);
        assert(s[a0].key != s[b0].key);
    }
    assert forall|k2: IVec3| #[trigger] map_of(s2).contains_key(k2)
        == map_of(s).remove(k).contains_key(k2) by {
        if seq_contains_key(s2, k2) {
            let a = choose|a: int| 0 <= a < s2.len() && s2[a].key == k2;
            let a0: int = if a < i { a } else { a + 1 };
            assert(s2[a] == s[a0]);
            assert(s[a0].key == k2);
            assert(seq_contains_key(s, k2));
            if k2 == k {
                lemma_index_unique(s, k, i);
                lemma_index_unique(s, k2, a0);
                assert(false);
            }
        }
        if seq_contains_key(s, k2) && k2 != k {
            let a = choose|a: int| 0 <= a < s.len() && s[a].key == k2;
            assert(a != i);
            let a2: int = if a < i { a } else { a - 1 };
            assert(s2[a2] == s[a]);
            assert(seq_contains_key(s2, k2));
        }
    }
    assert forall|k2: IVec3| map_of(s2).contains_key(k2)
        implies #[trigger] map_of(s2)[k2] == map_of(s).remove(k)[k2] by {
        let a = choose|a: int| 0 <= a < s2.len() && s2[a].key == k2;
        let a0: int = if a < i { a } else { a + 1 };
        assert(s2[a] == s[a0]);
        assert(s[a0].key == k2);
        lemma_index_unique(s2, k2, a);
        lemma_index_unique(s, k2, a0);
    }
    assert(map_of(s2) =~= map_of(s).remove(k));
}

/// An associative store keyed by chunk coordinate.
pub struct CoordMap<T> {
    pub entries: Vec<Entry<T>>,
}

impl<T> CoordMap<T> {
    /// The bindings in insertion order.
    pub open spec fn sseq(&self) -> Seq<Entry<T>> {
        self.entries@
    }

    /// At most one binding per coordinate.
    pub open spec fn wf(&self) -> bool {
        distinct_keys(self.entries@)
    }

    /// The store as a mathematical map.
    pub open spec fn as_map(&self) -> Map<IVec3, T> {
        map_of(self.entries@)
    }

    pub open spec fn spec_contains(&self, k: IVec3) -> bool {
        seq_contains_key(self.entries@, k)
    }

    pub fn new() -> (r: CoordMap<T>)
        ensures
            r.wf(),
            r.sseq().len() == 0,
            r.as_map() == Map::<IVec3, T>::empty(),
    {
        let r = CoordMap::<T> { entries: Vec::new() };
        proof {
            assert(r.as_map() =~= Map::<IVec3, T>::empty());
        }
        r
    }

    /// Index of the binding for a key, if one exists.
    pub fn index_of_key(&self, k: IVec3) -> (r: Option<usize>)
        ensures
            match r {
                Some(i) => i < self.sseq().len() && self.sseq()[i as int].key == k,
                None => !self.spec_contains(k),
            },
    {
        let mut i: usize = 0;
        while i < self.entries.len()
            invariant
                i <= self.entries@.len(),
                forall|j: int| 0 <= j < i ==> self.entries@[j].key != k,
            decreases self.entries@.len() - i,
        {
            if self.entries[i].key == k {
                return Some(i);
            }
            i = i + 1;
        }
        None
    }

    pub fn contains_key(&self, k: IVec3) -> (r: bool)
        ensures
            r == self.spec_contains(k),
            r == self.as_map().contains_key(k),
    {
        match self.index_of_key(k) {
            Some(i) => {
                proof {
                    assert(seq_contains_key(self.entries@, k));
                }
                true
            },
            None => false,
        }
    }

    /// The value bound to a key, if any.
    pub fn get(&self, k: IVec3) -> (r: Option<&T>)
        requires
            self.wf(),
        ensures
            match r {
                Some(v) => self.as_map().contains_key(k) && *v == self.as_map()[k],
                None => !self.as_map().contains_key(k),
            },
    {
        match self.index_of_key(k) {
            Some(i) => {
                proof {
                    lemma_index_unique(self.entries@, k, i as int);
                }
                Some(&self.entries[i].val)
            },
            None => None,
        }
    }

    /// Binds a key to a value, replacing any previous binding.
    pub fn insert(&mut self, k: IVec3, v: T)
        requires
            old(self).wf(),
        ensures
            final(self).wf(),
            final(self).as_map() == old(self).as_map().insert(k, v),
            final(self).sseq().len() <= old(self).sseq().len() + 1,
            old(self).spec_contains(k) ==> final(self).sseq().len() == old(self).sseq().len(),
            final(self).spec_contains(k),
            forall|k2: IVec3| #[trigger] final(self).spec_contains(k2)
                == (old(self).spec_contains(k2) || k2 == k),
    {
        let ghost s0 = self.entries@;
        match self.index_of_key(k) {
            Some(i) => {
                proof {
                    lemma_map_of_update(s0, i as int, v);
                    lemma_index_unique(s0, k, i as int);
                }
                self.entries.set(i, Entry { key: k, val: v });
                proof {
                    assert forall|k2: IVec3| #[trigger] seq_contains_key(self.entries@, k2)
                        == (seq_contains_key(s0, k2) || k2 == k) by {
                        if seq_contains_key(self.entries@, k2) {
                            let a = choose|a: int| 0 <= a < self.entries@.len()
                                && self.entries@[a].key == k2;
                            assert(s0[a].key == k2 || k2 == k);
                        }
                        if seq_contains_key(s0, k2) {
                            let a = choose|a: int| 0 <= a < s0.len() && s0[a].key == k2;
                            assert(self.entries@[a].key == k2);
                        }
                        if k2 == k {
                            assert(self.entries@[i as int].key == k2);
                        }
                    }
                }
            },
            None => {
                proof {
                    lemma_map_of_push(s0, k, v);
                }
                self.entries.push(Entry { key: k, val: v });
                proof {
                    assert forall|k2: IVec3| #[trigger] seq_contains_key(self.entries@, k2)
                        == (seq_contains_key(s0, k2) || k2 == k) by {
                        if seq_contains_key(self.entries@, k2) {
                            let a = choose|a: int| 0 <= a < self.entries@.len()
                                && self.entries@[a].key == k2;
                            if a < s0.len() {
                                assert(s0[a].key == k2);
                            }
                        }
                        if seq_contains_key(s0, k2) {
                            let a = choose|a: int| 0 <= a < s0.len() && s0[a].key == k2;
                            assert(self.entries@[a].key == k2);
                        }
                        if k2 == k {
                            assert(self.entries@[s0.len() as int].key == k2);
                        }
                    }
                }
            },
        }
    }

    /// Unbinds a key, returning the value that was bound to it.
    pub fn remove(&mut self, k: IVec3) -> (r: Option<T>)
        requires
            old(self).wf(),
        ensures
            final(self).wf(),
            final(self).as_map() == old(self).as_map().remove(k),
            !final(self).spec_contains(k),
            match r {
                Some(v) => old(self).as_map().contains_key(k) && v == old(self).as_map()[k]
                    && final(self).sseq().len() + 1 == old(self).sseq().len(),
                None => !old(self).as_map().contains_key(k)
                    && *final(self) == *old(self),
            },
            forall|k2: IVec3| #[trigger] final(self).spec_contains(k2)
                == (old(self).spec_contains(k2) && k2 != k),
    {
        let ghost s0 = self.entries@;
        match self.index_of_key(k) {
            Some(i) => {
                proof {
                    lemma_index_unique(s0, k, i as int);
                    lemma_map_of_remove(s0, i as int);
                }
                let e = self.entries.remove(i);
                proof {
                    assert forall|k2: IVec3| #[trigger] seq_contains_key(self.entries@, k2)
                        == (seq_contains_key(s0, k2) && k2 != k) by {
                        if seq_contains_key(self.entries@, k2) {
                            let a = choose|a: int| 0 <= a < self.entries@.len()
                                && self.entries@[a].key == k2;
                            let a0: int = if a < i { a } else { a + 1 };
                            assert(s0[a0].key == k2);
                            if k2 == k {
                                lemma_index_unique(s0, k, i as int);
                                lemma_index_unique(s0, k2, a0);
                                assert(false);
                            }
                        }
                        if seq_contains_key(s0, k2) && k2 != k {
                            let a = choose|a: int| 0 <= a < s0.len() && s0[a].key == k2;
                            assert(a != i);
                            let a2: int = if a < i { a } else { a - 1 };
                            assert(self.entries@[a2].key == k2);
                        }
                    }
                }
                Some(e.val)
            },
            None => {
                proof {
                    assert(self.as_map() =~= map_of(s0).remove(k));
                }
                None
            },
        }
    }

    pub fn len(&self) -> (r: usize)
        ensures
            r == self.sseq().len(),
    {
        self.entries.len()
    }

    /// Every bound coordinate, in binding order.
    pub fn keys(&self) -> (r: Vec<IVec3>)
        ensures
            r@.len() == self.sseq().len(),
            forall|i: int| 0 <= i < r@.len() ==> r@[i] == self.sseq()[i].key,
    {
        let mut out: Vec<IVec3> = Vec::new();
        let mut i: usize = 0;
        while i < self.entries.len()
            invariant
                i <= self.entries@.len(),
                out@.len() == i,
                forall|j: int| 0 <= j < i ==> out@[j] == self.entries@[j].key,
            decreases self.entries@.len() - i,
        {
            out.push(self.entries[i].key);
            i = i + 1;
        }
        out
    }

    /// The key of the binding at an index.
    pub fn key_at(&self, i: usize) -> (r: IVec3)
        requires
            i < self.sseq().len(),
        ensures
            r == self.sseq()[i as int].key,
    {
        self.entries[i].key
    }

    /// A mutable borrow of the value at an index; the bindings
    /// afterwards carry whatever the borrow is left holding, under the
    /// same key. `lemma_map_of_update` turns that into a map insert.
    pub fn entry_at_mut(&mut self, i: usize) -> (r: &mut T)
        requires
            i < old(self).sseq().len(),
        ensures
            *r == old(self).sseq()[i as int].val,
            final(self).sseq() == old(self).sseq().update(
                i as int,
                Entry { key: old(self).sseq()[i as int].key, val: *final(r) },
            ),
    {
        let entry: &mut Entry<T> = &mut self.entries[i];
        &mut entry.val
    }
}

} // verus!
