//! The order-preserving save buffer: compressed chunk bytes keyed by
//! coordinate, held in an `indexmap::IndexMap` so that a flush writes
//! entries in the order they were buffered. The buffer, not the
//! database, is authoritative for any coordinate it currently holds.

use vstd::prelude::*;
use crate::coords::IVec3;

verus! {

#[verifier::external_type_specification]
#[verifier::external_body]
#[verifier::reject_recursive_types(K)]
#[verifier::reject_recursive_types(V)]
#[verifier::reject_recursive_types(S)]
pub struct ExIndexMap<K, V, S>(indexmap::IndexMap<K, V, S>);

/// The key-to-bytes bindings an `IndexMap` save buffer holds.
pub uninterp spec fn save_map_entries(
    m: indexmap::IndexMap<(i32, i32, i32), Vec<u8>, std::collections::hash_map::RandomState>,
) -> Map<(i32, i32, i32), Seq<u8>>;

/// The keys of an `IndexMap` save buffer, in insertion order.
pub uninterp spec fn save_map_order(
    m: indexmap::IndexMap<(i32, i32, i32), Vec<u8>, std::collections::hash_map::RandomState>,
) -> Seq<(i32, i32, i32)>;

/// The empty save buffer contents.
pub open spec fn empty_save_entries() -> Map<(i32, i32, i32), Seq<u8>> {
    Map::empty()
}

/// The empty save buffer order.
pub open spec fn empty_save_order() -> Seq<(i32, i32, i32)> {
    Seq::empty()
}

/// Relies on `indexmap::IndexMap::new`: a new map holds nothing.
#[verifier::external_body]
fn index_map_new() -> (r: indexmap::IndexMap<(i32, i32, i32), Vec<u8>, std::collections::hash_map::RandomState>)
    ensures
        save_map_entries(r) == empty_save_entries(),
        save_map_order(r) == empty_save_order(),
{
    indexmap::IndexMap::new()
}

/// Relies on `indexmap::IndexMap::insert`: an existing key keeps its
/// place in the order and its value is updated; a new key is appended
/// last in order.
#[verifier::external_body]
fn index_map_insert(
    m: &mut indexmap::IndexMap<(i32, i32, i32), Vec<u8>, std::collections::hash_map::RandomState>,
    k: (i32, i32, i32),
    v: Vec<u8>,
)
    ensures
        save_map_entries(*final(m)) == save_map_entries(*old(m)).insert(k, v@),
        save_map_order(*final(m)) == if save_map_entries(*old(m)).contains_key(k) {
            save_map_order(*old(m))
        } else {
            save_map_order(*old(m)).push(k)
        },
{
    m.insert(k, v);
}

/// Relies on `indexmap::IndexMap::get`: returns the value bound to an
/// equivalent key, or `None` when the key is absent.
#[verifier::external_body]
fn index_map_get<'a>(
    m: &'a indexmap::IndexMap<(i32, i32, i32), Vec<u8>, std::collections::hash_map::RandomState>,
    k: &(i32, i32, i32),
) -> (r: Option<&'a Vec<u8>>)
    ensures
        match r {
            Some(v) => save_map_entries(*m).contains_key(*k) && v@ == save_map_entries(*m)[*k],
            None => !save_map_entries(*m).contains_key(*k),
        },
{
    m.get(k)
}

/// Relies on `indexmap::IndexMap::len`: one key-value pair per key in
/// the insertion order.
#[verifier::external_body]
fn index_map_len(
    m: &indexmap::IndexMap<(i32, i32, i32), Vec<u8>, std::collections::hash_map::RandomState>,
) -> (r: usize)
    ensures
        r == save_map_order(*m).len(),
{
    m.len()
}

/// Relies on `indexmap::IndexMap::clear`: afterwards the map holds
/// nothing.
#[verifier::external_body]
fn index_map_clear(
    m: &mut indexmap::IndexMap<(i32, i32, i32), Vec<u8>, std::collections::hash_map::RandomState>,
)
    ensures
        save_map_entries(*final(m)) == empty_save_entries(),
        save_map_order(*final(m)) == empty_save_order(),
{
    m.clear();
}

/// Relies on `indexmap::IndexMap::iter`: yields every key-value pair
/// once, in insertion order.
#[verifier::external_body]
fn index_map_pairs(
    m: &indexmap::IndexMap<(i32, i32, i32), Vec<u8>, std::collections::hash_map::RandomState>,
) -> (r: Vec<((i32, i32, i32), Vec<u8>)>)
    ensures
        r@.len() == save_map_order(*m).len(),
        forall|i: int| 0 <= i < r@.len() ==> {
            &&& (#[trigger] r@[i]).0 == save_map_order(*m)[i]
            &&& save_map_entries(*m).contains_key(r@[i].0)
            &&& r@[i].1@ == save_map_entries(*m)[r@[i].0]
        },
{
    m.iter().map(|(k, v)| (*k, v.clone())).collect()
}

/// The tuple key a coordinate is buffered under.
pub open spec fn save_key_of(c: IVec3) -> (i32, i32, i32) {
    (c.x, c.y, c.z)
}

/// The order-preserving buffer of compressed chunks awaiting a flush.
pub struct ChunkSavingQueue {
    pub map: indexmap::IndexMap<(i32, i32, i32), Vec<u8>, std::collections::hash_map::RandomState>,
}

impl ChunkSavingQueue {
    /// The buffered bytes by key.
    pub open spec fn entries(&self) -> Map<(i32, i32, i32), Seq<u8>> {
        save_map_entries(self.map)
    }

    /// The buffered keys in insertion order.
    pub open spec fn order(&self) -> Seq<(i32, i32, i32)> {
        save_map_order(self.map)
    }

    pub open spec fn spec_contains(&self, c: IVec3) -> bool {
        self.entries().contains_key(save_key_of(c))
    }

    /// The insertion order lists each buffered key exactly once.
    pub open spec fn wf(&self) -> bool {
        &&& forall|i: int, j: int| 0 <= i < j < self.order().len()
            ==> self.order()[i] != self.order()[j]
        &&& forall|k: (i32, i32, i32)| self.entries().contains_key(k) <==> self.order().contains(k)
    }

    pub fn new() -> (r: ChunkSavingQueue)
        ensures
            r.wf(),
            r.entries() == empty_save_entries(),
            r.order() == empty_save_order(),
    {
        let r = ChunkSavingQueue { map: index_map_new() };
        proof {
            assert forall|k: (i32, i32, i32)| r.entries().contains_key(k)
                <==> r.order().contains(k) by {
                if r.order().contains(k) {
                    let i = choose|i: int| 0 <= i < r.order().len() && r.order()[i] == k;
                }
            }
        }
        r
    }

    /// Buffers bytes for a coordinate, overwriting any stale pending
    /// entry for the same coordinate and keeping its place in order.
    pub fn insert(&mut self, c: IVec3, bytes: Vec<u8>)
        requires
            old(self).wf(),
        ensures
            final(self).wf(),
            final(self).entries() == old(self).entries().insert(save_key_of(c), bytes@),
            final(self).order() == if old(self).spec_contains(c) {
                old(self).order()
            } else {
                old(self).order().push(save_key_of(c))
            },
    {
        let ghost k = save_key_of(c);
        let ghost had = self.spec_contains(c);
        let key: (i32, i32, i32) = (c.x, c.y, c.z);
        index_map_insert(&mut self.map, key, bytes);
        proof {
            let m0 = old(self);
            assert(self.entries() == m0.entries().insert(k, bytes@));
            if had {
                assert(self.order() == m0.order());
                assert forall|k2: (i32, i32, i32)| self.entries().contains_key(k2)
                    <==> self.order().contains(k2) by {
                    assert(m0.entries().contains_key(k2) <==> m0.order().contains(k2));
                    if k2 == k {
                        assert(m0.entries().contains_key(k));
                    }
                }
            } else {
                assert(self.order() == m0.order().push(k));
                assert(!m0.order().contains(k)) by {
                    assert(m0.entries().contains_key(k) <==> m0.order().contains(k));
                }
                assert forall|i: int, j: int| 0 <= i < j < self.order().len()
                    implies self.order()[i] != self.order()[j] by {
                    if j < m0.order().len() {
                        assert(m0.order()[i] != m0.order()[j]);
                    } else {
                        assert(self.order()[j] == k);
                        assert(m0.order()[i] == self.order()[i]);
                        if m0.order()[i] == k {
                            assert(m0.order().contains(k));
                            assert(false);
                        }
                    }
                }
                assert forall|k2: (i32, i32, i32)| self.entries().contains_key(k2)
                    <==> self.order().contains(k2) by {
                    assert(m0.entries().contains_key(k2) <==> m0.order().contains(k2));
                    if self.entries().contains_key(k2) {
                        if k2 == k {
                            assert(self.order()[m0.order().len() as int] == k);
                            assert(self.order().contains(k));
                        } else {
                            assert(m0.entries().contains_key(k2));
                            assert(m0.order().contains(k2));
                            let i = choose|i: int| 0 <= i < m0.order().len()
                                && m0.order()[i] == k2;
                            assert(self.order()[i] == k2);
                            assert(self.order().contains(k2));
                        }
                    }
                    if self.order().contains(k2) {
                        let i = choose|i: int| 0 <= i < self.order().len()
                            && self.order()[i] == k2;
                        if i < m0.order().len() {
                            assert(m0.order().contains(k2));
                            assert(self.entries().contains_key(k2));
                        } else {
                            assert(k2 == k);
                            assert(self.entries().contains_key(k2));
                        }
                    }
                }
            }
        }
    }

    /// The buffered bytes for a coordinate, if any. While present, these
    /// bytes, not any database row, answer a load of the coordinate.
    pub fn get(&self, c: IVec3) -> (r: Option<&Vec<u8>>)
        ensures
            match r {
                Some(v) => self.spec_contains(c) && v@ == self.entries()[save_key_of(c)],
                None => !self.spec_contains(c),
            },
    {
        let key: (i32, i32, i32) = (c.x, c.y, c.z);
        index_map_get(&self.map, &key)
    }

    pub fn len(&self) -> (r: usize)
        ensures
            r == self.order().len(),
    {
        index_map_len(&self.map)
    }

    /// Drains the buffer for a flush: every buffered pair, in insertion
    /// order, each coordinate exactly once; the buffer is left empty.
    pub fn take_all(&mut self) -> (r: Vec<((i32, i32, i32), Vec<u8>)>)
        requires
            old(self).wf(),
        ensures
            final(self).wf(),
            final(self).entries() == empty_save_entries(),
            final(self).order() == empty_save_order(),
            r@.len() == old(self).order().len(),
            forall|i: int| 0 <= i < r@.len() ==> {
                &&& (#[trigger] r@[i]).0 == old(self).order()[i]
                &&& old(self).entries().contains_key(r@[i].0)
                &&& r@[i].1@ == old(self).entries()[r@[i].0]
            },
    {
        let out = index_map_pairs(&self.map);
        index_map_clear(&mut self.map);
        proof {
            assert forall|k: (i32, i32, i32)| self.entries().contains_key(k)
                <==> self.order().contains(k) by {
                if self.order().contains(k) {
                    let i = choose|i: int| 0 <= i < self.order().len() && self.order()[i] == k;
                }
            }
        }
        out
    }
}

} // verus!
