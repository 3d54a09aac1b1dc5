//! Per-observer range tracking: translating an observer's chunk
//! position into the set of chunks it keeps resident, revoking its
//! reasons on the chunks it leaves behind and requesting loads for
//! absent chunks inside its range. A buffer shell around the range
//! keeps already-resident chunks alive without starting new loads, so
//! the boundary does not thrash.

use vstd::prelude::*;
use crate::coordmap::{lemma_index_unique, lemma_map_of_update};
use crate::coords::IVec3;
use crate::events::{ChunkStatus, LoadChunkEvent, LoadReason, LoadReasonChangeEvent};
use crate::world::{Chunk, chunk_wf, ChunkLoader, WorldStreamer};

verus! {

/// Whether a coordinate lies in the cube of the given radius around a
/// position.
pub open spec fn in_cube(p: IVec3, center: IVec3, radius: int) -> bool {
    &&& center.x - radius <= p.x <= center.x + radius
    &&& center.y - radius <= p.y <= center.y + radius
    &&& center.z - radius <= p.z <= center.z + radius
}

/// How loader maintenance may change the chunk store: the same chunks
/// stay resident and their blocks, handles and dimensions are kept;
/// only reason sets may differ.
pub open spec fn loader_chunks_frame(m0: Map<IVec3, Chunk>, m1: Map<IVec3, Chunk>) -> bool {
    &&& forall|c: IVec3| #[trigger] m1.contains_key(c) == m0.contains_key(c)
    &&& forall|c: IVec3| #[trigger] m0.contains_key(c) ==> {
        &&& m1[c].blocks == m0[c].blocks
        &&& m1[c].render_entity == m0[c].render_entity
        &&& m1[c].water_render_entity == m0[c].water_render_entity
    }
}

/// The loader frame composes.
pub proof fn lemma_loader_frame_trans(
    m0: Map<IVec3, Chunk>,
    m1: Map<IVec3, Chunk>,
    m2: Map<IVec3, Chunk>,
)
    requires
        loader_chunks_frame(m0, m1),
        loader_chunks_frame(m1, m2),
    ensures
        loader_chunks_frame(m0, m2),
{
    assert forall|c: IVec3| #[trigger] m2.contains_key(c) == m0.contains_key(c) by {
        assert(m1.contains_key(c) == m0.contains_key(c));
    }
    assert forall|c: IVec3| #[trigger] m0.contains_key(c) implies {
        &&& m2[c].blocks == m0[c].blocks
        &&& m2[c].render_entity == m0[c].render_entity
        &&& m2[c].water_render_entity == m0[c].water_render_entity
    } by {
        assert(m1.contains_key(c));
    }
}

impl WorldStreamer {
    /// Index of the loader registered for an observer, if any.
    fn find_loader(&self, observer: u64) -> (r: Option<usize>)
        ensures
            match r {
                Some(i) => i < self.loaders@.len()
                    && self.loaders@[i as int].observer == observer,
                None => forall|j: int| 0 <= j < self.loaders@.len()
                    ==> (#[trigger] self.loaders@[j]).observer != observer,
            },
    {
        let mut i: usize = 0;
        while i < self.loaders.len()
            invariant
                i <= self.loaders@.len(),
                forall|j: int| 0 <= j < i ==> (#[trigger] self.loaders@[j]).observer != observer,
            decreases self.loaders@.len() - i,
        {
            if self.loaders[i].observer == observer {
                return Some(i);
            }
            i = i + 1;
        }
        None
    }

    /// Registers an observer as a chunk loader with the given range.
    /// An observer already registered is left as it is.
    pub fn add_loader(&mut self, observer: u64, range: i32)
        requires
            old(self).wf(),
            0 <= range <= 100000,
        ensures
            final(self).wf(),
            final(self).chunk_map == old(self).chunk_map,
            final(self).chunk_status_map == old(self).chunk_status_map,
            final(self).pending_map == old(self).pending_map,
            final(self).loading_queue == old(self).loading_queue,
            final(self).unloading_queue == old(self).unloading_queue,
            final(self).save_queue == old(self).save_queue,
            final(self).update_chunk_events == old(self).update_chunk_events,
            final(self).tree_events == old(self).tree_events,
            final(self).block_update_events == old(self).block_update_events,
            final(self).reason_change_events == old(self).reason_change_events,
            exists|j: int| 0 <= j < final(self).loaders@.len()
                && (#[trigger] final(self).loaders@[j]).observer == observer,
            // An observer already registered is left as it is; a new one
            // is appended with the given range, position at the origin
            // and nothing retained, and other loaders are untouched.
            (exists|j: int| 0 <= j < old(self).loaders@.len()
                && (#[trigger] old(self).loaders@[j]).observer == observer)
                ==> final(self).loaders == old(self).loaders,
            !(exists|j: int| 0 <= j < old(self).loaders@.len()
                && (#[trigger] old(self).loaders@[j]).observer == observer)
                ==> {
                    &&& final(self).loaders@.len() == old(self).loaders@.len() + 1
                    &&& forall|j: int| 0 <= j < old(self).loaders@.len()
                        ==> final(self).loaders@[j] == old(self).loaders@[j]
                    &&& final(self).loaders@.last().observer == observer
                    &&& final(self).loaders@.last().range == range
                    &&& final(self).loaders@.last().position == (IVec3 { x: 0, y: 0, z: 0 })
                    &&& final(self).loaders@.last().load_list@.len() == 0
                },
    {
        let ghost s0 = *self;
        match self.find_loader(observer) {
            Some(i) => {
                proof {
                    assert(self.loaders@[i as int].observer == observer);
                }
                return;
            },
            None => {},
        }
        self.loaders.push(ChunkLoader {
            observer,
            range,
            position: IVec3 { x: 0, y: 0, z: 0 },
            load_list: Vec::new(),
        });
        proof {
            assert(self.loaders@[s0.loaders@.len() as int].observer == observer);
            assert forall|a: int, b: int| 0 <= a < b < self.loaders@.len()
                implies (#[trigger] self.loaders@[a]).observer
                    != (#[trigger] self.loaders@[b]).observer by {
                if b < s0.loaders@.len() {
                    assert(s0.loaders@[a].observer != s0.loaders@[b].observer);
                } else {
                    assert(self.loaders@[b].observer == observer);
                    assert(self.loaders@[a] == s0.loaders@[a]);
                }
            }
        }
    }

    /// Reacts to an observer moving to a new chunk coordinate: its
    /// `Loader` reason leaves every chunk it retained, the buffered
    /// cube around the new position is rescanned — resident chunks are
    /// re-retained (clearing any stale `Spawning` reason), and every
    /// absent in-bounds chunk within the inner range is requested for
    /// loading. Blocks and handles of resident chunks are untouched.
    pub fn update_chunk_loader(&mut self, observer: u64, new_pos: IVec3)
        requires
            old(self).wf(),
            -1000000 <= new_pos.x <= 1000000,
            -1000000 <= new_pos.y <= 1000000,
            -1000000 <= new_pos.z <= 1000000,
        ensures
            final(self).wf(),
            loader_chunks_frame(
                old(self).chunk_map.as_map(),
                final(self).chunk_map.as_map(),
            ),
            final(self).unloading_queue == old(self).unloading_queue,
            final(self).save_queue == old(self).save_queue,
            final(self).tree_events == old(self).tree_events,
            final(self).block_update_events == old(self).block_update_events,
            final(self).update_chunk_events == old(self).update_chunk_events,
            forall|p: IVec3, j: int| 0 <= j < old(self).loaders@.len()
                && (#[trigger] old(self).loaders@[j]).observer == observer
                && in_cube(p, new_pos, old(self).loaders@[j].range as int)
                && final(self).in_world_bounds(p)
                && !old(self).resident(p)
                ==> #[trigger] final(self).spec_status(p) == ChunkStatus::Loading,
            forall|p: IVec3, j: int| 0 <= j < old(self).loaders@.len()
                && (#[trigger] old(self).loaders@[j]).observer == observer
                && in_cube(
                    p,
                    new_pos,
                    old(self).loaders@[j].range + old(self).config.loader_buffer,
                )
                && old(self).resident(p)
                ==> (#[trigger] final(self).chunk_map.as_map()[p]).has_reason_spec(
                    LoadReason::Loader(observer),
                ),
            // Each resident coordinate of the old retained list got a
            // reason-change notice, and notices only accumulate.
            old(self).reason_change_events@.is_prefix_of(final(self).reason_change_events@),
            forall|k: int, j: int| 0 <= j < old(self).loaders@.len()
                && (#[trigger] old(self).loaders@[j]).observer == observer
                && 0 <= k < old(self).loaders@[j].load_list@.len()
                && old(self).resident(#[trigger] old(self).loaders@[j].load_list@[k])
                ==> final(self).reason_change_events@.contains(
                    LoadReasonChangeEvent(old(self).loaders@[j].load_list@[k]),
                ),
            // Afterwards the observer's Loader reason is held exactly
            // by the resident chunks of the buffered cube, plus any
            // chunk that held it before without being on the old
            // retained list.
            forall|c: IVec3, j: int| 0 <= j < old(self).loaders@.len()
                && (#[trigger] old(self).loaders@[j]).observer == observer
                && old(self).resident(c)
                ==> (#[trigger] final(self).chunk_map.as_map()[c]).has_reason_spec(
                    LoadReason::Loader(observer),
                ) == (in_cube(
                    c,
                    new_pos,
                    old(self).loaders@[j].range + old(self).config.loader_buffer,
                ) || (old(self).chunk_map.as_map()[c].has_reason_spec(
                    LoadReason::Loader(observer),
                ) && !old(self).loaders@[j].load_list@.contains(c))),
            // A stale Spawning reason survives only outside the cube.
            forall|c: IVec3, j: int| 0 <= j < old(self).loaders@.len()
                && (#[trigger] old(self).loaders@[j]).observer == observer
                && old(self).resident(c)
                ==> (#[trigger] final(self).chunk_map.as_map()[c]).has_reason_spec(
                    LoadReason::Spawning(observer),
                ) == (old(self).chunk_map.as_map()[c].has_reason_spec(
                    LoadReason::Spawning(observer),
                ) && !in_cube(
                    c,
                    new_pos,
                    old(self).loaders@[j].range + old(self).config.loader_buffer,
                )),
            // Reasons of every other holder and kind are untouched.
            forall|c: IVec3, r2: LoadReason| old(self).resident(c)
                && r2 != LoadReason::Loader(observer)
                && r2 != LoadReason::Spawning(observer)
                ==> (#[trigger] final(self).chunk_map.as_map()[c].has_reason_spec(r2))
                    == old(self).chunk_map.as_map()[c].has_reason_spec(r2),
            // The buffer ring alone triggers no loads: statuses move
            // only inside the inner range.
            forall|q: IVec3, j: int| 0 <= j < old(self).loaders@.len()
                && (#[trigger] old(self).loaders@[j]).observer == observer
                && !in_cube(q, new_pos, old(self).loaders@[j].range as int)
                ==> #[trigger] final(self).spec_status(q) == old(self).spec_status(q),
            // The rebuilt retained list holds exactly the resident
            // chunks of the buffered cube.
            forall|c: IVec3, j: int| 0 <= j < old(self).loaders@.len()
                && (#[trigger] old(self).loaders@[j]).observer == observer
                ==> (#[trigger] final(self).loaders@[j].load_list@.contains(c))
                    == (old(self).resident(c) && in_cube(
                        c,
                        new_pos,
                        old(self).loaders@[j].range + old(self).config.loader_buffer,
                    )),
    {
        let ghost s0 = *self;
        // Find this observer's loader.
        let li: usize = match self.find_loader(observer) {
            Some(i) => i,
            None => {
                proof {
                    assert(self.reason_change_events@.is_prefix_of(
                        self.reason_change_events@,
                    ));
                }
                return;
            },
        };
        let ghost lj = li as int;
        proof {
            assert(s0.loaders@[lj].observer == observer);
        }
        let range = self.loaders[li].range;
        proof {
            assert(0 <= range <= 100000);
        }
        let reason = LoadReason::Loader(observer);

        // Release everything this loader currently retains.
        let mut i: usize = 0;
        while i < self.loaders[li].load_list.len()
            invariant
                s0 == *old(self),
                s0.wf(),
                self.wf(),
                lj == li as int,
                li < self.loaders@.len(),
                observer == s0.loaders@[lj].observer,
                reason == LoadReason::Loader(observer),
                self.loaders == s0.loaders,
                i <= self.loaders@[lj].load_list@.len(),
                loader_chunks_frame(s0.chunk_map.as_map(), self.chunk_map.as_map()),
                forall|c: IVec3, r2: LoadReason| s0.resident(c)
                    ==> (#[trigger] self.chunk_map.as_map()[c].has_reason_spec(r2))
                        == (s0.chunk_map.as_map()[c].has_reason_spec(r2)
                            && !(r2 == reason && s0.loaders@[lj].load_list@
                                .subrange(0, i as int).contains(c))),
                s0.reason_change_events@.is_prefix_of(self.reason_change_events@),
                forall|k: int| 0 <= k < i
                    && s0.resident(#[trigger] s0.loaders@[lj].load_list@[k])
                    ==> self.reason_change_events@.contains(
                        LoadReasonChangeEvent(s0.loaders@[lj].load_list@[k]),
                    ),
                self.chunk_status_map == s0.chunk_status_map,
                self.loading_queue == s0.loading_queue,
                self.unloading_queue == s0.unloading_queue,
                self.save_queue == s0.save_queue,
                self.pending_map == s0.pending_map,
                self.update_chunk_events == s0.update_chunk_events,
                self.tree_events == s0.tree_events,
                self.block_update_events == s0.block_update_events,
                self.config == s0.config,
                self.seed == s0.seed,
            decreases self.loaders@[lj].load_list@.len() - i,
        {
            let p = self.loaders[li].load_list[i];
            let ghost pre = *self;
            self.remove_load_reason(p, reason);
            proof {
                let list = s0.loaders@[lj].load_list@;
                assert(list[i as int] == p);
                assert forall|c: IVec3, r2: LoadReason| s0.resident(c)
                    implies (#[trigger] self.chunk_map.as_map()[c].has_reason_spec(r2))
                        == (s0.chunk_map.as_map()[c].has_reason_spec(r2)
                            && !(r2 == reason
                                && list.subrange(0, i + 1).contains(c))) by {
                    assert(pre.resident(c) == s0.resident(c));
                    assert(list.subrange(0, i + 1)
                        =~= list.subrange(0, i as int).push(p));
                    assert(list.subrange(0, i + 1).contains(c)
                        == (list.subrange(0, i as int).contains(c) || c == p)) by {
                        if list.subrange(0, i + 1).contains(c) {
                            let k = choose|k: int| 0 <= k < list.subrange(0, i + 1).len()
                                && #[trigger] list.subrange(0, i + 1)[k] == c;
                            if k < i {
                                assert(list.subrange(0, i as int)[k] == c);
                            }
                        }
                        if list.subrange(0, i as int).contains(c) {
                            let k = choose|k: int| 0 <= k < i
                                && #[trigger] list.subrange(0, i as int)[k] == c;
                            assert(list.subrange(0, i + 1)[k] == c);
                        }
                        if c == p {
                            assert(list.subrange(0, i + 1)[i as int] == c);
                        }
                    }
                    if pre.resident(p) {
                        if c == p {
                            assert(self.chunk_map.as_map()[p].has_reason_spec(r2)
                                == (pre.chunk_map.as_map()[p].has_reason_spec(r2)
                                    && r2 != reason));
                        } else {
                            assert(self.chunk_map.as_map()[c]
                                == pre.chunk_map.as_map()[c]);
                        }
                    } else {
                        assert(*self == pre);
                        if c == p {
                            assert(!s0.resident(p));
                        }
                    }
                }
                assert forall|k: int| 0 <= k < i + 1
                    && s0.resident(#[trigger] list[k])
                    implies self.reason_change_events@.contains(
                        LoadReasonChangeEvent(list[k]),
                    ) by {
                    if k < i {
                        assert(pre.reason_change_events@.contains(
                            LoadReasonChangeEvent(list[k]),
                        ));
                        let e = LoadReasonChangeEvent(list[k]);
                        let m = choose|m: int| 0 <= m < pre.reason_change_events@.len()
                            && pre.reason_change_events@[m] == e;
                        if pre.resident(p) {
                            assert(self.reason_change_events@[m] == e);
                        }
                    } else {
                        assert(pre.resident(p));
                        assert(self.reason_change_events@.last()
                            == LoadReasonChangeEvent(p));
                    }
                }
                if pre.resident(p) {
                    assert(s0.reason_change_events@.is_prefix_of(
                        self.reason_change_events@,
                    )) by {
                        assert(self.reason_change_events@
                            == pre.reason_change_events@.push(LoadReasonChangeEvent(p)));
                        assert(self.reason_change_events@.subrange(
                            0,
                            s0.reason_change_events@.len() as int,
                        ) =~= pre.reason_change_events@.subrange(
                            0,
                            s0.reason_change_events@.len() as int,
                        ));
                    }
                }
                if pre.resident(p) {
                    assert forall|c2: IVec3| #[trigger] self.chunk_map.as_map().contains_key(c2)
                        == pre.chunk_map.as_map().contains_key(c2) by {
                        assert(self.chunk_map.as_map().dom() == pre.chunk_map.as_map().dom());
                    }
                    assert forall|c2: IVec3| #[trigger] pre.chunk_map.as_map().contains_key(c2)
                        implies {
                            &&& self.chunk_map.as_map()[c2].blocks
                                == pre.chunk_map.as_map()[c2].blocks
                            &&& self.chunk_map.as_map()[c2].render_entity
                                == pre.chunk_map.as_map()[c2].render_entity
                            &&& self.chunk_map.as_map()[c2].water_render_entity
                                == pre.chunk_map.as_map()[c2].water_render_entity
                        } by {
                        assert(pre.resident(c2));
                    }
                    assert(loader_chunks_frame(
                        pre.chunk_map.as_map(),
                        self.chunk_map.as_map(),
                    ));
                } else {
                    assert(*self == pre);
                }
                lemma_loader_frame_trans(
                    s0.chunk_map.as_map(),
                    pre.chunk_map.as_map(),
                    self.chunk_map.as_map(),
                );
            }
            i = i + 1;
        }

        // Reset the retained list and move the loader.
        let ghost sl = *self;
        let loader: &mut ChunkLoader = &mut self.loaders[li];
        loader.load_list = Vec::new();
        loader.position = new_pos;
        proof {
            assert(self.loaders@[lj].observer == observer);
            assert(self.loaders@[lj].load_list@.len() == 0);
            assert forall|a: int, b: int| 0 <= a < b < self.loaders@.len()
                implies (#[trigger] self.loaders@[a]).observer
                    != (#[trigger] self.loaders@[b]).observer by {
                assert(self.loaders@[a].observer == sl.loaders@[a].observer);
                assert(self.loaders@[b].observer == sl.loaders@[b].observer);
            }
            let list = s0.loaders@[lj].load_list@;
            assert(list.subrange(0, list.len() as int) =~= list);
        }

        // Rescan the buffered cube around the new position.
        let buffer = self.config.loader_buffer;
        let reach: i32 = range + buffer;
        let min_x = new_pos.x - reach;
        let max_x = new_pos.x + reach;
        let min_y = new_pos.y - reach;
        let max_y = new_pos.y + reach;
        let min_z = new_pos.z - reach;
        let max_z = new_pos.z + reach;
        let ghost sm = *self;

        let mut x = min_x;
        while x <= max_x
            invariant
                self.wf(),
                min_x == new_pos.x - reach,
                max_x == new_pos.x + reach,
                min_y == new_pos.y - reach,
                max_y == new_pos.y + reach,
                min_z == new_pos.z - reach,
                max_z == new_pos.z + reach,
                0 <= range <= 100000,
                0 <= reach - range <= 100000,
                -1000000 <= new_pos.x <= 1000000,
                -1000000 <= new_pos.y <= 1000000,
                -1000000 <= new_pos.z <= 1000000,
                min_x <= x <= max_x + 1,
                s0.wf(),
                0 <= lj < s0.loaders@.len(),
                observer == s0.loaders@[lj].observer,
                lj < self.loaders@.len() as int,
                reason == LoadReason::Loader(observer),
                loader_chunks_frame(s0.chunk_map.as_map(), self.chunk_map.as_map()),
                forall|p: IVec3| min_x <= p.x < x
                    && self.in_world_bounds(p)
                    && in_cube(p, new_pos, range as int)
                    && !s0.resident(p)
                    ==> #[trigger] self.spec_status(p) == ChunkStatus::Loading,
                forall|p: IVec3| min_x <= p.x < x
                    && in_cube(p, new_pos, reach as int)
                    && s0.resident(p)
                    ==> (#[trigger] self.chunk_map.as_map()[p]).has_reason_spec(
                        LoadReason::Loader(observer),
                    ),
                loader_chunks_frame(s0.chunk_map.as_map(), sm.chunk_map.as_map()),
                forall|c: IVec3, r2: LoadReason| s0.resident(c)
                    ==> (#[trigger] sm.chunk_map.as_map()[c].has_reason_spec(r2))
                        == (s0.chunk_map.as_map()[c].has_reason_spec(r2)
                            && !(r2 == reason
                                && s0.loaders@[lj].load_list@.contains(c))),
                sm.chunk_status_map == s0.chunk_status_map,
                s0.reason_change_events@.is_prefix_of(sm.reason_change_events@),
                forall|k: int| 0 <= k < s0.loaders@[lj].load_list@.len()
                    && s0.resident(#[trigger] s0.loaders@[lj].load_list@[k])
                    ==> sm.reason_change_events@.contains(
                        LoadReasonChangeEvent(s0.loaders@[lj].load_list@[k]),
                    ),
                sm.loaders@.len() == s0.loaders@.len(),
                sm.loaders@[lj].observer == observer,
                sm.loaders@[lj].load_list@.len() == 0,
                self.loaders@.len() == sm.loaders@.len(),
                forall|j: int| 0 <= j < self.loaders@.len() && j != lj
                    ==> #[trigger] self.loaders@[j] == sm.loaders@[j],
                self.loaders@[lj].observer == observer,
                self.loaders@[lj].range == sm.loaders@[lj].range,
                self.loaders@[lj].position == sm.loaders@[lj].position,
                self.reason_change_events == sm.reason_change_events,
                forall|c: IVec3| s0.resident(c)
                    && !((min_x <= c.x < x) && in_cube(c, new_pos, reach as int))
                    ==> #[trigger] self.chunk_map.as_map()[c] == sm.chunk_map.as_map()[c],
                forall|c: IVec3, r2: LoadReason| (min_x <= c.x < x) && in_cube(c, new_pos, reach as int)
                    && s0.resident(c)
                    ==> (#[trigger] self.chunk_map.as_map()[c].has_reason_spec(r2))
                        == ((sm.chunk_map.as_map()[c].has_reason_spec(r2)
                            && r2 != LoadReason::Spawning(observer))
                            || r2 == LoadReason::Loader(observer)),
                forall|q: IVec3| !((min_x <= q.x < x) && in_cube(q, new_pos, range as int))
                    ==> #[trigger] self.spec_status(q) == sm.spec_status(q),
                forall|c: IVec3| (#[trigger] self.loaders@[lj].load_list@.contains(c))
                    == (s0.resident(c) && (min_x <= c.x < x) && in_cube(c, new_pos, reach as int)),
                self.unloading_queue == s0.unloading_queue,
                self.save_queue == s0.save_queue,
                self.tree_events == s0.tree_events,
                self.block_update_events == s0.block_update_events,
                self.update_chunk_events == s0.update_chunk_events,
                self.config == s0.config,
            decreases max_x + 1 - x,
        {
            let mut y = min_y;
            while y <= max_y
                invariant
                    self.wf(),
                    min_x == new_pos.x - reach,
                    max_x == new_pos.x + reach,
                    min_y == new_pos.y - reach,
                    max_y == new_pos.y + reach,
                    min_z == new_pos.z - reach,
                    max_z == new_pos.z + reach,
                    0 <= range <= 100000,
                    0 <= reach - range <= 100000,
                    -1000000 <= new_pos.x <= 1000000,
                    -1000000 <= new_pos.y <= 1000000,
                    -1000000 <= new_pos.z <= 1000000,
                    min_x <= x <= max_x,
                    min_y <= y <= max_y + 1,
                    s0.wf(),
                0 <= lj < s0.loaders@.len(),
                observer == s0.loaders@[lj].observer,
                    lj < self.loaders@.len() as int,
                    reason == LoadReason::Loader(observer),
                    loader_chunks_frame(s0.chunk_map.as_map(), self.chunk_map.as_map()),
                    forall|p: IVec3| ((min_x <= p.x < x) || (p.x == x && min_y <= p.y < y))
                        && self.in_world_bounds(p)
                        && in_cube(p, new_pos, range as int)
                        && !s0.resident(p)
                        ==> #[trigger] self.spec_status(p) == ChunkStatus::Loading,
                    forall|p: IVec3| ((min_x <= p.x < x) || (p.x == x && min_y <= p.y < y))
                        && in_cube(p, new_pos, reach as int)
                        && s0.resident(p)
                        ==> (#[trigger] self.chunk_map.as_map()[p]).has_reason_spec(
                            LoadReason::Loader(observer),
                        ),
                    loader_chunks_frame(s0.chunk_map.as_map(), sm.chunk_map.as_map()),
                    forall|c: IVec3, r2: LoadReason| s0.resident(c)
                        ==> (#[trigger] sm.chunk_map.as_map()[c].has_reason_spec(r2))
                            == (s0.chunk_map.as_map()[c].has_reason_spec(r2)
                                && !(r2 == reason
                                    && s0.loaders@[lj].load_list@.contains(c))),
                    sm.chunk_status_map == s0.chunk_status_map,
                    s0.reason_change_events@.is_prefix_of(sm.reason_change_events@),
                    forall|k: int| 0 <= k < s0.loaders@[lj].load_list@.len()
                        && s0.resident(#[trigger] s0.loaders@[lj].load_list@[k])
                        ==> sm.reason_change_events@.contains(
                            LoadReasonChangeEvent(s0.loaders@[lj].load_list@[k]),
                        ),
                    sm.loaders@.len() == s0.loaders@.len(),
                    sm.loaders@[lj].observer == observer,
                    sm.loaders@[lj].load_list@.len() == 0,
                    self.loaders@.len() == sm.loaders@.len(),
                    forall|j: int| 0 <= j < self.loaders@.len() && j != lj
                        ==> #[trigger] self.loaders@[j] == sm.loaders@[j],
                    self.loaders@[lj].observer == observer,
                    self.loaders@[lj].range == sm.loaders@[lj].range,
                    self.loaders@[lj].position == sm.loaders@[lj].position,
                    self.reason_change_events == sm.reason_change_events,
                    forall|c: IVec3| s0.resident(c)
                        && !(((min_x <= c.x < x) || (c.x == x && min_y <= c.y < y)) && in_cube(c, new_pos, reach as int))
                        ==> #[trigger] self.chunk_map.as_map()[c] == sm.chunk_map.as_map()[c],
                    forall|c: IVec3, r2: LoadReason| ((min_x <= c.x < x) || (c.x == x && min_y <= c.y < y)) && in_cube(c, new_pos, reach as int)
                        && s0.resident(c)
                        ==> (#[trigger] self.chunk_map.as_map()[c].has_reason_spec(r2))
                            == ((sm.chunk_map.as_map()[c].has_reason_spec(r2)
                                && r2 != LoadReason::Spawning(observer))
                                || r2 == LoadReason::Loader(observer)),
                    forall|q: IVec3| !(((min_x <= q.x < x) || (q.x == x && min_y <= q.y < y)) && in_cube(q, new_pos, range as int))
                        ==> #[trigger] self.spec_status(q) == sm.spec_status(q),
                    forall|c: IVec3| (#[trigger] self.loaders@[lj].load_list@.contains(c))
                        == (s0.resident(c) && ((min_x <= c.x < x) || (c.x == x && min_y <= c.y < y)) && in_cube(c, new_pos, reach as int)),
                    self.unloading_queue == s0.unloading_queue,
                    self.save_queue == s0.save_queue,
                    self.tree_events == s0.tree_events,
                    self.block_update_events == s0.block_update_events,
                    self.update_chunk_events == s0.update_chunk_events,
                    self.config == s0.config,
                decreases max_y + 1 - y,
            {
                let mut z = min_z;
                while z <= max_z
                    invariant
                        self.wf(),
                        min_x == new_pos.x - reach,
                        max_x == new_pos.x + reach,
                        min_y == new_pos.y - reach,
                        max_y == new_pos.y + reach,
                        min_z == new_pos.z - reach,
                        max_z == new_pos.z + reach,
                        0 <= range <= 100000,
                        0 <= reach - range <= 100000,
                        -1000000 <= new_pos.x <= 1000000,
                        -1000000 <= new_pos.y <= 1000000,
                        -1000000 <= new_pos.z <= 1000000,
                        min_x <= x <= max_x,
                        min_y <= y <= max_y,
                        min_z <= z <= max_z + 1,
                        s0.wf(),
                0 <= lj < s0.loaders@.len(),
                observer == s0.loaders@[lj].observer,
                        lj < self.loaders@.len() as int,
                        reason == LoadReason::Loader(observer),
                        loader_chunks_frame(s0.chunk_map.as_map(), self.chunk_map.as_map()),
                        forall|p: IVec3| ((min_x <= p.x < x) || (p.x == x && min_y <= p.y < y)
                            || (p.x == x && p.y == y && min_z <= p.z < z))
                            && self.in_world_bounds(p)
                            && in_cube(p, new_pos, range as int)
                            && !s0.resident(p)
                            ==> #[trigger] self.spec_status(p) == ChunkStatus::Loading,
                        forall|p: IVec3| ((min_x <= p.x < x) || (p.x == x && min_y <= p.y < y)
                            || (p.x == x && p.y == y && min_z <= p.z < z))
                            && in_cube(p, new_pos, reach as int)
                            && s0.resident(p)
                            ==> (#[trigger] self.chunk_map.as_map()[p]).has_reason_spec(
                                LoadReason::Loader(observer),
                            ),
                        loader_chunks_frame(s0.chunk_map.as_map(), sm.chunk_map.as_map()),
                        forall|c: IVec3, r2: LoadReason| s0.resident(c)
                            ==> (#[trigger] sm.chunk_map.as_map()[c].has_reason_spec(r2))
                                == (s0.chunk_map.as_map()[c].has_reason_spec(r2)
                                    && !(r2 == reason
                                        && s0.loaders@[lj].load_list@.contains(c))),
                        sm.chunk_status_map == s0.chunk_status_map,
                        s0.reason_change_events@.is_prefix_of(sm.reason_change_events@),
                        forall|k: int| 0 <= k < s0.loaders@[lj].load_list@.len()
                            && s0.resident(#[trigger] s0.loaders@[lj].load_list@[k])
                            ==> sm.reason_change_events@.contains(
                                LoadReasonChangeEvent(s0.loaders@[lj].load_list@[k]),
                            ),
                        sm.loaders@.len() == s0.loaders@.len(),
                        sm.loaders@[lj].observer == observer,
                        sm.loaders@[lj].load_list@.len() == 0,
                        self.loaders@.len() == sm.loaders@.len(),
                        forall|j: int| 0 <= j < self.loaders@.len() && j != lj
                            ==> #[trigger] self.loaders@[j] == sm.loaders@[j],
                        self.loaders@[lj].observer == observer,
                        self.loaders@[lj].range == sm.loaders@[lj].range,
                        self.loaders@[lj].position == sm.loaders@[lj].position,
                        self.reason_change_events == sm.reason_change_events,
                        forall|c: IVec3| s0.resident(c)
                            && !(((min_x <= c.x < x) || (c.x == x && min_y <= c.y < y)
                            || (c.x == x && c.y == y && min_z <= c.z < z)) && in_cube(c, new_pos, reach as int))
                            ==> #[trigger] self.chunk_map.as_map()[c] == sm.chunk_map.as_map()[c],
                        forall|c: IVec3, r2: LoadReason| ((min_x <= c.x < x) || (c.x == x && min_y <= c.y < y)
                            || (c.x == x && c.y == y && min_z <= c.z < z)) && in_cube(c, new_pos, reach as int)
                            && s0.resident(c)
                            ==> (#[trigger] self.chunk_map.as_map()[c].has_reason_spec(r2))
                                == ((sm.chunk_map.as_map()[c].has_reason_spec(r2)
                                    && r2 != LoadReason::Spawning(observer))
                                    || r2 == LoadReason::Loader(observer)),
                        forall|q: IVec3| !(((min_x <= q.x < x) || (q.x == x && min_y <= q.y < y)
                            || (q.x == x && q.y == y && min_z <= q.z < z)) && in_cube(q, new_pos, range as int))
                            ==> #[trigger] self.spec_status(q) == sm.spec_status(q),
                        forall|c: IVec3| (#[trigger] self.loaders@[lj].load_list@.contains(c))
                            == (s0.resident(c) && ((min_x <= c.x < x) || (c.x == x && min_y <= c.y < y)
                            || (c.x == x && c.y == y && min_z <= c.z < z)) && in_cube(c, new_pos, reach as int)),
                        self.unloading_queue == s0.unloading_queue,
                        self.save_queue == s0.save_queue,
                        self.tree_events == s0.tree_events,
                        self.block_update_events == s0.block_update_events,
                        self.update_chunk_events == s0.update_chunk_events,
                        self.config == s0.config,
                    decreases max_z + 1 - z,
                {
                    let p = IVec3 { x, y, z };
                    let ghost pre = *self;
                    self.refresh_loader_coord(observer, p, new_pos, range);
                    proof {
                        lemma_loader_frame_trans(
                            s0.chunk_map.as_map(),
                            pre.chunk_map.as_map(),
                            self.chunk_map.as_map(),
                        );
                        assert forall|q: IVec3| ((min_x <= q.x < x)
                            || (q.x == x && min_y <= q.y < y)
                            || (q.x == x && q.y == y && min_z <= q.z < z + 1))
                            && self.in_world_bounds(q)
                            && in_cube(q, new_pos, range as int)
                            && !s0.resident(q)
                            implies #[trigger] self.spec_status(q) == ChunkStatus::Loading by {
                            if q == p {
                                assert(!pre.resident(p));
                                assert(self.spec_status(p) == ChunkStatus::Loading);
                            } else {
                                assert(pre.spec_status(q) == ChunkStatus::Loading);
                            }
                        }
                        assert forall|q: IVec3| ((min_x <= q.x < x)
                            || (q.x == x && min_y <= q.y < y)
                            || (q.x == x && q.y == y && min_z <= q.z < z + 1))
                            && in_cube(q, new_pos, reach as int)
                            && s0.resident(q)
                            implies (#[trigger] self.chunk_map.as_map()[q]).has_reason_spec(
                                LoadReason::Loader(observer),
                            ) by {
                            assert(pre.resident(q) == s0.resident(q));
                            if q == p {
                                assert(pre.resident(p));
                                assert(self.chunk_map.as_map()[p].has_reason_spec(
                                    LoadReason::Loader(observer),
                                ));
                            } else {
                                assert(pre.chunk_map.as_map()[q].has_reason_spec(
                                    LoadReason::Loader(observer),
                                ));
                                assert(self.chunk_map.as_map()[q]
                                    == pre.chunk_map.as_map()[q]);
                            }
                        }
                        assert(in_cube(p, new_pos, reach as int));
                        assert forall|c: IVec3| s0.resident(c)
                            && !(((min_x <= c.x < x) || (c.x == x && min_y <= c.y < y)
                                || (c.x == x && c.y == y && min_z <= c.z < z + 1))
                                && in_cube(c, new_pos, reach as int))
                            implies #[trigger] self.chunk_map.as_map()[c]
                                == sm.chunk_map.as_map()[c] by {
                            assert(c != p);
                            assert(pre.chunk_map.as_map().contains_key(c)
                                == s0.chunk_map.as_map().contains_key(c));
                            assert(self.chunk_map.as_map()[c] == pre.chunk_map.as_map()[c]);
                        }
                        assert forall|c: IVec3, r2: LoadReason| ((min_x <= c.x < x)
                            || (c.x == x && min_y <= c.y < y)
                            || (c.x == x && c.y == y && min_z <= c.z < z + 1))
                            && in_cube(c, new_pos, reach as int)
                            && s0.resident(c)
                            implies (#[trigger] self.chunk_map.as_map()[c].has_reason_spec(r2))
                                == ((sm.chunk_map.as_map()[c].has_reason_spec(r2)
                                    && r2 != LoadReason::Spawning(observer))
                                    || r2 == LoadReason::Loader(observer)) by {
                            assert(pre.resident(c) == s0.resident(c));
                            assert(pre.chunk_map.as_map().contains_key(c)
                                == s0.chunk_map.as_map().contains_key(c));
                            if c == p {
                                assert(pre.chunk_map.as_map()[p] == sm.chunk_map.as_map()[p]);
                            } else {
                                assert(self.chunk_map.as_map()[c]
                                    == pre.chunk_map.as_map()[c]);
                            }
                        }
                        assert forall|q: IVec3| !(((min_x <= q.x < x)
                            || (q.x == x && min_y <= q.y < y)
                            || (q.x == x && q.y == y && min_z <= q.z < z + 1))
                            && in_cube(q, new_pos, range as int))
                            implies #[trigger] self.spec_status(q) == sm.spec_status(q) by {
                            if q == p {
                                assert(pre.resident(p) || !in_cube(p, new_pos, range as int)
                                    ==> self.spec_status(p) == pre.spec_status(p));
                                if !pre.resident(p) && in_cube(p, new_pos, range as int) {
                                } else {
                                    assert(self.spec_status(p) == pre.spec_status(p));
                                    assert(pre.spec_status(p) == sm.spec_status(p));
                                }
                            } else {
                                assert(self.spec_status(q) == pre.spec_status(q));
                                assert(pre.spec_status(q) == sm.spec_status(q));
                            }
                        }
                        let ghost prelist = pre.loaders@[lj].load_list@;
                        assert(self.loaders@[lj].load_list@ == if pre.resident(p) {
                            prelist.push(p)
                        } else {
                            prelist
                        });
                        assert forall|c: IVec3|
                            (#[trigger] self.loaders@[lj].load_list@.contains(c))
                            == (s0.resident(c) && ((min_x <= c.x < x)
                                || (c.x == x && min_y <= c.y < y)
                                || (c.x == x && c.y == y && min_z <= c.z < z + 1))
                                && in_cube(c, new_pos, reach as int)) by {
                            if pre.resident(p) {
                                if self.loaders@[lj].load_list@.contains(c) {
                                    let k = choose|k: int| 0 <= k
                                        < self.loaders@[lj].load_list@.len()
                                        && #[trigger] self.loaders@[lj].load_list@[k] == c;
                                    if k < prelist.len() {
                                        assert(prelist.contains(c));
                                    } else {
                                        assert(c == p);
                                    }
                                }
                                if prelist.contains(c) {
                                    let k = choose|k: int| 0 <= k < prelist.len()
                                        && #[trigger] prelist[k] == c;
                                    assert(self.loaders@[lj].load_list@[k] == c);
                                }
                                if c == p {
                                    assert(self.loaders@[lj].load_list@.last() == p);
                                }
                            } else {
                                if c == p {
                                    assert(!prelist.contains(p));
                                }
                            }
                        }
                    }
                    z = z + 1;
                }
                y = y + 1;
            }
            x = x + 1;
        }
        proof {
            assert forall|j: int| 0 <= j < s0.loaders@.len()
                && (#[trigger] s0.loaders@[j]).observer == observer
                implies j == lj by {
                if j != lj {
                    assert(s0.loaders@[j].observer != s0.loaders@[lj].observer);
                }
            }
        }
    }

    /// Handles one coordinate of a loader rescan: a resident chunk is
    /// re-retained under the observer's `Loader` reason (clearing a
    /// stale `Spawning` reason); an absent coordinate inside the inner
    /// range is requested for loading.
    fn refresh_loader_coord(&mut self, observer: u64, p: IVec3, center: IVec3, range: i32)
        requires
            old(self).wf(),
            0 <= range <= 100000,
            -1000000 <= center.x <= 1000000,
            -1000000 <= center.y <= 1000000,
            -1000000 <= center.z <= 1000000,
        ensures
            final(self).wf(),
            loader_chunks_frame(
                old(self).chunk_map.as_map(),
                final(self).chunk_map.as_map(),
            ),
            !old(self).resident(p) && old(self).in_world_bounds(p)
                && in_cube(p, center, range as int)
                ==> final(self).spec_status(p) == ChunkStatus::Loading,
            forall|c2: IVec3| c2 != p && #[trigger] old(self).chunk_map.as_map().contains_key(c2)
                ==> final(self).chunk_map.as_map()[c2] == old(self).chunk_map.as_map()[c2],
            old(self).resident(p) ==> {
                &&& final(self).chunk_map.as_map()[p].has_reason_spec(
                    LoadReason::Loader(observer),
                )
                &&& !final(self).chunk_map.as_map()[p].has_reason_spec(
                    LoadReason::Spawning(observer),
                )
            },
            // The refreshed chunk gains the observer's Loader reason
            // and sheds its stale Spawning reason; no other reason
            // moves.
            old(self).resident(p) ==> forall|r2: LoadReason|
                #[trigger] final(self).chunk_map.as_map()[p].has_reason_spec(r2)
                    == ((old(self).chunk_map.as_map()[p].has_reason_spec(r2)
                        && r2 != LoadReason::Spawning(observer))
                        || r2 == LoadReason::Loader(observer)),
            forall|q: IVec3| q != p
                ==> #[trigger] final(self).spec_status(q) == old(self).spec_status(q),
            old(self).resident(p) || !in_cube(p, center, range as int)
                ==> final(self).spec_status(p) == old(self).spec_status(p),
            forall|q: IVec3| old(self).spec_status(q) == ChunkStatus::Loading
                ==> #[trigger] final(self).spec_status(q) == ChunkStatus::Loading,
            final(self).unloading_queue == old(self).unloading_queue,
            final(self).save_queue == old(self).save_queue,
            final(self).tree_events == old(self).tree_events,
            final(self).block_update_events == old(self).block_update_events,
            final(self).update_chunk_events == old(self).update_chunk_events,
            final(self).config == old(self).config,
            final(self).loaders@.len() == old(self).loaders@.len(),
            forall|j: int| 0 <= j < old(self).loaders@.len()
                ==> (#[trigger] final(self).loaders@[j]).observer
                    == old(self).loaders@[j].observer,
            final(self).reason_change_events == old(self).reason_change_events,
            // A resident coordinate lands on the observer's retained
            // list; no other loader changes.
            forall|j: int| 0 <= j < old(self).loaders@.len()
                && (#[trigger] old(self).loaders@[j]).observer != observer
                ==> final(self).loaders@[j] == old(self).loaders@[j],
            forall|j: int| 0 <= j < old(self).loaders@.len()
                && (#[trigger] old(self).loaders@[j]).observer == observer
                ==> {
                    &&& final(self).loaders@[j].observer == old(self).loaders@[j].observer
                    &&& final(self).loaders@[j].range == old(self).loaders@[j].range
                    &&& final(self).loaders@[j].position == old(self).loaders@[j].position
                    &&& final(self).loaders@[j].load_list@ == if old(self).resident(p) {
                        old(self).loaders@[j].load_list@.push(p)
                    } else {
                        old(self).loaders@[j].load_list@
                    }
                },
    {
        let ghost s0 = *self;
        let resident_here = self.chunk_map.contains_key(p);
        if resident_here {
            match self.chunk_map.index_of_key(p) {
                Some(ci) => {
                    proof {
                        lemma_index_unique(self.chunk_map.sseq(), p, ci as int);
                        assert(chunk_wf(self.chunk_map.as_map()[p]));
                    }
                    let chunk = self.chunk_map.entry_at_mut(ci);
                    chunk.remove_reason(LoadReason::Spawning(observer));
                    chunk.add_reason(LoadReason::Loader(observer));
                    proof {
                        assert(chunk.has_reason_spec(LoadReason::Loader(observer)));
                        assert(!chunk.has_reason_spec(LoadReason::Spawning(observer)));
                        assert(forall|r2: LoadReason| chunk.has_reason_spec(r2)
                            == ((s0.chunk_map.as_map()[p].has_reason_spec(r2)
                                && r2 != LoadReason::Spawning(observer))
                                || r2 == LoadReason::Loader(observer)));
                        lemma_map_of_update(
                            s0.chunk_map.sseq(),
                            ci as int,
                            self.chunk_map.sseq()[ci as int].val,
                        );
                        assert forall|c2: IVec3| #[trigger] self.chunk_map.as_map()
                            .contains_key(c2) == s0.chunk_map.as_map().contains_key(c2) by {
                            if c2 == p {
                                assert(s0.chunk_map.as_map().contains_key(p));
                            }
                        }
                        assert forall|c2: IVec3| #[trigger] self.chunk_map.as_map()
                            .contains_key(c2) implies chunk_wf(self.chunk_map.as_map()[c2]) by {
                            if c2 != p {
                                assert(s0.chunk_map.as_map().contains_key(c2));
                            }
                        }
                        assert forall|j: int| 0 <= j < self.loading_queue@.len() implies {
                            &&& self.in_world_bounds((#[trigger] self.loading_queue@[j]).chunk)
                            &&& !self.resident(self.loading_queue@[j].chunk)
                            &&& self.spec_status(self.loading_queue@[j].chunk)
                                == ChunkStatus::Loading
                        } by {
                            assert(!s0.resident(s0.loading_queue@[j].chunk));
                        }
                    }
                    // Re-retain the coordinate on this loader's list.
                    let mut lk: usize = 0;
                    let ghost sl = *self;
                    while lk < self.loaders.len()
                        invariant
                            lk <= self.loaders@.len(),
                            self.loaders@.len() == sl.loaders@.len(),
                            forall|j: int| 0 <= j < self.loaders@.len() && j >= lk
                                ==> self.loaders@[j] == sl.loaders@[j],
                            forall|j: int| 0 <= j < lk
                                && (#[trigger] sl.loaders@[j]).observer != observer
                                ==> self.loaders@[j] == sl.loaders@[j],
                            forall|j: int| 0 <= j < lk
                                && (#[trigger] sl.loaders@[j]).observer == observer
                                ==> {
                                    &&& self.loaders@[j].observer == sl.loaders@[j].observer
                                    &&& self.loaders@[j].range == sl.loaders@[j].range
                                    &&& self.loaders@[j].position == sl.loaders@[j].position
                                    &&& self.loaders@[j].load_list@
                                        == sl.loaders@[j].load_list@.push(p)
                                },
                            forall|a: int, b: int| 0 <= a < b < self.loaders@.len()
                                ==> (#[trigger] self.loaders@[a]).observer
                                    != (#[trigger] self.loaders@[b]).observer,
                            forall|j: int| 0 <= j < self.loaders@.len()
                                ==> 0 <= (#[trigger] self.loaders@[j]).range <= 100000,
                            sl.wf(),
                            self.chunk_map == sl.chunk_map,
                            self.chunk_status_map == sl.chunk_status_map,
                            self.pending_map == sl.pending_map,
                            self.loading_queue == sl.loading_queue,
                            self.unloading_queue == sl.unloading_queue,
                            self.save_queue == sl.save_queue,
                            self.update_chunk_events == sl.update_chunk_events,
                            self.tree_events == sl.tree_events,
                            self.block_update_events == sl.block_update_events,
                            self.reason_change_events == sl.reason_change_events,
                            self.config == sl.config,
                            self.seed == sl.seed,
                        decreases self.loaders@.len() - lk,
                    {
                        let is_mine = self.loaders[lk].observer == observer;
                        let ghost prel = self.loaders@;
                        if is_mine {
                            let loader: &mut ChunkLoader = &mut self.loaders[lk];
                            loader.load_list.push(p);
                        }
                        proof {
                            assert(prel[lk as int] == sl.loaders@[lk as int]);
                            assert forall|j: int| 0 <= j < lk + 1
                                && (#[trigger] sl.loaders@[j]).observer != observer
                                implies self.loaders@[j] == sl.loaders@[j] by {
                                if j < lk {
                                    assert(self.loaders@[j] == prel[j]);
                                } else {
                                    assert(!is_mine);
                                }
                            }
                            assert forall|j: int| 0 <= j < lk + 1
                                && (#[trigger] sl.loaders@[j]).observer == observer
                                implies {
                                    &&& self.loaders@[j].observer == sl.loaders@[j].observer
                                    &&& self.loaders@[j].range == sl.loaders@[j].range
                                    &&& self.loaders@[j].position == sl.loaders@[j].position
                                    &&& self.loaders@[j].load_list@
                                        == sl.loaders@[j].load_list@.push(p)
                                } by {
                                if j < lk {
                                    assert(self.loaders@[j] == prel[j]);
                                } else {
                                    assert(is_mine);
                                }
                            }
                        }
                        lk = lk + 1;
                    }
                },
                None => {
                    proof {
                        assert(false);
                    }
                },
            }
        } else {
            let inner = p.x >= center.x - range && p.x <= center.x + range
                && p.y >= center.y - range && p.y <= center.y + range
                && p.z >= center.z - range && p.z <= center.z + range;
            if inner {
                let ghost sp = *self;
                self.submit_load_request(LoadChunkEvent { chunk: p, load_reason: LoadReason::Loader(observer) });
                proof {
                    if sp.accepts_load(LoadChunkEvent { chunk: p, load_reason: LoadReason::Loader(observer) }) {
                        assert(self.spec_status(p) == ChunkStatus::Loading);
                    } else {
                        if sp.in_world_bounds(p) {
                            assert(sp.spec_status(p) == ChunkStatus::Loading
                                || sp.resident(p));
                        }
                    }
                }
            }
        }
    }
}

} // verus!
