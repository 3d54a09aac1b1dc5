//! The unload and save pipeline: reference-count-triggered eviction,
//! chunk encoding into the order-preserving save buffer, and the flush
//! batch handed to the persistent store.

use vstd::prelude::*;
use crate::codec::{chunk_bytes_of, encode_chunk_bytes};
use crate::coordmap::{lemma_index_unique, lemma_map_of_update};
use crate::coords::IVec3;
use crate::events::{ChunkStatus, LoadReason, LoadReasonChangeEvent};
use crate::savequeue::save_key_of;
use crate::world::{chunk_wf, WorldStreamer};

verus! {

/// How one call of `remove_load_reason` changes the streamer: on a
/// resident chunk the reason leaves its set and a change notice is
/// queued; on anything else nothing changes.
pub open spec fn remove_reason_rel(
    s0: WorldStreamer,
    s1: WorldStreamer,
    c: IVec3,
    reason: LoadReason,
) -> bool {
    if s0.resident(c) {
        &&& s1.chunk_map.as_map().dom() == s0.chunk_map.as_map().dom()
        &&& forall|c2: IVec3| #[trigger] s0.resident(c2) && c2 != c
            ==> s1.chunk_map.as_map()[c2] == s0.chunk_map.as_map()[c2]
        &&& s1.chunk_map.as_map()[c].blocks == s0.chunk_map.as_map()[c].blocks
        &&& s1.chunk_map.as_map()[c].render_entity == s0.chunk_map.as_map()[c].render_entity
        &&& s1.chunk_map.as_map()[c].water_render_entity
            == s0.chunk_map.as_map()[c].water_render_entity
        &&& forall|r2: LoadReason| #[trigger] s1.chunk_map.as_map()[c].has_reason_spec(r2)
            == (s0.chunk_map.as_map()[c].has_reason_spec(r2) && r2 != reason)
        &&& s1.reason_change_events@ == s0.reason_change_events@.push(LoadReasonChangeEvent(c))
        &&& s1.chunk_status_map == s0.chunk_status_map
        &&& s1.loading_queue == s0.loading_queue
        &&& s1.unloading_queue == s0.unloading_queue
        &&& s1.save_queue == s0.save_queue
        &&& s1.pending_map == s0.pending_map
        &&& s1.loaders == s0.loaders
        &&& s1.update_chunk_events == s0.update_chunk_events
        &&& s1.tree_events == s0.tree_events
        &&& s1.block_update_events == s0.block_update_events
        &&& s1.config == s0.config
        &&& s1.seed == s0.seed
    } else {
        s1 == s0
    }
}

/// How one reason-change notice is handled: a resident chunk whose
/// reason set is empty and whose status is not yet `Unloading` is
/// queued for unload exactly once and marked `Unloading`; any other
/// notice changes nothing.
pub open spec fn reason_change_rel(
    s0: WorldStreamer,
    s1: WorldStreamer,
    ev: LoadReasonChangeEvent,
) -> bool {
    let c = ev.0;
    if s0.resident(c) && s0.chunk_map.as_map()[c].load_reasons@.len() == 0
        && s0.spec_status(c) != ChunkStatus::Unloading {
        &&& s1.unloading_queue@ == seq![c] + s0.unloading_queue@
        &&& s1.chunk_status_map.as_map() == s0.chunk_status_map.as_map().insert(
            c,
            ChunkStatus::Unloading,
        )
        &&& s1.chunk_map == s0.chunk_map
        &&& s1.loading_queue == s0.loading_queue
        &&& s1.save_queue == s0.save_queue
        &&& s1.pending_map == s0.pending_map
        &&& s1.loaders == s0.loaders
        &&& s1.update_chunk_events == s0.update_chunk_events
        &&& s1.tree_events == s0.tree_events
        &&& s1.block_update_events == s0.block_update_events
        &&& s1.reason_change_events == s0.reason_change_events
        &&& s1.config == s0.config
        &&& s1.seed == s0.seed
    } else {
        s1 == s0
    }
}

impl WorldStreamer {
    /// Revokes one reason on the chunk at a coordinate and queues a
    /// reason-change notice for the unload pass. A coordinate with no
    /// resident chunk is left alone.
    pub fn remove_load_reason(&mut self, c: IVec3, reason: LoadReason)
        requires
            old(self).wf(),
        ensures
            final(self).wf(),
            remove_reason_rel(*old(self), *final(self), c, reason),
    {
        let ghost s0 = *self;
        match self.chunk_map.index_of_key(c) {
            Some(i) => {
                proof {
                    lemma_index_unique(self.chunk_map.sseq(), c, i as int);
                }
                let chunk = self.chunk_map.entry_at_mut(i);
                chunk.remove_reason(reason);
                proof {
                    lemma_map_of_update(
                        s0.chunk_map.sseq(),
                        i as int,
                        self.chunk_map.sseq()[i as int].val,
                    );
                    assert(self.chunk_map.as_map() =~= s0.chunk_map.as_map().insert(
                        c,
                        self.chunk_map.sseq()[i as int].val,
                    ));
                    assert(self.chunk_map.as_map().dom() =~= s0.chunk_map.as_map().dom());
                }
                self.reason_change_events.push(LoadReasonChangeEvent(c));
                proof {
                    assert forall|c2: IVec3| #[trigger] self.chunk_map.as_map().contains_key(c2)
                        implies chunk_wf(self.chunk_map.as_map()[c2]) by {
                        if c2 != c {
                            assert(s0.chunk_map.as_map().contains_key(c2));
                        }
                    }
                    assert forall|j: int| 0 <= j < self.loading_queue@.len() implies {
                        &&& self.in_world_bounds((#[trigger] self.loading_queue@[j]).chunk)
                        &&& !self.resident(self.loading_queue@[j].chunk)
                        &&& self.spec_status(self.loading_queue@[j].chunk) == ChunkStatus::Loading
                    } by {
                        assert(!s0.resident(s0.loading_queue@[j].chunk));
                    }
                }
            },
            None => {
            },
        }
    }

    /// Applies one reason-change notice: a resident chunk left with no
    /// reasons, and not already unloading, enters the unload queue and
    /// becomes `Unloading`.
    pub fn handle_reason_change(&mut self, ev: LoadReasonChangeEvent)
        requires
            old(self).wf(),
        ensures
            final(self).wf(),
            reason_change_rel(*old(self), *final(self), ev),
    {
        let c = ev.0;
        let ghost s0 = *self;
        let should = match self.chunk_map.get(c) {
            Some(chunk) => chunk.reasons_empty(),
            None => false,
        };
        if should {
            let st = self.status_of(c);
            if st != ChunkStatus::Unloading {
                self.unloading_queue.push_front(c);
                self.chunk_status_map.insert(c, ChunkStatus::Unloading);
                proof {
                    assert forall|j: int| 0 <= j < self.loading_queue@.len() implies {
                        &&& self.in_world_bounds((#[trigger] self.loading_queue@[j]).chunk)
                        &&& !self.resident(self.loading_queue@[j].chunk)
                        &&& self.spec_status(self.loading_queue@[j].chunk) == ChunkStatus::Loading
                    } by {
                        assert(!s0.resident(s0.loading_queue@[j].chunk));
                        assert(s0.resident(c));
                        assert(s0.loading_queue@[j].chunk != c);
                    }
                }
            }
        }
    }

    /// Drains the queued reason-change notices, handling each in turn
    /// per `reason_change_rel`: the whole drain is that relation folded
    /// over the notices in order, and afterwards the notice queue is
    /// empty. In particular, every noticed chunk that sat resident with
    /// an empty reason set and was not already unloading is `Unloading`
    /// and in the unload queue afterwards. The chunk store and the load
    /// queue are untouched.
    pub fn process_reason_changes(&mut self)
        requires
            old(self).wf(),
        ensures
            final(self).wf(),
            final(self).reason_change_events@.len() == 0,
            final(self).chunk_map == old(self).chunk_map,
            final(self).loading_queue == old(self).loading_queue,
            final(self).save_queue == old(self).save_queue,
            final(self).update_chunk_events == old(self).update_chunk_events,
            exists|mid: WorldStreamer| {
                &&& #[trigger] reason_changes_applied(
                    *old(self),
                    mid,
                    old(self).reason_change_events@,
                )
                &&& final(self).chunk_map == mid.chunk_map
                &&& final(self).chunk_status_map == mid.chunk_status_map
                &&& final(self).loading_queue == mid.loading_queue
                &&& final(self).unloading_queue == mid.unloading_queue
                &&& final(self).save_queue == mid.save_queue
                &&& final(self).pending_map == mid.pending_map
                &&& final(self).loaders == mid.loaders
                &&& final(self).update_chunk_events == mid.update_chunk_events
                &&& final(self).tree_events == mid.tree_events
                &&& final(self).block_update_events == mid.block_update_events
                &&& final(self).config == mid.config
                &&& final(self).seed == mid.seed
            },
            forall|j: int| 0 <= j < old(self).reason_change_events@.len()
                && spec_notice_applies(*old(self), #[trigger] old(self).reason_change_events@[j])
                ==> {
                    &&& final(self).spec_status(old(self).reason_change_events@[j].0)
                        == ChunkStatus::Unloading
                    &&& final(self).unloading_queue@.contains(
                        old(self).reason_change_events@[j].0,
                    )
                },
    {
        let ghost s0 = *self;
        let mut i: usize = 0;
        while i < self.reason_change_events.len()
            invariant
                s0 == *old(self),
                s0.wf(),
                self.wf(),
                i <= s0.reason_change_events@.len(),
                self.chunk_map == s0.chunk_map,
                self.loading_queue == s0.loading_queue,
                self.save_queue == s0.save_queue,
                self.update_chunk_events == s0.update_chunk_events,
                self.reason_change_events == s0.reason_change_events,
                reason_changes_applied(
                    s0,
                    *self,
                    s0.reason_change_events@.subrange(0, i as int),
                ),
                forall|j: int| 0 <= j < i
                    && spec_notice_applies(s0, #[trigger] s0.reason_change_events@[j])
                    ==> {
                        &&& self.spec_status(s0.reason_change_events@[j].0)
                            == ChunkStatus::Unloading
                        &&& self.unloading_queue@.contains(s0.reason_change_events@[j].0)
                    },
                forall|c: IVec3| #[trigger] self.spec_status(c) == ChunkStatus::Unloading
                    && s0.spec_status(c) != ChunkStatus::Unloading
                    ==> self.unloading_queue@.contains(c),
            decreases self.reason_change_events@.len() - i,
        {
            let ev = self.reason_change_events[i];
            let ghost cur = *self;
            self.handle_reason_change(ev);
            proof {
                lemma_reason_changes_snoc(
                    s0,
                    cur,
                    *self,
                    s0.reason_change_events@.subrange(0, i as int),
                    ev,
                );
                assert(s0.reason_change_events@.subrange(0, i + 1 as int)
                    =~= s0.reason_change_events@.subrange(0, i as int).push(ev));
                let applies_now = cur.resident(ev.0)
                    && cur.chunk_map.as_map()[ev.0].load_reasons@.len() == 0
                    && cur.spec_status(ev.0) != ChunkStatus::Unloading;
                assert forall|c: IVec3| #[trigger] self.spec_status(c)
                    == ChunkStatus::Unloading
                    && s0.spec_status(c) != ChunkStatus::Unloading
                    implies self.unloading_queue@.contains(c) by {
                    if applies_now {
                        if c == ev.0 {
                            assert(self.unloading_queue@[0] == c);
                        } else {
                            assert(cur.spec_status(c) == self.spec_status(c));
                            assert(cur.unloading_queue@.contains(c));
                            let k = choose|k: int| 0 <= k < cur.unloading_queue@.len()
                                && cur.unloading_queue@[k] == c;
                            assert(self.unloading_queue@[k + 1] == c);
                        }
                    } else {
                        assert(cur.spec_status(c) == self.spec_status(c));
                    }
                }
                assert forall|j: int| 0 <= j < i + 1
                    && spec_notice_applies(s0, #[trigger] s0.reason_change_events@[j])
                    implies {
                        &&& self.spec_status(s0.reason_change_events@[j].0)
                            == ChunkStatus::Unloading
                        &&& self.unloading_queue@.contains(s0.reason_change_events@[j].0)
                    } by {
                    let c = s0.reason_change_events@[j].0;
                    if j < i {
                        assert(cur.spec_status(c) == ChunkStatus::Unloading);
                        assert(cur.unloading_queue@.contains(c));
                        if applies_now {
                            assert(self.spec_status(c) == ChunkStatus::Unloading);
                            let k = choose|k: int| 0 <= k < cur.unloading_queue@.len()
                                && cur.unloading_queue@[k] == c;
                            assert(self.unloading_queue@[k + 1] == c);
                        }
                    } else {
                        assert(c == ev.0);
                        if applies_now {
                            assert(self.spec_status(c) == ChunkStatus::Unloading);
                            assert(self.unloading_queue@[0] == c);
                        } else {
                            assert(cur.chunk_map == s0.chunk_map);
                            assert(cur.spec_status(c) == ChunkStatus::Unloading);
                            assert(cur.unloading_queue@.contains(c));
                        }
                    }
                }
            }
            i = i + 1;
        }
        proof {
            assert(s0.reason_change_events@.subrange(
                0,
                s0.reason_change_events@.len() as int,
            ) =~= s0.reason_change_events@);
        }
        self.reason_change_events.clear();
    }
}

/// The per-notice relation folded over a list of notices in order:
/// how a whole drain changes the streamer, one notice at a time.
pub open spec fn reason_changes_applied(
    s0: WorldStreamer,
    s1: WorldStreamer,
    evs: Seq<LoadReasonChangeEvent>,
) -> bool
    decreases evs.len(),
{
    if evs.len() == 0 {
        s1 == s0
    } else {
        exists|mid: WorldStreamer| {
            &&& #[trigger] reason_change_rel(s0, mid, evs[0])
            &&& reason_changes_applied(mid, s1, evs.drop_first())
        }
    }
}

/// Extending an applied chain by one handled notice.
pub proof fn lemma_reason_changes_snoc(
    s0: WorldStreamer,
    mid: WorldStreamer,
    s1: WorldStreamer,
    evs: Seq<LoadReasonChangeEvent>,
    ev: LoadReasonChangeEvent,
)
    requires
        reason_changes_applied(s0, mid, evs),
        reason_change_rel(mid, s1, ev),
    ensures
        reason_changes_applied(s0, s1, evs.push(ev)),
    decreases evs.len(),
{
    if evs.len() == 0 {
        assert(mid == s0);
        assert(evs.push(ev)[0] == ev);
        assert(evs.push(ev).drop_first() =~= Seq::empty());
        assert(reason_changes_applied(s1, s1, evs.push(ev).drop_first()));
        assert(reason_change_rel(s0, s1, evs.push(ev)[0]));
    } else {
        let m0 = choose|m: WorldStreamer| {
            &&& #[trigger] reason_change_rel(s0, m, evs[0])
            &&& reason_changes_applied(m, mid, evs.drop_first())
        };
        lemma_reason_changes_snoc(m0, mid, s1, evs.drop_first(), ev);
        assert(evs.push(ev)[0] == evs[0]);
        assert(evs.push(ev).drop_first() =~= evs.drop_first().push(ev));
        assert(reason_change_rel(s0, m0, evs.push(ev)[0]));
        assert(reason_changes_applied(m0, s1, evs.push(ev).drop_first()));
    }
}

/// Whether a notice, judged against a starting state, must trigger an
/// unload: its chunk is resident with no reasons left and not already
/// on its way out.
pub open spec fn spec_notice_applies(s0: WorldStreamer, ev: LoadReasonChangeEvent) -> bool {
    &&& s0.resident(ev.0)
    &&& s0.chunk_map.as_map()[ev.0].load_reasons@.len() == 0
    &&& s0.spec_status(ev.0) != ChunkStatus::Unloading
}

/// A chunk held by two loaders survives one revocation and is queued
/// for unload exactly once when the last reason leaves: removing the
/// first loader's reason keeps the chunk resident and enqueues
/// nothing; removing the second, last reason enqueues one unload and
/// marks the coordinate `Unloading`.
pub proof fn lemma_refcount_unload(
    s0: WorldStreamer,
    s1: WorldStreamer,
    s2: WorldStreamer,
    s3: WorldStreamer,
    s4: WorldStreamer,
    c: IVec3,
    a: u64,
    b: u64,
)
    requires
        s0.wf(),
        a != b,
        s0.resident(c),
        s0.spec_status(c) != ChunkStatus::Unloading,
        s0.chunk_map.as_map()[c].has_reason_spec(LoadReason::Loader(a)),
        s0.chunk_map.as_map()[c].has_reason_spec(LoadReason::Loader(b)),
        forall|r: LoadReason| #[trigger] s0.chunk_map.as_map()[c].has_reason_spec(r)
            ==> r == LoadReason::Loader(a) || r == LoadReason::Loader(b),
        remove_reason_rel(s0, s1, c, LoadReason::Loader(a)),
        reason_change_rel(s1, s2, LoadReasonChangeEvent(c)),
        remove_reason_rel(s2, s3, c, LoadReason::Loader(b)),
        reason_change_rel(s3, s4, LoadReasonChangeEvent(c)),
    ensures
        s2.resident(c),
        s2.unloading_queue@ == s0.unloading_queue@,
        s4.unloading_queue@ == seq![c] + s0.unloading_queue@,
        s4.spec_status(c) == ChunkStatus::Unloading,
{
    assert(s1.resident(c));
    assert(s1.chunk_map.as_map()[c].has_reason_spec(LoadReason::Loader(b)));
    assert(s1.chunk_map.as_map()[c].load_reasons@.len() > 0) by {
        let s = s1.chunk_map.as_map()[c].load_reasons@;
        assert(s.contains(LoadReason::Loader(b)));
    }
    assert(s2 == s1);
    assert(s2.resident(c));
    assert(s3.resident(c));
    assert(s3.chunk_map.as_map()[c].load_reasons@.len() == 0) by {
        let s = s3.chunk_map.as_map()[c].load_reasons@;
        if s.len() > 0 {
            assert(s.contains(s[0]));
            assert(s3.chunk_map.as_map()[c].has_reason_spec(s[0]));
            assert(s2.chunk_map.as_map()[c].has_reason_spec(s[0]));
            assert(s1.chunk_map.as_map()[c].has_reason_spec(s[0]));
            assert(s0.chunk_map.as_map()[c].has_reason_spec(s[0]));
            assert(s[0] == LoadReason::Loader(a) || s[0] == LoadReason::Loader(b));
            assert(false);
        }
    }
    assert(s3.spec_status(c) == s0.spec_status(c));
    assert(s4.unloading_queue@ == seq![c] + s3.unloading_queue@);
    assert(s3.unloading_queue@ == s0.unloading_queue@);
}

/// The outcome of one pull from the unload queue.
#[derive(Clone, Copy, PartialEq, Eq, Structural, Debug)]
pub enum UnloadStep {
    /// The queue was empty.
    Empty,
    /// The popped coordinate held no resident chunk; nothing to do.
    Skipped(IVec3),
    /// The chunk was encoded into the save buffer and evicted; the
    /// carried render handles are for the caller to release.
    Unloaded(IVec3, Option<u64>, Option<u64>),
}

/// How one call of `unload_one` changes the streamer.
pub open spec fn unload_one_rel(s0: WorldStreamer, s1: WorldStreamer, r: UnloadStep) -> bool {
    match r {
        UnloadStep::Empty => {
            &&& s0.unloading_queue@.len() == 0
            &&& s1.unloading_queue@ == s0.unloading_queue@
            &&& s1.chunk_map == s0.chunk_map
            &&& s1.chunk_status_map == s0.chunk_status_map
            &&& s1.loading_queue == s0.loading_queue
            &&& s1.save_queue == s0.save_queue
            &&& s1.pending_map == s0.pending_map
            &&& s1.loaders == s0.loaders
            &&& s1.update_chunk_events == s0.update_chunk_events
            &&& s1.tree_events == s0.tree_events
            &&& s1.block_update_events == s0.block_update_events
            &&& s1.reason_change_events == s0.reason_change_events
            &&& s1.config == s0.config
            &&& s1.seed == s0.seed
        },
        UnloadStep::Skipped(c) => {
            &&& s0.unloading_queue@.len() > 0
            &&& c == s0.unloading_queue@.last()
            &&& !s0.resident(c)
            &&& s1.unloading_queue@ == s0.unloading_queue@.drop_last()
            &&& s1.chunk_map == s0.chunk_map
            &&& s1.chunk_status_map == s0.chunk_status_map
            &&& s1.loading_queue == s0.loading_queue
            &&& s1.save_queue == s0.save_queue
            &&& s1.pending_map == s0.pending_map
            &&& s1.loaders == s0.loaders
            &&& s1.update_chunk_events == s0.update_chunk_events
            &&& s1.tree_events == s0.tree_events
            &&& s1.block_update_events == s0.block_update_events
            &&& s1.reason_change_events == s0.reason_change_events
            &&& s1.config == s0.config
            &&& s1.seed == s0.seed
        },
        UnloadStep::Unloaded(c, re, we) => {
            &&& s0.unloading_queue@.len() > 0
            &&& c == s0.unloading_queue@.last()
            &&& s0.resident(c)
            &&& re == s0.chunk_map.as_map()[c].render_entity
            &&& we == s0.chunk_map.as_map()[c].water_render_entity
            &&& s1.unloading_queue@ == s0.unloading_queue@.drop_last()
            &&& s1.chunk_map.as_map() == s0.chunk_map.as_map().remove(c)
            &&& s1.save_queue.entries() == s0.save_queue.entries().insert(
                save_key_of(c),
                chunk_bytes_of(s0.chunk_map.as_map()[c].blocks.view()),
            )
            &&& s1.save_queue.order() == if s0.save_queue.entries().contains_key(save_key_of(c)) {
                s0.save_queue.order()
            } else {
                s0.save_queue.order().push(save_key_of(c))
            }
            &&& s1.chunk_status_map.as_map() == s0.chunk_status_map.as_map().insert(
                c,
                ChunkStatus::PartialSave,
            )
            &&& s1.loading_queue == s0.loading_queue
            &&& s1.pending_map == s0.pending_map
            &&& s1.loaders == s0.loaders
            &&& s1.update_chunk_events == s0.update_chunk_events
            &&& s1.tree_events == s0.tree_events
            &&& s1.block_update_events == s0.block_update_events
            &&& s1.reason_change_events == s0.reason_change_events
            &&& s1.config == s0.config
            &&& s1.seed == s0.seed
        },
    }
}

impl WorldStreamer {
    /// Services one unload-queue entry: the chunk's blocks are encoded
    /// as `(id, damage)` pairs, compressed and written into the save
    /// buffer (overwriting a stale entry, keeping its flush order),
    /// and the chunk leaves the store with status `PartialSave`.
    pub fn unload_one(&mut self) -> (r: UnloadStep)
        requires
            old(self).wf(),
        ensures
            final(self).wf(),
            unload_one_rel(*old(self), *final(self), r),
    {
        let ghost s0 = *self;
        let popped = self.unloading_queue.pop_back();
        match popped {
            None => UnloadStep::Empty,
            Some(c) => {
                match self.chunk_map.remove(c) {
                    None => {
                        proof {
                            assert forall|j: int| 0 <= j < self.loading_queue@.len() implies {
                                &&& self.in_world_bounds(
                                    (#[trigger] self.loading_queue@[j]).chunk,
                                )
                                &&& !self.resident(self.loading_queue@[j].chunk)
                                &&& self.spec_status(self.loading_queue@[j].chunk)
                                    == ChunkStatus::Loading
                            } by {
                                assert(!s0.resident(s0.loading_queue@[j].chunk));
                            }
                            assert(self.unloading_queue@ =~= s0.unloading_queue@.drop_last());
                        }
                        UnloadStep::Skipped(c)
                    },
                    Some(chunk) => {
                        let bytes = encode_chunk_bytes(&chunk.blocks.data);
                        self.save_queue.insert(c, bytes);
                        self.chunk_status_map.insert(c, ChunkStatus::PartialSave);
                        proof {
                            assert(s0.resident(c));
                            assert forall|j: int| 0 <= j < self.loading_queue@.len() implies {
                                &&& self.in_world_bounds(
                                    (#[trigger] self.loading_queue@[j]).chunk,
                                )
                                &&& !self.resident(self.loading_queue@[j].chunk)
                                &&& self.spec_status(self.loading_queue@[j].chunk)
                                    == ChunkStatus::Loading
                            } by {
                                assert(!s0.resident(s0.loading_queue@[j].chunk));
                                assert(s0.loading_queue@[j].chunk != c);
                            }
                            assert forall|c2: IVec3| #[trigger] self.chunk_map.as_map()
                                .contains_key(c2) implies chunk_wf(self.chunk_map.as_map()[c2]) by {
                                assert(s0.chunk_map.as_map().contains_key(c2));
                            }
                            assert(self.unloading_queue@ =~= s0.unloading_queue@.drop_last());
                        }
                        UnloadStep::Unloaded(c, chunk.render_entity, chunk.water_render_entity)
                    },
                }
            },
        }
    }

    /// Unconditionally queues every resident chunk for unload, as the
    /// shutdown path does.
    pub fn enqueue_all_for_unload(&mut self)
        requires
            old(self).wf(),
        ensures
            final(self).wf(),
            final(self).chunk_map == old(self).chunk_map,
            final(self).loading_queue == old(self).loading_queue,
            final(self).chunk_status_map == old(self).chunk_status_map,
            final(self).save_queue == old(self).save_queue,
            forall|c: IVec3| #[trigger] old(self).resident(c)
                ==> final(self).unloading_queue@.contains(c),
            forall|c: IVec3| #[trigger] final(self).unloading_queue@.contains(c)
                ==> old(self).unloading_queue@.contains(c) || old(self).resident(c),
    {
        let ghost s0 = *self;
        let coords = self.chunk_map.keys();
        let mut i: usize = 0;
        while i < coords.len()
            invariant
                self.wf(),
                coords@.len() == s0.chunk_map.sseq().len(),
                forall|j: int| 0 <= j < coords@.len()
                    ==> coords@[j] == s0.chunk_map.sseq()[j].key,
                self.chunk_map == s0.chunk_map,
                self.loading_queue == s0.loading_queue,
                self.chunk_status_map == s0.chunk_status_map,
                self.save_queue == s0.save_queue,
                self.pending_map == s0.pending_map,
                self.loaders == s0.loaders,
                self.update_chunk_events == s0.update_chunk_events,
                self.tree_events == s0.tree_events,
                self.block_update_events == s0.block_update_events,
                self.reason_change_events == s0.reason_change_events,
                self.config == s0.config,
                i <= coords@.len(),
                forall|j: int| 0 <= j < i
                    ==> self.unloading_queue@.contains(coords@[j]),
                forall|c: IVec3| #[trigger] self.unloading_queue@.contains(c)
                    ==> s0.unloading_queue@.contains(c) || s0.resident(c),
            decreases coords@.len() - i,
        {
            let c = coords[i];
            let ghost q0 = self.unloading_queue@;
            self.unloading_queue.push_front(c);
            proof {
                assert(s0.chunk_map.sseq()[i as int].key == c);
                assert(crate::coordmap::seq_contains_key(s0.chunk_map.sseq(), c));
                assert(s0.resident(c));
                assert forall|j: int| 0 <= j < i + 1
                    implies self.unloading_queue@.contains(coords@[j]) by {
                    if j < i {
                        assert(q0.contains(coords@[j]));
                        let idx = choose|idx: int| 0 <= idx < q0.len() && q0[idx] == coords@[j];
                        assert(self.unloading_queue@[idx + 1] == coords@[j]);
                    } else {
                        assert(self.unloading_queue@[0] == c);
                    }
                }
                assert forall|c2: IVec3| #[trigger] self.unloading_queue@.contains(c2)
                    implies s0.unloading_queue@.contains(c2) || s0.resident(c2) by {
                    let idx = choose|idx: int| 0 <= idx < self.unloading_queue@.len()
                        && self.unloading_queue@[idx] == c2;
                    if idx > 0 {
                        assert(q0[idx - 1] == c2);
                        assert(q0.contains(c2));
                    }
                }
            }
            i = i + 1;
        }
        proof {
            assert forall|c: IVec3| #[trigger] s0.resident(c)
                implies self.unloading_queue@.contains(c) by {
                let idx = choose|idx: int| 0 <= idx < s0.chunk_map.sseq().len()
                    && s0.chunk_map.sseq()[idx].key == c;
                assert(coords@[idx] == c);
                assert(self.unloading_queue@.contains(coords@[idx]));
            }
        }
    }

    /// Drains the save buffer for a flush: every buffered coordinate
    /// and its compressed bytes, in buffer order, leaving the buffer
    /// empty. The caller writes the pairs inside one transaction.
    pub fn take_save_batch(&mut self) -> (r: Vec<(IVec3, Vec<u8>)>)
        requires
            old(self).wf(),
        ensures
            final(self).wf(),
            final(self).save_queue.entries() == crate::savequeue::empty_save_entries(),
            final(self).save_queue.order() == crate::savequeue::empty_save_order(),
            final(self).chunk_map == old(self).chunk_map,
            final(self).chunk_status_map == old(self).chunk_status_map,
            final(self).loading_queue == old(self).loading_queue,
            final(self).unloading_queue == old(self).unloading_queue,
            r@.len() == old(self).save_queue.order().len(),
            forall|i: int| 0 <= i < r@.len() ==> {
                &&& save_key_of((#[trigger] r@[i]).0) == old(self).save_queue.order()[i]
                &&& old(self).save_queue.entries().contains_key(save_key_of(r@[i].0))
                &&& r@[i].1@ == old(self).save_queue.entries()[save_key_of(r@[i].0)]
            },
    {
        let pairs = self.save_queue.take_all();
        let mut out: Vec<(IVec3, Vec<u8>)> = Vec::new();
        let mut i: usize = 0;
        let ghost p0 = pairs@;
        while i < pairs.len()
            invariant
                pairs@ == p0,
                p0.len() == old(self).save_queue.order().len(),
                forall|j: int| 0 <= j < p0.len() ==> {
                    &&& (#[trigger] p0[j]).0 == old(self).save_queue.order()[j]
                    &&& old(self).save_queue.entries().contains_key(p0[j].0)
                    &&& p0[j].1@ == old(self).save_queue.entries()[p0[j].0]
                },
                i <= p0.len(),
                out@.len() == i,
                forall|j: int| 0 <= j < i ==> {
                    &&& save_key_of((#[trigger] out@[j]).0) == old(self).save_queue.order()[j]
                    &&& old(self).save_queue.entries().contains_key(save_key_of(out@[j].0))
                    &&& out@[j].1@ == old(self).save_queue.entries()[save_key_of(out@[j].0)]
                },
            decreases p0.len() - i,
        {
            let key = pairs[i].0;
            let bytes = &pairs[i].1;
            let coord = IVec3 { x: key.0, y: key.1, z: key.2 };
            let mut copied: Vec<u8> = Vec::new();
            let mut b: usize = 0;
            while b < bytes.len()
                invariant
                    copied@.len() == b,
                    b <= bytes@.len(),
                    forall|k: int| 0 <= k < b ==> copied@[k] == bytes@[k],
                decreases bytes@.len() - b,
            {
                copied.push(bytes[b]);
                b = b + 1;
            }
            proof {
                assert(copied@ =~= bytes@);
                assert(save_key_of(coord) == key);
            }
            out.push((coord, copied));
            i = i + 1;
        }
        out
    }
}

} // verus!
