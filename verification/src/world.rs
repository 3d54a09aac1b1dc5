//! The streamer that owns all chunk lifecycle state: the resident
//! chunk store, the per-coordinate status machine, the load and unload
//! queues, the save buffer, the pending-modification store and the
//! outbound event channels. Subsystems operate on it by reference; no
//! ambient global state exists.

use vstd::prelude::*;
use std::collections::VecDeque;
use crate::CHUNK_SIZE;
use crate::block::{Block, BlockID};
use crate::coords::IVec3;
use crate::coordmap::CoordMap;
use crate::events::{
    BlockUpdateEvent, ChunkStatus, GenerateTreeEvent, LoadChunkEvent, LoadReason,
    LoadReasonChangeEvent, UpdateChunkEvent,
};
use crate::grid3::Grid3;
use crate::savequeue::ChunkSavingQueue;

verus! {

/// A block write destined for a chunk that has not been generated yet,
/// applied once when the chunk's base terrain is computed.
#[derive(Clone, Copy, PartialEq, Eq, Structural, Debug)]
pub struct PendingModification {
    /// True if terrain generation takes priority over this write.
    pub yield_to_terrain: bool,
    pub block: Block,
}

impl PendingModification {
    /// The slot value of an untouched cell in a pending grid: yields to
    /// terrain and carries an air block, so applying it changes nothing.
    pub fn untouched() -> (r: PendingModification)
        ensures
            r == spec_untouched_pending(),
    {
        PendingModification { yield_to_terrain: true, block: Block { id: BlockID::Air, damage: 0 } }
    }
}

pub open spec fn spec_untouched_pending() -> PendingModification {
    PendingModification { yield_to_terrain: true, block: Block { id: BlockID::Air, damage: 0 } }
}

/// Whether a sequence holds no element twice.
pub open spec fn distinct_seq<T>(s: Seq<T>) -> bool {
    forall|i: int, j: int| 0 <= i < j < s.len() ==> s[i] != s[j]
}

/// A resident chunk: its blocks, the reasons keeping it resident, and
/// two opaque render handles owned by the rendering collaborator.
pub struct Chunk {
    pub blocks: Grid3<Block>,
    pub load_reasons: Vec<LoadReason>,
    pub render_entity: Option<u64>,
    pub water_render_entity: Option<u64>,
}

/// A chunk's blocks form a full cube and its reason set holds no
/// reason twice.
pub open spec fn chunk_wf(c: Chunk) -> bool {
    &&& c.blocks.wf()
    &&& c.blocks.sx() == CHUNK_SIZE as int
    &&& c.blocks.sy() == CHUNK_SIZE as int
    &&& c.blocks.sz() == CHUNK_SIZE as int
    &&& distinct_seq(c.load_reasons@)
}

impl Chunk {
    pub open spec fn has_reason_spec(&self, reason: LoadReason) -> bool {
        self.load_reasons@.contains(reason)
    }

    pub fn has_reason(&self, reason: LoadReason) -> (r: bool)
        ensures
            r == self.has_reason_spec(reason),
    {
        let mut i: usize = 0;
        while i < self.load_reasons.len()
            invariant
                i <= self.load_reasons@.len(),
                forall|j: int| 0 <= j < i ==> self.load_reasons@[j] != reason,
            decreases self.load_reasons@.len() - i,
        {
            if self.load_reasons[i] == reason {
                return true;
            }
            i = i + 1;
        }
        false
    }

    /// Adds a reason to the set; a reason already present stays single.
    pub fn add_reason(&mut self, reason: LoadReason)
        requires
            distinct_seq(old(self).load_reasons@),
        ensures
            distinct_seq(final(self).load_reasons@),
            forall|r2: LoadReason| final(self).has_reason_spec(r2)
                == (old(self).has_reason_spec(r2) || r2 == reason),
            final(self).blocks == old(self).blocks,
            final(self).render_entity == old(self).render_entity,
            final(self).water_render_entity == old(self).water_render_entity,
    {
        if !self.has_reason(reason) {
            let ghost s0 = self.load_reasons@;
            self.load_reasons.push(reason);
            proof {
                assert forall|i: int, j: int| 0 <= i < j < self.load_reasons@.len()
                    implies self.load_reasons@[i] != self.load_reasons@[j] by {
                    if j < s0.len() {
                        assert(s0[i] != s0[j]);
                    } else {
                        assert(self.load_reasons@[j] == reason);
                        if s0[i] == reason {
                            assert(s0.contains(reason));
                        }
                    }
                }
                assert forall|r2: LoadReason| self.has_reason_spec(r2)
                    == (s0.contains(r2) || r2 == reason) by {
                    if self.load_reasons@.contains(r2) {
                        let i = choose|i: int| 0 <= i < self.load_reasons@.len()
                            && self.load_reasons@[i] == r2;
                        if i < s0.len() {
                            assert(s0.contains(r2));
                        }
                    }
                    if s0.contains(r2) {
                        let i = choose|i: int| 0 <= i < s0.len() && s0[i] == r2;
                        assert(self.load_reasons@[i] == r2);
                    }
                    if r2 == reason {
                        assert(self.load_reasons@[s0.len() as int] == r2);
                    }
                }
            }
        }
    }

    /// Removes a reason from the set; reports whether it was present.
    pub fn remove_reason(&mut self, reason: LoadReason) -> (removed: bool)
        requires
            distinct_seq(old(self).load_reasons@),
        ensures
            distinct_seq(final(self).load_reasons@),
            removed == old(self).has_reason_spec(reason),
            forall|r2: LoadReason| final(self).has_reason_spec(r2)
                == (old(self).has_reason_spec(r2) && r2 != reason),
            final(self).blocks == old(self).blocks,
            final(self).render_entity == old(self).render_entity,
            final(self).water_render_entity == old(self).water_render_entity,
    {
        let ghost s0 = self.load_reasons@;
        let mut i: usize = 0;
        while i < self.load_reasons.len()
            invariant
                s0 == old(self).load_reasons@,
                distinct_seq(s0),
                self.load_reasons@ == s0,
                self.blocks == old(self).blocks,
                self.render_entity == old(self).render_entity,
                self.water_render_entity == old(self).water_render_entity,
                i <= s0.len(),
                forall|j: int| 0 <= j < i ==> s0[j] != reason,
            decreases s0.len() - i,
        {
            if self.load_reasons[i] == reason {
                self.load_reasons.remove(i);
                proof {
                    let s1 = self.load_reasons@;
                    assert forall|a: int, b: int| 0 <= a < b < s1.len()
                        implies s1[a] != s1[b] by {
                        let a0: int = if a < i { a } else { a + 1 };
                        let b0: int = if b < i { b } else { b + 1 };
                        assert(s1[a] == s0[a0]);
                        assert(s1[b] == s0[b0]);
                    }
                    assert(s0.contains(reason));
                    assert forall|r2: LoadReason| s1.contains(r2)
                        == (s0.contains(r2) && r2 != reason) by {
                        if s1.contains(r2) {
                            let a = choose|a: int| 0 <= a < s1.len() && s1[a] == r2;
                            let a0: int = if a < i { a } else { a + 1 };
                            assert(s1[a] == s0[a0]);
                            assert(s0.contains(r2));
                            if r2 == reason {
                                assert(a0 != i);
                                assert(s0[i as int] == reason && s0[a0] == reason);
                                assert(false);
                            }
                        }
                        if s0.contains(r2) && r2 != reason {
                            let a0 = choose|a0: int| 0 <= a0 < s0.len() && s0[a0] == r2;
                            assert(a0 != i);
                            let a: int = if a0 < i { a0 } else { a0 - 1 };
                            assert(s1[a] == s0[a0]);
                            assert(s1.contains(r2));
                        }
                    }
                }
                return true;
            }
            i = i + 1;
        }
        proof {
            if s0.contains(reason) {
                let j = choose|j: int| 0 <= j < s0.len() && s0[j] == reason;
                assert(false);
            }
        }
        false
    }

    /// Whether the reason set is empty; an empty set means nothing
    /// keeps the chunk resident.
    pub fn reasons_empty(&self) -> (r: bool)
        ensures
            r == (self.load_reasons@.len() == 0),
    {
        self.load_reasons.len() == 0
    }
}

/// The tunables the core takes from outside configuration rather than
/// hardcoding: world bounds, batch sizes and the water debounce
/// interval.
#[derive(Clone, Copy, PartialEq, Eq, Structural, Debug)]
pub struct StreamerConfig {
    /// Horizontal world radius along x, in chunks.
    pub world_size_x: i32,
    /// Horizontal world radius along z, in chunks.
    pub world_size_z: i32,
    /// Surface height, in chunks.
    pub world_height: i32,
    /// Underground depth, in chunks.
    pub world_depth: i32,
    /// How many chunks one unload pass may process.
    pub unload_batch: usize,
    /// How long a block update waits before evaluation, in ms.
    pub water_debounce_ms: u64,
    /// Extra shell of chunks kept resident around a loader's range.
    pub loader_buffer: i32,
    /// Safety cap on growth steps per tree, so a walk always ends.
    pub tree_step_limit: usize,
}

impl StreamerConfig {
    pub open spec fn wf(&self) -> bool {
        &&& 0 <= self.world_size_x <= 100000
        &&& 0 <= self.world_size_z <= 100000
        &&& 0 <= self.world_height <= 100000
        &&& 0 <= self.world_depth <= 100000
        &&& 0 <= self.loader_buffer <= 100000
    }

    /// The configuration the full-size world runs with.
    pub fn standard() -> (r: StreamerConfig)
        ensures
            r.wf(),
            r == (StreamerConfig {
                world_size_x: 255,
                world_size_z: 255,
                world_height: 4,
                world_depth: 12,
                unload_batch: 4,
                water_debounce_ms: 200,
                loader_buffer: 1,
                tree_step_limit: 10000,
            }),
    {
        StreamerConfig {
            world_size_x: 255,
            world_size_z: 255,
            world_height: 4,
            world_depth: 12,
            unload_batch: 4,
            water_debounce_ms: 200,
            loader_buffer: 1,
            tree_step_limit: 10000,
        }
    }
}

/// A per-observer range tracker: the observer's chunk coordinate, its
/// load range, and the coordinates it currently retains.
pub struct ChunkLoader {
    pub observer: u64,
    pub range: i32,
    pub position: IVec3,
    pub load_list: Vec<IVec3>,
}

/// The single owner of all chunk lifecycle state.
pub struct WorldStreamer {
    pub config: StreamerConfig,
    pub seed: u32,
    pub chunk_map: CoordMap<Chunk>,
    pub chunk_status_map: CoordMap<ChunkStatus>,
    pub pending_map: CoordMap<Grid3<PendingModification>>,
    pub loading_queue: VecDeque<LoadChunkEvent>,
    pub unloading_queue: VecDeque<IVec3>,
    pub save_queue: ChunkSavingQueue,
    pub loaders: Vec<ChunkLoader>,
    pub update_chunk_events: Vec<UpdateChunkEvent>,
    pub tree_events: Vec<GenerateTreeEvent>,
    pub block_update_events: Vec<BlockUpdateEvent>,
    pub reason_change_events: Vec<LoadReasonChangeEvent>,
}

impl WorldStreamer {
    /// Whether a chunk is resident at a coordinate.
    pub open spec fn resident(&self, c: IVec3) -> bool {
        self.chunk_map.as_map().contains_key(c)
    }

    /// The lifecycle status of a coordinate; one never touched is
    /// `NonLoaded`.
    pub open spec fn spec_status(&self, c: IVec3) -> ChunkStatus {
        if self.chunk_status_map.as_map().contains_key(c) {
            self.chunk_status_map.as_map()[c]
        } else {
            ChunkStatus::NonLoaded
        }
    }

    /// Whether a coordinate lies inside the configured world bounds.
    pub open spec fn in_world_bounds(&self, c: IVec3) -> bool {
        &&& -(self.config.world_size_x as int) <= c.x <= self.config.world_size_x as int
        &&& -(self.config.world_size_z as int) <= c.z <= self.config.world_size_z as int
        &&& -(self.config.world_depth as int) <= c.y <= self.config.world_height as int
    }

    /// Whether a coordinate waits in the load queue.
    pub open spec fn load_queued(&self, c: IVec3) -> bool {
        exists|i: int| 0 <= i < self.loading_queue@.len()
            && self.loading_queue@[i].chunk == c
    }

    /// The streamer's standing invariant.
    pub open spec fn wf(&self) -> bool {
        &&& self.config.wf()
        &&& self.chunk_map.wf()
        &&& self.chunk_status_map.wf()
        &&& self.pending_map.wf()
        &&& self.save_queue.wf()
        &&& forall|c: IVec3| #[trigger] self.chunk_map.as_map().contains_key(c)
            ==> chunk_wf(self.chunk_map.as_map()[c])
        &&& forall|c: IVec3| #[trigger] self.pending_map.as_map().contains_key(c)
            ==> pending_grid_wf(self.pending_map.as_map()[c])
        &&& forall|i: int| 0 <= i < self.loading_queue@.len() ==> {
            &&& self.in_world_bounds((#[trigger] self.loading_queue@[i]).chunk)
            &&& !self.resident(self.loading_queue@[i].chunk)
            &&& self.spec_status(self.loading_queue@[i].chunk) == ChunkStatus::Loading
        }
        &&& forall|i: int, j: int| 0 <= i < j < self.loading_queue@.len()
            ==> (#[trigger] self.loading_queue@[i]).chunk
                != (#[trigger] self.loading_queue@[j]).chunk
        // A resident chunk is never `Loading`. Together with the queue
        // clauses above this keeps a coordinate from being serviced by
        // the load and unload paths at once: whatever sits in the
        // unload queue and is still resident is past `Loading`, and
        // whatever waits in the load queue is not resident.
        &&& forall|c: IVec3| #[trigger] self.chunk_map.as_map().contains_key(c)
            ==> self.spec_status(c) != ChunkStatus::Loading
        &&& forall|i: int, j: int| 0 <= i < j < self.loaders@.len()
            ==> (#[trigger] self.loaders@[i]).observer != (#[trigger] self.loaders@[j]).observer
        &&& forall|i: int| 0 <= i < self.loaders@.len()
            ==> 0 <= (#[trigger] self.loaders@[i]).range <= 100000
    }

    /// A fresh streamer: nothing resident, nothing queued, nothing
    /// buffered.
    pub fn new(seed: u32, config: StreamerConfig) -> (r: WorldStreamer)
        requires
            config.wf(),
        ensures
            r.wf(),
            r.config == config,
            r.seed == seed,
            r.chunk_map.as_map().len() == 0,
            forall|c: IVec3| !r.resident(c),
            forall|c: IVec3| r.spec_status(c) == ChunkStatus::NonLoaded,
            r.loading_queue@.len() == 0,
            r.unloading_queue@.len() == 0,
            r.save_queue.order().len() == 0,
            r.update_chunk_events@.len() == 0,
            r.tree_events@.len() == 0,
            r.block_update_events@.len() == 0,
    {
        let r = WorldStreamer {
            config,
            seed,
            chunk_map: CoordMap::new(),
            chunk_status_map: CoordMap::new(),
            pending_map: CoordMap::new(),
            loading_queue: VecDeque::new(),
            unloading_queue: VecDeque::new(),
            save_queue: ChunkSavingQueue::new(),
            loaders: Vec::new(),
            update_chunk_events: Vec::new(),
            tree_events: Vec::new(),
            block_update_events: Vec::new(),
            reason_change_events: Vec::new(),
        };
        r
    }

    /// Exec check of `in_world_bounds`.
    pub fn chunk_in_bounds(&self, c: IVec3) -> (r: bool)
        requires
            self.config.wf(),
        ensures
            r == self.in_world_bounds(c),
    {
        c.x >= 0 - self.config.world_size_x && c.x <= self.config.world_size_x
            && c.z >= 0 - self.config.world_size_z && c.z <= self.config.world_size_z
            && c.y >= 0 - self.config.world_depth && c.y <= self.config.world_height
    }

    /// The status of a coordinate, `NonLoaded` if never touched.
    pub fn status_of(&self, c: IVec3) -> (r: ChunkStatus)
        requires
            self.chunk_status_map.wf(),
        ensures
            r == self.spec_status(c),
    {
        match self.chunk_status_map.get(c) {
            Some(s) => *s,
            None => ChunkStatus::NonLoaded,
        }
    }

    /// The resident chunk at a coordinate, if any. A missing chunk is
    /// no information, never a fabricated default.
    pub fn get_chunk(&self, c: IVec3) -> (r: Option<&Chunk>)
        requires
            self.chunk_map.wf(),
        ensures
            match r {
                Some(ch) => self.resident(c) && *ch == self.chunk_map.as_map()[c],
                None => !self.resident(c),
            },
    {
        self.chunk_map.get(c)
    }

    /// Whether a request at this coordinate would enter the queue: it
    /// must be in bounds, not already being loaded, and not resident.
    pub open spec fn accepts_load(&self, ev: LoadChunkEvent) -> bool {
        &&& self.in_world_bounds(ev.chunk)
        &&& self.spec_status(ev.chunk) != ChunkStatus::Loading
        &&& !self.resident(ev.chunk)
    }

    /// Takes a load request. A request out of world bounds is silently
    /// dropped; one for a coordinate already loading or already
    /// resident is ignored, so the same request issued twice before it
    /// is serviced queues exactly one load.
    pub fn submit_load_request(&mut self, ev: LoadChunkEvent)
        requires
            old(self).wf(),
        ensures
            final(self).wf(),
            submit_rel(*old(self), *final(self), ev),
    {
        if !self.chunk_in_bounds(ev.chunk) {
            return;
        }
        let st = self.status_of(ev.chunk);
        if st == ChunkStatus::Loading {
            return;
        }
        if self.chunk_map.contains_key(ev.chunk) {
            return;
        }
        let ghost s0 = *self;
        self.chunk_status_map.insert(ev.chunk, ChunkStatus::Loading);
        self.loading_queue.push_front(ev);
        proof {
            assert forall|i: int| 0 <= i < self.loading_queue@.len() implies {
                &&& self.in_world_bounds((#[trigger] self.loading_queue@[i]).chunk)
                &&& !self.resident(self.loading_queue@[i].chunk)
                &&& self.spec_status(self.loading_queue@[i].chunk) == ChunkStatus::Loading
            } by {
                if i > 0 {
                    assert(self.loading_queue@[i] == s0.loading_queue@[i - 1]);
                }
            }
            assert forall|i: int, j: int| 0 <= i < j < self.loading_queue@.len()
                implies (self.loading_queue@[i]).chunk
                    != (self.loading_queue@[j]).chunk by {
                if i == 0 {
                    assert(self.loading_queue@[j] == s0.loading_queue@[j - 1]);
                    assert(s0.spec_status(s0.loading_queue@[j - 1].chunk) == ChunkStatus::Loading);
                } else {
                    assert(self.loading_queue@[i] == s0.loading_queue@[i - 1]);
                    assert(self.loading_queue@[j] == s0.loading_queue@[j - 1]);
                }
            }
        }
    }
}

/// A pending grid is a full cube of pending slots.
pub open spec fn pending_grid_wf(g: Grid3<PendingModification>) -> bool {
    &&& g.wf()
    &&& g.sx() == CHUNK_SIZE as int
    &&& g.sy() == CHUNK_SIZE as int
    &&& g.sz() == CHUNK_SIZE as int
}

/// How one call of `submit_load_request` changes the streamer: an
/// accepted request is queued at the front with its coordinate marked
/// `Loading`; any other request changes nothing.
pub open spec fn submit_rel(s0: WorldStreamer, s1: WorldStreamer, ev: LoadChunkEvent) -> bool {
    if s0.accepts_load(ev) {
        &&& s1.loading_queue@ == seq![ev] + s0.loading_queue@
        &&& s1.chunk_status_map.as_map() == s0.chunk_status_map.as_map().insert(
            ev.chunk,
            ChunkStatus::Loading,
        )
        &&& s1.chunk_map == s0.chunk_map
        &&& s1.pending_map == s0.pending_map
        &&& s1.unloading_queue == s0.unloading_queue
        &&& s1.save_queue == s0.save_queue
        &&& s1.loaders == s0.loaders
        &&& s1.update_chunk_events == s0.update_chunk_events
        &&& s1.tree_events == s0.tree_events
        &&& s1.block_update_events == s0.block_update_events
        &&& s1.reason_change_events == s0.reason_change_events
        &&& s1.config == s0.config
        &&& s1.seed == s0.seed
    } else {
        s1 == s0
    }
}

/// Issuing the same load request twice before it is serviced queues
/// the coordinate exactly once: the second submission finds the
/// coordinate `Loading` and changes nothing.
pub proof fn lemma_load_request_idempotent(
    s0: WorldStreamer,
    s1: WorldStreamer,
    s2: WorldStreamer,
    ev: LoadChunkEvent,
)
    requires
        s0.wf(),
        submit_rel(s0, s1, ev),
        submit_rel(s1, s2, ev),
    ensures
        s2.loading_queue@ == s1.loading_queue@,
        s0.accepts_load(ev) && !s0.load_queued(ev.chunk)
            ==> spec_count_of_coord(s2.loading_queue@, ev.chunk) == 1,
{
    if s0.accepts_load(ev) {
        assert(s1.spec_status(ev.chunk) == ChunkStatus::Loading);
        assert(!s1.accepts_load(ev));
        assert(s2 == s1);
        if !s0.load_queued(ev.chunk) {
            lemma_count_of_coord_absent(s0.loading_queue@, ev.chunk);
            lemma_count_of_coord_cons(s0.loading_queue@, ev);
            assert(spec_count_of_coord(s1.loading_queue@, ev.chunk) == 1);
        }
    } else {
        assert(s1 == s0);
        assert(s2 == s1);
    }
}

/// How many queued requests name a coordinate.
pub open spec fn spec_count_of_coord(q: Seq<LoadChunkEvent>, c: IVec3) -> int
    decreases q.len(),
{
    if q.len() == 0 {
        0
    } else {
        spec_count_of_coord(q.drop_first(), c) + if q[0].chunk == c { 1int } else { 0int }
    }
}

/// A coordinate queued nowhere is counted zero times.
pub proof fn lemma_count_of_coord_absent(q: Seq<LoadChunkEvent>, c: IVec3)
    requires
        forall|i: int| 0 <= i < q.len() ==> (#[trigger] q[i]).chunk != c,
    ensures
        spec_count_of_coord(q, c) == 0,
    decreases q.len(),
{
    if q.len() > 0 {
        assert(q[0].chunk != c);
        assert forall|i: int| 0 <= i < q.drop_first().len()
            implies (#[trigger] q.drop_first()[i]).chunk != c by {
            assert(q.drop_first()[i] == q[i + 1]);
        }
        lemma_count_of_coord_absent(q.drop_first(), c);
    }
}

/// Queuing one request for a coordinate raises its count by one.
pub proof fn lemma_count_of_coord_cons(q: Seq<LoadChunkEvent>, ev: LoadChunkEvent)
    ensures
        spec_count_of_coord(seq![ev] + q, ev.chunk)
            == spec_count_of_coord(q, ev.chunk) + 1,
{
    let q2 = seq![ev] + q;
    assert(q2[0] == ev);
    assert(q2.drop_first() =~= q);
}

} // verus!
