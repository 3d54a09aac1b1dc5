//! The debounced block-update propagator for water flow: each queued
//! update waits out a debounce interval, is then evaluated once, and
//! every air block found next to water (other than water below it)
//! becomes water, re-queueing its neighbors.

use vstd::prelude::*;
use crate::block::{Block, BlockID};
use crate::coords::{block_pos_from_global, chunk_pos_from_global, floor_chunk, IVec3, local_coord};
use crate::events::{BlockUpdateEvent, update_chunk_events_from_global, UpdateChunkEvent};
use crate::coordmap::{lemma_index_unique, lemma_map_of_update};
use crate::world::{chunk_wf, WorldStreamer};

verus! {

/// The chunk coordinate owning a global position.
pub open spec fn spec_chunk_of(g: IVec3) -> IVec3 {
    IVec3 {
        x: floor_chunk(g.x as int) as i32,
        y: floor_chunk(g.y as int) as i32,
        z: floor_chunk(g.z as int) as i32,
    }
}

/// The linear block index of a global position within its chunk.
pub open spec fn spec_local_index(g: IVec3) -> int {
    local_coord(g.x as int) + 16 * local_coord(g.y as int) + 256 * local_coord(g.z as int)
}

/// The block at a global position, if its chunk is resident.
pub open spec fn spec_block_at(s: WorldStreamer, g: IVec3) -> Option<Block> {
    let cp = spec_chunk_of(g);
    if s.resident(cp) {
        Some(s.chunk_map.as_map()[cp].blocks.view()[spec_local_index(g)])
    } else {
        None
    }
}

/// Whether a resident water block sits at a global position.
pub open spec fn spec_water_at(s: WorldStreamer, g: IVec3) -> bool {
    match spec_block_at(s, g) {
        Some(b) => b.id == BlockID::Water,
        None => false,
    }
}

/// Whether water can flow into a global position: one of its
/// neighbors other than the one below — above, or on the four sides —
/// holds water. The coordinate guards are machine limits: a neighbor
/// beyond the integer range can hold no chunk.
pub open spec fn spec_has_water_source(s: WorldStreamer, g: IVec3) -> bool {
    ||| (g.y < i32::MAX && spec_water_at(s, IVec3 { x: g.x, y: (g.y + 1) as i32, z: g.z }))
    ||| (g.z < i32::MAX && spec_water_at(s, IVec3 { x: g.x, y: g.y, z: (g.z + 1) as i32 }))
    ||| (g.z > i32::MIN && spec_water_at(s, IVec3 { x: g.x, y: g.y, z: (g.z - 1) as i32 }))
    ||| (g.x < i32::MAX && spec_water_at(s, IVec3 { x: (g.x + 1) as i32, y: g.y, z: g.z }))
    ||| (g.x > i32::MIN && spec_water_at(s, IVec3 { x: (g.x - 1) as i32, y: g.y, z: g.z }))
}

/// Whether a due update at a global position marks it thirsty: it is
/// resident air with a water source beside or above it.
pub open spec fn spec_thirsty(s: WorldStreamer, g: IVec3) -> bool {
    &&& spec_block_at(s, g) matches Some(b) && b.id == BlockID::Air
    &&& spec_has_water_source(s, g)
}


/// Whether a queued update is due for evaluation once `dt_ms` more
/// milliseconds have elapsed.
pub open spec fn spec_due(ev: BlockUpdateEvent, dt_ms: u64, debounce: u64) -> bool {
    ev.waited_ms + dt_ms >= debounce
}

/// The updates a pass re-queues: those of the first `n` still inside
/// the debounce window, in order, with their waits grown by `dt_ms`.
pub open spec fn spec_requeued(
    evs: Seq<BlockUpdateEvent>,
    dt_ms: u64,
    debounce: u64,
    n: int,
) -> Seq<BlockUpdateEvent>
    decreases n,
{
    if n <= 0 {
        Seq::empty()
    } else {
        let prev = spec_requeued(evs, dt_ms, debounce, n - 1);
        if !spec_due(evs[n - 1], dt_ms, debounce) {
            prev.push(BlockUpdateEvent {
                position: evs[n - 1].position,
                waited_ms: (evs[n - 1].waited_ms + dt_ms) as u64,
            })
        } else {
            prev
        }
    }
}

/// The positions a pass converts: those of due updates among the
/// first `n` that are thirsty in the starting state, in queue order.
/// A position queued twice converts twice, harmlessly.
pub open spec fn spec_due_thirsty(
    s0: WorldStreamer,
    evs: Seq<BlockUpdateEvent>,
    dt_ms: u64,
    debounce: u64,
    n: int,
) -> Seq<IVec3>
    decreases n,
{
    if n <= 0 {
        Seq::empty()
    } else {
        let prev = spec_due_thirsty(s0, evs, dt_ms, debounce, n - 1);
        if spec_due(evs[n - 1], dt_ms, debounce) && spec_thirsty(s0, evs[n - 1].position) {
            prev.push(evs[n - 1].position)
        } else {
            prev
        }
    }
}

/// What one pass re-queues, as a function of the starting state.
pub open spec fn spec_pass_requeued(s0: WorldStreamer, dt_ms: u64) -> Seq<BlockUpdateEvent> {
    spec_requeued(
        s0.block_update_events@,
        dt_ms,
        s0.config.water_debounce_ms,
        s0.block_update_events@.len() as int,
    )
}

/// What one pass converts, as a function of the starting state.
pub open spec fn spec_pass_converts(s0: WorldStreamer, dt_ms: u64) -> Seq<IVec3> {
    spec_due_thirsty(
        s0,
        s0.block_update_events@,
        dt_ms,
        s0.config.water_debounce_ms,
        s0.block_update_events@.len() as int,
    )
}

/// The fresh zero-wait updates one converted cell queues for its six
/// neighbors, in a fixed order, each guarded against the coordinate
/// limits.
pub open spec fn spec_neighbor_updates(g: IVec3) -> Seq<BlockUpdateEvent> {
    let up: Seq<BlockUpdateEvent> = if g.y < i32::MAX {
        seq![BlockUpdateEvent { position: IVec3 { x: g.x, y: (g.y + 1) as i32, z: g.z }, waited_ms: 0 }]
    } else {
        Seq::empty()
    };
    let down: Seq<BlockUpdateEvent> = if g.y > i32::MIN {
        seq![BlockUpdateEvent { position: IVec3 { x: g.x, y: (g.y - 1) as i32, z: g.z }, waited_ms: 0 }]
    } else {
        Seq::empty()
    };
    let north: Seq<BlockUpdateEvent> = if g.z < i32::MAX {
        seq![BlockUpdateEvent { position: IVec3 { x: g.x, y: g.y, z: (g.z + 1) as i32 }, waited_ms: 0 }]
    } else {
        Seq::empty()
    };
    let south: Seq<BlockUpdateEvent> = if g.z > i32::MIN {
        seq![BlockUpdateEvent { position: IVec3 { x: g.x, y: g.y, z: (g.z - 1) as i32 }, waited_ms: 0 }]
    } else {
        Seq::empty()
    };
    let east: Seq<BlockUpdateEvent> = if g.x < i32::MAX {
        seq![BlockUpdateEvent { position: IVec3 { x: (g.x + 1) as i32, y: g.y, z: g.z }, waited_ms: 0 }]
    } else {
        Seq::empty()
    };
    let west: Seq<BlockUpdateEvent> = if g.x > i32::MIN {
        seq![BlockUpdateEvent { position: IVec3 { x: (g.x - 1) as i32, y: g.y, z: g.z }, waited_ms: 0 }]
    } else {
        Seq::empty()
    };
    up + down + north + south + east + west
}

/// The neighbor updates of the first `n` converted cells, in order.
pub open spec fn spec_neighbor_updates_all(list: Seq<IVec3>, n: int) -> Seq<BlockUpdateEvent>
    decreases n,
{
    if n <= 0 {
        Seq::empty()
    } else {
        spec_neighbor_updates_all(list, n - 1) + spec_neighbor_updates(list[n - 1])
    }
}

/// The boundary mesh updates of the first `n` converted cells.
pub open spec fn spec_mesh_updates_all(list: Seq<IVec3>, n: int) -> Seq<UpdateChunkEvent>
    decreases n,
{
    if n <= 0 {
        Seq::empty()
    } else {
        spec_mesh_updates_all(list, n - 1)
            + crate::events::spec_boundary_updates(list[n - 1])
    }
}

/// A due update whose position is thirsty contributes its position to
/// the pass's conversion list.
pub proof fn lemma_due_thirsty_contains(
    s0: WorldStreamer,
    evs: Seq<BlockUpdateEvent>,
    dt_ms: u64,
    debounce: u64,
    n: int,
    j: int,
)
    requires
        0 <= j < n,
        spec_due(evs[j], dt_ms, debounce),
        spec_thirsty(s0, evs[j].position),
    ensures
        spec_due_thirsty(s0, evs, dt_ms, debounce, n).contains(evs[j].position),
    decreases n,
{
    let cur = spec_due_thirsty(s0, evs, dt_ms, debounce, n);
    let prev = spec_due_thirsty(s0, evs, dt_ms, debounce, n - 1);
    if j == n - 1 {
        assert(cur.last() == evs[j].position);
    } else {
        lemma_due_thirsty_contains(s0, evs, dt_ms, debounce, n - 1, j);
        let k = choose|k: int| 0 <= k < prev.len() && prev[k] == evs[j].position;
        assert(cur[k] == evs[j].position);
    }
}

/// What one propagation pass may do to blocks: a cell changes only if
/// some thirsty global position names exactly that cell.
pub open spec fn water_pass_rel(s0: WorldStreamer, s1: WorldStreamer) -> bool {
    forall|c: IVec3, i: int| s0.chunk_map.as_map().contains_key(c)
        && 0 <= i < s0.chunk_map.as_map()[c].blocks.view().len()
        && (#[trigger] s1.chunk_map.as_map()[c].blocks.view()[i])
            != s0.chunk_map.as_map()[c].blocks.view()[i]
        ==> exists|g: IVec3| {
            &&& #[trigger] spec_thirsty(s0, g)
            &&& spec_chunk_of(g) == c
            &&& spec_local_index(g) == i
        }
}

/// A chunk coordinate and a local index name exactly one global
/// position.
pub proof fn lemma_global_position_unique(g1: IVec3, g2: IVec3)
    requires
        spec_chunk_of(g1) == spec_chunk_of(g2),
        spec_local_index(g1) == spec_local_index(g2),
    ensures
        g1 == g2,
{
    crate::coords::lemma_chunk_local_roundtrip(g1);
    crate::coords::lemma_chunk_local_roundtrip(g2);
    assert(0 <= local_coord(g1.x as int) < 16);
    assert(0 <= local_coord(g1.y as int) < 16);
    assert(0 <= local_coord(g1.z as int) < 16);
    assert(0 <= local_coord(g2.x as int) < 16);
    assert(0 <= local_coord(g2.y as int) < 16);
    assert(0 <= local_coord(g2.z as int) < 16);
    assert(local_coord(g1.x as int) == local_coord(g2.x as int)
        && local_coord(g1.y as int) == local_coord(g2.y as int)
        && local_coord(g1.z as int) == local_coord(g2.z as int));
    assert(floor_chunk(g1.x as int) == floor_chunk(g2.x as int));
    assert(floor_chunk(g1.y as int) == floor_chunk(g2.y as int));
    assert(floor_chunk(g1.z as int) == floor_chunk(g2.z as int));
}

/// A cell that is not thirsty — in particular any cell of a fully
/// enclosed air cavity with no water source beside or above it — is
/// left exactly as it was by a propagation pass. Together with the
/// air-to-water monotonicity of the pass, such a cavity never changes
/// over any number of ticks.
pub proof fn lemma_cell_without_source_unchanged(s0: WorldStreamer, s1: WorldStreamer, g: IVec3)
    requires
        water_pass_rel(s0, s1),
        !spec_thirsty(s0, g),
        s0.resident(spec_chunk_of(g)),
        s1.chunk_map.as_map().contains_key(spec_chunk_of(g)),
        0 <= spec_local_index(g)
            < s0.chunk_map.as_map()[spec_chunk_of(g)].blocks.view().len(),
    ensures
        s1.chunk_map.as_map()[spec_chunk_of(g)].blocks.view()[spec_local_index(g)]
            == s0.chunk_map.as_map()[spec_chunk_of(g)].blocks.view()[spec_local_index(g)],
{
    let c = spec_chunk_of(g);
    let i = spec_local_index(g);
    if s1.chunk_map.as_map()[c].blocks.view()[i] != s0.chunk_map.as_map()[c].blocks.view()[i] {
        let g2 = choose|g2: IVec3| {
            &&& #[trigger] spec_thirsty(s0, g2)
            &&& spec_chunk_of(g2) == c
            &&& spec_local_index(g2) == i
        };
        lemma_global_position_unique(g, g2);
        assert(false);
    }
}


impl WorldStreamer {
    /// Appends mesh-invalidation events, touching nothing else.
    fn push_mesh_updates(&mut self, evs: &Vec<UpdateChunkEvent>)
        ensures
            final(self).update_chunk_events@ == old(self).update_chunk_events@ + evs@,
            final(self).chunk_map == old(self).chunk_map,
            final(self).chunk_status_map == old(self).chunk_status_map,
            final(self).pending_map == old(self).pending_map,
            final(self).loading_queue == old(self).loading_queue,
            final(self).unloading_queue == old(self).unloading_queue,
            final(self).save_queue == old(self).save_queue,
            final(self).loaders == old(self).loaders,
            final(self).tree_events == old(self).tree_events,
            final(self).block_update_events == old(self).block_update_events,
            final(self).reason_change_events == old(self).reason_change_events,
            final(self).config == old(self).config,
            final(self).seed == old(self).seed,
    {
        let ghost s0 = *self;
        let mut m: usize = 0;
        while m < evs.len()
            invariant
                m <= evs@.len(),
                self.update_chunk_events@ == s0.update_chunk_events@ + evs@.subrange(0, m as int),
                self.chunk_map == s0.chunk_map,
                self.chunk_status_map == s0.chunk_status_map,
                self.pending_map == s0.pending_map,
                self.loading_queue == s0.loading_queue,
                self.unloading_queue == s0.unloading_queue,
                self.save_queue == s0.save_queue,
                self.loaders == s0.loaders,
                self.tree_events == s0.tree_events,
                self.block_update_events == s0.block_update_events,
                self.reason_change_events == s0.reason_change_events,
                self.config == s0.config,
                self.seed == s0.seed,
            decreases evs@.len() - m,
        {
            self.update_chunk_events.push(evs[m]);
            proof {
                assert(evs@.subrange(0, m + 1 as int)
                    =~= evs@.subrange(0, m as int).push(evs@[m as int]));
            }
            m = m + 1;
        }
        proof {
            assert(evs@.subrange(0, evs@.len() as int) =~= evs@);
        }
    }
}

/// A water source beside some position names a resident water block.
pub proof fn lemma_water_source_witness(s: WorldStreamer, g: IVec3)
    requires
        s.wf(),
        spec_has_water_source(s, g),
    ensures
        exists|c: IVec3, i: int| {
            &&& #[trigger] s.resident(c)
            &&& 0 <= i < s.chunk_map.as_map()[c].blocks.view().len()
            &&& (#[trigger] s.chunk_map.as_map()[c].blocks.view()[i]).id == BlockID::Water
        },
{
    let n: IVec3 = if g.y < i32::MAX && spec_water_at(s, IVec3 { x: g.x, y: (g.y + 1) as i32, z: g.z }) {
        IVec3 { x: g.x, y: (g.y + 1) as i32, z: g.z }
    } else if g.z < i32::MAX && spec_water_at(s, IVec3 { x: g.x, y: g.y, z: (g.z + 1) as i32 }) {
        IVec3 { x: g.x, y: g.y, z: (g.z + 1) as i32 }
    } else if g.z > i32::MIN && spec_water_at(s, IVec3 { x: g.x, y: g.y, z: (g.z - 1) as i32 }) {
        IVec3 { x: g.x, y: g.y, z: (g.z - 1) as i32 }
    } else if g.x < i32::MAX && spec_water_at(s, IVec3 { x: (g.x + 1) as i32, y: g.y, z: g.z }) {
        IVec3 { x: (g.x + 1) as i32, y: g.y, z: g.z }
    } else {
        IVec3 { x: (g.x - 1) as i32, y: g.y, z: g.z }
    };
    assert(spec_water_at(s, n));
    let cp = spec_chunk_of(n);
    assert(s.resident(cp));
    let bi = spec_local_index(n);
    assert(chunk_wf(s.chunk_map.as_map()[cp]));
    assert(0 <= bi < s.chunk_map.as_map()[cp].blocks.view().len()) by {
        assert(0 <= local_coord(n.x as int) < 16);
        assert(0 <= local_coord(n.y as int) < 16);
        assert(0 <= local_coord(n.z as int) < 16);
    }
    assert(s.chunk_map.as_map()[cp].blocks.view()[bi].id == BlockID::Water);
}

impl WorldStreamer {
    /// Queues a debounced block update for a global position, as the
    /// mining, building and flow systems do after a write.
    pub fn queue_block_update(&mut self, position: IVec3)
        requires
            old(self).wf(),
        ensures
            final(self).wf(),
            final(self).block_update_events@ == old(self).block_update_events@.push(
                BlockUpdateEvent { position, waited_ms: 0 },
            ),
            final(self).chunk_map == old(self).chunk_map,
            final(self).loading_queue == old(self).loading_queue,
            final(self).update_chunk_events == old(self).update_chunk_events,
    {
        self.block_update_events.push(BlockUpdateEvent { position, waited_ms: 0 });
    }

    /// The block at a global position, if its chunk is resident. A
    /// missing chunk is no information, never a fabricated default.
    pub fn block_at(&self, g: IVec3) -> (r: Option<Block>)
        requires
            self.wf(),
        ensures
            r == spec_block_at(*self, g),
    {
        let cp = chunk_pos_from_global(g);
        match self.chunk_map.get(cp) {
            Some(chunk) => {
                let bp = block_pos_from_global(g);
                proof {
                    assert(chunk_wf(*chunk));
                    assert(chunk.blocks.idx(bp) == spec_local_index(g));
                }
                Some(*chunk.blocks.at(bp))
            },
            None => None,
        }
    }

    /// Whether a due update would mark this position thirsty.
    fn is_thirsty(&self, g: IVec3) -> (r: bool)
        requires
            self.wf(),
        ensures
            r == spec_thirsty(*self, g),
    {
        let here_air = match self.block_at(g) {
            Some(b) => b.id == BlockID::Air,
            None => false,
        };
        if !here_air {
            return false;
        }
        let up = g.y < i32::MAX
            && self.water_at(IVec3 { x: g.x, y: g.y + 1, z: g.z });
        let north = g.z < i32::MAX
            && self.water_at(IVec3 { x: g.x, y: g.y, z: g.z + 1 });
        let south = g.z > i32::MIN
            && self.water_at(IVec3 { x: g.x, y: g.y, z: g.z - 1 });
        let east = g.x < i32::MAX
            && self.water_at(IVec3 { x: g.x + 1, y: g.y, z: g.z });
        let west = g.x > i32::MIN
            && self.water_at(IVec3 { x: g.x - 1, y: g.y, z: g.z });
        up || north || south || east || west
    }

    fn water_at(&self, g: IVec3) -> (r: bool)
        requires
            self.wf(),
        ensures
            r == spec_water_at(*self, g),
    {
        match self.block_at(g) {
            Some(b) => b.id == BlockID::Water,
            None => false,
        }
    }

    /// Queues the fresh zero-wait updates for a converted cell's six
    /// neighbors, touching nothing else.
    fn push_neighbor_updates(&mut self, g: IVec3)
        ensures
            final(self).block_update_events@ == old(self).block_update_events@
                + spec_neighbor_updates(g),
            final(self).chunk_map == old(self).chunk_map,
            final(self).chunk_status_map == old(self).chunk_status_map,
            final(self).pending_map == old(self).pending_map,
            final(self).loading_queue == old(self).loading_queue,
            final(self).unloading_queue == old(self).unloading_queue,
            final(self).save_queue == old(self).save_queue,
            final(self).loaders == old(self).loaders,
            final(self).update_chunk_events == old(self).update_chunk_events,
            final(self).tree_events == old(self).tree_events,
            final(self).reason_change_events == old(self).reason_change_events,
            final(self).config == old(self).config,
            final(self).seed == old(self).seed,
    {
        let ghost s0 = *self;
        if g.y < i32::MAX {
            self.block_update_events.push(BlockUpdateEvent {
                position: IVec3 { x: g.x, y: g.y + 1, z: g.z },
                waited_ms: 0,
            });
        }
        if g.y > i32::MIN {
            self.block_update_events.push(BlockUpdateEvent {
                position: IVec3 { x: g.x, y: g.y - 1, z: g.z },
                waited_ms: 0,
            });
        }
        if g.z < i32::MAX {
            self.block_update_events.push(BlockUpdateEvent {
                position: IVec3 { x: g.x, y: g.y, z: g.z + 1 },
                waited_ms: 0,
            });
        }
        if g.z > i32::MIN {
            self.block_update_events.push(BlockUpdateEvent {
                position: IVec3 { x: g.x, y: g.y, z: g.z - 1 },
                waited_ms: 0,
            });
        }
        if g.x < i32::MAX {
            self.block_update_events.push(BlockUpdateEvent {
                position: IVec3 { x: g.x + 1, y: g.y, z: g.z },
                waited_ms: 0,
            });
        }
        if g.x > i32::MIN {
            self.block_update_events.push(BlockUpdateEvent {
                position: IVec3 { x: g.x - 1, y: g.y, z: g.z },
                waited_ms: 0,
            });
        }
        proof {
            assert(self.block_update_events@ =~= s0.block_update_events@
                + spec_neighbor_updates(g));
        }
    }

    /// Runs one debounced propagation pass with the elapsed time.
    /// Updates still inside the debounce window are re-queued with
    /// their wait extended; due updates are evaluated once, and every
    /// thirsty position becomes water, with block updates queued for
    /// its six neighbors and mesh updates for its boundary chunks.
    /// Blocks only ever turn from air to water, so an air region that
    /// no water can reach never changes, and each changing pass
    /// strictly reduces the air left for water to claim.
    #[verifier::rlimit(100)]
    pub fn process_block_updates(&mut self, dt_ms: u64) -> (changed: usize)
        requires
            old(self).wf(),
        ensures
            final(self).wf(),
            // Residency, reasons and handles are untouched.
            forall|c: IVec3| #[trigger] final(self).resident(c) == old(self).resident(c),
            forall|c: IVec3| #[trigger] old(self).resident(c) ==> {
                &&& final(self).chunk_map.as_map()[c].load_reasons
                    == old(self).chunk_map.as_map()[c].load_reasons
                &&& final(self).chunk_map.as_map()[c].render_entity
                    == old(self).chunk_map.as_map()[c].render_entity
                &&& final(self).chunk_map.as_map()[c].water_render_entity
                    == old(self).chunk_map.as_map()[c].water_render_entity
                &&& final(self).chunk_map.as_map()[c].blocks.view().len()
                    == old(self).chunk_map.as_map()[c].blocks.view().len()
                &&& final(self).chunk_map.as_map()[c].blocks.sx()
                    == old(self).chunk_map.as_map()[c].blocks.sx()
                &&& final(self).chunk_map.as_map()[c].blocks.sy()
                    == old(self).chunk_map.as_map()[c].blocks.sy()
                &&& final(self).chunk_map.as_map()[c].blocks.sz()
                    == old(self).chunk_map.as_map()[c].blocks.sz()
            },
            // Blocks only turn from air to water.
            forall|c: IVec3, i: int| old(self).resident(c)
                && 0 <= i < old(self).chunk_map.as_map()[c].blocks.view().len()
                && (#[trigger] final(self).chunk_map.as_map()[c].blocks.view()[i])
                    != old(self).chunk_map.as_map()[c].blocks.view()[i]
                ==> old(self).chunk_map.as_map()[c].blocks.view()[i].id == BlockID::Air
                    && final(self).chunk_map.as_map()[c].blocks.view()[i]
                        == (Block { id: BlockID::Water, damage: 0 }),
            // A pass that converts nothing changes no block.
            changed == 0 ==> forall|c: IVec3| #[trigger] old(self).resident(c)
                ==> final(self).chunk_map.as_map()[c].blocks
                    == old(self).chunk_map.as_map()[c].blocks,
            // Every change names a thirsty position of the old state.
            water_pass_rel(*old(self), *final(self)),
            // A world without water never changes.
            (forall|c: IVec3, i: int| old(self).resident(c)
                && 0 <= i < old(self).chunk_map.as_map()[c].blocks.view().len()
                ==> (#[trigger] old(self).chunk_map.as_map()[c].blocks.view()[i]).id
                    != BlockID::Water)
                ==> changed == 0,
            // Due updates are consumed and the rest re-queued, in
            // order, with their waits grown by the elapsed time; each
            // converted cell queues fresh zero-wait updates for its
            // six neighbors.
            final(self).block_update_events@ == spec_pass_requeued(*old(self), dt_ms)
                + spec_neighbor_updates_all(
                    spec_pass_converts(*old(self), dt_ms),
                    spec_pass_converts(*old(self), dt_ms).len() as int,
                ),
            // Each converted cell's boundary chunks get mesh updates.
            final(self).update_chunk_events@ == old(self).update_chunk_events@
                + spec_mesh_updates_all(
                    spec_pass_converts(*old(self), dt_ms),
                    spec_pass_converts(*old(self), dt_ms).len() as int,
                ),
            // A pass converts exactly the due thirsty positions, and
            // each of them holds water afterwards.
            changed == spec_pass_converts(*old(self), dt_ms).len(),
            forall|j: int| 0 <= j < old(self).block_update_events@.len()
                && spec_due(
                    #[trigger] old(self).block_update_events@[j],
                    dt_ms,
                    old(self).config.water_debounce_ms,
                )
                && spec_thirsty(*old(self), old(self).block_update_events@[j].position)
                ==> final(self).chunk_map.as_map()[
                    spec_chunk_of(old(self).block_update_events@[j].position)
                ].blocks.view()[spec_local_index(old(self).block_update_events@[j].position)]
                    == (Block { id: BlockID::Water, damage: 0 }),
            // The rest of the streamer is untouched.
            final(self).loading_queue == old(self).loading_queue,
            final(self).unloading_queue == old(self).unloading_queue,
            final(self).save_queue == old(self).save_queue,
            final(self).chunk_status_map == old(self).chunk_status_map,
            final(self).pending_map == old(self).pending_map,
            final(self).loaders == old(self).loaders,
            final(self).tree_events == old(self).tree_events,
            final(self).reason_change_events == old(self).reason_change_events,
    {
        let ghost s0 = *self;
        let debounce = self.config.water_debounce_ms;
        let mut requeue: Vec<BlockUpdateEvent> = Vec::new();
        let mut thirsty: Vec<IVec3> = Vec::new();

        // Evaluate due updates; re-queue the rest with their wait grown.
        let mut i: usize = 0;
        while i < self.block_update_events.len()
            invariant
                *self == s0,
                s0.wf(),
                debounce == s0.config.water_debounce_ms,
                i <= self.block_update_events@.len(),
                forall|t: int| 0 <= t < thirsty@.len()
                    ==> spec_thirsty(s0, #[trigger] thirsty@[t]),
                requeue@ == spec_requeued(s0.block_update_events@, dt_ms, debounce, i as int),
                thirsty@ == spec_due_thirsty(
                    s0,
                    s0.block_update_events@,
                    dt_ms,
                    debounce,
                    i as int,
                ),
            decreases self.block_update_events@.len() - i,
        {
            let ev = self.block_update_events[i];
            let waited = ev.waited_ms.saturating_add(dt_ms);
            proof {
                assert((waited < debounce) == !spec_due(ev, dt_ms, debounce));
            }
            if waited < debounce {
                requeue.push(BlockUpdateEvent { position: ev.position, waited_ms: waited });
            } else {
                if self.is_thirsty(ev.position) {
                    thirsty.push(ev.position);
                }
            }
            i = i + 1;
        }
        self.block_update_events = requeue;
        proof {
            assert(thirsty@ == spec_pass_converts(s0, dt_ms));
            assert(self.block_update_events@ == spec_pass_requeued(s0, dt_ms));
        }

        // Convert every thirsty position to water and fan out updates.
        let mut changed: usize = 0;
        let mut t: usize = 0;
        while t < thirsty.len()
            invariant
                self.wf(),
                s0.wf(),
                forall|t2: int| 0 <= t2 < thirsty@.len()
                    ==> spec_thirsty(s0, #[trigger] thirsty@[t2]),
                t <= thirsty@.len(),
                changed == t,
                thirsty@ == spec_pass_converts(s0, dt_ms),
                self.block_update_events@ == spec_pass_requeued(s0, dt_ms),
                self.update_chunk_events@ == s0.update_chunk_events@,
                forall|t2: int| 0 <= t2 < t
                    ==> self.chunk_map.as_map()[
                        spec_chunk_of(#[trigger] thirsty@[t2])
                    ].blocks.view()[spec_local_index(thirsty@[t2])]
                        == (Block { id: BlockID::Water, damage: 0 }),
                forall|c: IVec3| #[trigger] self.chunk_map.as_map().contains_key(c)
                    == s0.chunk_map.as_map().contains_key(c),
                forall|c: IVec3| #[trigger] s0.chunk_map.as_map().contains_key(c) ==> {
                    &&& self.chunk_map.as_map()[c].load_reasons
                        == s0.chunk_map.as_map()[c].load_reasons
                    &&& self.chunk_map.as_map()[c].render_entity
                        == s0.chunk_map.as_map()[c].render_entity
                    &&& self.chunk_map.as_map()[c].water_render_entity
                        == s0.chunk_map.as_map()[c].water_render_entity
                    &&& self.chunk_map.as_map()[c].blocks.view().len()
                        == s0.chunk_map.as_map()[c].blocks.view().len()
                    &&& self.chunk_map.as_map()[c].blocks.sx()
                        == s0.chunk_map.as_map()[c].blocks.sx()
                    &&& self.chunk_map.as_map()[c].blocks.sy()
                        == s0.chunk_map.as_map()[c].blocks.sy()
                    &&& self.chunk_map.as_map()[c].blocks.sz()
                        == s0.chunk_map.as_map()[c].blocks.sz()
                },
                forall|c: IVec3, bi: int| s0.chunk_map.as_map().contains_key(c)
                    && 0 <= bi < s0.chunk_map.as_map()[c].blocks.view().len()
                    && (#[trigger] self.chunk_map.as_map()[c].blocks.view()[bi])
                        != s0.chunk_map.as_map()[c].blocks.view()[bi]
                    ==> s0.chunk_map.as_map()[c].blocks.view()[bi].id == BlockID::Air
                        && self.chunk_map.as_map()[c].blocks.view()[bi]
                            == (Block { id: BlockID::Water, damage: 0 }),
                changed == 0 ==> forall|c: IVec3| #[trigger] s0.chunk_map.as_map().contains_key(c)
                    ==> self.chunk_map.as_map()[c].blocks == s0.chunk_map.as_map()[c].blocks,
                forall|c: IVec3, bi: int| s0.chunk_map.as_map().contains_key(c)
                    && 0 <= bi < s0.chunk_map.as_map()[c].blocks.view().len()
                    && (#[trigger] self.chunk_map.as_map()[c].blocks.view()[bi])
                        != s0.chunk_map.as_map()[c].blocks.view()[bi]
                    ==> exists|g2: IVec3| {
                        &&& #[trigger] spec_thirsty(s0, g2)
                        &&& spec_chunk_of(g2) == c
                        &&& spec_local_index(g2) == bi
                    },
                self.loading_queue == s0.loading_queue,
                self.unloading_queue == s0.unloading_queue,
                self.save_queue == s0.save_queue,
                self.chunk_status_map == s0.chunk_status_map,
                self.pending_map == s0.pending_map,
                self.loaders == s0.loaders,
                self.tree_events == s0.tree_events,
                self.reason_change_events == s0.reason_change_events,
                self.config == s0.config,
                self.seed == s0.seed,
            decreases thirsty@.len() - t,
        {
            let g = thirsty[t];
            let cp = chunk_pos_from_global(g);
            let ghost smid = *self;
            match self.chunk_map.index_of_key(cp) {
                Some(ci) => {
                    proof {
                        lemma_index_unique(self.chunk_map.sseq(), cp, ci as int);
                        assert(self.resident(cp));
                        assert(chunk_wf(self.chunk_map.as_map()[cp]));
                    }
                    let bp = block_pos_from_global(g);
                    let chunk = self.chunk_map.entry_at_mut(ci);
                    proof {
                        assert(*chunk == smid.chunk_map.as_map()[cp]);
                        assert(chunk_wf(*chunk));
                        assert(chunk.blocks.idx(bp) == spec_local_index(g));
                    }
                    chunk.blocks.set(bp, Block { id: BlockID::Water, damage: 0 });
                    proof {
                        lemma_map_of_update(
                            smid.chunk_map.sseq(),
                            ci as int,
                            self.chunk_map.sseq()[ci as int].val,
                        );
                        assert forall|c2: IVec3| #[trigger] self.chunk_map.as_map()
                            .contains_key(c2) == s0.chunk_map.as_map().contains_key(c2) by {
                            assert(smid.chunk_map.as_map().contains_key(c2)
                                == s0.chunk_map.as_map().contains_key(c2));
                            if c2 == cp {
                                assert(smid.chunk_map.as_map().contains_key(cp));
                            }
                        }
                        assert(spec_thirsty(s0, g));
                        assert(s0.resident(cp));
                        assert(s0.chunk_map.as_map()[cp].blocks.view()[spec_local_index(g)].id
                            == BlockID::Air) by {
                            assert(spec_block_at(s0, g) == Some(
                                s0.chunk_map.as_map()[cp].blocks.view()[spec_local_index(g)],
                            ));
                        }
                        assert forall|c2: IVec3| #[trigger] self.chunk_map.as_map()
                            .contains_key(c2) implies chunk_wf(self.chunk_map.as_map()[c2]) by {
                            if c2 != cp {
                                assert(smid.chunk_map.as_map().contains_key(c2));
                                assert(self.chunk_map.as_map()[c2]
                                    == smid.chunk_map.as_map()[c2]);
                            }
                        }
                        assert forall|j: int| 0 <= j < self.loading_queue@.len() implies {
                            &&& self.in_world_bounds((#[trigger] self.loading_queue@[j]).chunk)
                            &&& !self.resident(self.loading_queue@[j].chunk)
                            &&& self.spec_status(self.loading_queue@[j].chunk)
                                == crate::events::ChunkStatus::Loading
                        } by {
                            assert(!smid.resident(smid.loading_queue@[j].chunk));
                        }
                        assert forall|c2: IVec3, bi: int| s0.chunk_map.as_map().contains_key(c2)
                            && 0 <= bi < s0.chunk_map.as_map()[c2].blocks.view().len()
                            && (#[trigger] self.chunk_map.as_map()[c2].blocks.view()[bi])
                                != s0.chunk_map.as_map()[c2].blocks.view()[bi]
                            implies exists|g2: IVec3| {
                                &&& #[trigger] spec_thirsty(s0, g2)
                                &&& spec_chunk_of(g2) == c2
                                &&& spec_local_index(g2) == bi
                            } by {
                            if c2 == cp && bi == spec_local_index(g) {
                                assert(spec_thirsty(s0, g));
                                assert(spec_chunk_of(g) == cp);
                            } else {
                                if self.chunk_map.as_map()[c2].blocks.view()[bi]
                                    != smid.chunk_map.as_map()[c2].blocks.view()[bi] {
                                    assert(c2 == cp);
                                    assert(bi == spec_local_index(g));
                                    assert(false);
                                } else {
                                    assert(smid.chunk_map.as_map()[c2].blocks.view()[bi]
                                        != s0.chunk_map.as_map()[c2].blocks.view()[bi]);
                                }
                            }
                        }
                    }
                    changed = changed + 1;
                    proof {
                        assert forall|t2: int| 0 <= t2 < t + 1
                            implies self.chunk_map.as_map()[
                                spec_chunk_of(#[trigger] thirsty@[t2])
                            ].blocks.view()[spec_local_index(thirsty@[t2])]
                                == (Block { id: BlockID::Water, damage: 0 }) by {
                            let g2 = thirsty@[t2];
                            let c2 = spec_chunk_of(g2);
                            let i2 = spec_local_index(g2);
                            assert(spec_thirsty(s0, g2));
                            assert(s0.resident(c2));
                            assert(chunk_wf(s0.chunk_map.as_map()[c2]));
                            assert(0 <= i2 < s0.chunk_map.as_map()[c2].blocks.view().len()) by {
                                assert(0 <= local_coord(g2.x as int) < 16);
                                assert(0 <= local_coord(g2.y as int) < 16);
                                assert(0 <= local_coord(g2.z as int) < 16);
                            }
                            if t2 == t {
                                assert(g2 == g);
                                assert(self.chunk_map.as_map()[cp].blocks.view()[
                                    spec_local_index(g)
                                ] == (Block { id: BlockID::Water, damage: 0 }));
                            } else {
                                assert(smid.chunk_map.as_map()[c2].blocks.view()[i2]
                                    == (Block { id: BlockID::Water, damage: 0 }));
                                if c2 == cp && i2 == spec_local_index(g) {
                                } else {
                                    if c2 == cp {
                                        assert(self.chunk_map.as_map()[cp].blocks.view()
                                            =~= smid.chunk_map.as_map()[cp].blocks.view()
                                                .update(
                                                    spec_local_index(g),
                                                    Block { id: BlockID::Water, damage: 0 },
                                                ));
                                    } else {
                                        assert(self.chunk_map.as_map()[c2]
                                            == smid.chunk_map.as_map()[c2]);
                                    }
                                }
                            }
                        }
                    }
                },
                None => {
                    proof {
                        assert(spec_thirsty(s0, g));
                        assert(s0.resident(spec_chunk_of(g)));
                        assert(smid.resident(spec_chunk_of(g)));
                        assert(false);
                    }
                },
            }
            t = t + 1;
        }

        // Fan out the queued updates for the converted cells: fresh
        // zero-wait updates for the six neighbors and boundary mesh
        // invalidation, in conversion order.
        let ghost post = *self;
        let mut f: usize = 0;
        while f < thirsty.len()
            invariant
                f <= thirsty@.len(),
                self.chunk_map == post.chunk_map,
                self.chunk_status_map == post.chunk_status_map,
                self.pending_map == post.pending_map,
                self.loading_queue == post.loading_queue,
                self.unloading_queue == post.unloading_queue,
                self.save_queue == post.save_queue,
                self.loaders == post.loaders,
                self.tree_events == post.tree_events,
                self.reason_change_events == post.reason_change_events,
                self.config == post.config,
                self.seed == post.seed,
                self.block_update_events@ == post.block_update_events@
                    + spec_neighbor_updates_all(thirsty@, f as int),
                self.update_chunk_events@ == post.update_chunk_events@
                    + spec_mesh_updates_all(thirsty@, f as int),
            decreases thirsty@.len() - f,
        {
            let g = thirsty[f];
            self.push_neighbor_updates(g);
            proof {
                assert(self.block_update_events@ =~= post.block_update_events@
                    + spec_neighbor_updates_all(thirsty@, f + 1));
            }
            let mesh_events = update_chunk_events_from_global(g);
            self.push_mesh_updates(&mesh_events);
            proof {
                assert(self.update_chunk_events@ =~= post.update_chunk_events@
                    + spec_mesh_updates_all(thirsty@, f + 1));
            }
            f = f + 1;
        }
        proof {
            assert forall|c: IVec3| #[trigger] self.resident(c) == s0.resident(c) by {
                assert(self.chunk_map.as_map().contains_key(c)
                    == s0.chunk_map.as_map().contains_key(c));
            }
            assert forall|j: int| 0 <= j < s0.block_update_events@.len()
                && spec_due(#[trigger] s0.block_update_events@[j], dt_ms, debounce)
                && spec_thirsty(s0, s0.block_update_events@[j].position)
                implies self.chunk_map.as_map()[
                    spec_chunk_of(s0.block_update_events@[j].position)
                ].blocks.view()[spec_local_index(s0.block_update_events@[j].position)]
                    == (Block { id: BlockID::Water, damage: 0 }) by {
                lemma_due_thirsty_contains(
                    s0,
                    s0.block_update_events@,
                    dt_ms,
                    debounce,
                    s0.block_update_events@.len() as int,
                    j,
                );
                let pos = s0.block_update_events@[j].position;
                let t2 = choose|t2: int| 0 <= t2 < thirsty@.len() && thirsty@[t2] == pos;
            }
            if (forall|c: IVec3, bi: int| s0.resident(c)
                && 0 <= bi < s0.chunk_map.as_map()[c].blocks.view().len()
                ==> (#[trigger] s0.chunk_map.as_map()[c].blocks.view()[bi]).id
                    != BlockID::Water)
                && changed > 0 {
                assert(thirsty@.len() > 0);
                assert(spec_thirsty(s0, thirsty@[0]));
                lemma_water_source_witness(s0, thirsty@[0]);
                assert(false);
            }
        }
        changed
    }
}

} // verus!
