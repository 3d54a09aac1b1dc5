//! Procedural tree growth: a stack of frontier growth points, one per
//! active branch, each advancing by a deterministic pseudorandom
//! sequence seeded from the world seed and the point's absolute
//! coordinates, so a tree regrows identically across reloads. Logs and
//! leaves never overwrite solid blocks; writes into chunks that do not
//! exist yet become pending modifications.

use vstd::prelude::*;
use crate::block::{Block, BlockID};
use crate::coordmap::{lemma_index_unique, lemma_map_of_update};
use crate::coords::{block_pos_from_global, chunk_pos_from_global, IVec3};
use crate::events::{update_chunk_events_from_global, UpdateChunkEvent};
use crate::grid3::Grid3;
use crate::world::{Chunk, chunk_wf, PendingModification, pending_grid_wf, spec_untouched_pending, WorldStreamer};

verus! {

/// What a single draw of the seeded generator yields below a bound.
pub uninterp spec fn seeded_draw(seed: u64, bound: u32) -> u32;

/// Relies on `fastrand::Rng::with_seed` and `Rng::u32`: a generator
/// built from a fixed seed is a pure integer function of that seed, so
/// one draw below a positive bound depends on the seed and the bound
/// alone, and lies in `[0, bound)`.
#[verifier::external_body]
fn rand_below(seed: u64, bound: u32) -> (r: u32)
    requires
        bound >= 1,
    ensures
        r < bound,
        r == seeded_draw(seed, bound),
{
    fastrand::Rng::with_seed(seed).u32(0..bound)
}

/// Clamps into the per-mille chance range the growth chances live in.
pub open spec fn spec_sat_chance(v: int) -> int {
    if v > 1000000000 {
        1000000000
    } else if v < -1000000000 {
        -1000000000
    } else {
        v
    }
}

/// Saturating addition for growth chances: past one the chance is
/// certain and below zero it is impossible, so clamping far outside
/// the per-mille range never changes which draws succeed.
fn sat_chance_add(a: i64, b: i64) -> (r: i64)
    requires
        -1000000000 <= a <= 1000000000,
        -1000000000 <= b <= 1000000000,
    ensures
        r == spec_sat_chance(a + b),
        -1000000000 <= r <= 1000000000,
{
    let s: i64 = a + b;
    if s > 1000000000 {
        1000000000
    } else if s < -1000000000 {
        -1000000000
    } else {
        s
    }
}

/// Whether a sequence of positions holds one equal to the given.
fn coords_contain(v: &Vec<IVec3>, p: IVec3) -> (r: bool)
    ensures
        r == v@.contains(p),
{
    let mut i: usize = 0;
    while i < v.len()
        invariant
            i <= v@.len(),
            forall|j: int| 0 <= j < i ==> v@[j] != p,
        decreases v@.len() - i,
    {
        if v[i] == p {
            return true;
        }
        i = i + 1;
    }
    false
}

/// Whether an event list already carries the given event.
fn updates_contain(v: &Vec<UpdateChunkEvent>, e: UpdateChunkEvent) -> (r: bool)
    ensures
        r == v@.contains(e),
{
    let mut i: usize = 0;
    while i < v.len()
        invariant
            i <= v@.len(),
            forall|j: int| 0 <= j < i ==> v@[j] != e,
        decreases v@.len() - i,
    {
        if v[i] == e {
            return true;
        }
        i = i + 1;
    }
    false
}

/// The chunk a tree write at a global position lands in.
pub open spec fn spec_write_chunk(g: IVec3) -> IVec3 {
    IVec3 {
        x: crate::coords::floor_chunk(g.x as int) as i32,
        y: crate::coords::floor_chunk(g.y as int) as i32,
        z: crate::coords::floor_chunk(g.z as int) as i32,
    }
}

/// The linear block index a tree write at a global position lands at.
pub open spec fn spec_write_index(g: IVec3) -> int {
    crate::coords::local_coord(g.x as int) + 16 * crate::coords::local_coord(g.y as int)
        + 256 * crate::coords::local_coord(g.z as int)
}

/// The block kinds tree growth may write over.
pub open spec fn spec_writable(id: BlockID) -> bool {
    id == BlockID::Air || id == BlockID::Leaves
}

/// The slot a pending grid held before growth, with a grid that did
/// not exist yet read as all untouched slots.
pub open spec fn spec_pending_before(
    p0: Map<IVec3, Grid3<PendingModification>>,
    c: IVec3,
    i: int,
) -> PendingModification {
    if p0.contains_key(c) {
        p0[c].view()[i]
    } else {
        spec_untouched_pending()
    }
}

/// How tree growth may change the pending store: entries are never
/// dropped, every grid is a full cube of slots, and a slot changes
/// only by a yielding log landing, or by a yielding leaf landing on a
/// slot that still carried air.
pub open spec fn tree_pending_frame(
    p0: Map<IVec3, Grid3<PendingModification>>,
    p1: Map<IVec3, Grid3<PendingModification>>,
) -> bool {
    &&& forall|c: IVec3| #[trigger] p0.contains_key(c) ==> p1.contains_key(c)
    &&& forall|c: IVec3| #[trigger] p1.contains_key(c) ==> p1[c].view().len() == 4096
    &&& forall|c: IVec3, i: int| p1.contains_key(c) && 0 <= i < 4096
        && (#[trigger] p1[c].view()[i]) != spec_pending_before(p0, c, i)
        ==> {
            ||| p1[c].view()[i] == (PendingModification {
                yield_to_terrain: true,
                block: Block { id: BlockID::Log, damage: 0 },
            })
            ||| (p1[c].view()[i] == (PendingModification {
                yield_to_terrain: true,
                block: Block { id: BlockID::Leaves, damage: 0 },
            }) && spec_pending_before(p0, c, i).block.id == BlockID::Air)
        }
}

/// Every pending grid of a well-formed streamer is a full cube.
pub proof fn lemma_pending_grids_full(s: WorldStreamer)
    requires
        s.wf(),
    ensures
        forall|c: IVec3| #[trigger] s.pending_map.as_map().contains_key(c)
            ==> s.pending_map.as_map()[c].view().len() == 4096,
{
    assert forall|c: IVec3| #[trigger] s.pending_map.as_map().contains_key(c)
        implies s.pending_map.as_map()[c].view().len() == 4096 by {
        assert(pending_grid_wf(s.pending_map.as_map()[c]));
    }
}

/// The pending frame composes.
pub proof fn lemma_tree_pending_trans(
    p0: Map<IVec3, Grid3<PendingModification>>,
    p1: Map<IVec3, Grid3<PendingModification>>,
    p2: Map<IVec3, Grid3<PendingModification>>,
)
    requires
        tree_pending_frame(p0, p1),
        tree_pending_frame(p1, p2),
    ensures
        tree_pending_frame(p0, p2),
{
    assert forall|c: IVec3| #[trigger] p0.contains_key(c) implies p2.contains_key(c) by {
        assert(p1.contains_key(c));
    }
    assert forall|c: IVec3, i: int| p2.contains_key(c) && 0 <= i < 4096
        && (#[trigger] p2[c].view()[i]) != spec_pending_before(p0, c, i)
        implies {
            ||| p2[c].view()[i] == (PendingModification {
                yield_to_terrain: true,
                block: Block { id: BlockID::Log, damage: 0 },
            })
            ||| (p2[c].view()[i] == (PendingModification {
                yield_to_terrain: true,
                block: Block { id: BlockID::Leaves, damage: 0 },
            }) && spec_pending_before(p0, c, i).block.id == BlockID::Air)
        } by {
        if p1.contains_key(c) {
            if p2[c].view()[i] != spec_pending_before(p1, c, i) {
                // The second step wrote this slot; if it wrote a leaf,
                // the slot held air at the middle state, hence at the
                // start: growth never writes air.
                if spec_pending_before(p1, c, i).block.id == BlockID::Air
                    && spec_pending_before(p1, c, i) != spec_pending_before(p0, c, i) {
                    assert(p1[c].view()[i] != spec_pending_before(p0, c, i));
                    assert(false);
                }
            } else {
                assert(p1[c].view()[i] != spec_pending_before(p0, c, i));
            }
        } else {
            assert(!p0.contains_key(c));
            assert(spec_pending_before(p1, c, i) == spec_pending_before(p0, c, i));
            assert(p2[c].view()[i] != spec_pending_before(p1, c, i));
        }
    }
}

/// A log cell survives any amount of tree growth: growth writes only
/// over air or leaves.
pub proof fn lemma_log_preserved(m0: Map<IVec3, Chunk>, m1: Map<IVec3, Chunk>, c: IVec3, i: int)
    requires
        tree_blocks_frame(m0, m1),
        m0.contains_key(c),
        0 <= i < m0[c].blocks.view().len(),
        m0[c].blocks.view()[i].id == BlockID::Log,
    ensures
        m1[c].blocks.view()[i].id == BlockID::Log,
{
    if m1[c].blocks.view()[i] != m0[c].blocks.view()[i] {
        assert(m0[c].blocks.view()[i].id == BlockID::Air
            || m0[c].blocks.view()[i].id == BlockID::Leaves);
    }
}

/// A tree event whose trunk base lies, within coordinate limits, on a
/// writable cell of a resident chunk.
pub open spec fn root_grows(s0: WorldStreamer, ev: crate::events::GenerateTreeEvent) -> bool {
    let root = ev.0;
    &&& -1000000000 <= root.x <= 1000000000
    &&& -1000000000 <= root.y <= 1000000000
    &&& -1000000000 <= root.z <= 1000000000
    &&& s0.resident(spec_write_chunk(root))
    &&& spec_writable(s0.chunk_map.as_map()[spec_write_chunk(root)]
        .blocks.view()[spec_write_index(root)].id)
}

/// How tree growth may change the chunk store between two states: the
/// same chunks are resident with their reasons, handles and block
/// dimensions kept, and a block changes only by a log or leaves
/// landing on what was air or leaves.
pub open spec fn tree_blocks_frame(m0: Map<IVec3, Chunk>, m1: Map<IVec3, Chunk>) -> bool {
    &&& forall|c: IVec3| #[trigger] m1.contains_key(c) == m0.contains_key(c)
    &&& forall|c: IVec3| #[trigger] m0.contains_key(c) ==> {
        &&& m1[c].load_reasons == m0[c].load_reasons
        &&& m1[c].render_entity == m0[c].render_entity
        &&& m1[c].water_render_entity == m0[c].water_render_entity
        &&& m1[c].blocks.view().len() == m0[c].blocks.view().len()
        &&& m1[c].blocks.sx() == m0[c].blocks.sx()
        &&& m1[c].blocks.sy() == m0[c].blocks.sy()
        &&& m1[c].blocks.sz() == m0[c].blocks.sz()
    }
    &&& forall|c: IVec3, i: int| m0.contains_key(c) && 0 <= i < m0[c].blocks.view().len()
        && (#[trigger] m1[c].blocks.view()[i]) != m0[c].blocks.view()[i]
        ==> {
            &&& m0[c].blocks.view()[i].id == BlockID::Air
                || m0[c].blocks.view()[i].id == BlockID::Leaves
            &&& m1[c].blocks.view()[i] == (Block { id: BlockID::Log, damage: 0 })
                || m1[c].blocks.view()[i] == (Block { id: BlockID::Leaves, damage: 0 })
        }
}

/// The tree frame is reflexive and composes.
pub proof fn lemma_tree_frame_trans(m0: Map<IVec3, Chunk>, m1: Map<IVec3, Chunk>, m2: Map<IVec3, Chunk>)
    requires
        tree_blocks_frame(m0, m1),
        tree_blocks_frame(m1, m2),
    ensures
        tree_blocks_frame(m0, m2),
{
    assert forall|c: IVec3| #[trigger] m2.contains_key(c) == m0.contains_key(c) by {
        assert(m1.contains_key(c) == m0.contains_key(c));
    }
    assert forall|c: IVec3| #[trigger] m0.contains_key(c) implies {
        &&& m2[c].load_reasons == m0[c].load_reasons
        &&& m2[c].render_entity == m0[c].render_entity
        &&& m2[c].water_render_entity == m0[c].water_render_entity
        &&& m2[c].blocks.view().len() == m0[c].blocks.view().len()
        &&& m2[c].blocks.sx() == m0[c].blocks.sx()
        &&& m2[c].blocks.sy() == m0[c].blocks.sy()
        &&& m2[c].blocks.sz() == m0[c].blocks.sz()
    } by {
        assert(m1.contains_key(c));
    }
    assert forall|c: IVec3, i: int| m0.contains_key(c) && 0 <= i < m0[c].blocks.view().len()
        && (#[trigger] m2[c].blocks.view()[i]) != m0[c].blocks.view()[i]
        implies {
            &&& m0[c].blocks.view()[i].id == BlockID::Air
                || m0[c].blocks.view()[i].id == BlockID::Leaves
            &&& m2[c].blocks.view()[i] == (Block { id: BlockID::Log, damage: 0 })
                || m2[c].blocks.view()[i] == (Block { id: BlockID::Leaves, damage: 0 })
        } by {
        assert(m1.contains_key(c));
        if m2[c].blocks.view()[i] != m1[c].blocks.view()[i] {
            assert(m1[c].blocks.view()[i].id == BlockID::Air
                || m1[c].blocks.view()[i].id == BlockID::Leaves);
        } else {
            assert(m1[c].blocks.view()[i] != m0[c].blocks.view()[i]);
        }
    }
}

impl WorldStreamer {
    /// Places one growth block at a global position: a log (or leaves
    /// in canopy phase) lands in a resident chunk only over air or
    /// leaves; any other target goes to the pending store for the
    /// owning chunk — a log unconditionally, leaves only into an
    /// untouched slot — and queues boundary mesh updates.
    fn place_tree_block(
        &mut self,
        pos: IVec3,
        is_log: bool,
        chunk_updates: &mut Vec<UpdateChunkEvent>,
    )
        requires
            old(self).wf(),
        ensures
            final(self).wf(),
            tree_blocks_frame(
                old(self).chunk_map.as_map(),
                final(self).chunk_map.as_map(),
            ),
            forall|c: IVec3| #[trigger] old(self).pending_map.as_map().contains_key(c)
                ==> final(self).pending_map.as_map().contains_key(c),
            tree_pending_frame(
                old(self).pending_map.as_map(),
                final(self).pending_map.as_map(),
            ),
            is_log && old(self).resident(spec_write_chunk(pos))
                && spec_writable(old(self).chunk_map.as_map()[spec_write_chunk(pos)]
                    .blocks.view()[spec_write_index(pos)].id)
                ==> final(self).chunk_map.as_map()[spec_write_chunk(pos)]
                    .blocks.view()[spec_write_index(pos)].id == BlockID::Log,
            final(self).chunk_status_map == old(self).chunk_status_map,
            final(self).loading_queue == old(self).loading_queue,
            final(self).unloading_queue == old(self).unloading_queue,
            final(self).save_queue == old(self).save_queue,
            final(self).loaders == old(self).loaders,
            final(self).update_chunk_events == old(self).update_chunk_events,
            final(self).tree_events == old(self).tree_events,
            final(self).block_update_events == old(self).block_update_events,
            final(self).reason_change_events == old(self).reason_change_events,
            final(self).config == old(self).config,
            final(self).seed == old(self).seed,
    {
        let ghost s0 = *self;
        let cp = chunk_pos_from_global(pos);
        let bp = block_pos_from_global(pos);

        // Try a direct write into a resident chunk.
        let writable = match self.chunk_map.get(cp) {
            Some(chunk) => {
                proof {
                    assert(chunk_wf(*chunk));
                }
                let cur = *chunk.blocks.at(bp);
                cur.id == BlockID::Air || cur.id == BlockID::Leaves
            },
            None => false,
        };
        if writable {
            match self.chunk_map.index_of_key(cp) {
                Some(ci) => {
                    proof {
                        lemma_index_unique(self.chunk_map.sseq(), cp, ci as int);
                        assert(chunk_wf(self.chunk_map.as_map()[cp]));
                    }
                    let chunk = self.chunk_map.entry_at_mut(ci);
                    proof {
                        assert(*chunk == s0.chunk_map.as_map()[cp]);
                        assert(chunk_wf(*chunk));
                    }
                    let ghost bi = chunk.blocks.idx(bp);
                    let ghost old_cell = chunk.blocks.view()[bi];
                    if is_log {
                        chunk.blocks.set(bp, Block { id: BlockID::Log, damage: 0 });
                    } else {
                        chunk.blocks.set(bp, Block { id: BlockID::Leaves, damage: 0 });
                    }
                    proof {
                        lemma_map_of_update(
                            s0.chunk_map.sseq(),
                            ci as int,
                            self.chunk_map.sseq()[ci as int].val,
                        );
                        assert forall|c2: IVec3| #[trigger] self.chunk_map.as_map()
                            .contains_key(c2) == s0.chunk_map.as_map().contains_key(c2) by {
                            if c2 == cp {
                                assert(s0.chunk_map.as_map().contains_key(cp));
                            }
                        }
                        assert forall|c2: IVec3| #[trigger] self.chunk_map.as_map()
                            .contains_key(c2) implies chunk_wf(self.chunk_map.as_map()[c2]) by {
                            if c2 != cp {
                                assert(s0.chunk_map.as_map().contains_key(c2));
                            }
                        }
                        assert(cp == spec_write_chunk(pos));
                        assert(bi == spec_write_index(pos));
                        let m0 = s0.chunk_map.as_map();
                        let m1 = self.chunk_map.as_map();
                        if is_log {
                            assert(m1[cp].blocks.view()[bi]
                                == (Block { id: BlockID::Log, damage: 0 }));
                        }
                        assert(m1[cp].blocks.view() == m0[cp].blocks.view().update(
                            bi,
                            if is_log {
                                Block { id: BlockID::Log, damage: 0 }
                            } else {
                                Block { id: BlockID::Leaves, damage: 0 }
                            },
                        ));
                        assert(old_cell.id == BlockID::Air || old_cell.id == BlockID::Leaves);
                        assert forall|c2: IVec3| #[trigger] m0.contains_key(c2) implies {
                            &&& m1[c2].load_reasons == m0[c2].load_reasons
                            &&& m1[c2].render_entity == m0[c2].render_entity
                            &&& m1[c2].water_render_entity == m0[c2].water_render_entity
                            &&& m1[c2].blocks.view().len() == m0[c2].blocks.view().len()
                            &&& m1[c2].blocks.sx() == m0[c2].blocks.sx()
                            &&& m1[c2].blocks.sy() == m0[c2].blocks.sy()
                            &&& m1[c2].blocks.sz() == m0[c2].blocks.sz()
                        } by {
                            if c2 != cp {
                                assert(m1[c2] == m0[c2]);
                            }
                        }
                        assert forall|c2: IVec3, i: int| m0.contains_key(c2)
                            && 0 <= i < m0[c2].blocks.view().len()
                            && (#[trigger] m1[c2].blocks.view()[i]) != m0[c2].blocks.view()[i]
                            implies {
                                &&& m0[c2].blocks.view()[i].id == BlockID::Air
                                    || m0[c2].blocks.view()[i].id == BlockID::Leaves
                                &&& m1[c2].blocks.view()[i] == (Block {
                                    id: BlockID::Log,
                                    damage: 0,
                                }) || m1[c2].blocks.view()[i] == (Block {
                                    id: BlockID::Leaves,
                                    damage: 0,
                                })
                            } by {
                            if c2 != cp {
                                assert(m1[c2] == m0[c2]);
                            } else {
                                if i != bi {
                                    assert(m1[cp].blocks.view()[i] == m0[cp].blocks.view()[i]);
                                }
                            }
                        }
                        assert forall|j: int| 0 <= j < self.loading_queue@.len() implies {
                            &&& self.in_world_bounds((#[trigger] self.loading_queue@[j]).chunk)
                            &&& !self.resident(self.loading_queue@[j].chunk)
                            &&& self.spec_status(self.loading_queue@[j].chunk)
                                == crate::events::ChunkStatus::Loading
                        } by {
                            assert(!s0.resident(s0.loading_queue@[j].chunk));
                        }
                    }
                },
                None => {
                    proof {
                        assert(false);
                    }
                },
            }
            proof {
                lemma_pending_grids_full(s0);
                assert(tree_pending_frame(
                    s0.pending_map.as_map(),
                    self.pending_map.as_map(),
                ));
            }
            return;
        }

        // Otherwise buffer the write for generation time.
        if !self.pending_map.contains_key(cp) {
            let fresh: Grid3<PendingModification> = Grid3::filled(
                PendingModification::untouched(),
                16,
                16,
                16,
            );
            let ghost sp = *self;
            self.pending_map.insert(cp, fresh);
            proof {
                assert forall|c2: IVec3| #[trigger] self.pending_map.as_map().contains_key(c2)
                    implies pending_grid_wf(self.pending_map.as_map()[c2]) by {
                    if c2 != cp {
                        assert(sp.pending_map.as_map().contains_key(c2));
                    }
                }
                lemma_pending_grids_full(s0);
                assert(self.pending_map.as_map()[cp].view().len() == 4096);
                assert forall|c2: IVec3, i: int| self.pending_map.as_map().contains_key(c2)
                    && 0 <= i < 4096
                    && (#[trigger] self.pending_map.as_map()[c2].view()[i])
                        != spec_pending_before(s0.pending_map.as_map(), c2, i)
                    implies false by {
                    if c2 == cp {
                        assert(self.pending_map.as_map()[cp].view()[i]
                            == spec_untouched_pending());
                        assert(!s0.pending_map.as_map().contains_key(cp));
                    } else {
                        assert(s0.pending_map.as_map()[c2]
                            == self.pending_map.as_map()[c2]);
                    }
                }
                assert(tree_pending_frame(
                    s0.pending_map.as_map(),
                    self.pending_map.as_map(),
                ));
            }
        }
        let ghost sq = *self;
        match self.pending_map.index_of_key(cp) {
            Some(pi) => {
                proof {
                    lemma_index_unique(self.pending_map.sseq(), cp, pi as int);
                    assert(pending_grid_wf(self.pending_map.as_map()[cp]));
                }
                let grid = self.pending_map.entry_at_mut(pi);
                proof {
                    assert(*grid == sq.pending_map.as_map()[cp]);
                    assert(pending_grid_wf(*grid));
                }
                if is_log {
                    grid.set(bp, PendingModification {
                        yield_to_terrain: true,
                        block: Block { id: BlockID::Log, damage: 0 },
                    });
                } else {
                    let slot = *grid.at(bp);
                    if slot.block.id == BlockID::Air {
                        grid.set(bp, PendingModification {
                            yield_to_terrain: true,
                            block: Block { id: BlockID::Leaves, damage: 0 },
                        });
                    }
                }
                proof {
                    lemma_map_of_update(
                        sq.pending_map.sseq(),
                        pi as int,
                        self.pending_map.sseq()[pi as int].val,
                    );
                    assert forall|c2: IVec3| #[trigger] self.pending_map.as_map()
                        .contains_key(c2) == sq.pending_map.as_map().contains_key(c2) by {
                        if c2 == cp {
                            assert(sq.pending_map.as_map().contains_key(cp));
                        }
                    }
                    assert forall|c2: IVec3| #[trigger] self.pending_map.as_map()
                        .contains_key(c2) implies pending_grid_wf(self.pending_map.as_map()[c2]) by {
                        if c2 != cp {
                            assert(sq.pending_map.as_map().contains_key(c2));
                        }
                    }
                    // The single touched slot keeps to the pending
                    // frame shapes: a yielding log, or a yielding leaf
                    // over a slot that still carried air.
                    let p0 = s0.pending_map.as_map();
                    let pq = sq.pending_map.as_map();
                    let p1 = self.pending_map.as_map();
                    let bi = pq[cp].idx(bp);
                    assert(tree_pending_frame(p0, pq));
                    assert(pq.contains_key(cp));
                    assert(pq[cp].view().len() == 4096);
                    assert(pending_grid_wf(pq[cp]));
                    assert(0 <= bi < 4096) by {
                        pq[cp].lemma_idx_in_range(bp);
                    }
                    assert(p1[cp].view() == pq[cp].view().update(bi, p1[cp].view()[bi])
                        || p1[cp].view() == pq[cp].view());
                    assert forall|c2: IVec3| #[trigger] p1.contains_key(c2)
                        implies p1[c2].view().len() == 4096 by {
                        if c2 != cp {
                            assert(pq.contains_key(c2));
                        } else {
                            assert(pending_grid_wf(p1[cp]));
                        }
                    }
                    assert forall|c2: IVec3, i: int| p1.contains_key(c2) && 0 <= i < 4096
                        && (#[trigger] p1[c2].view()[i]) != spec_pending_before(p0, c2, i)
                        implies {
                            ||| p1[c2].view()[i] == (PendingModification {
                                yield_to_terrain: true,
                                block: Block { id: BlockID::Log, damage: 0 },
                            })
                            ||| (p1[c2].view()[i] == (PendingModification {
                                yield_to_terrain: true,
                                block: Block { id: BlockID::Leaves, damage: 0 },
                            }) && spec_pending_before(p0, c2, i).block.id == BlockID::Air)
                        } by {
                        if c2 != cp {
                            assert(p1[c2] == pq[c2]);
                            assert(pq.contains_key(c2));
                        } else {
                            if i != bi {
                                assert(p1[cp].view()[i] == pq[cp].view()[i]);
                            } else {
                                if !(p1[cp].view()[bi] == pq[cp].view()[bi]) {
                                    // The slot was written this call.
                                    if pq[cp].view()[bi].block.id == BlockID::Air
                                        && pq[cp].view()[bi]
                                            != spec_pending_before(p0, cp, bi) {
                                        assert(false);
                                    }
                                }
                            }
                        }
                    }
                    assert(tree_pending_frame(p0, p1));
                }
            },
            None => {
                proof {
                    assert(false);
                }
            },
        }
        let events = update_chunk_events_from_global(pos);
        let mut m: usize = 0;
        let ghost sv = *self;
        while m < events.len()
            invariant
                m <= events@.len(),
                *self == sv,
            decreases events@.len() - m,
        {
            let e = events[m];
            if !updates_contain(chunk_updates, e) {
                chunk_updates.push(e);
            }
            m = m + 1;
        }
    }

    /// Grows every queued tree. Each frontier point places a log (and,
    /// once in canopy phase, leaves on its six neighbors); its next
    /// move — up, branch, terminate, or sideways to an unvisited
    /// neighbor — is drawn from a generator seeded by the world seed
    /// folded with the point's coordinates, so the same seed grows the
    /// same tree. Growth never overwrites anything but air or leaves.
    #[verifier::rlimit(50)]
    pub fn generate_trees(&mut self)
        requires
            old(self).wf(),
        ensures
            final(self).wf(),
            final(self).tree_events@.len() == 0,
            tree_blocks_frame(
                old(self).chunk_map.as_map(),
                final(self).chunk_map.as_map(),
            ),
            tree_pending_frame(
                old(self).pending_map.as_map(),
                final(self).pending_map.as_map(),
            ),
            final(self).chunk_status_map == old(self).chunk_status_map,
            final(self).loading_queue == old(self).loading_queue,
            final(self).unloading_queue == old(self).unloading_queue,
            final(self).save_queue == old(self).save_queue,
            final(self).loaders == old(self).loaders,
            final(self).block_update_events == old(self).block_update_events,
            final(self).reason_change_events == old(self).reason_change_events,
            old(self).config.tree_step_limit >= 1 ==> forall|e2: int|
                0 <= e2 < old(self).tree_events@.len()
                && root_grows(*old(self), old(self).tree_events@[e2])
                ==> (#[trigger] final(self).chunk_map.as_map()[
                    spec_write_chunk(old(self).tree_events@[e2].0)
                ]).blocks.view()[spec_write_index(old(self).tree_events@[e2].0)].id
                    == BlockID::Log,
    {
        let ghost s0 = *self;
        let step_limit = self.config.tree_step_limit;
        let mut chunk_updates: Vec<UpdateChunkEvent> = Vec::new();
        let mut e: usize = 0;
        while e < self.tree_events.len()
            invariant
                s0 == *old(self),
                s0.wf(),
                self.wf(),
                step_limit == s0.config.tree_step_limit,
                e <= self.tree_events@.len(),
                step_limit >= 1 ==> forall|e2: int| 0 <= e2 < e
                    && root_grows(s0, s0.tree_events@[e2])
                    ==> (#[trigger] self.chunk_map.as_map()[
                        spec_write_chunk(s0.tree_events@[e2].0)
                    ]).blocks.view()[spec_write_index(s0.tree_events@[e2].0)].id
                        == BlockID::Log,
                tree_blocks_frame(s0.chunk_map.as_map(), self.chunk_map.as_map()),
                tree_pending_frame(s0.pending_map.as_map(), self.pending_map.as_map()),
                self.tree_events == s0.tree_events,
                self.chunk_status_map == s0.chunk_status_map,
                self.loading_queue == s0.loading_queue,
                self.unloading_queue == s0.unloading_queue,
                self.save_queue == s0.save_queue,
                self.loaders == s0.loaders,
                self.block_update_events == s0.block_update_events,
                self.reason_change_events == s0.reason_change_events,
                self.config == s0.config,
                self.seed == s0.seed,
            decreases self.tree_events@.len() - e,
        {
            let root = self.tree_events[e].0;
            let mut local_seed: u64 = (self.seed as u64).wrapping_add(1);
            let mut visited: Vec<IVec3> = Vec::new();
            let mut expansion_points: Vec<IVec3> = Vec::new();
            expansion_points.push(root);
            let mut up_chance: i64 = 1000;
            let mut up_done = false;
            let mut terminate_chance: i64 = -100;
            let mut branch_chance: i64 = 0;
            let mut branch_factor: i64 = 0;
            let mut last_direction = IVec3 { x: 0, y: 1, z: 0 };
            let mut steps: usize = 0;
            let ghost evt_start = *self;

            while expansion_points.len() > 0 && steps < step_limit
                invariant
                    s0.wf(),
                    self.wf(),
                    e < s0.tree_events@.len(),
                    root == s0.tree_events@[e as int].0,
                    steps <= step_limit,
                    steps == 0 ==> expansion_points@ == seq![root],
                    steps == 0 ==> *self == evt_start,
                    tree_blocks_frame(evt_start.chunk_map.as_map(), self.chunk_map.as_map()),
                    step_limit >= 1 ==> forall|e2: int| 0 <= e2 < e
                        && root_grows(s0, s0.tree_events@[e2])
                        ==> (#[trigger] evt_start.chunk_map.as_map()[
                            spec_write_chunk(s0.tree_events@[e2].0)
                        ]).blocks.view()[spec_write_index(s0.tree_events@[e2].0)].id
                            == BlockID::Log,
                    steps >= 1 && root_grows(s0, s0.tree_events@[e as int])
                        ==> self.chunk_map.as_map()[spec_write_chunk(root)]
                            .blocks.view()[spec_write_index(root)].id == BlockID::Log,
                    -1000000000 <= up_chance <= 1000000000,
                    -1000000000 <= terminate_chance <= 1000000000,
                    -1000000000 <= branch_chance <= 1000000000,
                    -1000000000 <= branch_factor <= 1000000000,
                    -1 <= last_direction.x <= 1,
                    -1 <= last_direction.y <= 1,
                    -1 <= last_direction.z <= 1,
                    tree_blocks_frame(s0.chunk_map.as_map(), self.chunk_map.as_map()),
                    tree_pending_frame(s0.pending_map.as_map(), self.pending_map.as_map()),
                    self.tree_events == s0.tree_events,
                    self.chunk_status_map == s0.chunk_status_map,
                    self.loading_queue == s0.loading_queue,
                    self.unloading_queue == s0.unloading_queue,
                    self.save_queue == s0.save_queue,
                    self.loaders == s0.loaders,
                    self.block_update_events == s0.block_update_events,
                    self.reason_change_events == s0.reason_change_events,
                    self.config == s0.config,
                    self.seed == s0.seed,
                decreases step_limit - steps,
            {
                let point = expansion_points[expansion_points.len() - 1];
                // Growth near the coordinate limits would overflow a
                // step; such a branch simply ends (a machine limit).
                if point.x > 1000000000 || point.x < -1000000000
                    || point.y > 1000000000 || point.y < -1000000000
                    || point.z > 1000000000 || point.z < -1000000000 {
                    proof {
                        if steps == 0 {
                            assert(point == root);
                        }
                    }
                    expansion_points.pop();
                    steps = steps + 1;
                    continue;
                }
                visited.push(point);

                // Place the log, and leaves around it in canopy phase.
                let ghost pre = *self;
                self.place_tree_block(point, true, &mut chunk_updates);
                proof {
                    lemma_tree_frame_trans(
                        s0.chunk_map.as_map(),
                        pre.chunk_map.as_map(),
                        self.chunk_map.as_map(),
                    );
                    lemma_tree_frame_trans(
                        evt_start.chunk_map.as_map(),
                        pre.chunk_map.as_map(),
                        self.chunk_map.as_map(),
                    );
                    lemma_tree_pending_trans(
                        s0.pending_map.as_map(),
                        pre.pending_map.as_map(),
                        self.pending_map.as_map(),
                    );
                    if root_grows(s0, s0.tree_events@[e as int]) {
                        let rc = spec_write_chunk(root);
                        let ri = spec_write_index(root);
                        assert(s0.resident(rc));
                        assert(pre.chunk_map.as_map().contains_key(rc));
                        assert(chunk_wf(s0.chunk_map.as_map()[rc]));
                        assert(0 <= ri < pre.chunk_map.as_map()[rc].blocks.view().len()) by {
                            assert(0 <= crate::coords::local_coord(root.x as int) < 16);
                            assert(0 <= crate::coords::local_coord(root.y as int) < 16);
                            assert(0 <= crate::coords::local_coord(root.z as int) < 16);
                        }
                        if steps == 0 {
                            assert(point == root);
                            if pre.chunk_map.as_map()[rc].blocks.view()[ri].id == BlockID::Log {
                                lemma_log_preserved(
                                    pre.chunk_map.as_map(),
                                    self.chunk_map.as_map(),
                                    rc,
                                    ri,
                                );
                            } else {
                                assert(spec_writable(
                                    pre.chunk_map.as_map()[rc].blocks.view()[ri].id,
                                )) by {
                                    if pre.chunk_map.as_map()[rc].blocks.view()[ri]
                                        != s0.chunk_map.as_map()[rc].blocks.view()[ri] {
                                    }
                                }
                                assert(self.chunk_map.as_map()[rc].blocks.view()[ri].id
                                    == BlockID::Log);
                            }
                        } else {
                            lemma_log_preserved(
                                pre.chunk_map.as_map(),
                                self.chunk_map.as_map(),
                                rc,
                                ri,
                            );
                        }
                        assert(self.chunk_map.as_map()[rc].blocks.view()[ri].id == BlockID::Log);
                    }
                }
                if up_chance < 500 {
                    let n0 = IVec3 { x: point.x, y: point.y + 1, z: point.z };
                    let n1 = IVec3 { x: point.x, y: point.y - 1, z: point.z };
                    let n2 = IVec3 { x: point.x, y: point.y, z: point.z + 1 };
                    let n3 = IVec3 { x: point.x, y: point.y, z: point.z - 1 };
                    let n4 = IVec3 { x: point.x + 1, y: point.y, z: point.z };
                    let n5 = IVec3 { x: point.x - 1, y: point.y, z: point.z };
                    let ghost p0 = *self;
                    self.place_tree_block(n0, false, &mut chunk_updates);
                    proof {
                        lemma_tree_frame_trans(
                            s0.chunk_map.as_map(),
                            p0.chunk_map.as_map(),
                            self.chunk_map.as_map(),
                        );
                        lemma_tree_frame_trans(
                            evt_start.chunk_map.as_map(),
                            p0.chunk_map.as_map(),
                            self.chunk_map.as_map(),
                        );
                        lemma_tree_pending_trans(
                            s0.pending_map.as_map(),
                            p0.pending_map.as_map(),
                            self.pending_map.as_map(),
                        );
                        if root_grows(s0, s0.tree_events@[e as int]) {
                            lemma_log_preserved(
                                p0.chunk_map.as_map(),
                                self.chunk_map.as_map(),
                                spec_write_chunk(root),
                                spec_write_index(root),
                            );
                        }
                    }
                    let ghost p1 = *self;
                    self.place_tree_block(n1, false, &mut chunk_updates);
                    proof {
                        lemma_tree_frame_trans(
                            s0.chunk_map.as_map(),
                            p1.chunk_map.as_map(),
                            self.chunk_map.as_map(),
                        );
                        lemma_tree_frame_trans(
                            evt_start.chunk_map.as_map(),
                            p1.chunk_map.as_map(),
                            self.chunk_map.as_map(),
                        );
                        lemma_tree_pending_trans(
                            s0.pending_map.as_map(),
                            p1.pending_map.as_map(),
                            self.pending_map.as_map(),
                        );
                        if root_grows(s0, s0.tree_events@[e as int]) {
                            lemma_log_preserved(
                                p1.chunk_map.as_map(),
                                self.chunk_map.as_map(),
                                spec_write_chunk(root),
                                spec_write_index(root),
                            );
                        }
                    }
                    let ghost p2 = *self;
                    self.place_tree_block(n2, false, &mut chunk_updates);
                    proof {
                        lemma_tree_frame_trans(
                            s0.chunk_map.as_map(),
                            p2.chunk_map.as_map(),
                            self.chunk_map.as_map(),
                        );
                        lemma_tree_frame_trans(
                            evt_start.chunk_map.as_map(),
                            p2.chunk_map.as_map(),
                            self.chunk_map.as_map(),
                        );
                        lemma_tree_pending_trans(
                            s0.pending_map.as_map(),
                            p2.pending_map.as_map(),
                            self.pending_map.as_map(),
                        );
                        if root_grows(s0, s0.tree_events@[e as int]) {
                            lemma_log_preserved(
                                p2.chunk_map.as_map(),
                                self.chunk_map.as_map(),
                                spec_write_chunk(root),
                                spec_write_index(root),
                            );
                        }
                    }
                    let ghost p3 = *self;
                    self.place_tree_block(n3, false, &mut chunk_updates);
                    proof {
                        lemma_tree_frame_trans(
                            s0.chunk_map.as_map(),
                            p3.chunk_map.as_map(),
                            self.chunk_map.as_map(),
                        );
                        lemma_tree_frame_trans(
                            evt_start.chunk_map.as_map(),
                            p3.chunk_map.as_map(),
                            self.chunk_map.as_map(),
                        );
                        lemma_tree_pending_trans(
                            s0.pending_map.as_map(),
                            p3.pending_map.as_map(),
                            self.pending_map.as_map(),
                        );
                        if root_grows(s0, s0.tree_events@[e as int]) {
                            lemma_log_preserved(
                                p3.chunk_map.as_map(),
                                self.chunk_map.as_map(),
                                spec_write_chunk(root),
                                spec_write_index(root),
                            );
                        }
                    }
                    let ghost p4 = *self;
                    self.place_tree_block(n4, false, &mut chunk_updates);
                    proof {
                        lemma_tree_frame_trans(
                            s0.chunk_map.as_map(),
                            p4.chunk_map.as_map(),
                            self.chunk_map.as_map(),
                        );
                        lemma_tree_frame_trans(
                            evt_start.chunk_map.as_map(),
                            p4.chunk_map.as_map(),
                            self.chunk_map.as_map(),
                        );
                        lemma_tree_pending_trans(
                            s0.pending_map.as_map(),
                            p4.pending_map.as_map(),
                            self.pending_map.as_map(),
                        );
                        if root_grows(s0, s0.tree_events@[e as int]) {
                            lemma_log_preserved(
                                p4.chunk_map.as_map(),
                                self.chunk_map.as_map(),
                                spec_write_chunk(root),
                                spec_write_index(root),
                            );
                        }
                    }
                    let ghost p5 = *self;
                    self.place_tree_block(n5, false, &mut chunk_updates);
                    proof {
                        lemma_tree_frame_trans(
                            s0.chunk_map.as_map(),
                            p5.chunk_map.as_map(),
                            self.chunk_map.as_map(),
                        );
                        lemma_tree_frame_trans(
                            evt_start.chunk_map.as_map(),
                            p5.chunk_map.as_map(),
                            self.chunk_map.as_map(),
                        );
                        lemma_tree_pending_trans(
                            s0.pending_map.as_map(),
                            p5.pending_map.as_map(),
                            self.pending_map.as_map(),
                        );
                        if root_grows(s0, s0.tree_events@[e as int]) {
                            lemma_log_preserved(
                                p5.chunk_map.as_map(),
                                self.chunk_map.as_map(),
                                spec_write_chunk(root),
                                spec_write_index(root),
                            );
                        }
                    }
                }

                // Advance this frontier point deterministically.
                let ax: u64 = (if point.x >= 0 { point.x as i64 } else { -(point.x as i64) }) as u64;
                let ay: u64 = (if point.y >= 0 { point.y as i64 } else { -(point.y as i64) }) as u64;
                let az: u64 = (if point.z >= 0 { point.z as i64 } else { -(point.z as i64) }) as u64;
                local_seed = local_seed
                    .wrapping_mul(ax.wrapping_add(1))
                    .wrapping_mul(ay.wrapping_add(1))
                    .wrapping_mul(az.wrapping_add(1));
                if local_seed == 0 {
                    local_seed = 1;
                }

                let draw_up = rand_below(local_seed.wrapping_add(1), 1000) as i64;
                if draw_up < up_chance {
                    let idx = expansion_points.len() - 1;
                    expansion_points.set(idx, IVec3 { x: point.x, y: point.y + 1, z: point.z });
                    last_direction = IVec3 { x: 0, y: 1, z: 0 };
                } else if (rand_below(local_seed.wrapping_add(2), 1000) as i64) < branch_chance {
                    expansion_points.push(point);
                    terminate_chance = -100;
                    branch_chance = 0;
                    branch_factor = sat_chance_add(branch_factor, 20);
                } else if (rand_below(local_seed.wrapping_add(3), 1000) as i64) < terminate_chance {
                    expansion_points.pop();
                } else {
                    let continue_on = rand_below(local_seed.wrapping_add(4), 1000) >= 900;
                    let ahead = IVec3 {
                        x: point.x + last_direction.x,
                        y: point.y + last_direction.y,
                        z: point.z + last_direction.z,
                    };
                    if continue_on && !coords_contain(&visited, ahead) {
                        let idx = expansion_points.len() - 1;
                        expansion_points.set(idx, ahead);
                    } else {
                        // Pick a random unvisited orthogonal,
                        // non-downward neighbor, or end the branch.
                        let mut choices: Vec<IVec3> = Vec::new();
                        let c0 = IVec3 { x: point.x, y: point.y + 1, z: point.z };
                        let c1 = IVec3 { x: point.x, y: point.y, z: point.z + 1 };
                        let c2 = IVec3 { x: point.x, y: point.y, z: point.z - 1 };
                        let c3 = IVec3 { x: point.x + 1, y: point.y, z: point.z };
                        let c4 = IVec3 { x: point.x - 1, y: point.y, z: point.z };
                        if !coords_contain(&visited, c0) {
                            choices.push(c0);
                        }
                        if !coords_contain(&visited, c1) {
                            choices.push(c1);
                        }
                        if !coords_contain(&visited, c2) {
                            choices.push(c2);
                        }
                        if !coords_contain(&visited, c3) {
                            choices.push(c3);
                        }
                        if !coords_contain(&visited, c4) {
                            choices.push(c4);
                        }
                        proof {
                            assert(forall|j: int| 0 <= j < choices@.len() ==> {
                                &&& point.x - 1 <= (#[trigger] choices@[j]).x <= point.x + 1
                                &&& point.y - 1 <= choices@[j].y <= point.y + 1
                                &&& point.z - 1 <= choices@[j].z <= point.z + 1
                            });
                        }
                                                if choices.len() > 0 {
                            let pick = rand_below(
                                local_seed.wrapping_add(4),
                                choices.len() as u32,
                            ) as usize;
                            let chosen = choices[pick];
                            let idx = expansion_points.len() - 1;
                            expansion_points.set(idx, chosen);
                            last_direction = IVec3 {
                                x: point.x - chosen.x,
                                y: point.y - chosen.y,
                                z: point.z - chosen.z,
                            };
                        } else {
                            expansion_points.pop();
                        }
                    }
                }

                up_chance = sat_chance_add(up_chance, -75);
                if up_chance < 500 && !up_done {
                    up_done = true;
                    up_chance = 0;
                    let mut extra: usize = 0;
                    while extra < 5
                        invariant
                            extra <= 5,
                        decreases 5 - extra,
                    {
                        expansion_points.push(point);
                        extra = extra + 1;
                    }
                }
                if up_done {
                    branch_chance = sat_chance_add(
                        branch_chance,
                        sat_chance_add(200, -branch_factor),
                    );
                    terminate_chance = sat_chance_add(terminate_chance, 100);
                }
                steps = steps + 1;
            }

            // Flush the accumulated mesh updates for this tree.
            proof {
                assert(steps >= 1 || step_limit == 0);
            }
            let ghost pm = *self;
            self.push_mesh_updates_tree(&chunk_updates);
            proof {
                if step_limit >= 1 {
                    assert forall|e2: int| 0 <= e2 < e + 1
                        && root_grows(s0, s0.tree_events@[e2])
                        implies (#[trigger] self.chunk_map.as_map()[
                            spec_write_chunk(s0.tree_events@[e2].0)
                        ]).blocks.view()[spec_write_index(s0.tree_events@[e2].0)].id
                            == BlockID::Log by {
                        let rt = s0.tree_events@[e2].0;
                        let rc = spec_write_chunk(rt);
                        let ri = spec_write_index(rt);
                        assert(s0.resident(rc));
                        assert(chunk_wf(s0.chunk_map.as_map()[rc]));
                        assert(0 <= ri < evt_start.chunk_map.as_map()[rc].blocks.view().len()) by {
                            assert(0 <= crate::coords::local_coord(rt.x as int) < 16);
                            assert(0 <= crate::coords::local_coord(rt.y as int) < 16);
                            assert(0 <= crate::coords::local_coord(rt.z as int) < 16);
                        }
                        if e2 < e {
                            lemma_log_preserved(
                                evt_start.chunk_map.as_map(),
                                pm.chunk_map.as_map(),
                                rc,
                                ri,
                            );
                        } else {
                            assert(pm.chunk_map.as_map()[rc].blocks.view()[ri].id
                                == BlockID::Log);
                        }
                    }
                }
            }
            e = e + 1;
        }
        self.tree_events.clear();
    }

    /// Appends mesh-invalidation events, touching nothing else.
    fn push_mesh_updates_tree(&mut self, evs: &Vec<UpdateChunkEvent>)
        ensures
            final(self).update_chunk_events@ == old(self).update_chunk_events@ + evs@,
            final(self).chunk_map == old(self).chunk_map,
            final(self).chunk_status_map == old(self).chunk_status_map,
            final(self).pending_map == old(self).pending_map,
            final(self).loading_queue == old(self).loading_queue,
            final(self).unloading_queue == old(self).unloading_queue,
            final(self).save_queue == old(self).save_queue,
            final(self).loaders == old(self).loaders,
            final(self).tree_events == old(self).tree_events,
            final(self).block_update_events == old(self).block_update_events,
            final(self).reason_change_events == old(self).reason_change_events,
            final(self).config == old(self).config,
            final(self).seed == old(self).seed,
    {
        let ghost s0 = *self;
        let mut m: usize = 0;
        while m < evs.len()
            invariant
                m <= evs@.len(),
                self.update_chunk_events@ == s0.update_chunk_events@ + evs@.subrange(0, m as int),
                self.chunk_map == s0.chunk_map,
                self.chunk_status_map == s0.chunk_status_map,
                self.pending_map == s0.pending_map,
                self.loading_queue == s0.loading_queue,
                self.unloading_queue == s0.unloading_queue,
                self.save_queue == s0.save_queue,
                self.loaders == s0.loaders,
                self.tree_events == s0.tree_events,
                self.block_update_events == s0.block_update_events,
                self.reason_change_events == s0.reason_change_events,
                self.config == s0.config,
                self.seed == s0.seed,
            decreases evs@.len() - m,
        {
            self.update_chunk_events.push(evs[m]);
            proof {
                assert(evs@.subrange(0, m + 1 as int)
                    =~= evs@.subrange(0, m as int).push(evs@[m as int]));
            }
            m = m + 1;
        }
        proof {
            assert(evs@.subrange(0, evs@.len() as int) =~= evs@);
        }
    }
}

} // verus!
