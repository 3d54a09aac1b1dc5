//! Terrain generation: a pure, reproducible classifier from noise
//! samples to a chunk's initial blocks plus tree-seed triggers. The
//! noise field itself is sampled by the caller (it is floating-point
//! work); everything downstream of the samples is verified.

use vstd::prelude::*;
use crate::{CHUNK_SIZE, CHUNK_VOL};
use crate::block::{Block, BlockID};
use crate::coords::IVec3;
use crate::events::GenerateTreeEvent;
use crate::grid3::Grid3;
use crate::world::PendingModification;

verus! {

/// The noise samples that decide one voxel: whether the density field
/// is solid here, solid one block above, stone-grade five blocks
/// above, and whether the tree field fires on this column.
#[derive(Clone, Copy, PartialEq, Eq, Structural, Debug)]
pub struct VoxelSample {
    /// Density at the voxel is at or above the solid threshold.
    pub solid: bool,
    /// Density one block above is at or above the solid threshold.
    pub solid_above: bool,
    /// The deeper-stone sample five blocks above is past its threshold.
    pub stone: bool,
    /// The clumped tree field exceeds its threshold on this column.
    pub tree: bool,
}

/// Local position of a linear sample index, `x` fastest, `z` slowest.
pub open spec fn pos_of_index(i: int) -> IVec3 {
    IVec3 {
        x: (i % 16) as i32,
        y: ((i / 16) % 16) as i32,
        z: (i / 256) as i32,
    }
}

/// Whether a local position lies on the chunk's one-voxel-thick hull.
pub open spec fn on_perimeter(p: IVec3) -> bool {
    ||| p.x == 0 || p.x == CHUNK_SIZE - 1
    ||| p.y == 0 || p.y == CHUNK_SIZE - 1
    ||| p.z == 0 || p.z == CHUNK_SIZE - 1
}

/// The block kind one voxel classifies to: solid becomes dirt, grass
/// where air sits above and the voxel is above sea level (a firing
/// tree trigger resets the would-be trunk base to dirt), stone at
/// depth or where the deeper sample says so; air below sea level
/// floods to water.
pub open spec fn spec_classify(s: VoxelSample, gy: int) -> BlockID {
    if s.solid {
        if s.stone || gy < -5 {
            BlockID::Stone
        } else if !s.solid_above && gy > 0 {
            if s.tree {
                BlockID::Dirt
            } else {
                BlockID::Grass
            }
        } else {
            BlockID::Dirt
        }
    } else {
        if gy < 0 {
            BlockID::Water
        } else {
            BlockID::Air
        }
    }
}

/// Whether a voxel fires a tree trigger: a would-be grass tile whose
/// tree sample is past the threshold.
pub open spec fn spec_tree_trigger(s: VoxelSample, gy: int) -> bool {
    s.solid && !s.solid_above && gy > 0 && s.tree
}

/// Global y of the voxel at linear index `i` of the chunk at `coord`.
pub open spec fn global_y_of(coord: IVec3, i: int) -> int {
    coord.y * (CHUNK_SIZE as int) + pos_of_index(i).y
}

/// Every hull voxel classifies to the given kind.
pub open spec fn perimeter_uniform(coord: IVec3, samples: Seq<VoxelSample>, id: BlockID) -> bool {
    forall|i: int| 0 <= i < CHUNK_VOL && on_perimeter(#[trigger] pos_of_index(i))
        ==> spec_classify(samples[i], global_y_of(coord, i)) == id
}

/// The blocks generation produces: a hull uniformly air leaves the
/// chunk all air, a hull uniformly stone fills it all stone, and any
/// mixed hull classifies every voxel.
pub open spec fn spec_generated_blocks(coord: IVec3, samples: Seq<VoxelSample>) -> Seq<Block> {
    if perimeter_uniform(coord, samples, BlockID::Air) {
        Seq::new(CHUNK_VOL as nat, |i: int| Block { id: BlockID::Air, damage: 0 })
    } else if perimeter_uniform(coord, samples, BlockID::Stone) {
        Seq::new(CHUNK_VOL as nat, |i: int| Block { id: BlockID::Stone, damage: 0 })
    } else {
        Seq::new(
            CHUNK_VOL as nat,
            |i: int| Block { id: spec_classify(samples[i], global_y_of(coord, i)), damage: 0 },
        )
    }
}

/// The tree events fired by scanning the first `n` voxels, keeping
/// only those whose hull membership matches `perim`: the trigger
/// position is the global voxel one block above the grass tile.
pub open spec fn spec_tree_events_upto(
    coord: IVec3,
    samples: Seq<VoxelSample>,
    n: int,
    perim: bool,
) -> Seq<GenerateTreeEvent>
    decreases n,
{
    if n <= 0 {
        Seq::empty()
    } else {
        let prev = spec_tree_events_upto(coord, samples, n - 1, perim);
        let p = pos_of_index(n - 1);
        if on_perimeter(p) == perim && spec_tree_trigger(samples[n - 1], global_y_of(coord, n - 1)) {
            prev.push(GenerateTreeEvent(IVec3 {
                x: (coord.x * CHUNK_SIZE + p.x) as i32,
                y: (coord.y * CHUNK_SIZE + p.y + 1) as i32,
                z: (coord.z * CHUNK_SIZE + p.z) as i32,
            }))
        } else {
            prev
        }
    }
}

/// The tree events generation fires: none when the hull is uniform
/// (the interior is never evaluated then, and a uniform hull fires no
/// trigger of its own); otherwise the hull pass's events, then the
/// interior pass's.
pub open spec fn spec_generated_tree_events(
    coord: IVec3,
    samples: Seq<VoxelSample>,
) -> Seq<GenerateTreeEvent> {
    if perimeter_uniform(coord, samples, BlockID::Air)
        || perimeter_uniform(coord, samples, BlockID::Stone) {
        spec_tree_events_upto(coord, samples, CHUNK_VOL as int, true)
    } else {
        spec_tree_events_upto(coord, samples, CHUNK_VOL as int, true)
            + spec_tree_events_upto(coord, samples, CHUNK_VOL as int, false)
    }
}

/// Exec mirror of `spec_classify` plus the tree trigger.
fn classify(s: VoxelSample, gy: i32) -> (r: (BlockID, bool))
    ensures
        r.0 == spec_classify(s, gy as int),
        r.1 == spec_tree_trigger(s, gy as int),
{
    if s.solid {
        let trigger = !s.solid_above && gy > 0 && s.tree;
        if s.stone || gy < -5 {
            (BlockID::Stone, trigger)
        } else if !s.solid_above && gy > 0 {
            if s.tree {
                (BlockID::Dirt, trigger)
            } else {
                (BlockID::Grass, trigger)
            }
        } else {
            (BlockID::Dirt, trigger)
        }
    } else {
        if gy < 0 {
            (BlockID::Water, false)
        } else {
            (BlockID::Air, false)
        }
    }
}

/// One generation pass over all voxels, visiting only those whose hull
/// membership matches `perim`, classifying them into `blocks` and
/// appending their tree events.
fn generation_pass(
    coord: IVec3,
    samples: &Vec<VoxelSample>,
    blocks: &mut Grid3<Block>,
    events: &mut Vec<GenerateTreeEvent>,
    perim: bool,
) -> (uniform: (bool, bool))
    requires
        samples@.len() == CHUNK_VOL,
        -100000 <= coord.x <= 100000,
        -100000 <= coord.y <= 100000,
        -100000 <= coord.z <= 100000,
        old(blocks).wf(),
        old(blocks).sx() == CHUNK_SIZE as int,
        old(blocks).sy() == CHUNK_SIZE as int,
        old(blocks).sz() == CHUNK_SIZE as int,
        old(events)@.len() == 0,
    ensures
        final(blocks).wf(),
        final(blocks).sx() == CHUNK_SIZE as int,
        final(blocks).sy() == CHUNK_SIZE as int,
        final(blocks).sz() == CHUNK_SIZE as int,
        final(blocks).view().len() == CHUNK_VOL,
        forall|i: int| #![trigger pos_of_index(i)] 0 <= i < CHUNK_VOL
            ==> final(blocks).view()[i] == (if on_perimeter(pos_of_index(i)) == perim {
                Block { id: spec_classify(samples@[i], global_y_of(coord, i)), damage: 0 }
            } else {
                old(blocks).view()[i]
            }),
        final(events)@ == spec_tree_events_upto(coord, samples@, CHUNK_VOL as int, perim),
        uniform.0 == (forall|i: int| 0 <= i < CHUNK_VOL
            && on_perimeter(#[trigger] pos_of_index(i)) == perim
            ==> spec_classify(samples@[i], global_y_of(coord, i)) == BlockID::Air),
        uniform.1 == (forall|i: int| 0 <= i < CHUNK_VOL
            && on_perimeter(#[trigger] pos_of_index(i)) == perim
            ==> spec_classify(samples@[i], global_y_of(coord, i)) == BlockID::Stone),
    {
    let mut all_air = true;
    let mut all_stone = true;
    let mut idx: usize = 0;
    while idx < 4096
        invariant
            samples@.len() == CHUNK_VOL,
            -100000 <= coord.x <= 100000,
            -100000 <= coord.y <= 100000,
            -100000 <= coord.z <= 100000,
            idx <= 4096,
            blocks.wf(),
            blocks.sx() == CHUNK_SIZE as int,
            blocks.sy() == CHUNK_SIZE as int,
            blocks.sz() == CHUNK_SIZE as int,
            forall|i: int| #![trigger pos_of_index(i)] 0 <= i < CHUNK_VOL
                ==> blocks.view()[i] == (if i < idx && on_perimeter(pos_of_index(i)) == perim {
                    Block { id: spec_classify(samples@[i], global_y_of(coord, i)), damage: 0 }
                } else {
                    old(blocks).view()[i]
                }),
            events@ == spec_tree_events_upto(coord, samples@, idx as int, perim),
            all_air == (forall|i: int| 0 <= i < idx
                && on_perimeter(#[trigger] pos_of_index(i)) == perim
                ==> spec_classify(samples@[i], global_y_of(coord, i)) == BlockID::Air),
            all_stone == (forall|i: int| 0 <= i < idx
                && on_perimeter(#[trigger] pos_of_index(i)) == perim
                ==> spec_classify(samples@[i], global_y_of(coord, i)) == BlockID::Stone),
        decreases 4096 - idx,
    {
        let x: usize = idx % 16;
        let y: usize = (idx / 16) % 16;
        let z: usize = idx / 256;
        let p = IVec3 { x: x as i32, y: y as i32, z: z as i32 };
        proof {
            assert(pos_of_index(idx as int) == p);
            assert(blocks.idx(p) == idx as int);
        }
        let is_perim = x == 0 || x == 15 || y == 0 || y == 15 || z == 0 || z == 15;
        proof {
            assert(is_perim == on_perimeter(p));
        }
        if is_perim == perim {
            let gy: i32 = coord.y * CHUNK_SIZE + (y as i32);
            proof {
                assert(global_y_of(coord, idx as int) == gy as int);
            }
            let (id, trigger) = classify(samples[idx], gy);
            blocks.set(p, Block { id, damage: 0 });
            if id != BlockID::Air {
                all_air = false;
            }
            if id != BlockID::Stone {
                all_stone = false;
            }
            if trigger {
                events.push(GenerateTreeEvent(IVec3 {
                    x: coord.x * CHUNK_SIZE + (x as i32),
                    y: gy + 1,
                    z: coord.z * CHUNK_SIZE + (z as i32),
                }));
            }
        }
        idx = idx + 1;
    }
    (all_air, all_stone)
}

/// Generates a chunk's initial blocks and tree triggers from its noise
/// samples. The hull is classified first; a hull uniformly air or
/// uniformly stone fills the chunk without touching the interior,
/// anything else classifies the interior too. The result is a pure
/// function of the coordinate and the samples, so the same coordinate
/// with the same samples always yields byte-identical blocks.
pub fn generate_chunk_blocks(
    coord: IVec3,
    samples: &Vec<VoxelSample>,
) -> (r: (Grid3<Block>, Vec<GenerateTreeEvent>))
    requires
        samples@.len() == CHUNK_VOL,
        -100000 <= coord.x <= 100000,
        -100000 <= coord.y <= 100000,
        -100000 <= coord.z <= 100000,
    ensures
        r.0.wf(),
        r.0.sx() == CHUNK_SIZE as int,
        r.0.sy() == CHUNK_SIZE as int,
        r.0.sz() == CHUNK_SIZE as int,
        r.0.view() == spec_generated_blocks(coord, samples@),
        r.1@ == spec_generated_tree_events(coord, samples@),
{
    let mut blocks: Grid3<Block> = Grid3::filled(
        Block { id: BlockID::Air, damage: 0 },
        16,
        16,
        16,
    );
    let mut events: Vec<GenerateTreeEvent> = Vec::new();
    let (all_air, all_stone) = generation_pass(coord, samples, &mut blocks, &mut events, true);
    if !(all_air || all_stone) {
        let mut interior_events: Vec<GenerateTreeEvent> = Vec::new();
        generation_pass(coord, samples, &mut blocks, &mut interior_events, false);
        let mut i: usize = 0;
        let ghost pe = events@;
        while i < interior_events.len()
            invariant
                interior_events@ == spec_tree_events_upto(coord, samples@, CHUNK_VOL as int, false),
                i <= interior_events@.len(),
                events@ == pe + interior_events@.subrange(0, i as int),
            decreases interior_events@.len() - i,
        {
            events.push(interior_events[i]);
            proof {
                assert(interior_events@.subrange(0, i + 1 as int)
                    =~= interior_events@.subrange(0, i as int).push(interior_events@[i as int]));
            }
            i = i + 1;
        }
        proof {
            assert(interior_events@.subrange(0, interior_events@.len() as int)
                =~= interior_events@);
            assert(events@ == pe + interior_events@);
            assert(blocks.view() =~= spec_generated_blocks(coord, samples@));
        }
        (blocks, events)
    } else if all_stone {
        let stone: Grid3<Block> = Grid3::filled(Block { id: BlockID::Stone, damage: 0 }, 16, 16, 16);
        proof {
            assert(stone.view() =~= spec_generated_blocks(coord, samples@));
        }
        (stone, events)
    } else {
        proof {
            assert forall|i: int| 0 <= i < CHUNK_VOL
                implies blocks.view()[i] == (Block { id: BlockID::Air, damage: 0 }) by {
                assert(pos_of_index(i) == pos_of_index(i));
                if on_perimeter(pos_of_index(i)) {
                    assert(spec_classify(samples@[i], global_y_of(coord, i)) == BlockID::Air);
                }
            }
            assert(blocks.view() =~= spec_generated_blocks(coord, samples@));
        }
        (blocks, events)
    }
}

/// Generating the same coordinate twice with the same seed — hence
/// the same noise samples — and no pending modifications or prior
/// mutation yields byte-identical block arrays: the generated blocks
/// are a pure function of the coordinate and samples, so two results
/// of it agree, down to their serialized bytes.
pub proof fn lemma_generation_deterministic(
    coord: IVec3,
    samples: Seq<VoxelSample>,
    r1: Seq<Block>,
    r2: Seq<Block>,
)
    requires
        r1 == spec_generated_blocks(coord, samples),
        r2 == spec_generated_blocks(coord, samples),
    ensures
        r1 == r2,
        crate::codec::pair_bytes_of(r1) == crate::codec::pair_bytes_of(r2),
{
}

/// What draining the pending store writes over freshly generated
/// blocks: a populated slot overwrites the generated block iff it does
/// not yield to terrain or the generated block is air.
pub open spec fn spec_apply_pending(
    blocks: Seq<Block>,
    pend: Seq<PendingModification>,
) -> Seq<Block> {
    Seq::new(
        blocks.len(),
        |i: int| if !pend[i].yield_to_terrain || blocks[i].id == BlockID::Air {
            pend[i].block
        } else {
            blocks[i]
        },
    )
}

/// Overwrites generated blocks with the chunk's pending modifications,
/// slot by slot.
pub fn apply_pending(blocks: &mut Grid3<Block>, pend: &Grid3<PendingModification>)
    requires
        old(blocks).wf(),
        old(blocks).sx() == CHUNK_SIZE as int,
        old(blocks).sy() == CHUNK_SIZE as int,
        old(blocks).sz() == CHUNK_SIZE as int,
        pend.wf(),
        pend.sx() == CHUNK_SIZE as int,
        pend.sy() == CHUNK_SIZE as int,
        pend.sz() == CHUNK_SIZE as int,
    ensures
        final(blocks).wf(),
        final(blocks).sx() == CHUNK_SIZE as int,
        final(blocks).sy() == CHUNK_SIZE as int,
        final(blocks).sz() == CHUNK_SIZE as int,
        final(blocks).view() == spec_apply_pending(old(blocks).view(), pend.view()),
    {
    let ghost b0 = blocks.view();
    let mut idx: usize = 0;
    while idx < 4096
        invariant
            blocks.wf(),
            blocks.sx() == CHUNK_SIZE as int,
            blocks.sy() == CHUNK_SIZE as int,
            blocks.sz() == CHUNK_SIZE as int,
            pend.wf(),
            pend.sx() == CHUNK_SIZE as int,
            pend.sy() == CHUNK_SIZE as int,
            pend.sz() == CHUNK_SIZE as int,
            b0.len() == CHUNK_VOL,
            blocks.view().len() == CHUNK_VOL,
            idx <= 4096,
            forall|i: int| 0 <= i < idx
                ==> blocks.view()[i] == spec_apply_pending(b0, pend.view())[i],
            forall|i: int| idx <= i < CHUNK_VOL ==> blocks.view()[i] == b0[i],
        decreases 4096 - idx,
    {
        let x: usize = idx % 16;
        let y: usize = (idx / 16) % 16;
        let z: usize = idx / 256;
        let p = IVec3 { x: x as i32, y: y as i32, z: z as i32 };
        proof {
            assert(blocks.idx(p) == idx as int);
            assert(pend.idx(p) == idx as int);
        }
        let m = *pend.at(p);
        let current = *blocks.at(p);
        if !m.yield_to_terrain || current.id == BlockID::Air {
            blocks.set(p, m.block);
        }
        idx = idx + 1;
    }
    proof {
        assert(blocks.view() =~= spec_apply_pending(b0, pend.view()));
    }
}

} // verus!
