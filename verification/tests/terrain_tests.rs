use voxelstream::block::{Block, BlockID};
use voxelstream::coords::IVec3;
use voxelstream::grid3::Grid3;
use voxelstream::terrain::{apply_pending, generate_chunk_blocks, VoxelSample};
use voxelstream::world::PendingModification;
use voxelstream::CHUNK_VOL;

fn sample_grid(f: impl Fn(usize, usize, usize) -> VoxelSample) -> Vec<VoxelSample> {
    let mut v = Vec::with_capacity(CHUNK_VOL);
    for z in 0..16 {
        for y in 0..16 {
            for x in 0..16 {
                v.push(f(x, y, z));
            }
        }
    }
    v
}

fn block_at(g: &Grid3<Block>, x: i32, y: i32, z: i32) -> Block {
    *g.get(IVec3::new(x, y, z)).unwrap()
}

#[test]
fn uniform_air_hull_leaves_chunk_all_air() {
    // The hull is air; a solid cell hides in the interior and is never
    // evaluated, matching the perimeter optimization.
    let samples = sample_grid(|x, y, z| VoxelSample {
        solid: x == 8 && y == 8 && z == 8,
        solid_above: false,
        stone: false,
        tree: false,
    });
    let (blocks, events) = generate_chunk_blocks(IVec3::new(0, 1, 0), &samples);
    for z in 0..16 {
        for y in 0..16 {
            for x in 0..16 {
                assert_eq!(block_at(&blocks, x, y, z).id, BlockID::Air);
            }
        }
    }
    assert!(events.is_empty());
}

#[test]
fn uniform_stone_hull_fills_chunk_with_stone() {
    let samples = sample_grid(|_, _, _| VoxelSample {
        solid: true,
        solid_above: true,
        stone: true,
        tree: false,
    });
    let (blocks, events) = generate_chunk_blocks(IVec3::new(0, 0, 0), &samples);
    for z in 0..16 {
        for y in 0..16 {
            for x in 0..16 {
                assert_eq!(block_at(&blocks, x, y, z).id, BlockID::Stone);
            }
        }
    }
    assert!(events.is_empty());
}

#[test]
fn mixed_hull_classifies_grass_dirt_stone_water() {
    // Chunk at y = 0: global y equals local y. Solid floor below y = 4,
    // open above; the classifier turns the top solid layer above sea
    // level into grass, deep or flagged cells into stone.
    let samples = sample_grid(|_, y, _| VoxelSample {
        solid: y < 4,
        solid_above: y < 3,
        stone: false,
        tree: false,
    });
    let (blocks, events) = generate_chunk_blocks(IVec3::new(0, 0, 0), &samples);
    // y = 3 is solid with air above and global y > 0: grass.
    assert_eq!(block_at(&blocks, 5, 3, 5).id, BlockID::Grass);
    // y = 1 is solid with solid above: dirt.
    assert_eq!(block_at(&blocks, 5, 1, 5).id, BlockID::Dirt);
    // y = 0 also has solid above it: dirt as well.
    assert_eq!(block_at(&blocks, 5, 0, 5).id, BlockID::Dirt);
    // Open cells at or above sea level stay air.
    assert_eq!(block_at(&blocks, 5, 10, 5).id, BlockID::Air);
    assert!(events.is_empty());
}

#[test]
fn air_below_sea_level_floods_to_water() {
    // Chunk at y = -1: global y runs -16..-1, all below sea level.
    let samples = sample_grid(|_, y, _| VoxelSample {
        solid: y == 0,
        solid_above: false,
        stone: false,
        tree: false,
    });
    let (blocks, _) = generate_chunk_blocks(IVec3::new(0, -1, 0), &samples);
    assert_eq!(block_at(&blocks, 5, 8, 5).id, BlockID::Water);
    // Global y = -16 is deeper than the stone offset: solid turns stone.
    assert_eq!(block_at(&blocks, 5, 0, 5).id, BlockID::Stone);
}

#[test]
fn tree_trigger_resets_trunk_base_to_dirt_and_fires_event() {
    // One grass candidate on the hull carries a tree sample.
    let samples = sample_grid(|x, y, z| VoxelSample {
        solid: y == 0,
        solid_above: false,
        stone: false,
        tree: x == 3 && y == 0 && z == 0,
    });
    let (blocks, events) = generate_chunk_blocks(IVec3::new(0, 1, 0), &samples);
    // The tree tile became dirt, its neighbors grass.
    assert_eq!(block_at(&blocks, 3, 0, 0).id, BlockID::Dirt);
    assert_eq!(block_at(&blocks, 4, 0, 0).id, BlockID::Grass);
    assert_eq!(events.len(), 1);
    // The trunk base is one block above the tile, in global coordinates.
    assert_eq!(events[0].0, IVec3::new(3, 17, 0));
}

#[test]
fn generation_is_deterministic_for_equal_inputs() {
    let samples = sample_grid(|x, y, z| VoxelSample {
        solid: (x + y + z) % 3 != 0,
        solid_above: (x + y + z) % 5 == 0,
        stone: z > 9,
        tree: x == y && y == z,
    });
    let coord = IVec3::new(-2, 1, 3);
    let (b1, e1) = generate_chunk_blocks(coord, &samples);
    let (b2, e2) = generate_chunk_blocks(coord, &samples);
    assert_eq!(b1.data, b2.data);
    assert_eq!(e1, e2);
}

#[test]
fn pending_overwrites_air_and_yields_to_solid_terrain() {
    let samples = sample_grid(|_, y, _| VoxelSample {
        solid: y == 0,
        solid_above: false,
        stone: false,
        tree: false,
    });
    let (mut blocks, _) = generate_chunk_blocks(IVec3::new(0, 1, 0), &samples);
    let mut pend: Grid3<PendingModification> =
        Grid3::filled(PendingModification::untouched(), 16, 16, 16);
    // A yielding log over air lands; a yielding log over solid terrain
    // yields; a non-yielding log overwrites solid terrain.
    pend.set(IVec3::new(1, 5, 1), PendingModification {
        yield_to_terrain: true,
        block: Block { id: BlockID::Log, damage: 0 },
    });
    pend.set(IVec3::new(2, 0, 2), PendingModification {
        yield_to_terrain: true,
        block: Block { id: BlockID::Log, damage: 0 },
    });
    pend.set(IVec3::new(3, 0, 3), PendingModification {
        yield_to_terrain: false,
        block: Block { id: BlockID::StoneBrick, damage: 0 },
    });
    apply_pending(&mut blocks, &pend);
    assert_eq!(block_at(&blocks, 1, 5, 1).id, BlockID::Log);
    assert_eq!(block_at(&blocks, 2, 0, 2).id, BlockID::Grass);
    assert_eq!(block_at(&blocks, 3, 0, 3).id, BlockID::StoneBrick);
    // Untouched slots leave the terrain alone.
    assert_eq!(block_at(&blocks, 4, 0, 4).id, BlockID::Grass);
}
