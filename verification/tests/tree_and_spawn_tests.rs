use voxelstream::block::BlockID;
use voxelstream::coords::IVec3;
use voxelstream::events::{GenerateTreeEvent, LoadChunkEvent, LoadReason};
use voxelstream::service::{LoadSource, ServiceOutcome};
use voxelstream::spawn::SpawnScan;
use voxelstream::terrain::VoxelSample;
use voxelstream::world::{StreamerConfig, WorldStreamer};
use voxelstream::CHUNK_VOL;

fn small_config() -> StreamerConfig {
    StreamerConfig {
        world_size_x: 8,
        world_size_z: 8,
        world_height: 2,
        world_depth: 2,
        unload_batch: 4,
        water_debounce_ms: 200,
        loader_buffer: 1,
        tree_step_limit: 10000,
    }
}

/// Solid floor on the chunk's bottom layer, open air above.
fn floor_samples() -> Vec<VoxelSample> {
    let mut v = Vec::with_capacity(CHUNK_VOL);
    for z in 0..16 {
        for y in 0..16 {
            for x in 0..16 {
                let _ = (x, z);
                v.push(VoxelSample {
                    solid: y == 0,
                    solid_above: false,
                    stone: false,
                    tree: false,
                });
            }
        }
    }
    v
}

fn load_floor_chunk(w: &mut WorldStreamer, c: IVec3) {
    w.submit_load_request(LoadChunkEvent { chunk: c, load_reason: LoadReason::Loader(1) });
    let samples = floor_samples();
    let outcome = w.service_next_load(None, Some(&samples), None, None);
    assert!(matches!(outcome, ServiceOutcome::Loaded(_, _)));
}

fn grown_world(seed: u32) -> WorldStreamer {
    let mut w = WorldStreamer::new(seed, small_config());
    load_floor_chunk(&mut w, IVec3::new(0, 0, 0));
    load_floor_chunk(&mut w, IVec3::new(0, 1, 0));
    w.tree_events.push(GenerateTreeEvent(IVec3::new(8, 1, 8)));
    w.generate_trees();
    w
}

#[test]
fn tree_places_a_log_at_its_root() {
    let w = grown_world(2343);
    assert_eq!(w.block_at(IVec3::new(8, 1, 8)).unwrap().id, BlockID::Log);
    assert!(w.tree_events.is_empty());
}

#[test]
fn tree_growth_is_deterministic_per_seed() {
    let w1 = grown_world(2343);
    let w2 = grown_world(2343);
    for c in [IVec3::new(0, 0, 0), IVec3::new(0, 1, 0)] {
        let b1 = &w1.get_chunk(c).unwrap().blocks.data;
        let b2 = &w2.get_chunk(c).unwrap().blocks.data;
        assert_eq!(b1, b2);
    }
}

#[test]
fn tree_growth_never_overwrites_solid_blocks() {
    let w = grown_world(77);
    for c in [IVec3::new(0, 0, 0), IVec3::new(0, 1, 0)] {
        let blocks = &w.get_chunk(c).unwrap().blocks;
        // The solid floor of each chunk survives untouched.
        for x in 0..16 {
            for z in 0..16 {
                let id = blocks.get(IVec3::new(x, 0, z)).unwrap().id;
                assert!(id == BlockID::Grass || id == BlockID::Dirt, "floor kept, got {:?}", id);
            }
        }
        // Everything else is air or what the tree placed.
        for x in 0..16 {
            for y in 1..16 {
                for z in 0..16 {
                    let id = blocks.get(IVec3::new(x, y, z)).unwrap().id;
                    assert!(
                        id == BlockID::Air || id == BlockID::Log || id == BlockID::Leaves,
                        "unexpected block {:?}",
                        id
                    );
                }
            }
        }
    }
}

#[test]
fn tree_writes_into_ungenerated_chunks_become_pending() {
    // A root inside a chunk that is not resident: the very first log
    // placement has nowhere to land and is buffered as pending.
    let mut w = WorldStreamer::new(2343, small_config());
    load_floor_chunk(&mut w, IVec3::new(0, 0, 0));
    w.tree_events.push(GenerateTreeEvent(IVec3::new(8, 16, 8)));
    w.generate_trees();
    assert!(w.pending_map.contains_key(IVec3::new(0, 1, 0)));
}

#[test]
fn spawn_scan_finds_the_surface_of_the_spawn_column() {
    // The chunk column at x = 5, z = 0, as the spawning flow requests
    // it: the spawn chunk is loaded with a `Spawning` reason, then the
    // column is scanned top-down for the first non-air block.
    let mut w = WorldStreamer::new(2343, small_config());
    match w.find_spawn_height(5, 0) {
        SpawnScan::NeedsChunk(c) => {
            assert_eq!(c, IVec3::new(5, 2, 0));
            w.submit_load_request(LoadChunkEvent {
                chunk: c,
                load_reason: LoadReason::Spawning(1),
            });
            // An all-air chunk up top.
            let mut air = Vec::with_capacity(CHUNK_VOL);
            for _ in 0..CHUNK_VOL {
                air.push(VoxelSample {
                    solid: false,
                    solid_above: false,
                    stone: false,
                    tree: false,
                });
            }
            let outcome = w.service_next_load(None, Some(&air), None, None);
            assert_eq!(outcome, ServiceOutcome::Loaded(c, LoadSource::Generated));
        },
        other => panic!("expected a missing chunk first, got {:?}", other),
    }
    // The scan proceeds to the next chunk down; give it a floor.
    match w.find_spawn_height(5, 0) {
        SpawnScan::NeedsChunk(c) => {
            assert_eq!(c, IVec3::new(5, 1, 0));
            w.submit_load_request(LoadChunkEvent {
                chunk: c,
                load_reason: LoadReason::Spawning(1),
            });
            let samples = floor_samples();
            w.service_next_load(None, Some(&samples), None, None);
        },
        other => panic!("expected the next chunk down, got {:?}", other),
    }
    // The floor sits at local y = 0 of chunk y = 1: global height 16,
    // so the spawn lands two blocks above it.
    assert_eq!(w.find_spawn_height(5, 0), SpawnScan::Height(18));
}

#[test]
fn different_seeds_grow_different_trees() {
    let w1 = grown_world(2343);
    let w2 = grown_world(77);
    let mut any_difference = false;
    for c in [IVec3::new(0, 0, 0), IVec3::new(0, 1, 0)] {
        if w1.get_chunk(c).unwrap().blocks.data != w2.get_chunk(c).unwrap().blocks.data {
            any_difference = true;
        }
    }
    assert!(any_difference, "the seed must shape the walk");
}

#[test]
fn spawn_scan_over_an_all_air_column_falls_back_to_the_ceiling() {
    let mut w = WorldStreamer::new(1, small_config());
    let mut air = Vec::with_capacity(CHUNK_VOL);
    for _ in 0..CHUNK_VOL {
        air.push(VoxelSample { solid: false, solid_above: false, stone: false, tree: false });
    }
    for cy in [2, 1, 0] {
        w.submit_load_request(LoadChunkEvent {
            chunk: IVec3::new(3, cy, 3),
            load_reason: LoadReason::Spawning(1),
        });
        w.service_next_load(None, Some(&air), None, None);
    }
    // Every chunk of the column is resident and empty: spawn above the
    // world ceiling, two blocks over the top chunk's upper edge.
    assert_eq!(w.find_spawn_height(3, 3), SpawnScan::AllAir(2 * 16 + 2));
}
