use voxelstream::coords::IVec3;
use voxelstream::events::{ChunkStatus, LoadChunkEvent, LoadReason};
use voxelstream::terrain::VoxelSample;
use voxelstream::world::{StreamerConfig, WorldStreamer};
use voxelstream::CHUNK_VOL;

fn small_config() -> StreamerConfig {
    StreamerConfig {
        world_size_x: 8,
        world_size_z: 8,
        world_height: 2,
        world_depth: 2,
        unload_batch: 4,
        water_debounce_ms: 200,
        loader_buffer: 1,
        tree_step_limit: 10000,
    }
}

fn stone_samples() -> Vec<VoxelSample> {
    let mut v = Vec::new();
    for _ in 0..CHUNK_VOL {
        v.push(VoxelSample { solid: true, solid_above: true, stone: true, tree: false });
    }
    v
}

#[test]
fn moving_loader_requests_every_absent_chunk_in_range() {
    let mut w = WorldStreamer::new(1, small_config());
    w.add_loader(1, 1);
    w.update_chunk_loader(1, IVec3::new(0, 0, 0));
    // The whole inner 3x3x3 cube is absent and in bounds: 27 requests.
    assert_eq!(w.loading_queue.len(), 27);
    for dx in -1..=1 {
        for dy in -1..=1 {
            for dz in -1..=1 {
                assert_eq!(w.status_of(IVec3::new(dx, dy, dz)), ChunkStatus::Loading);
            }
        }
    }
    // The buffer shell did not start loads.
    assert_eq!(w.status_of(IVec3::new(2, 0, 0)), ChunkStatus::NonLoaded);
}

#[test]
fn moving_loader_requests_nothing_outside_world_bounds() {
    let mut w = WorldStreamer::new(1, small_config());
    w.add_loader(1, 1);
    // Standing at the world ceiling: chunks above it are dropped.
    w.update_chunk_loader(1, IVec3::new(0, 2, 0));
    assert_eq!(w.status_of(IVec3::new(0, 3, 0)), ChunkStatus::NonLoaded);
    assert_eq!(w.status_of(IVec3::new(0, 2, 0)), ChunkStatus::Loading);
    assert_eq!(w.loading_queue.len(), 18);
}

#[test]
fn resident_chunk_in_buffer_is_retained_not_reloaded() {
    let mut w = WorldStreamer::new(1, small_config());
    let c = IVec3::new(2, 0, 0);
    w.submit_load_request(LoadChunkEvent { chunk: c, load_reason: LoadReason::Spawning(1) });
    let samples = stone_samples();
    w.service_next_load(None, Some(&samples), None, None);

    w.add_loader(1, 1);
    w.update_chunk_loader(1, IVec3::new(0, 0, 0));
    // The chunk at the buffer edge is resident: the loader retains it
    // (clearing the stale spawning reason) instead of requesting it.
    let chunk = w.get_chunk(c).unwrap();
    assert!(chunk.has_reason(LoadReason::Loader(1)));
    assert!(!chunk.has_reason(LoadReason::Spawning(1)));
    assert_eq!(w.loading_queue.len(), 27);
}

#[test]
fn moving_away_revokes_reasons_and_triggers_unload() {
    let mut w = WorldStreamer::new(1, small_config());
    w.add_loader(1, 0);
    let c = IVec3::new(0, 0, 0);
    w.update_chunk_loader(1, c);
    let samples = stone_samples();
    w.service_next_load(None, Some(&samples), None, None);
    assert!(w.get_chunk(c).unwrap().has_reason(LoadReason::Loader(1)));

    // Move far away: the old chunk loses its reason, a change notice
    // is queued, and the chunk unloads.
    w.update_chunk_loader(1, IVec3::new(4, 0, 4));
    assert!(w.get_chunk(c).unwrap().load_reasons.is_empty());
    assert!(w.reason_change_events.iter().any(|ev| ev.0 == c));
    w.process_reason_changes();
    assert_eq!(w.status_of(c), ChunkStatus::Unloading);
    assert_eq!(w.unloading_queue.len(), 1);
}

#[test]
fn unregistered_observer_changes_nothing() {
    let mut w = WorldStreamer::new(1, small_config());
    w.update_chunk_loader(99, IVec3::new(0, 0, 0));
    assert_eq!(w.loading_queue.len(), 0);
}
