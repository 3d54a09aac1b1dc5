use voxelstream::block::{Block, BlockID};
use voxelstream::coords::IVec3;
use voxelstream::events::{LoadChunkEvent, LoadReason};
use voxelstream::service::ServiceOutcome;
use voxelstream::terrain::VoxelSample;
use voxelstream::world::{StreamerConfig, WorldStreamer};
use voxelstream::CHUNK_VOL;

fn small_config() -> StreamerConfig {
    StreamerConfig {
        world_size_x: 4,
        world_size_z: 4,
        world_height: 2,
        world_depth: 2,
        unload_batch: 4,
        water_debounce_ms: 200,
        loader_buffer: 1,
        tree_step_limit: 10000,
    }
}

fn stone_samples() -> Vec<VoxelSample> {
    let mut v = Vec::new();
    for _ in 0..CHUNK_VOL {
        v.push(VoxelSample { solid: true, solid_above: true, stone: true, tree: false });
    }
    v
}

/// A world with one all-stone chunk at the origin, with an air cavity
/// carved along the given cells.
fn world_with_cavity(cavity: &[IVec3]) -> WorldStreamer {
    let mut w = WorldStreamer::new(1, small_config());
    let c = IVec3::new(0, 0, 0);
    w.submit_load_request(LoadChunkEvent { chunk: c, load_reason: LoadReason::Loader(1) });
    let samples = stone_samples();
    let outcome = w.service_next_load(None, Some(&samples), None, None);
    assert!(matches!(outcome, ServiceOutcome::Loaded(_, _)));
    let i = w.chunk_map.index_of_key(c).unwrap();
    let chunk = w.chunk_map.entry_at_mut(i);
    for p in cavity {
        chunk.blocks.set(*p, Block { id: BlockID::Air, damage: 0 });
    }
    w
}

fn id_at(w: &WorldStreamer, g: IVec3) -> BlockID {
    w.block_at(g).unwrap().id
}

#[test]
fn enclosed_cavity_without_water_never_changes() {
    let cavity = [IVec3::new(5, 5, 5), IVec3::new(6, 5, 5), IVec3::new(7, 5, 5)];
    let mut w = world_with_cavity(&cavity);
    for p in cavity {
        w.queue_block_update(p);
    }
    for _ in 0..8 {
        let changed = w.process_block_updates(200);
        assert_eq!(changed, 0);
    }
    for p in cavity {
        assert_eq!(id_at(&w, p), BlockID::Air);
    }
}

#[test]
fn update_still_in_debounce_window_is_requeued_not_evaluated() {
    let cavity = [IVec3::new(5, 5, 5), IVec3::new(6, 5, 5)];
    let mut w = world_with_cavity(&cavity);
    // Put a water source beside the air cell.
    let i = w.chunk_map.index_of_key(IVec3::new(0, 0, 0)).unwrap();
    let chunk = w.chunk_map.entry_at_mut(i);
    chunk.blocks.set(IVec3::new(5, 5, 5), Block { id: BlockID::Water, damage: 0 });
    w.queue_block_update(IVec3::new(6, 5, 5));
    // Fifty milliseconds is inside the window: nothing converts.
    let changed = w.process_block_updates(50);
    assert_eq!(changed, 0);
    assert_eq!(id_at(&w, IVec3::new(6, 5, 5)), BlockID::Air);
    assert_eq!(w.block_update_events.len(), 1);
    assert_eq!(w.block_update_events[0].waited_ms, 50);
    // After the debounce interval the evaluation runs once.
    let changed = w.process_block_updates(200);
    assert_eq!(changed, 1);
    assert_eq!(id_at(&w, IVec3::new(6, 5, 5)), BlockID::Water);
}

#[test]
fn cavity_with_source_floods_until_no_air_touches_water() {
    // A straight tunnel with a water source at one end.
    let cavity = [
        IVec3::new(4, 5, 5),
        IVec3::new(5, 5, 5),
        IVec3::new(6, 5, 5),
        IVec3::new(7, 5, 5),
    ];
    let mut w = world_with_cavity(&cavity);
    let i = w.chunk_map.index_of_key(IVec3::new(0, 0, 0)).unwrap();
    let chunk = w.chunk_map.entry_at_mut(i);
    chunk.blocks.set(IVec3::new(4, 5, 5), Block { id: BlockID::Water, damage: 0 });
    for p in &cavity[1..] {
        w.queue_block_update(*p);
    }
    // Run passes until the propagator goes quiet.
    let mut quiet = 0;
    let mut guard = 0;
    while quiet < 2 {
        let changed = w.process_block_updates(200);
        if changed == 0 && w.block_update_events.is_empty() {
            quiet += 1;
        } else {
            quiet = 0;
        }
        guard += 1;
        assert!(guard < 64, "propagation should settle");
    }
    // The whole tunnel is water; no air cell touches water sideways or
    // from above any more.
    for p in cavity {
        assert_eq!(id_at(&w, p), BlockID::Water);
    }
}

#[test]
fn water_does_not_rise_from_below() {
    // Water below an air cell; the cell above must stay air.
    let cavity = [IVec3::new(5, 4, 5), IVec3::new(5, 5, 5)];
    let mut w = world_with_cavity(&cavity);
    let i = w.chunk_map.index_of_key(IVec3::new(0, 0, 0)).unwrap();
    let chunk = w.chunk_map.entry_at_mut(i);
    chunk.blocks.set(IVec3::new(5, 4, 5), Block { id: BlockID::Water, damage: 0 });
    w.queue_block_update(IVec3::new(5, 5, 5));
    for _ in 0..4 {
        w.process_block_updates(200);
    }
    assert_eq!(id_at(&w, IVec3::new(5, 5, 5)), BlockID::Air);
}

#[test]
fn water_flows_downward() {
    // Water above an air cell converts it: the source is an upward
    // neighbor of the target.
    let cavity = [IVec3::new(5, 5, 5), IVec3::new(5, 4, 5)];
    let mut w = world_with_cavity(&cavity);
    let i = w.chunk_map.index_of_key(IVec3::new(0, 0, 0)).unwrap();
    let chunk = w.chunk_map.entry_at_mut(i);
    chunk.blocks.set(IVec3::new(5, 5, 5), Block { id: BlockID::Water, damage: 0 });
    w.queue_block_update(IVec3::new(5, 4, 5));
    let changed = w.process_block_updates(200);
    assert_eq!(changed, 1);
    assert_eq!(id_at(&w, IVec3::new(5, 4, 5)), BlockID::Water);
}

#[test]
fn conversion_fans_out_six_updates_and_a_mesh_event() {
    let cavity = [IVec3::new(5, 5, 5), IVec3::new(6, 5, 5)];
    let mut w = world_with_cavity(&cavity);
    let i = w.chunk_map.index_of_key(IVec3::new(0, 0, 0)).unwrap();
    let chunk = w.chunk_map.entry_at_mut(i);
    chunk.blocks.set(IVec3::new(5, 5, 5), Block { id: BlockID::Water, damage: 0 });
    w.update_chunk_events.clear();
    w.queue_block_update(IVec3::new(6, 5, 5));
    let changed = w.process_block_updates(200);
    assert_eq!(changed, 1);
    // The due event was consumed; six fresh zero-wait updates remain.
    assert_eq!(w.block_update_events.len(), 6);
    for ev in w.block_update_events.iter() {
        assert_eq!(ev.waited_ms, 0);
    }
    // The converted cell sits in the chunk interior: one mesh update.
    assert_eq!(w.update_chunk_events.len(), 1);
}
