use voxelstream::block::BlockID;
use voxelstream::coords::IVec3;
use voxelstream::events::{ChunkStatus, LoadChunkEvent, LoadReason};
use voxelstream::service::{LoadSource, ServiceOutcome};
use voxelstream::terrain::VoxelSample;
use voxelstream::unload::UnloadStep;
use voxelstream::world::{StreamerConfig, WorldStreamer};
use voxelstream::CHUNK_VOL;

fn small_config() -> StreamerConfig {
    StreamerConfig {
        world_size_x: 4,
        world_size_z: 4,
        world_height: 2,
        world_depth: 2,
        unload_batch: 4,
        water_debounce_ms: 200,
        loader_buffer: 1,
        tree_step_limit: 10000,
    }
}

fn stone_samples() -> Vec<VoxelSample> {
    let mut v = Vec::new();
    for _ in 0..CHUNK_VOL {
        v.push(VoxelSample { solid: true, solid_above: true, stone: true, tree: false });
    }
    v
}

fn dirt_samples() -> Vec<VoxelSample> {
    // Solid but never stone and never grass (solid above, low enough).
    let mut v = Vec::new();
    for _ in 0..CHUNK_VOL {
        v.push(VoxelSample { solid: true, solid_above: true, stone: false, tree: false });
    }
    v
}

#[test]
fn out_of_bounds_request_is_silently_dropped() {
    let mut w = WorldStreamer::new(1, small_config());
    w.submit_load_request(LoadChunkEvent {
        chunk: IVec3::new(5, 0, 0),
        load_reason: LoadReason::Loader(1),
    });
    assert_eq!(w.loading_queue.len(), 0);
    assert_eq!(w.status_of(IVec3::new(5, 0, 0)), ChunkStatus::NonLoaded);
}

#[test]
fn duplicate_request_queues_exactly_one_load() {
    let mut w = WorldStreamer::new(1, small_config());
    let ev = LoadChunkEvent { chunk: IVec3::new(1, 0, 0), load_reason: LoadReason::Loader(7) };
    w.submit_load_request(ev);
    w.submit_load_request(ev);
    assert_eq!(w.loading_queue.len(), 1);
    assert_eq!(w.status_of(IVec3::new(1, 0, 0)), ChunkStatus::Loading);

    let samples = stone_samples();
    let outcome = w.service_next_load(None, Some(&samples), None, None);
    assert_eq!(outcome, ServiceOutcome::Loaded(IVec3::new(1, 0, 0), LoadSource::Generated));
    assert!(w.get_chunk(IVec3::new(1, 0, 0)).is_some());
    assert_eq!(w.status_of(IVec3::new(1, 0, 0)), ChunkStatus::Active);
    // Nothing else was queued: the second request was absorbed.
    assert_eq!(w.loading_queue.len(), 0);
    assert_eq!(w.service_next_load(None, Some(&samples), None, None), ServiceOutcome::QueueEmpty);
}

#[test]
fn request_for_resident_chunk_is_ignored() {
    let mut w = WorldStreamer::new(1, small_config());
    let ev = LoadChunkEvent { chunk: IVec3::new(0, 0, 0), load_reason: LoadReason::Loader(1) };
    w.submit_load_request(ev);
    let samples = stone_samples();
    w.service_next_load(None, Some(&samples), None, None);
    w.submit_load_request(ev);
    assert_eq!(w.loading_queue.len(), 0);
}

#[test]
fn refcount_two_loaders_unload_only_after_last_reason() {
    let mut w = WorldStreamer::new(1, small_config());
    let c = IVec3::new(0, 0, 0);
    w.submit_load_request(LoadChunkEvent { chunk: c, load_reason: LoadReason::Loader(1) });
    let samples = stone_samples();
    w.service_next_load(None, Some(&samples), None, None);

    // A second observer with range zero standing on the chunk retains it too.
    w.add_loader(2, 0);
    w.update_chunk_loader(2, c);
    {
        let chunk = w.get_chunk(c).unwrap();
        assert!(chunk.has_reason(LoadReason::Loader(1)));
        assert!(chunk.has_reason(LoadReason::Loader(2)));
    }

    // Revoking the first reason keeps the chunk resident, no unload.
    w.remove_load_reason(c, LoadReason::Loader(1));
    w.process_reason_changes();
    assert!(w.get_chunk(c).is_some());
    assert_eq!(w.unloading_queue.len(), 0);

    // Revoking the last reason queues exactly one unload.
    w.remove_load_reason(c, LoadReason::Loader(2));
    w.process_reason_changes();
    assert!(w.get_chunk(c).is_some());
    assert_eq!(w.unloading_queue.len(), 1);
    assert_eq!(w.status_of(c), ChunkStatus::Unloading);
}

#[test]
fn unload_encodes_into_save_buffer_and_evicts() {
    let mut w = WorldStreamer::new(1, small_config());
    let c = IVec3::new(1, 1, 1);
    w.submit_load_request(LoadChunkEvent { chunk: c, load_reason: LoadReason::Loader(1) });
    let samples = stone_samples();
    w.service_next_load(None, Some(&samples), None, None);

    w.remove_load_reason(c, LoadReason::Loader(1));
    w.process_reason_changes();
    match w.unload_one() {
        UnloadStep::Unloaded(pos, _, _) => assert_eq!(pos, c),
        other => panic!("expected an unload, got {:?}", other),
    }
    assert!(w.get_chunk(c).is_none());
    assert_eq!(w.status_of(c), ChunkStatus::PartialSave);
    assert!(w.has_saved(c));
    assert_eq!(w.unload_one(), UnloadStep::Empty);
}

#[test]
fn save_buffer_outranks_stale_database_row() {
    let mut w = WorldStreamer::new(1, small_config());
    let c = IVec3::new(0, 1, 0);

    // Make a stone chunk resident, then unload it into the save buffer.
    w.submit_load_request(LoadChunkEvent { chunk: c, load_reason: LoadReason::Loader(1) });
    let samples = stone_samples();
    w.service_next_load(None, Some(&samples), None, None);
    w.remove_load_reason(c, LoadReason::Loader(1));
    w.process_reason_changes();
    w.unload_one();
    assert!(w.has_saved(c));

    // A stale on-disk row holds an all-dirt chunk.
    let mut dirt_world = WorldStreamer::new(1, small_config());
    dirt_world.submit_load_request(LoadChunkEvent {
        chunk: c,
        load_reason: LoadReason::Loader(1),
    });
    let dsamples = dirt_samples();
    dirt_world.service_next_load(None, Some(&dsamples), None, None);
    let stale_row =
        voxelstream::codec::encode_chunk_bytes(&dirt_world.get_chunk(c).unwrap().blocks.data);

    // Reloading the coordinate must answer from the save buffer.
    w.submit_load_request(LoadChunkEvent { chunk: c, load_reason: LoadReason::Loader(1) });
    let outcome = w.service_next_load(Some(stale_row), Some(&samples), None, None);
    assert_eq!(outcome, ServiceOutcome::Loaded(c, LoadSource::SaveBuffer));
    let chunk = w.get_chunk(c).unwrap();
    for b in chunk.blocks.data.iter() {
        assert_eq!(b.id, BlockID::Stone);
    }
}

#[test]
fn database_row_answers_when_save_buffer_is_empty() {
    let mut dirt_world = WorldStreamer::new(1, small_config());
    let c = IVec3::new(0, 0, 1);
    dirt_world.submit_load_request(LoadChunkEvent {
        chunk: c,
        load_reason: LoadReason::Loader(1),
    });
    let dsamples = dirt_samples();
    dirt_world.service_next_load(None, Some(&dsamples), None, None);
    let row = voxelstream::codec::encode_chunk_bytes(&dirt_world.get_chunk(c).unwrap().blocks.data);

    let mut w = WorldStreamer::new(1, small_config());
    w.submit_load_request(LoadChunkEvent { chunk: c, load_reason: LoadReason::Loader(1) });
    let samples = stone_samples();
    let outcome = w.service_next_load(Some(row), Some(&samples), None, None);
    assert_eq!(outcome, ServiceOutcome::Loaded(c, LoadSource::Database));
    for b in w.get_chunk(c).unwrap().blocks.data.iter() {
        assert_eq!(b.id, BlockID::Dirt);
    }
}

#[test]
fn corrupt_database_row_falls_back_to_regeneration() {
    let mut w = WorldStreamer::new(1, small_config());
    let c = IVec3::new(2, 0, 0);
    w.submit_load_request(LoadChunkEvent { chunk: c, load_reason: LoadReason::Loader(1) });
    let samples = stone_samples();
    let outcome = w.service_next_load(Some(vec![1, 2, 3, 4]), Some(&samples), None, None);
    assert_eq!(outcome, ServiceOutcome::Loaded(c, LoadSource::Generated));
    for b in w.get_chunk(c).unwrap().blocks.data.iter() {
        assert_eq!(b.id, BlockID::Stone);
    }
}

#[test]
fn flush_batch_preserves_buffer_order_and_clears() {
    let mut w = WorldStreamer::new(1, small_config());
    let samples = stone_samples();
    let coords = [IVec3::new(0, 0, 0), IVec3::new(1, 0, 0), IVec3::new(2, 0, 0)];
    for c in coords {
        w.submit_load_request(LoadChunkEvent { chunk: c, load_reason: LoadReason::Loader(1) });
        w.service_next_load(None, Some(&samples), None, None);
        w.remove_load_reason(c, LoadReason::Loader(1));
        w.process_reason_changes();
        w.unload_one();
    }
    let batch = w.take_save_batch();
    assert_eq!(batch.len(), 3);
    for (i, c) in coords.iter().enumerate() {
        assert_eq!(batch[i].0, *c);
        let decoded = voxelstream::codec::decode_chunk_bytes(&batch[i].1).unwrap();
        assert_eq!(decoded.len(), CHUNK_VOL);
    }
    assert_eq!(w.save_queue.len(), 0);
    assert!(!w.has_saved(coords[0]));
}

#[test]
fn shutdown_enqueues_every_resident_chunk() {
    let mut w = WorldStreamer::new(1, small_config());
    let samples = stone_samples();
    for c in [IVec3::new(0, 0, 0), IVec3::new(1, 0, 0)] {
        w.submit_load_request(LoadChunkEvent { chunk: c, load_reason: LoadReason::Loader(1) });
        w.service_next_load(None, Some(&samples), None, None);
    }
    w.enqueue_all_for_unload();
    assert_eq!(w.unloading_queue.len(), 2);
    w.unload_one();
    w.unload_one();
    assert!(w.get_chunk(IVec3::new(0, 0, 0)).is_none());
    assert!(w.get_chunk(IVec3::new(1, 0, 0)).is_none());
    assert_eq!(w.take_save_batch().len(), 2);
}

#[test]
fn needs_samples_restores_the_request() {
    let mut w = WorldStreamer::new(1, small_config());
    let c = IVec3::new(0, 0, 2);
    w.submit_load_request(LoadChunkEvent { chunk: c, load_reason: LoadReason::Loader(1) });
    assert_eq!(w.service_next_load(None, None, None, None), ServiceOutcome::NeedsSamples);
    assert_eq!(w.loading_queue.len(), 1);
    assert_eq!(w.peek_load_request().unwrap().chunk, c);
}

#[test]
fn loaded_chunk_carries_reason_and_handles() {
    let mut w = WorldStreamer::new(1, small_config());
    let c = IVec3::new(0, 0, 0);
    w.submit_load_request(LoadChunkEvent { chunk: c, load_reason: LoadReason::Spawning(9) });
    let samples = stone_samples();
    w.service_next_load(None, Some(&samples), Some(41), Some(42));
    let chunk = w.get_chunk(c).unwrap();
    assert!(chunk.has_reason(LoadReason::Spawning(9)));
    assert_eq!(chunk.render_entity, Some(41));
    assert_eq!(chunk.water_render_entity, Some(42));
    // The load fans mesh updates out to the chunk and its six neighbors.
    assert_eq!(w.update_chunk_events.len(), 7);
}

#[test]
fn unload_of_a_vanished_coordinate_is_skipped() {
    let mut w = WorldStreamer::new(1, small_config());
    let c = IVec3::new(1, 0, 1);
    w.unloading_queue.push_front(c);
    assert_eq!(w.unload_one(), UnloadStep::Skipped(c));
    assert!(!w.has_saved(c));
}
