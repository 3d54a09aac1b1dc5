use voxelstream::coords::{block_pos_from_global, chunk_pos_from_global, IVec3};
use voxelstream::events::{update_chunk_events_from_global, UpdateChunkEvent};
use voxelstream::CHUNK_SIZE;

fn recombines(g: IVec3) -> bool {
    let c = chunk_pos_from_global(g);
    let l = block_pos_from_global(g);
    c.x * CHUNK_SIZE + l.x == g.x && c.y * CHUNK_SIZE + l.y == g.y
        && c.z * CHUNK_SIZE + l.z == g.z
}

#[test]
fn chunk_of_positive() {
    assert_eq!(chunk_pos_from_global(IVec3::new(0, 0, 0)), IVec3::new(0, 0, 0));
    assert_eq!(chunk_pos_from_global(IVec3::new(15, 15, 15)), IVec3::new(0, 0, 0));
    assert_eq!(chunk_pos_from_global(IVec3::new(16, 31, 47)), IVec3::new(1, 1, 2));
}

#[test]
fn chunk_of_negative_uses_floor_not_truncation() {
    assert_eq!(chunk_pos_from_global(IVec3::new(-1, -1, -1)), IVec3::new(-1, -1, -1));
    assert_eq!(chunk_pos_from_global(IVec3::new(-16, -17, -32)), IVec3::new(-1, -2, -2));
    assert_eq!(chunk_pos_from_global(IVec3::new(-15, 5, -33)), IVec3::new(-1, 0, -3));
}

#[test]
fn local_is_positive_modulo() {
    assert_eq!(block_pos_from_global(IVec3::new(-1, -16, -17)), IVec3::new(15, 0, 15));
    assert_eq!(block_pos_from_global(IVec3::new(5, 16, 31)), IVec3::new(5, 0, 15));
}

#[test]
fn chunk_and_local_recombine_for_all_sign_patterns() {
    let samples = [
        IVec3::new(0, 0, 0),
        IVec3::new(7, 200, -3),
        IVec3::new(-1, -16, -17),
        IVec3::new(-255, 255, -1024),
        IVec3::new(1_000_000, -1_000_000, 123_456),
    ];
    for g in samples {
        assert!(recombines(g));
    }
}

#[test]
fn boundary_updates_interior_names_only_owner() {
    let evs = update_chunk_events_from_global(IVec3::new(5, 5, 5));
    assert_eq!(evs.len(), 1);
    assert_eq!(evs[0], UpdateChunkEvent(IVec3::new(0, 0, 0)));
}

#[test]
fn boundary_updates_face_names_neighbor() {
    let evs = update_chunk_events_from_global(IVec3::new(0, 5, 5));
    assert_eq!(evs.len(), 2);
    assert_eq!(evs[0], UpdateChunkEvent(IVec3::new(0, 0, 0)));
    assert_eq!(evs[1], UpdateChunkEvent(IVec3::new(-1, 0, 0)));
}

#[test]
fn boundary_updates_corner_names_three_neighbors() {
    let evs = update_chunk_events_from_global(IVec3::new(15, 0, 31));
    assert_eq!(evs.len(), 4);
    assert_eq!(evs[0], UpdateChunkEvent(IVec3::new(0, 0, 1)));
    assert_eq!(evs[1], UpdateChunkEvent(IVec3::new(1, 0, 1)));
    assert_eq!(evs[2], UpdateChunkEvent(IVec3::new(0, -1, 1)));
    assert_eq!(evs[3], UpdateChunkEvent(IVec3::new(0, 0, 2)));
}
