//! The message types the engine exchanges with its collaborators, and
//! the per-coordinate status machine that guards duplicate work.

use vstd::prelude::*;
use crate::CHUNK_SIZE;
use crate::coords::{block_pos_from_global, chunk_pos_from_global, floor_chunk, IVec3, local_coord};

verus! {

/// A named token that keeps a chunk resident. The holder is an opaque
/// observer id owned by the caller; a reason can be revoked precisely
/// by the holder that added it.
#[derive(Clone, Copy, PartialEq, Eq, Structural, Debug, Hash)]
pub enum LoadReason {
    Loader(u64),
    Spawning(u64),
}

impl LoadReason {
    /// The observer that holds this reason.
    pub fn holder(self) -> (r: u64)
        ensures
            r == spec_holder(self),
    {
        match self {
            LoadReason::Loader(e) => e,
            LoadReason::Spawning(e) => e,
        }
    }
}

pub open spec fn spec_holder(reason: LoadReason) -> u64 {
    match reason {
        LoadReason::Loader(e) => e,
        LoadReason::Spawning(e) => e,
    }
}

/// A request that the chunk at a coordinate become resident.
#[derive(Clone, Copy, PartialEq, Eq, Structural, Debug)]
pub struct LoadChunkEvent {
    pub chunk: IVec3,
    pub load_reason: LoadReason,
}

/// Notice that a chunk's reason set may have shrunk.
#[derive(Clone, Copy, PartialEq, Eq, Structural, Debug)]
pub struct LoadReasonChangeEvent(pub IVec3);

/// Notice to the mesh-building collaborator that a chunk's derived
/// state is stale.
#[derive(Clone, Copy, PartialEq, Eq, Structural, Debug)]
pub struct UpdateChunkEvent(pub IVec3);

/// A tree should grow with its trunk base at this global position.
#[derive(Clone, Copy, PartialEq, Eq, Structural, Debug)]
pub struct GenerateTreeEvent(pub IVec3);

/// A block position awaiting a debounced water-flow evaluation,
/// carrying how many milliseconds it has already waited.
#[derive(Clone, Copy, PartialEq, Eq, Structural, Debug)]
pub struct BlockUpdateEvent {
    pub position: IVec3,
    pub waited_ms: u64,
}

/// Where a coordinate stands in the load/unload lifecycle. Guards
/// against double-enqueue and double-generation of one coordinate.
#[derive(Clone, Copy, PartialEq, Eq, Structural, Debug)]
pub enum ChunkStatus {
    NonLoaded,
    Loading,
    Active,
    Unloading,
    PartialSave,
}

/// The chunk coordinates whose derived state a write at a global
/// position invalidates: the owning chunk, plus the face-adjacent
/// chunk on every axis where the write sits on a chunk face.
pub open spec fn spec_boundary_updates(g: IVec3) -> Seq<UpdateChunkEvent> {
    let cx = floor_chunk(g.x as int);
    let cy = floor_chunk(g.y as int);
    let cz = floor_chunk(g.z as int);
    let c = IVec3 { x: cx as i32, y: cy as i32, z: cz as i32 };
    let sx: Seq<UpdateChunkEvent> = if local_coord(g.x as int) == 0 {
        seq![UpdateChunkEvent(IVec3 { x: (cx - 1) as i32, y: cy as i32, z: cz as i32 })]
    } else if local_coord(g.x as int) == CHUNK_SIZE - 1 {
        seq![UpdateChunkEvent(IVec3 { x: (cx + 1) as i32, y: cy as i32, z: cz as i32 })]
    } else {
        Seq::empty()
    };
    let sy: Seq<UpdateChunkEvent> = if local_coord(g.y as int) == 0 {
        seq![UpdateChunkEvent(IVec3 { x: cx as i32, y: (cy - 1) as i32, z: cz as i32 })]
    } else if local_coord(g.y as int) == CHUNK_SIZE - 1 {
        seq![UpdateChunkEvent(IVec3 { x: cx as i32, y: (cy + 1) as i32, z: cz as i32 })]
    } else {
        Seq::empty()
    };
    let sz: Seq<UpdateChunkEvent> = if local_coord(g.z as int) == 0 {
        seq![UpdateChunkEvent(IVec3 { x: cx as i32, y: cy as i32, z: (cz - 1) as i32 })]
    } else if local_coord(g.z as int) == CHUNK_SIZE - 1 {
        seq![UpdateChunkEvent(IVec3 { x: cx as i32, y: cy as i32, z: (cz + 1) as i32 })]
    } else {
        Seq::empty()
    };
    seq![UpdateChunkEvent(c)] + sx + sy + sz
}

/// The mesh-invalidation events a block write at a global position
/// emits: the owning chunk and, for each axis where the local
/// coordinate sits on a face, the adjacent chunk.
pub fn update_chunk_events_from_global(global_position: IVec3) -> (r: Vec<UpdateChunkEvent>)
    ensures
        r@ == spec_boundary_updates(global_position),
{
    let c = chunk_pos_from_global(global_position);
    let l = block_pos_from_global(global_position);
    let mut events: Vec<UpdateChunkEvent> = Vec::new();
    events.push(UpdateChunkEvent(c));
    if l.x == 0 {
        events.push(UpdateChunkEvent(IVec3 { x: c.x - 1, y: c.y, z: c.z }));
    } else if l.x == CHUNK_SIZE - 1 {
        events.push(UpdateChunkEvent(IVec3 { x: c.x + 1, y: c.y, z: c.z }));
    }
    if l.y == 0 {
        events.push(UpdateChunkEvent(IVec3 { x: c.x, y: c.y - 1, z: c.z }));
    } else if l.y == CHUNK_SIZE - 1 {
        events.push(UpdateChunkEvent(IVec3 { x: c.x, y: c.y + 1, z: c.z }));
    }
    if l.z == 0 {
        events.push(UpdateChunkEvent(IVec3 { x: c.x, y: c.y, z: c.z - 1 }));
    } else if l.z == CHUNK_SIZE - 1 {
        events.push(UpdateChunkEvent(IVec3 { x: c.x, y: c.y, z: c.z + 1 }));
    }
    proof {
        assert(events@ =~= spec_boundary_updates(global_position));
    }
    events
}

} // verus!
