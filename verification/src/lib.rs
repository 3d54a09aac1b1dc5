//! Chunk lifecycle engine for a voxel world: reference-counted chunk
//! loading and unloading, procedural terrain and tree generation with
//! cross-chunk pending writes, bounded streaming queues, compressed
//! persistent storage, and a debounced water-flow propagator.

pub mod block;
pub mod codec;
pub mod coordmap;
pub mod coords;
pub mod directions;
pub mod events;
pub mod grid3;
pub mod loader;
pub mod savequeue;
pub mod service;
pub mod spawn;
pub mod terrain;
pub mod tree;
pub mod unload;
pub mod water;
pub mod world;

use vstd::prelude::*;

verus! {

/// Edge length of a cubic chunk, in blocks.
pub const CHUNK_SIZE: i32 = 16;

/// Number of blocks in one chunk.
pub const CHUNK_VOL: usize = 16 * 16 * 16;

} // verus!
