//! Integer 3-vectors and the helpers that map global block coordinates
//! to chunk coordinates and chunk-local coordinates, with floor
//! semantics for negative components.

use vstd::prelude::*;
use crate::CHUNK_SIZE;

verus! {

/// An integer 3-vector, used both for global block positions and for
/// chunk coordinates.
#[derive(Clone, Copy, PartialEq, Eq, Structural, Debug, Hash)]
pub struct IVec3 {
    pub x: i32,
    pub y: i32,
    pub z: i32,
}

impl IVec3 {
    pub fn new(x: i32, y: i32, z: i32) -> (r: IVec3)
        ensures
            r == (IVec3 { x, y, z }),
    {
        IVec3 { x, y, z }
    }
}

/// Floor division of a global coordinate by the chunk edge length.
pub open spec fn floor_chunk(a: int) -> int {
    a / (CHUNK_SIZE as int)
}

/// Positive remainder of a global coordinate by the chunk edge length,
/// always in `[0, CHUNK_SIZE)`.
pub open spec fn local_coord(a: int) -> int {
    a % (CHUNK_SIZE as int)
}

/// Floor-divides one axis by `CHUNK_SIZE`, correct for negative values.
fn floor_div_axis(a: i32) -> (r: i32)
    ensures
        r == floor_chunk(a as int),
{
    let q: i32 = a / CHUNK_SIZE;
    let rem: i32 = a % CHUNK_SIZE;
    if rem < 0 {
        q - 1
    } else {
        q
    }
}

/// Positive modulo of one axis into `[0, CHUNK_SIZE)`.
fn local_axis(a: i32) -> (r: i32)
    ensures
        r == local_coord(a as int),
{
    let rem: i32 = a % CHUNK_SIZE;
    if rem < 0 {
        rem + CHUNK_SIZE
    } else {
        rem
    }
}

/// Coordinate of the chunk that owns a global block position.
pub fn chunk_pos_from_global(global_position: IVec3) -> (r: IVec3)
    ensures
        r.x == floor_chunk(global_position.x as int),
        r.y == floor_chunk(global_position.y as int),
        r.z == floor_chunk(global_position.z as int),
{
    IVec3 {
        x: floor_div_axis(global_position.x),
        y: floor_div_axis(global_position.y),
        z: floor_div_axis(global_position.z),
    }
}

/// Chunk-local position of a global block position, each axis in
/// `[0, CHUNK_SIZE)`.
pub fn block_pos_from_global(global_position: IVec3) -> (r: IVec3)
    ensures
        r.x == local_coord(global_position.x as int),
        r.y == local_coord(global_position.y as int),
        r.z == local_coord(global_position.z as int),
{
    IVec3 {
        x: local_axis(global_position.x),
        y: local_axis(global_position.y),
        z: local_axis(global_position.z),
    }
}

/// The chunk coordinate and local coordinate of an axis recombine to
/// the global coordinate: `chunk * CHUNK_SIZE + local == global`.
pub proof fn lemma_chunk_local_roundtrip_axis(a: int)
    ensures
        floor_chunk(a) * (CHUNK_SIZE as int) + local_coord(a) == a,
{
    vstd::arithmetic::div_mod::lemma_fundamental_div_mod(a, CHUNK_SIZE as int);
}

/// For every global position, including negative components, the owning
/// chunk coordinate times `CHUNK_SIZE` plus the local coordinate gives
/// back the global position on every axis.
pub proof fn lemma_chunk_local_roundtrip(g: IVec3)
    ensures
        floor_chunk(g.x as int) * (CHUNK_SIZE as int) + local_coord(g.x as int) == g.x as int,
        floor_chunk(g.y as int) * (CHUNK_SIZE as int) + local_coord(g.y as int) == g.y as int,
        floor_chunk(g.z as int) * (CHUNK_SIZE as int) + local_coord(g.z as int) == g.z as int,
{
    lemma_chunk_local_roundtrip_axis(g.x as int);
    lemma_chunk_local_roundtrip_axis(g.y as int);
    lemma_chunk_local_roundtrip_axis(g.z as int);
}

} // verus!
