//! Finding a safe spawn height: scan the spawn column of resident
//! chunks from the world ceiling down for the first non-air block.

use vstd::prelude::*;
use crate::CHUNK_SIZE;
use crate::block::BlockID;
use crate::coords::IVec3;
use crate::grid3::Grid3;
use crate::block::Block;
use crate::world::WorldStreamer;

verus! {

/// The linear index of local position `(0, y, 0)`.
pub open spec fn column_index(y: int) -> int {
    y * 16
}

/// Scans column `(0, 0)` of a chunk top-down and returns the local `y`
/// of the first non-air block, or `None` for an all-air column.
pub fn first_non_air_from_top(blocks: &Grid3<Block>) -> (r: Option<usize>)
    requires
        blocks.wf(),
        blocks.sx() == CHUNK_SIZE as int,
        blocks.sy() == CHUNK_SIZE as int,
        blocks.sz() == CHUNK_SIZE as int,
    ensures
        match r {
            Some(y) => {
                &&& y < 16
                &&& blocks.view()[column_index(y as int)].id != BlockID::Air
                &&& forall|y2: int| y < y2 < 16
                    ==> blocks.view()[#[trigger] column_index(y2)].id == BlockID::Air
            },
            None => forall|y2: int| 0 <= y2 < 16
                ==> blocks.view()[#[trigger] column_index(y2)].id == BlockID::Air,
        },
{
    let mut y: usize = 16;
    while y > 0
        invariant
            blocks.wf(),
            blocks.sx() == CHUNK_SIZE as int,
            blocks.sy() == CHUNK_SIZE as int,
            blocks.sz() == CHUNK_SIZE as int,
            y <= 16,
            forall|y2: int| y <= y2 < 16
                ==> blocks.view()[#[trigger] column_index(y2)].id == BlockID::Air,
        decreases y,
    {
        y = y - 1;
        let p = IVec3 { x: 0, y: y as i32, z: 0 };
        proof {
            assert(blocks.idx(p) == column_index(y as int));
        }
        let b = *blocks.at(p);
        if b.id != BlockID::Air {
            return Some(y);
        }
    }
    None
}

/// Whether the spawn column of the chunk at height `cy` is resident
/// and entirely air.
pub open spec fn spec_column_clear(s: WorldStreamer, x: i32, z: i32, cy: int) -> bool {
    &&& s.resident(IVec3 { x, y: cy as i32, z })
    &&& forall|y: int| 0 <= y < 16 ==> s.chunk_map.as_map()[IVec3 { x, y: cy as i32, z }]
        .blocks.view()[#[trigger] column_index(y)].id == BlockID::Air
}

/// What a spawn scan found.
#[derive(Clone, Copy, PartialEq, Eq, Structural, Debug)]
pub enum SpawnScan {
    /// A surface was found: spawn at this global block height.
    Height(i32),
    /// The scan reached a chunk that is not resident; it must be
    /// loaded (with a `Spawning` reason) before the scan can finish.
    NeedsChunk(IVec3),
    /// Every chunk of the column is resident and entirely air; spawn
    /// above the world ceiling.
    AllAir(i32),
}

impl WorldStreamer {
    /// Scans the spawn column at the given chunk x/z from the world
    /// ceiling down: the first non-air block of column `(0, 0)` of the
    /// topmost resident chunk that has one fixes the spawn height two
    /// blocks above it. A missing chunk interrupts the scan and names
    /// the coordinate to load.
    pub fn find_spawn_height(&self, spawn_x: i32, spawn_z: i32) -> (r: SpawnScan)
        requires
            self.wf(),
        ensures
            match r {
                // The height names the topmost non-air block of the
                // column: everything above it, in its own chunk and in
                // every chunk higher up, is resident air.
                SpawnScan::Height(h) => exists|cy: int, y: int| {
                    &&& 0 <= cy <= self.config.world_height as int
                    &&& 0 <= y < 16
                    &&& #[trigger] self.resident(IVec3 { x: spawn_x, y: cy as i32, z: spawn_z })
                    &&& self.chunk_map.as_map()[IVec3 { x: spawn_x, y: cy as i32, z: spawn_z }]
                        .blocks.view()[#[trigger] column_index(y)].id != BlockID::Air
                    &&& forall|y2: int| y < y2 < 16
                        ==> self.chunk_map.as_map()[IVec3 { x: spawn_x, y: cy as i32, z: spawn_z }]
                            .blocks.view()[#[trigger] column_index(y2)].id == BlockID::Air
                    &&& forall|cy2: int| cy < cy2 <= self.config.world_height as int
                        ==> #[trigger] spec_column_clear(*self, spawn_x, spawn_z, cy2)
                    &&& h == cy * (CHUNK_SIZE as int) + y + 2
                },
                // The missing chunk is the topmost unexamined one:
                // every chunk above it is resident and all air.
                SpawnScan::NeedsChunk(c) => {
                    &&& c.x == spawn_x
                    &&& c.z == spawn_z
                    &&& 0 <= c.y <= self.config.world_height as int
                    &&& !self.resident(c)
                    &&& forall|cy2: int| c.y < cy2 <= self.config.world_height as int
                        ==> #[trigger] spec_column_clear(*self, spawn_x, spawn_z, cy2)
                },
                // The fallback fires only when the whole column is
                // resident air, and spawns above the world ceiling.
                SpawnScan::AllAir(h) => {
                    &&& forall|cy2: int| 0 <= cy2 <= self.config.world_height as int
                        ==> #[trigger] spec_column_clear(*self, spawn_x, spawn_z, cy2)
                    &&& h == self.config.world_height as int * (CHUNK_SIZE as int) + 2
                },
            },
    {
        let mut cy: i32 = self.config.world_height;
        while cy >= 0
            invariant
                self.wf(),
                0 - 1 <= cy <= self.config.world_height,
                forall|cy2: int| cy < cy2 <= self.config.world_height as int
                    ==> #[trigger] spec_column_clear(*self, spawn_x, spawn_z, cy2),
            decreases cy + 1,
        {
            let c = IVec3 { x: spawn_x, y: cy, z: spawn_z };
            match self.get_chunk(c) {
                Some(chunk) => {
                    match first_non_air_from_top(&chunk.blocks) {
                        Some(y) => {
                            proof {
                                let cyi = cy as int;
                                let yi = y as int;
                                assert(self.resident(IVec3 {
                                    x: spawn_x,
                                    y: cyi as i32,
                                    z: spawn_z,
                                }));
                                assert(self.chunk_map.as_map()[IVec3 {
                                    x: spawn_x,
                                    y: cyi as i32,
                                    z: spawn_z,
                                }].blocks.view()[column_index(yi)].id != BlockID::Air);
                            }
                            return SpawnScan::Height(cy * CHUNK_SIZE + (y as i32) + 2);
                        },
                        None => {
                            proof {
                                assert(spec_column_clear(*self, spawn_x, spawn_z, cy as int));
                            }
                        },
                    }
                },
                None => {
                    return SpawnScan::NeedsChunk(c);
                },
            }
            cy = cy - 1;
        }
        SpawnScan::AllAir(self.config.world_height * CHUNK_SIZE + 2)
    }
}

} // verus!
