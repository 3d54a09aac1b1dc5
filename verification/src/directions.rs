//! The six orthogonal grid directions.

use vstd::prelude::*;
use crate::coords::IVec3;

verus! {

/// Six orthogonal directions on the block grid.
#[derive(Clone, Copy, PartialEq, Eq, Structural, Debug)]
pub enum Dir6 {
    Up,
    Down,
    North,
    South,
    East,
    West,
}

/// The unit offset of a direction.
pub open spec fn spec_dir6_offset(d: Dir6) -> IVec3 {
    match d {
        Dir6::Up => IVec3 { x: 0, y: 1, z: 0 },
        Dir6::Down => IVec3 { x: 0, y: -1i32, z: 0 },
        Dir6::North => IVec3 { x: 0, y: 0, z: 1 },
        Dir6::South => IVec3 { x: 0, y: 0, z: -1i32 },
        Dir6::East => IVec3 { x: 1, y: 0, z: 0 },
        Dir6::West => IVec3 { x: -1i32, y: 0, z: 0 },
    }
}

impl Dir6 {
    /// The unit offset of this direction.
    pub fn offset(self) -> (r: IVec3)
        ensures
            r == spec_dir6_offset(self),
    {
        match self {
            Dir6::Up => IVec3 { x: 0, y: 1, z: 0 },
            Dir6::Down => IVec3 { x: 0, y: -1, z: 0 },
            Dir6::North => IVec3 { x: 0, y: 0, z: 1 },
            Dir6::South => IVec3 { x: 0, y: 0, z: -1 },
            Dir6::East => IVec3 { x: 1, y: 0, z: 0 },
            Dir6::West => IVec3 { x: -1, y: 0, z: 0 },
        }
    }

    /// The direction a vector points in by its signs, or `None` if it
    /// is not aligned with exactly one axis.
    pub fn from_point(p: IVec3) -> (r: Option<Dir6>)
        ensures
            match r {
                Some(d) => spec_dir6_offset(d) == (IVec3 {
                    x: spec_signum(p.x),
                    y: spec_signum(p.y),
                    z: spec_signum(p.z),
                }),
                None => forall|d: Dir6| spec_dir6_offset(d) != (IVec3 {
                    x: spec_signum(p.x),
                    y: spec_signum(p.y),
                    z: spec_signum(p.z),
                }),
            },
    {
        let sx = signum(p.x);
        let sy = signum(p.y);
        let sz = signum(p.z);
        if sx == 0 && sy == 1 && sz == 0 {
            Some(Dir6::Up)
        } else if sx == 0 && sy == -1 && sz == 0 {
            Some(Dir6::Down)
        } else if sx == 1 && sy == 0 && sz == 0 {
            Some(Dir6::East)
        } else if sx == -1 && sy == 0 && sz == 0 {
            Some(Dir6::West)
        } else if sx == 0 && sy == 0 && sz == 1 {
            Some(Dir6::North)
        } else if sx == 0 && sy == 0 && sz == -1 {
            Some(Dir6::South)
        } else {
            None
        }
    }
}

pub open spec fn spec_signum(a: i32) -> i32 {
    if a > 0 {
        1
    } else if a < 0 {
        -1i32
    } else {
        0
    }
}

fn signum(a: i32) -> (r: i32)
    ensures
        r == spec_signum(a),
{
    if a > 0 {
        1
    } else if a < 0 {
        -1
    } else {
        0
    }
}

/// The six orthogonal neighbors of a position, in a fixed order: up,
/// down, north, south, east, west.
pub fn adj_6(p: IVec3) -> (r: Vec<IVec3>)
    requires
        -1000000000 <= p.x <= 1000000000,
        -1000000000 <= p.y <= 1000000000,
        -1000000000 <= p.z <= 1000000000,
    ensures
        r@.len() == 6,
        r@[0] == (IVec3 { x: p.x, y: (p.y + 1) as i32, z: p.z }),
        r@[1] == (IVec3 { x: p.x, y: (p.y - 1) as i32, z: p.z }),
        r@[2] == (IVec3 { x: p.x, y: p.y, z: (p.z + 1) as i32 }),
        r@[3] == (IVec3 { x: p.x, y: p.y, z: (p.z - 1) as i32 }),
        r@[4] == (IVec3 { x: (p.x + 1) as i32, y: p.y, z: p.z }),
        r@[5] == (IVec3 { x: (p.x - 1) as i32, y: p.y, z: p.z }),
{
    let mut out: Vec<IVec3> = Vec::new();
    out.push(IVec3 { x: p.x, y: p.y + 1, z: p.z });
    out.push(IVec3 { x: p.x, y: p.y - 1, z: p.z });
    out.push(IVec3 { x: p.x, y: p.y, z: p.z + 1 });
    out.push(IVec3 { x: p.x, y: p.y, z: p.z - 1 });
    out.push(IVec3 { x: p.x + 1, y: p.y, z: p.z });
    out.push(IVec3 { x: p.x - 1, y: p.y, z: p.z });
    out
}

} // verus!
