//! A dense, sized 3D grid backed by a `Vec`, indexed by integer
//! positions with `x` fastest and `z` slowest.

use vstd::prelude::*;
use crate::coords::IVec3;

verus! {

pub struct Grid3<T> {
    pub data: Vec<T>,
    pub size_x: usize,
    pub size_y: usize,
    pub size_z: usize,
}

impl<T> Grid3<T> {
    /// The elements in linear scan order.
    pub open spec fn view(&self) -> Seq<T> {
        self.data@
    }

    pub open spec fn sx(&self) -> int {
        self.size_x as int
    }

    pub open spec fn sy(&self) -> int {
        self.size_y as int
    }

    pub open spec fn sz(&self) -> int {
        self.size_z as int
    }

    /// The backing vector holds exactly one element per grid cell.
    pub open spec fn wf(&self) -> bool {
        self.data@.len() == self.sx() * self.sy() * self.sz()
    }

    /// Linear index of a position, `x` fastest, `z` slowest.
    pub open spec fn idx(&self, p: IVec3) -> int {
        p.x + p.y * self.sx() + p.z * self.sx() * self.sy()
    }

    pub open spec fn spec_in_bounds(&self, p: IVec3) -> bool {
        0 <= p.x < self.sx() && 0 <= p.y < self.sy() && 0 <= p.z < self.sz()
    }

    /// A position inside the bounds has a linear index inside the data.
    pub proof fn lemma_idx_in_range(&self, p: IVec3)
        requires
            self.spec_in_bounds(p),
        ensures
            0 <= self.idx(p) < self.sx() * self.sy() * self.sz(),
    {
        lemma_linear_index_bounds(p.x as int, p.y as int, p.z as int, self.sx(), self.sy(), self.sz());
    }

    /// Creates a grid with every cell set to the given value.
    pub fn filled(value: T, size_x: usize, size_y: usize, size_z: usize) -> (r: Grid3<T>)
        where T: Copy
        requires
            size_x * size_y <= usize::MAX,
            size_x * size_y * size_z <= usize::MAX,
        ensures
            r.wf(),
            r.sx() == size_x,
            r.sy() == size_y,
            r.sz() == size_z,
            r.view() == Seq::new((size_x * size_y * size_z) as nat, |i: int| value),
    {
        proof {
            lemma_volume_factor_bounds(size_x as int, size_y as int, size_z as int);
        }
        let plane: usize = size_x * size_y;
        let vol: usize = plane * size_z;
        let mut data: Vec<T> = Vec::new();
        let mut i: usize = 0;
        while i < vol
            invariant
                i <= vol,
                data@.len() == i,
                forall|j: int| 0 <= j < i ==> data@[j] == value,
            decreases vol - i,
        {
            data.push(value);
            i = i + 1;
        }
        let r = Grid3 { data, size_x, size_y, size_z };
        proof {
            assert(r.view() =~= Seq::new((size_x * size_y * size_z) as nat, |i: int| value));
        }
        r
    }

    /// Wraps existing linear data as a grid of the given dimensions.
    pub fn from_data(data: Vec<T>, size_x: usize, size_y: usize, size_z: usize) -> (r: Grid3<T>)
        requires
            data@.len() == size_x * size_y * size_z,
        ensures
            r.wf(),
            r.sx() == size_x,
            r.sy() == size_y,
            r.sz() == size_z,
            r.view() == data@,
    {
        Grid3 { data, size_x, size_y, size_z }
    }

    pub fn width(&self) -> (r: usize)
        ensures
            r == self.sx(),
    {
        self.size_x
    }

    pub fn height(&self) -> (r: usize)
        ensures
            r == self.sy(),
    {
        self.size_y
    }

    pub fn length(&self) -> (r: usize)
        ensures
            r == self.sz(),
    {
        self.size_z
    }

    /// How many cells are in the grid.
    pub fn len(&self) -> (r: usize)
        ensures
            r == self.view().len(),
    {
        self.data.len()
    }

    pub fn in_bounds(&self, p: IVec3) -> (r: bool)
        ensures
            r == self.spec_in_bounds(p),
    {
        0 <= p.x && (p.x as usize) < self.size_x
            && 0 <= p.y && (p.y as usize) < self.size_y
            && 0 <= p.z && (p.z as usize) < self.size_z
    }

    /// Linear index of an in-bounds position.
    pub fn transform_lti(&self, p: IVec3) -> (r: usize)
        requires
            self.wf(),
            self.spec_in_bounds(p),
        ensures
            r == self.idx(p),
            r < self.view().len(),
    {
        let n: usize = self.data.len();
        proof {
            self.lemma_idx_in_range(p);
            lemma_volume_factor_bounds(self.sx(), self.sy(), self.sz());
            lemma_linear_index_partials(p.x as int, p.y as int, p.z as int, self.sx(), self.sy(), self.sz());
        }
        p.x as usize + p.y as usize * self.size_x + p.z as usize * self.size_x * self.size_y
    }

    /// The value at a position, or `None` if it is out of bounds.
    pub fn get(&self, p: IVec3) -> (r: Option<&T>)
        requires
            self.wf(),
        ensures
            match r {
                Some(v) => self.spec_in_bounds(p) && *v == self.view()[self.idx(p)],
                None => !self.spec_in_bounds(p),
            },
    {
        if self.in_bounds(p) {
            let i = self.transform_lti(p);
            Some(&self.data[i])
        } else {
            None
        }
    }

    /// The value at an in-bounds position.
    pub fn at(&self, p: IVec3) -> (r: &T)
        requires
            self.wf(),
            self.spec_in_bounds(p),
        ensures
            *r == self.view()[self.idx(p)],
    {
        let i = self.transform_lti(p);
        &self.data[i]
    }

    /// Overwrites the value at an in-bounds position.
    pub fn set(&mut self, p: IVec3, value: T)
        requires
            old(self).wf(),
            old(self).spec_in_bounds(p),
        ensures
            final(self).wf(),
            final(self).sx() == old(self).sx(),
            final(self).sy() == old(self).sy(),
            final(self).sz() == old(self).sz(),
            final(self).view() == old(self).view().update(old(self).idx(p), value),
    {
        let i = self.transform_lti(p);
        self.data.set(i, value);
    }
}

/// Bounded coordinates give a linear index inside the volume.
pub proof fn lemma_linear_index_bounds(x: int, y: int, z: int, sx: int, sy: int, sz: int)
    by (nonlinear_arith)
    requires
        0 <= x < sx,
        0 <= y < sy,
        0 <= z < sz,
    ensures
        0 <= x + y * sx + z * sx * sy < sx * sy * sz,
{
}

/// Every partial sum of the linear index stays within the volume.
pub proof fn lemma_linear_index_partials(x: int, y: int, z: int, sx: int, sy: int, sz: int)
    by (nonlinear_arith)
    requires
        0 <= x < sx,
        0 <= y < sy,
        0 <= z < sz,
    ensures
        y * sx <= sx * sy * sz,
        z * sx <= sx * sy * sz,
        z * sx * sy <= sx * sy * sz,
        x + y * sx + z * sx * sy < sx * sy * sz,
{
}

/// The plane size is bounded by the volume whenever the depth is
/// positive, and the volume is the plane size times the depth.
pub proof fn lemma_volume_factor_bounds(sx: int, sy: int, sz: int)
    by (nonlinear_arith)
    requires
        0 <= sx,
        0 <= sy,
        0 <= sz,
    ensures
        sz > 0 ==> sx * sy <= sx * sy * sz,
        (sx * sy) * sz == sx * sy * sz,
        sz == 0 ==> sx * sy * sz == 0,
{
}

} // verus!
