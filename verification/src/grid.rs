//! A dense 2D array over a flat vector, indexed in row-major order by
//! (x, y) with x as the slower-varying coordinate.

use vstd::prelude::*;

verus! {

/// Largest side length a grid may have. Keeping both extents under this
/// bound keeps every coordinate computation comfortably inside `i32`.
pub const MAX_GRID_DIM: usize = 0x4000;

#[derive(Debug, PartialEq, Eq)]
pub struct Grid<T> {
    pub size_x: usize,
    pub size_y: usize,
    pub data: Vec<T>,
}

impl<T: Copy> Grid<T> {
    /// Both extents are positive and bounded, and the backing vector holds
    /// exactly one element per (x, y) pair.
    pub open spec fn wf(self) -> bool {
        &&& 1 <= self.size_x <= MAX_GRID_DIM
        &&& 1 <= self.size_y <= MAX_GRID_DIM
        &&& self.data.len() == self.size_x * self.size_y
    }

    pub open spec fn spec_size_x(self) -> int {
        self.size_x as int
    }

    pub open spec fn spec_size_y(self) -> int {
        self.size_y as int
    }

    pub open spec fn in_bounds(self, x: int, y: int) -> bool {
        0 <= x < self.size_x && 0 <= y < self.size_y
    }

    pub open spec fn at(self, x: int, y: int) -> T {
        self.data[x * self.size_y + y]
    }

    proof fn lemma_index(self, x: int, y: int)
        requires
            self.wf(),
            self.in_bounds(x, y),
        ensures
            0 <= x * self.size_y + y < self.data.len(),
    {
        assert(x * self.size_y + y < self.size_x * self.size_y) by (nonlinear_arith)
            requires
                0 <= x < self.size_x,
                0 <= y < self.size_y,
        ;
        assert(x * self.size_y + y >= 0) by (nonlinear_arith)
            requires
                x >= 0,
                y >= 0,
                self.size_y >= 1,
        ;
    }

    /// Distinct in-bounds coordinate pairs map to distinct flat indices.
    proof fn lemma_index_injective(self, x0: int, y0: int, x1: int, y1: int)
        requires
            self.wf(),
            self.in_bounds(x0, y0),
            self.in_bounds(x1, y1),
            x0 * self.size_y + y0 == x1 * self.size_y + y1,
        ensures
            x0 == x1 && y0 == y1,
    {
        assert(x0 == x1 && y0 == y1) by (nonlinear_arith)
            requires
                0 <= y0 < self.size_y,
                0 <= y1 < self.size_y,
                x0 * self.size_y + y0 == x1 * self.size_y + y1,
        ;
    }

    pub fn new(size_x: usize, size_y: usize, fill: T) -> (g: Self)
        requires
            1 <= size_x <= MAX_GRID_DIM,
            1 <= size_y <= MAX_GRID_DIM,
        ensures
            g.wf(),
            g.spec_size_x() == size_x,
            g.spec_size_y() == size_y,
            forall|x: int, y: int| g.in_bounds(x, y) ==> g.at(x, y) == fill,
    {
        proof {
            assert(size_x * size_y <= MAX_GRID_DIM * MAX_GRID_DIM) by (nonlinear_arith)
                requires
                    1 <= size_x <= MAX_GRID_DIM,
                    1 <= size_y <= MAX_GRID_DIM,
            ;
        }
        let n = size_x * size_y;
        let mut data: Vec<T> = Vec::new();
        let mut i: usize = 0;
        while i < n
            invariant
                i <= n,
                n == size_x * size_y,
                data.len() == i,
                forall|k: int| 0 <= k < i ==> data[k] == fill,
            decreases n - i,
        {
            data.push(fill);
            i += 1;
        }
        let g = Grid { size_x, size_y, data };
        proof {
            assert forall|x: int, y: int| g.in_bounds(x, y) implies g.at(x, y) == fill by {
                g.lemma_index(x, y);
            }
        }
        g
    }

    pub fn size_x(&self) -> (r: usize)
        ensures
            r == self.spec_size_x(),
    {
        self.size_x
    }

    pub fn size_y(&self) -> (r: usize)
        ensures
            r == self.spec_size_y(),
    {
        self.size_y
    }

    pub fn get(&self, x: usize, y: usize) -> (r: T)
        requires
            self.wf(),
            self.in_bounds(x as int, y as int),
        ensures
            r == self.at(x as int, y as int),
    {
        proof {
            self.lemma_index(x as int, y as int);
        }
        self.data[x * self.size_y + y]
    }

    pub fn set(&mut self, x: usize, y: usize, v: T)
        requires
            old(self).wf(),
            old(self).in_bounds(x as int, y as int),
        ensures
            final(self).wf(),
            final(self).spec_size_x() == old(self).spec_size_x(),
            final(self).spec_size_y() == old(self).spec_size_y(),
            final(self).at(x as int, y as int) == v,
            forall|i: int, j: int|
                final(self).in_bounds(i, j) && !(i == x && j == y) ==> final(self).at(i, j) == old(self).at(i, j),
    {
        proof {
            self.lemma_index(x as int, y as int);
        }
        let idx = x * self.size_y + y;
        self.data.set(idx, v);
        proof {
            assert forall|i: int, j: int|
                self.in_bounds(i, j) && !(i == x && j == y) implies self.at(i, j) == old(self).at(
                i,
                j,
            ) by {
                self.lemma_index(i, j);
                if i * self.size_y + j == x * self.size_y + y {
                    self.lemma_index_injective(i, j, x as int, y as int);
                }
            }
        }
    }

    /// Whether a signed coordinate pair lies on the grid.
    pub fn contains(&self, x: i32, y: i32) -> (r: bool)
        requires
            self.wf(),
        ensures
            r == self.in_bounds(x as int, y as int),
    {
        x >= 0 && y >= 0 && (x as usize) < self.size_x && (y as usize) < self.size_y
    }

    /// Read through signed coordinates, handing back `default` off the grid.
    pub fn get_or(&self, x: i32, y: i32, default: T) -> (r: T)
        requires
            self.wf(),
        ensures
            self.in_bounds(x as int, y as int) ==> r == self.at(x as int, y as int),
            !self.in_bounds(x as int, y as int) ==> r == default,
    {
        if self.contains(x, y) {
            self.get(x as usize, y as usize)
        } else {
            default
        }
    }

}

} // verus!
