use vstd::prelude::*;
use vstd::arithmetic::div_mod::lemma_fundamental_div_mod_converse;

verus! {

/// A cell of the grid at column `x = loc % sx` and row `y = loc / sx` is
/// interior when it is not part of the one-cell border ring.  Only interior
/// cells are ever visited by a simulation phase; the ring acts as a fixed,
/// impermeable boundary.
pub open spec fn interior_at(sx: int, sy: int, loc: int) -> bool {
    &&& 1 <= loc % sx < sx - 1
    &&& 1 <= loc / sx < sy - 1
}

/// The linear index of the `k`-th interior cell in row-major traversal
/// order, for a grid `sx` cells wide.
pub open spec fn interior_index(sx: int, k: int) -> int {
    let w = sx - 2;
    (1 + k % w) + (1 + k / w) * sx
}

/// Dimension metadata and neighbor-index arithmetic for a rectangular grid
/// of `size_x * size_y` cells, linearly indexed as `x + y * size_x`.
pub struct Grid {
    pub size_x: usize,
    pub size_y: usize,
}

impl Grid {
    /// Both dimensions hold a one-cell border ring around a non-empty
    /// interior, and the cell count fits the address space.
    pub open spec fn wf(&self) -> bool {
        &&& 3 <= self.size_x
        &&& 3 <= self.size_y
        &&& self.size_x * self.size_y <= usize::MAX
    }

    pub open spec fn n(&self) -> int {
        self.size_x * self.size_y
    }

    pub open spec fn interior(&self, loc: int) -> bool {
        interior_at(self.size_x as int, self.size_y as int, loc)
    }

    pub fn new(size_x: usize, size_y: usize) -> (g: Grid)
        requires
            3 <= size_x,
            3 <= size_y,
            size_x * size_y <= usize::MAX,
        ensures
            g.size_x == size_x,
            g.size_y == size_y,
            g.wf(),
    {
        Grid { size_x, size_y }
    }

    pub fn left(&self, loc: usize) -> (r: usize)
        requires
            1 <= loc,
        ensures
            r == loc - 1,
    {
        loc - 1
    }

    pub fn right(&self, loc: usize) -> (r: usize)
        requires
            loc + 1 <= usize::MAX,
        ensures
            r == loc + 1,
    {
        loc + 1
    }

    pub fn up(&self, loc: usize) -> (r: usize)
        requires
            self.size_x <= loc,
        ensures
            r == loc - self.size_x,
    {
        loc - self.size_x
    }

    pub fn down(&self, loc: usize) -> (r: usize)
        requires
            loc + self.size_x <= usize::MAX,
        ensures
            r == loc + self.size_x,
    {
        loc + self.size_x
    }

    /// The linear indices of every interior cell, in row-major traversal
    /// order.  This is the sequential visiting order of the simulation
    /// phases; a parallel runner may partition it by rows, since distinct
    /// rows cover disjoint index ranges.
    pub fn apply(&self) -> (v: Vec<usize>)
        requires
            self.wf(),
        ensures
            v@.len() == (self.size_x - 2) * (self.size_y - 2),
            forall|k: int|
                0 <= k < v@.len() ==> #[trigger] v@[k] == interior_index(
                    self.size_x as int,
                    k,
                ),
            forall|k: int| 0 <= k < v@.len() ==> self.interior(#[trigger] v@[k] as int),
    {
        let sx = self.size_x;
        let sy = self.size_y;
        let mut v: Vec<usize> = Vec::new();
        let mut y: usize = 1;
        while y < sy - 1
            invariant
                3 <= sx,
                3 <= sy,
                sx * sy <= usize::MAX,
                1 <= y <= sy - 1,
                v@.len() == (sx - 2) * (y - 1),
                forall|k: int|
                    0 <= k < v@.len() ==> #[trigger] v@[k] == interior_index(sx as int, k),
                forall|k: int| 0 <= k < v@.len() ==> interior_at(sx as int, sy as int, #[trigger] v@[k] as int),
            decreases sy - 1 - y,
        {
            let mut x: usize = 1;
            while x < sx - 1
                invariant
                    3 <= sx,
                    3 <= sy,
                    sx * sy <= usize::MAX,
                    1 <= y < sy - 1,
                    1 <= x <= sx - 1,
                    v@.len() == (sx - 2) * (y - 1) + (x - 1),
                    forall|k: int|
                        0 <= k < v@.len() ==> #[trigger] v@[k] == interior_index(sx as int, k),
                    forall|k: int| 0 <= k < v@.len() ==> interior_at(sx as int, sy as int, #[trigger] v@[k] as int),
                decreases sx - 1 - x,
            {
                proof {
                    assert((sy - 2) * sx + sx - 2 < sx * sy) by (nonlinear_arith)
                        requires
                            3 <= sx,
                            3 <= sy,
                    ;
                    assert(y * sx <= (sy - 2) * sx) by (nonlinear_arith)
                        requires
                            1 <= y <= sy - 2,
                            3 <= sx,
                    ;
                }
                let loc = x + y * sx;
                proof {
                    lemma_fundamental_div_mod_converse(loc as int, sx as int, y as int, x as int);
                    let k = v@.len() as int;
                    assert(k == (sx - 2) * (y - 1) + (x - 1));
                    lemma_fundamental_div_mod_converse(k, sx - 2, y - 1, x - 1);
                    assert(interior_index(sx as int, k) == loc);
                }
                v.push(loc);
                x += 1;
            }
            proof {
                assert((sx - 2) * (y - 1) + (sx - 1 - 1) == (sx - 2) * ((y + 1) - 1))
                    by (nonlinear_arith)
                    requires
                        3 <= sx,
                ;
            }
            y += 1;
        }
        v
    }
}

/// For a well-formed grid, an interior cell and all four of its neighbors
/// lie strictly inside the index range, and the vertical neighbors are a
/// full row away.
pub proof fn lemma_interior_bounds(sx: int, sy: int, loc: int)
    requires
        3 <= sx,
        3 <= sy,
        interior_at(sx, sy, loc),
    ensures
        sx <= loc - 1,
        loc + sx < sx * sy - 1,
        0 <= loc - sx,
        1 <= loc - 1,
        (loc - 1) / sx == loc / sx,
        (loc + 1) / sx == loc / sx,
{
    let x = loc % sx;
    let y = loc / sx;
    vstd::arithmetic::div_mod::lemma_fundamental_div_mod(loc, sx);
    assert(loc == y * sx + x) by (nonlinear_arith)
        requires
            loc == sx * y + x,
    ;
    assert(sx + 1 <= loc && loc + sx + 1 < sx * sy) by (nonlinear_arith)
        requires
            loc == y * sx + x,
            1 <= x < sx - 1,
            1 <= y < sy - 1,
            3 <= sx,
            3 <= sy,
    ;
    lemma_fundamental_div_mod_converse(loc - 1, sx, y, x - 1);
    lemma_fundamental_div_mod_converse(loc + 1, sx, y, x + 1);
}

} // verus!
