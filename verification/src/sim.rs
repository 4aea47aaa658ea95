use vstd::prelude::*;
use crate::arith::{div_nn, muldiv};
use crate::config::{SimulationVariables, CONFIG_LIMIT, SCALE};
use crate::grid::{interior_at, lemma_interior_bounds, Grid};
use vstd::arithmetic::div_mod::{lemma_div_multiples_vanish, lemma_fundamental_div_mod_converse};
use crate::heights::Heights;
use crate::model::{
    bounded, border_flux_zero, boundary_cell, boundary_map, capacity_at, erosion_cell,
    erosion_map, evap_cell, evap_factor, evap_map, flux_bounds, flux_cell, flux_map,
    heights_bounds, lemma_flux_cell_congr, nonneg, rain_amount, rain_map, sediment_cell,
    sediment_share, share, step_map, to_height, transport_map, water_cell, water_share, PipesV,
    StateV, FLUX_LIMIT, HEIGHT_LIMIT, LIQUID_MID,
};
use crate::pipes::CellPipes;
use crate::bounds::{lemma_after_erosion, lemma_after_evap, lemma_after_flux_boundary, lemma_after_rain, lemma_after_transport};
use vstd::arithmetic::div_mod::lemma_div_is_ordered;
use vstd::arithmetic::mul::{lemma_mul_nonnegative, lemma_mul_upper_bound};

verus! {

/// The simulator: configuration, grid metadata, the flux field, and the
/// double-buffered height fields (`heights` is authoritative,
/// `temp_heights` is the scratch target of the transport and steepness
/// phases until the commit swaps the two).
pub struct WaterSimulator {
    pub sv: SimulationVariables,
    pub grid: Grid,
    pub pipes: Vec<CellPipes>,
    pub heights: Heights,
    pub temp_heights: Heights,
}

impl WaterSimulator {
    /// The authoritative state as a value of the mathematical model.
    pub open spec fn model(&self) -> StateV {
        StateV {
            sx: self.grid.size_x as int,
            sy: self.grid.size_y as int,
            terrain: self.heights.t(),
            water: self.heights.w(),
            sediment: self.heights.s(),
            flux: self.pipes@.map_values(|c: CellPipes| c.v()),
        }
    }

    /// Structural well-formedness: a bordered grid, and all five arrays
    /// covering exactly its cells.
    pub open spec fn wf(&self) -> bool {
        &&& self.grid.wf()
        &&& self.heights.wf_len(self.grid.n())
        &&& self.temp_heights.wf_len(self.grid.n())
        &&& self.pipes@.len() == self.grid.n()
    }

    /// A fresh simulator: everything zero-initialized, allocated once for
    /// the simulator's entire lifetime.
    pub fn new(sv: SimulationVariables, size_x: usize, size_y: usize) -> (ws: WaterSimulator)
        requires
            3 <= size_x,
            3 <= size_y,
            size_x * size_y <= usize::MAX,
        ensures
            ws.wf(),
            ws.sv == sv,
            ws.grid.size_x == size_x,
            ws.grid.size_y == size_y,
            forall|loc: int|
                0 <= loc < ws.model().n() ==> {
                    &&& #[trigger] ws.model().terrain[loc] == 0
                    &&& ws.model().water[loc] == 0
                    &&& ws.model().sediment[loc] == 0
                    &&& ws.model().flux[loc] == (PipesV { left: 0, right: 0, up: 0, down: 0 })
                },
            nonneg(ws.model()),
            bounded(ws.model()),
            border_flux_zero(ws.model()),
    {
        let num_elems = size_x * size_y;
        WaterSimulator {
            sv,
            grid: Grid::new(size_x, size_y),
            pipes: zero_pipes(num_elems),
            heights: Heights::new(num_elems),
            temp_heights: Heights::new(num_elems),
        }
    }

    pub fn size_x(&self) -> (r: usize)
        ensures
            r == self.grid.size_x,
    {
        self.grid.size_x
    }

    pub fn size_y(&self) -> (r: usize)
        ensures
            r == self.grid.size_y,
    {
        self.grid.size_y
    }

    pub fn terrain_height(&self) -> (r: &Vec<i128>)
        ensures
            r@ == self.heights.terrain_height@,
    {
        &self.heights.terrain_height
    }

    pub fn water_height(&self) -> (r: &Vec<i128>)
        ensures
            r@ == self.heights.water_height@,
    {
        &self.heights.water_height
    }

    pub fn sediment_height(&self) -> (r: &Vec<i128>)
        ensures
            r@ == self.heights.sediment_height@,
    {
        &self.heights.sediment_height
    }

    /// Mutable access to the terrain array, for external seeding of the
    /// initial landscape.
    pub fn terrain_height_mut(&mut self) -> (r: &mut Vec<i128>)
        ensures
            *r == old(self).heights.terrain_height,
            *final(self) == (WaterSimulator {
                heights: (Heights {
                    terrain_height: *final(r),
                    ..old(self).heights
                }),
                ..*old(self)
            }),
    {
        &mut self.heights.terrain_height
    }

    /// Mutable access to the water array, for external seeding.
    pub fn water_height_mut(&mut self) -> (r: &mut Vec<i128>)
        ensures
            *r == old(self).heights.water_height,
            *final(self) == (WaterSimulator {
                heights: (Heights { water_height: *final(r), ..old(self).heights }),
                ..*old(self)
            }),
    {
        &mut self.heights.water_height
    }

    /// Mutable access to the sediment array, for external seeding.
    pub fn sediment_height_mut(&mut self) -> (r: &mut Vec<i128>)
        ensures
            *r == old(self).heights.sediment_height,
            *final(self) == (WaterSimulator {
                heights: (Heights {
                    sediment_height: *final(r),
                    ..old(self).heights
                }),
                ..*old(self)
            }),
    {
        &mut self.heights.sediment_height
    }
    /// Phase 1: rain `dt * rainfall` of extra water onto every interior
    /// cell, uniformly (the random-variance knob exists but is inert).
    pub fn add_rainfall(&mut self)
        requires
            old(self).wf(),
            old(self).sv.valid(),
            forall|j: int|
                0 <= j < old(self).model().n() ==> 0 <= #[trigger] old(self).model().water[j]
                    <= HEIGHT_LIMIT,
        ensures
            final(self).wf(),
            final(self).sv == old(self).sv,
            final(self).grid == old(self).grid,
            final(self).pipes == old(self).pipes,
            final(self).heights.terrain_height == old(self).heights.terrain_height,
            final(self).heights.sediment_height == old(self).heights.sediment_height,
            final(self).temp_heights == old(self).temp_heights,
            final(self).model() == rain_map(old(self).sv, old(self).model()),
    {
        proof {
            lemma_mul_upper_bound(
                self.sv.dt as int,
                CONFIG_LIMIT as int,
                self.sv.rainfall as int,
                CONFIG_LIMIT as int,
            );
        }
        let add = muldiv(self.sv.dt, self.sv.rainfall, SCALE);
        proof {
            lemma_div_is_ordered(
                self.sv.dt * self.sv.rainfall,
                10_000_000_000_000_000,
                SCALE as int,
            );
        }
        let n = self.grid.size_x * self.grid.size_y;
        let mut loc: usize = 0;
        while loc < n
            invariant
                self.wf(),
                self.sv == old(self).sv,
                self.grid == old(self).grid,
                self.pipes == old(self).pipes,
                self.heights.terrain_height == old(self).heights.terrain_height,
                self.heights.sediment_height == old(self).heights.sediment_height,
                self.temp_heights == old(self).temp_heights,
                old(self).wf(),
                old(self).sv.valid(),
                forall|j: int|
                    0 <= j < old(self).model().n() ==> 0 <= #[trigger] old(self).model().water[j]
                        <= HEIGHT_LIMIT,
                n == self.grid.n(),
                loc <= n,
                add == rain_amount(old(self).sv),
                0 <= add <= 10_000_000_000,
                self.heights.water_height@.len() == n,
                forall|j: int|
                    0 <= j < loc ==> #[trigger] self.heights.w()[j] == (if old(
                        self,
                    ).model().interior(j) {
                        old(self).model().water[j] + rain_amount(old(self).sv)
                    } else {
                        old(self).model().water[j]
                    }),
                forall|j: int|
                    loc <= j < n ==> #[trigger] self.heights.water_height@[j] == old(
                        self,
                    ).heights.water_height@[j],
            decreases n - loc,
        {
            let ghost prev = *self;
            let ghost jj = loc as int;
            proof {
                assert(self.heights.water_height@[jj] == old(self).heights.water_height@[jj]);
                assert(old(self).model().water[jj] == old(self).heights.water_height@[jj] as int);
                assert(0 <= old(self).model().water[jj] <= HEIGHT_LIMIT);
            }
            let inter = is_interior(&self.grid, loc);
            if inter {
                let w = self.heights.water_height[loc];
                self.heights.water_height.set(loc, w + add);
            }
            proof {
                assert forall|j: int|
                    0 <= j < jj + 1 implies #[trigger] self.heights.w()[j] == (if old(
                        self,
                    ).model().interior(j) {
                        old(self).model().water[j] + rain_amount(old(self).sv)
                    } else {
                        old(self).model().water[j]
                    }) by {
                    if j < jj {
                        assert(prev.heights.w()[j] == (if old(self).model().interior(j) {
                            old(self).model().water[j] + rain_amount(old(self).sv)
                        } else {
                            old(self).model().water[j]
                        }));
                        assert(self.heights.water_height@[j] == prev.heights.water_height@[j]);
                    } else {
                        assert(self.heights.w()[jj] == self.heights.water_height@[jj] as int);
                    }
                }
            }
            loc += 1;
        }
        proof {
            assert(self.model() =~= rain_map(old(self).sv, old(self).model()));
        }
    }

    /// Compute the flux phase's new pipes for every cell of row `y`, from
    /// the current heights and the row's own pipes, writing nothing.
    /// Border columns come back unchanged.  The result depends only on
    /// state no flux write of this phase touches, so rows may be computed
    /// concurrently by a parallel runner and stored in any order.
    #[verifier::rlimit(30)]
    pub fn flux_row_values(&self, y: usize) -> (row: Vec<CellPipes>)
        requires
            self.wf(),
            self.sv.valid(),
            heights_bounds(self.model()),
            1 <= y < self.grid.size_y - 1,
            forall|x: int|
                0 <= x < self.grid.size_x ==> {
                    let p = #[trigger] self.model().flux[y * self.grid.size_x + x];
                    &&& 0 <= p.left <= FLUX_LIMIT
                    &&& 0 <= p.right <= FLUX_LIMIT
                    &&& 0 <= p.up <= FLUX_LIMIT
                    &&& 0 <= p.down <= FLUX_LIMIT
                },
        ensures
            row@.len() == self.grid.size_x,
            forall|x: int|
                0 <= x < self.grid.size_x ==> (#[trigger] row@[x]).v() == ({
                    let loc = y * self.grid.size_x + x;
                    if self.model().interior(loc) {
                        flux_cell(self.sv, self.model(), loc)
                    } else {
                        self.model().flux[loc]
                    }
                }),
    {
        let sx = self.grid.size_x;
        let sy = self.grid.size_y;
        let mut row: Vec<CellPipes> = Vec::new();
        let mut x: usize = 0;
        while x < sx
            invariant
                self.wf(),
                self.sv.valid(),
                heights_bounds(self.model()),
                1 <= y < sy - 1,
                sx == self.grid.size_x,
                sy == self.grid.size_y,
                x <= sx,
                row@.len() == x,
                forall|xx: int|
                    0 <= xx < self.grid.size_x ==> {
                        let p = #[trigger] self.model().flux[y * self.grid.size_x + xx];
                        &&& 0 <= p.left <= FLUX_LIMIT
                        &&& 0 <= p.right <= FLUX_LIMIT
                        &&& 0 <= p.up <= FLUX_LIMIT
                        &&& 0 <= p.down <= FLUX_LIMIT
                    },
                forall|k: int|
                    0 <= k < x ==> (#[trigger] row@[k]).v() == ({
                        let loc = y * sx + k;
                        if self.model().interior(loc) {
                            flux_cell(self.sv, self.model(), loc)
                        } else {
                            self.model().flux[loc]
                        }
                    }),
            decreases sx - x,
        {
            proof {
                assert(y * sx + x < sx * sy && (y + 1) * sx <= sx * sy) by (nonlinear_arith)
                    requires
                        1 <= y < sy - 1,
                        0 <= x < sx,
                        3 <= sx,
                        3 <= sy,
                ;
            }
            let loc = y * sx + x;
            proof {
                lemma_fundamental_div_mod_converse(loc as int, sx as int, y as int, x as int);
            }
            let c: CellPipes;
            if 1 <= x && x < sx - 1 {
                proof {
                    lemma_interior_bounds(sx as int, sy as int, loc as int);
                    let m = self.model();
                    assert(m.terrain[loc as int] == self.heights.terrain_height@[loc as int]
                        as int);
                    assert(-HEIGHT_LIMIT <= m.terrain[loc - 1] <= HEIGHT_LIMIT);
                    assert(-HEIGHT_LIMIT <= m.terrain[loc + 1] <= HEIGHT_LIMIT);
                    assert(-HEIGHT_LIMIT <= m.terrain[loc - sx] <= HEIGHT_LIMIT);
                    assert(-HEIGHT_LIMIT <= m.terrain[loc + sx] <= HEIGHT_LIMIT);
                    assert(-HEIGHT_LIMIT <= m.terrain[loc as int] <= HEIGHT_LIMIT);
                }
                let mut cp = self.pipes[loc];
                proof {
                    assert(self.model().flux[loc as int] == cp.v());
                }
                let here = self.heights.get_total_height(loc);
                let hl = self.heights.get_total_height(loc - 1);
                let hr = self.heights.get_total_height(loc + 1);
                let hu = self.heights.get_total_height(loc - sx);
                let hd = self.heights.get_total_height(loc + sx);
                cp.left.update(&self.sv, here, hl);
                cp.right.update(&self.sv, here, hr);
                cp.up.update(&self.sv, here, hu);
                cp.down.update(&self.sv, here, hd);
                let avail = self.heights.get_total_liquid_height(loc);
                cp.scale_back(avail);
                proof {
                    assert(cp.v() == flux_cell(self.sv, self.model(), loc as int));
                }
                c = cp;
            } else {
                c = self.pipes[loc];
                proof {
                    assert(!self.model().interior(loc as int));
                    assert(c.v() == self.model().flux[loc as int]);
                }
            }
            row.push(c);
            x += 1;
        }
        row
    }

    /// Write a row of pipes computed by `flux_row_values` back into the
    /// flux field.  Only row `y` changes.
    pub fn store_flux_row(&mut self, y: usize, row: &Vec<CellPipes>)
        requires
            old(self).wf(),
            y < old(self).grid.size_y,
            row@.len() == old(self).grid.size_x,
        ensures
            final(self).wf(),
            final(self).sv == old(self).sv,
            final(self).grid == old(self).grid,
            final(self).heights == old(self).heights,
            final(self).temp_heights == old(self).temp_heights,
            forall|j: int|
                0 <= j < old(self).grid.n() ==> final(self).pipes@[j] == (if y
                    * old(self).grid.size_x <= j < y * old(self).grid.size_x
                    + old(self).grid.size_x {
                    row@[j - y * old(self).grid.size_x]
                } else {
                    old(self).pipes@[j]
                }),
    {
        let sx = self.grid.size_x;
        let sy = self.grid.size_y;
        proof {
            assert(y * sx + sx <= sx * sy) by (nonlinear_arith)
                requires
                    0 <= y < sy,
                    0 < sx,
            ;
        }
        let base = y * sx;
        let mut x: usize = 0;
        while x < sx
            invariant
                self.wf(),
                self.sv == old(self).sv,
                self.grid == old(self).grid,
                self.heights == old(self).heights,
                self.temp_heights == old(self).temp_heights,
                old(self).wf(),
                sx == self.grid.size_x,
                base == y * sx,
                base + sx <= self.grid.n(),
                row@.len() == sx,
                x <= sx,
                self.pipes@.len() == old(self).pipes@.len(),
                forall|j: int|
                    base <= j < base + x ==> #[trigger] self.pipes@[j] == row@[j - base],
                forall|j: int|
                    0 <= j < self.grid.n() && !(base <= j < base + x) ==> #[trigger] self.pipes@[j]
                        == old(self).pipes@[j],
            decreases sx - x,
        {
            self.pipes.set(base + x, row[x]);
            x += 1;
        }
    }

    /// Phase 2: update the whole flux field from the current heights, one
    /// row at a time through `flux_row_values`.
    pub fn update_flux(&mut self)
        requires
            old(self).wf(),
            old(self).sv.valid(),
            heights_bounds(old(self).model()),
            flux_bounds(old(self).model()),
        ensures
            final(self).wf(),
            final(self).sv == old(self).sv,
            final(self).grid == old(self).grid,
            final(self).heights == old(self).heights,
            final(self).temp_heights == old(self).temp_heights,
            final(self).model() == flux_map(old(self).sv, old(self).model()),
    {
        let sx = self.grid.size_x;
        let sy = self.grid.size_y;
        proof {
            assert forall|j: int|
                0 <= j < 1 * (sx as int) implies (#[trigger] self.pipes@[j]).v() == (if old(
                    self,
                ).model().interior(j) {
                    flux_cell(old(self).sv, old(self).model(), j)
                } else {
                    old(self).model().flux[j]
                }) by {
                lemma_fundamental_div_mod_converse(j, sx as int, 0, j);
                assert(!old(self).model().interior(j));
                assert(sx as int <= sx as int * (sy as int)) by (nonlinear_arith)
                    requires
                        3 <= sx,
                        3 <= sy,
                ;
                assert(old(self).model().flux[j] == (old(self).pipes@[j]).v());
            }
        }
        let mut y: usize = 1;
        while y < sy - 1
            invariant
                self.wf(),
                self.sv == old(self).sv,
                self.grid == old(self).grid,
                self.heights == old(self).heights,
                self.temp_heights == old(self).temp_heights,
                old(self).wf(),
                old(self).sv.valid(),
                heights_bounds(old(self).model()),
                flux_bounds(old(self).model()),
                sx == self.grid.size_x,
                sy == self.grid.size_y,
                1 <= y <= sy - 1,
                self.pipes@.len() == self.grid.n(),
                forall|j: int|
                    0 <= j < y * sx ==> (#[trigger] self.pipes@[j]).v() == (if old(
                        self,
                    ).model().interior(j) {
                        flux_cell(old(self).sv, old(self).model(), j)
                    } else {
                        old(self).model().flux[j]
                    }),
                forall|j: int|
                    y * sx <= j < self.grid.n() ==> #[trigger] self.pipes@[j] == old(
                        self,
                    ).pipes@[j],
            decreases sy - 1 - y,
        {
            proof {
                assert((y + 1) * sx == y * sx + sx && y * sx + sx <= sx * sy) by (nonlinear_arith)
                    requires
                        1 <= y < sy - 1,
                        3 <= sx,
                        3 <= sy,
                ;
                assert forall|j: int|
                    0 <= j < self.model().n() implies {
                    &&& -HEIGHT_LIMIT <= #[trigger] self.model().terrain[j] <= HEIGHT_LIMIT
                    &&& 0 <= self.model().water[j] <= 2 * HEIGHT_LIMIT
                    &&& 0 <= self.model().sediment[j] <= HEIGHT_LIMIT
                } by {
                    assert(-HEIGHT_LIMIT <= old(self).model().terrain[j] <= HEIGHT_LIMIT);
                    assert(self.model().terrain[j] == old(self).model().terrain[j]);
                    assert(self.model().water[j] == old(self).model().water[j]);
                    assert(self.model().sediment[j] == old(self).model().sediment[j]);
                }
                assert(heights_bounds(self.model()));
                assert forall|x: int|
                    0 <= x < sx implies {
                    let p = #[trigger] self.model().flux[y * sx + x];
                    &&& 0 <= p.left <= FLUX_LIMIT
                    &&& 0 <= p.right <= FLUX_LIMIT
                    &&& 0 <= p.up <= FLUX_LIMIT
                    &&& 0 <= p.down <= FLUX_LIMIT
                } by {
                    let j = y * sx + x;
                    assert(self.pipes@[j] == old(self).pipes@[j]);
                    assert(self.model().flux[j] == old(self).model().flux[j]);
                    assert(0 <= old(self).model().flux[j].left <= FLUX_LIMIT);
                    assert(0 <= old(self).model().flux[j].right <= FLUX_LIMIT);
                    assert(0 <= old(self).model().flux[j].up <= FLUX_LIMIT);
                    assert(0 <= old(self).model().flux[j].down <= FLUX_LIMIT);
                }
            }
            let ghost mid = *self;
            let row = self.flux_row_values(y);
            self.store_flux_row(y, &row);
            proof {
                assert forall|j: int|
                    0 <= j < (y + 1) * sx implies (#[trigger] self.pipes@[j]).v() == (if old(
                        self,
                    ).model().interior(j) {
                        flux_cell(old(self).sv, old(self).model(), j)
                    } else {
                        old(self).model().flux[j]
                    }) by {
                    if y * sx <= j < y * sx + sx {
                        assert(self.pipes@[j] == row@[j - y * sx]);
                        assert(row@[j - y * sx].v() == (if mid.model().interior(j) {
                            flux_cell(mid.sv, mid.model(), j)
                        } else {
                            mid.model().flux[j]
                        }));
                        assert(mid.model().flux[j] == old(self).model().flux[j]);
                        lemma_flux_cell_congr(old(self).sv, mid.model(), old(self).model(), j);
                    } else {
                        assert(self.pipes@[j] == mid.pipes@[j]);
                    }
                }
            }
            y += 1;
        }
        proof {
            assert forall|j: int|
                (sy - 1) * sx <= j < self.grid.n() implies !old(self).model().interior(j) by {
                lemma_div_is_ordered((sy - 1) * sx, j, sx as int);
                assert((sy - 1) * sx == sx as int * (sy - 1)) by (nonlinear_arith);
                lemma_div_multiples_vanish(sy - 1, sx as int);
            }
            assert(self.model() =~= flux_map(old(self).sv, old(self).model()));
        }
    }

    /// Phase 3: close the world edge — for the ring of cells immediately
    /// inside the border, force every pipe that points into the border to
    /// zero, so no water or sediment ever leaves the grid.
    pub fn apply_boundary_condition(&mut self)
        requires
            old(self).wf(),
        ensures
            final(self).wf(),
            final(self).sv == old(self).sv,
            final(self).grid == old(self).grid,
            final(self).heights == old(self).heights,
            final(self).temp_heights == old(self).temp_heights,
            final(self).model() == boundary_map(old(self).model()),
    {
        let sx = self.grid.size_x;
        let sy = self.grid.size_y;
        let n = sx * sy;
        let mut loc: usize = 0;
        while loc < n
            invariant
                self.wf(),
                self.sv == old(self).sv,
                self.grid == old(self).grid,
                self.heights == old(self).heights,
                self.temp_heights == old(self).temp_heights,
                old(self).wf(),
                sx == self.grid.size_x,
                sy == self.grid.size_y,
                n == self.grid.n(),
                loc <= n,
                self.pipes@.len() == n,
                forall|j: int|
                    0 <= j < loc ==> (#[trigger] self.pipes@[j]).v() == (if old(
                        self,
                    ).model().interior(j) {
                        boundary_cell(sx as int, sy as int, j, old(self).model().flux[j])
                    } else {
                        old(self).model().flux[j]
                    }),
                forall|j: int| loc <= j < n ==> self.pipes@[j] == old(self).pipes@[j],
            decreases n - loc,
        {
            if is_interior(&self.grid, loc) {
                let x = loc % sx;
                let y = loc / sx;
                let mut c = self.pipes[loc];
                if x == 1 {
                    c.left.flux = 0;
                }
                if x == sx - 2 {
                    c.right.flux = 0;
                }
                if y == 1 {
                    c.up.flux = 0;
                }
                if y == sy - 2 {
                    c.down.flux = 0;
                }
                self.pipes.set(loc, c);
            }
            loc += 1;
        }
        proof {
            assert(self.model() =~= boundary_map(old(self).model()));
        }
    }

    /// Compute the transport phase's new water and sediment for every
    /// cell of row `y`, reading only the active heights and the finalized
    /// flux field, writing nothing.  Non-interior cells come back with the
    /// active buffer's values, so the border ring stays fixed.  Rows are
    /// independent and may be computed concurrently by a parallel runner.
    #[verifier::rlimit(30)]
    pub fn transport_row_values(&self, y: usize) -> (rows: (Vec<i128>, Vec<i128>))
        requires
            self.wf(),
            self.sv.valid(),
            heights_bounds(self.model()),
            flux_bounds(self.model()),
            y < self.grid.size_y,
        ensures
            rows.0@.len() == self.grid.size_x,
            rows.1@.len() == self.grid.size_x,
            forall|x: int|
                0 <= x < self.grid.size_x ==> {
                    let loc = y * self.grid.size_x + x;
                    &&& (#[trigger] rows.0@[x]) as int == (if self.model().interior(loc) {
                        water_cell(self.sv, self.model(), loc)
                    } else {
                        self.model().water[loc]
                    })
                    &&& rows.1@[x] as int == (if self.model().interior(loc) {
                        sediment_cell(self.sv, self.model(), loc)
                    } else {
                        self.model().sediment[loc]
                    })
                },
    {
        let sx = self.grid.size_x;
        let sy = self.grid.size_y;
        let mut wrow: Vec<i128> = Vec::new();
        let mut srow: Vec<i128> = Vec::new();
        proof {
            assert(y * sx + sx <= sx * sy) by (nonlinear_arith)
                requires
                    0 <= y < sy,
                    0 < sx,
            ;
        }
        let mut x: usize = 0;
        while x < sx
            invariant
                self.wf(),
                self.sv.valid(),
                heights_bounds(self.model()),
                flux_bounds(self.model()),
                y < sy,
                sx == self.grid.size_x,
                sy == self.grid.size_y,
                y * sx + sx <= self.grid.n(),
                x <= sx,
                wrow@.len() == x,
                srow@.len() == x,
                forall|k: int|
                    0 <= k < x ==> {
                        let loc = y * sx + k;
                        &&& (#[trigger] wrow@[k]) as int == (if self.model().interior(loc) {
                            water_cell(self.sv, self.model(), loc)
                        } else {
                            self.model().water[loc]
                        })
                        &&& srow@[k] as int == (if self.model().interior(loc) {
                            sediment_cell(self.sv, self.model(), loc)
                        } else {
                            self.model().sediment[loc]
                        })
                    },
            decreases sx - x,
        {
            proof {
                assert(y * sx + x < sx * sy) by (nonlinear_arith)
                    requires
                        0 <= y < sy,
                        0 <= x < sx,
                        3 <= sx,
                ;
            }
            let loc = y * sx + x;
            proof {
                lemma_fundamental_div_mod_converse(loc as int, sx as int, y as int, x as int);
            }
            let ghost pw = wrow@;
            let ghost ps = srow@;
            if 1 <= x && x < sx - 1 && 1 <= y && y < sy - 1 {
                proof {
                    lemma_interior_bounds(sx as int, sy as int, loc as int);
                    let m = self.model();
                    assert(-HEIGHT_LIMIT <= m.terrain[loc as int] <= HEIGHT_LIMIT);
                    assert(-HEIGHT_LIMIT <= m.terrain[loc - 1] <= HEIGHT_LIMIT);
                    assert(-HEIGHT_LIMIT <= m.terrain[loc + 1] <= HEIGHT_LIMIT);
                    assert(-HEIGHT_LIMIT <= m.terrain[loc - sx] <= HEIGHT_LIMIT);
                    assert(-HEIGHT_LIMIT <= m.terrain[loc + sx] <= HEIGHT_LIMIT);
                    assert(0 <= m.flux[loc - 1].left <= FLUX_LIMIT);
                    assert(0 <= m.flux[loc + 1].left <= FLUX_LIMIT);
                    assert(0 <= m.flux[loc - sx].left <= FLUX_LIMIT);
                    assert(0 <= m.flux[loc + sx].left <= FLUX_LIMIT);
                    assert(0 <= m.water[loc as int] <= 2 * HEIGHT_LIMIT && 0 <= m.sediment[loc
                        as int] <= HEIGHT_LIMIT);
                    assert(0 <= m.water[loc - 1] <= 2 * HEIGHT_LIMIT && 0 <= m.sediment[loc - 1]
                        <= HEIGHT_LIMIT);
                    assert(0 <= m.water[loc + 1] <= 2 * HEIGHT_LIMIT && 0 <= m.sediment[loc + 1]
                        <= HEIGHT_LIMIT);
                    assert(0 <= m.water[loc - sx] <= 2 * HEIGHT_LIMIT && 0 <= m.sediment[loc
                        - sx] <= HEIGHT_LIMIT);
                    assert(0 <= m.water[loc + sx] <= 2 * HEIGHT_LIMIT && 0 <= m.sediment[loc
                        + sx] <= HEIGHT_LIMIT);
                    assert(0 <= m.flux[loc as int].left <= FLUX_LIMIT);
                    assert(0 <= m.flux[loc as int].right <= FLUX_LIMIT);
                    assert(0 <= m.flux[loc as int].up <= FLUX_LIMIT);
                    assert(0 <= m.flux[loc as int].down <= FLUX_LIMIT);
                    assert(0 <= m.flux[loc - 1].right <= FLUX_LIMIT);
                    assert(0 <= m.flux[loc + 1].left <= FLUX_LIMIT);
                    assert(0 <= m.flux[loc - sx].down <= FLUX_LIMIT);
                    assert(0 <= m.flux[loc + sx].up <= FLUX_LIMIT);
                }
                let cp = self.pipes[loc];
                let out = cp.out_flux();
                let oh = to_height_x(&self.sv, out);
                let wl = self.heights.water_height[loc];
                let sl = self.heights.sediment_height[loc];
                let liq = wl + sl;
                proof {
                    lemma_mul_upper_bound(oh as int, 16_000_000_000_000, wl as int, 2
                        * HEIGHT_LIMIT as int);
                    lemma_mul_upper_bound(oh as int, 16_000_000_000_000, sl as int, HEIGHT_LIMIT
                        as int);
                }
                let w_out = share_x(oh, wl, liq);
                let s_out = share_x(oh, sl, liq);
                let (w_in_l, s_in_l) = self.incoming(loc - 1, self.pipes[loc - 1].right.flux);
                let (w_in_r, s_in_r) = self.incoming(loc + 1, self.pipes[loc + 1].left.flux);
                let (w_in_u, s_in_u) = self.incoming(loc - sx, self.pipes[loc - sx].down.flux);
                let (w_in_d, s_in_d) = self.incoming(loc + sx, self.pipes[loc + sx].up.flux);
                let wnew = wl - w_out + w_in_l + w_in_r + w_in_u + w_in_d;
                let snew = sl - s_out + s_in_l + s_in_r + s_in_u + s_in_d;
                proof {
                    let m = self.model();
                    assert(m.liquid(loc as int) == liq as int);
                    assert(out as int == m.out_flux(loc as int));
                    assert(wnew as int == water_cell(self.sv, m, loc as int));
                    assert(snew as int == sediment_cell(self.sv, m, loc as int));
                }
                wrow.push(wnew);
                srow.push(snew);
            } else {
                proof {
                    assert(!self.model().interior(loc as int));
                }
                wrow.push(self.heights.water_height[loc]);
                srow.push(self.heights.sediment_height[loc]);
            }
            proof {
                assert forall|k: int|
                    0 <= k < x + 1 implies {
                    let lk = y * sx + k;
                    &&& (#[trigger] wrow@[k]) as int == (if self.model().interior(lk) {
                        water_cell(self.sv, self.model(), lk)
                    } else {
                        self.model().water[lk]
                    })
                    &&& srow@[k] as int == (if self.model().interior(lk) {
                        sediment_cell(self.sv, self.model(), lk)
                    } else {
                        self.model().sediment[lk]
                    })
                } by {
                    if k < x {
                        assert(wrow@[k] == pw[k]);
                        assert(srow@[k] == ps[k]);
                        assert((pw[k]) as int == (if self.model().interior(y * sx + k) {
                            water_cell(self.sv, self.model(), y * sx + k)
                        } else {
                            self.model().water[y * sx + k]
                        }));
                    } else {
                        assert(wrow@[k] == wrow@[x as int]);
                    }
                }
            }
            x += 1;
        }
        (wrow, srow)
    }

    /// The water and sediment parts of what source cell `j` sends through
    /// one of its pipes, `f`, during this step.
    fn incoming(&self, j: usize, f: i128) -> (ws: (i128, i128))
        requires
            self.wf(),
            self.sv.valid(),
            j < self.grid.n(),
            f as int == self.model().flux[j as int].left || f as int == self.model().flux[j
                as int].right || f as int == self.model().flux[j as int].up || f as int
                == self.model().flux[j as int].down,
            0 <= f <= FLUX_LIMIT,
            0 <= self.model().water[j as int] <= 2 * HEIGHT_LIMIT,
            0 <= self.model().sediment[j as int] <= HEIGHT_LIMIT,
        ensures
            ws.0 as int == water_share(self.model(), j as int, to_height(self.sv, f as int)),
            ws.1 as int == sediment_share(self.model(), j as int, to_height(self.sv, f as int)),
            0 <= ws.0 <= 64_000_000_000_000_000_000_000_000,
            0 <= ws.1 <= 64_000_000_000_000_000_000_000_000,
    {
        let h = to_height_x(&self.sv, f);
        let wj = self.heights.water_height[j];
        let sj = self.heights.sediment_height[j];
        let liq = wj + sj;
        proof {
            lemma_mul_upper_bound(h as int, 16_000_000_000_000, wj as int, 2 * HEIGHT_LIMIT as int);
            lemma_mul_upper_bound(h as int, 16_000_000_000_000, sj as int, HEIGHT_LIMIT as int);
        }
        let w = share_x(h, wj, liq);
        let s = share_x(h, sj, liq);
        (w, s)
    }

    /// Phase 4a: move water and sediment along the flux field, writing
    /// the results into the temp buffer (reads come only from the active
    /// buffer, so neighbor reads are never corrupted by this phase's own
    /// writes).  The border ring is copied through unchanged.
    #[verifier::rlimit(30)]
    pub fn update_water_and_sediment(&mut self)
        requires
            old(self).wf(),
            old(self).sv.valid(),
            heights_bounds(old(self).model()),
            flux_bounds(old(self).model()),
        ensures
            final(self).wf(),
            final(self).sv == old(self).sv,
            final(self).grid == old(self).grid,
            final(self).pipes == old(self).pipes,
            final(self).heights == old(self).heights,
            final(self).temp_heights.terrain_height == old(self).temp_heights.terrain_height,
            forall|j: int|
                0 <= j < old(self).grid.n() ==> {
                    &&& (#[trigger] final(self).temp_heights.w()[j]) == transport_map(
                        old(self).sv,
                        old(self).model(),
                    ).water[j]
                    &&& final(self).temp_heights.s()[j] == transport_map(
                        old(self).sv,
                        old(self).model(),
                    ).sediment[j]
                },
    {
        let sx = self.grid.size_x;
        let sy = self.grid.size_y;
        let mut y: usize = 0;
        while y < sy
            invariant
                self.wf(),
                self.sv == old(self).sv,
                self.grid == old(self).grid,
                self.pipes == old(self).pipes,
                self.heights == old(self).heights,
                self.temp_heights.terrain_height == old(self).temp_heights.terrain_height,
                old(self).wf(),
                old(self).sv.valid(),
                heights_bounds(old(self).model()),
                flux_bounds(old(self).model()),
                sx == self.grid.size_x,
                sy == self.grid.size_y,
                y <= sy,
                forall|j: int|
                    0 <= j < y * sx ==> {
                        &&& (#[trigger] self.temp_heights.w()[j]) == (if old(
                            self,
                        ).model().interior(j) {
                            water_cell(old(self).sv, old(self).model(), j)
                        } else {
                            old(self).model().water[j]
                        })
                        &&& self.temp_heights.s()[j] == (if old(self).model().interior(j) {
                            sediment_cell(old(self).sv, old(self).model(), j)
                        } else {
                            old(self).model().sediment[j]
                        })
                    },
            decreases sy - y,
        {
            proof {
                assert((y + 1) * sx == y * sx + sx && y * sx + sx <= sx * sy) by (nonlinear_arith)
                    requires
                        0 <= y < sy,
                        3 <= sx,
                ;
            }
            let ghost mid = *self;
            let (wrow, srow) = self.transport_row_values(y);
            self.store_transport_row(y, &wrow, &srow);
            proof {
                assert forall|j: int|
                    0 <= j < (y + 1) * sx implies {
                    &&& (#[trigger] self.temp_heights.w()[j]) == (if old(self).model().interior(
                        j,
                    ) {
                        water_cell(old(self).sv, old(self).model(), j)
                    } else {
                        old(self).model().water[j]
                    })
                    &&& self.temp_heights.s()[j] == (if old(self).model().interior(j) {
                        sediment_cell(old(self).sv, old(self).model(), j)
                    } else {
                        old(self).model().sediment[j]
                    })
                } by {
                    if y * sx <= j < y * sx + sx {
                        assert(self.temp_heights.water_height@[j] == wrow@[j - y * sx]);
                        assert(self.temp_heights.sediment_height@[j] == srow@[j - y * sx]);
                    } else {
                        assert(self.temp_heights.water_height@[j]
                            == mid.temp_heights.water_height@[j]);
                        assert(self.temp_heights.sediment_height@[j]
                            == mid.temp_heights.sediment_height@[j]);
                        assert(mid.temp_heights.w()[j] == (if old(self).model().interior(j) {
                            water_cell(old(self).sv, old(self).model(), j)
                        } else {
                            old(self).model().water[j]
                        }));
                    }
                }
            }
            y += 1;
        }
    }

    /// Write a row pair computed by `transport_row_values` into the temp
    /// buffer.  Only row `y` of temp water and sediment changes.
    pub fn store_transport_row(&mut self, y: usize, wrow: &Vec<i128>, srow: &Vec<i128>)
        requires
            old(self).wf(),
            y < old(self).grid.size_y,
            wrow@.len() == old(self).grid.size_x,
            srow@.len() == old(self).grid.size_x,
        ensures
            final(self).wf(),
            final(self).sv == old(self).sv,
            final(self).grid == old(self).grid,
            final(self).pipes == old(self).pipes,
            final(self).heights == old(self).heights,
            final(self).temp_heights.terrain_height == old(self).temp_heights.terrain_height,
            forall|j: int|
                0 <= j < old(self).grid.n() ==> {
                    &&& #[trigger] final(self).temp_heights.water_height@[j] == (if y * old(
                        self,
                    ).grid.size_x <= j < y * old(self).grid.size_x + old(self).grid.size_x {
                        wrow@[j - y * old(self).grid.size_x]
                    } else {
                        old(self).temp_heights.water_height@[j]
                    })
                    &&& final(self).temp_heights.sediment_height@[j] == (if y * old(
                        self,
                    ).grid.size_x <= j < y * old(self).grid.size_x + old(self).grid.size_x {
                        srow@[j - y * old(self).grid.size_x]
                    } else {
                        old(self).temp_heights.sediment_height@[j]
                    })
                },
    {
        let sx = self.grid.size_x;
        let sy = self.grid.size_y;
        proof {
            assert(y * sx + sx <= sx * sy) by (nonlinear_arith)
                requires
                    0 <= y < sy,
                    0 < sx,
            ;
        }
        let base = y * sx;
        let mut x: usize = 0;
        while x < sx
            invariant
                self.wf(),
                self.sv == old(self).sv,
                self.grid == old(self).grid,
                self.pipes == old(self).pipes,
                self.heights == old(self).heights,
                self.temp_heights.terrain_height == old(self).temp_heights.terrain_height,
                old(self).wf(),
                sx == self.grid.size_x,
                base == y * sx,
                base + sx <= self.grid.n(),
                wrow@.len() == sx,
                srow@.len() == sx,
                x <= sx,
                forall|j: int|
                    base <= j < base + x ==> #[trigger] self.temp_heights.water_height@[j]
                        == wrow@[j - base] && self.temp_heights.sediment_height@[j] == srow@[j
                        - base],
                forall|j: int|
                    0 <= j < self.grid.n() && !(base <= j < base + x) ==> (
                    #[trigger] self.temp_heights.water_height@[j]) == old(
                        self,
                    ).temp_heights.water_height@[j] && self.temp_heights.sediment_height@[j]
                        == old(self).temp_heights.sediment_height@[j],
            decreases sx - x,
        {
            let ghost prev = *self;
            self.temp_heights.water_height.set(base + x, wrow[x]);
            self.temp_heights.sediment_height.set(base + x, srow[x]);
            proof {
                assert forall|j: int|
                    base <= j < base + x + 1 implies #[trigger] self.temp_heights.water_height@[j]
                    == wrow@[j - base] && self.temp_heights.sediment_height@[j] == srow@[j
                    - base] by {
                    if j < base + x {
                        assert(prev.temp_heights.water_height@[j] == wrow@[j - base]);
                        assert(prev.temp_heights.sediment_height@[j] == srow@[j - base]);
                    }
                }
            }
            x += 1;
        }
    }

    /// Phase 4b: the steepness-limiting pass.  Deliberately a pass-through
    /// for now — it copies terrain unchanged into the temp buffer and
    /// applies no slope clamp; the clamp rule is an open design question.
    pub fn update_steepness(&mut self)
        requires
            old(self).wf(),
        ensures
            final(self).wf(),
            final(self).sv == old(self).sv,
            final(self).grid == old(self).grid,
            final(self).pipes == old(self).pipes,
            final(self).heights == old(self).heights,
            final(self).temp_heights.water_height == old(self).temp_heights.water_height,
            final(self).temp_heights.sediment_height == old(self).temp_heights.sediment_height,
            final(self).temp_heights.terrain_height@ == old(self).heights.terrain_height@,
    {
        let n = self.grid.size_x * self.grid.size_y;
        let mut loc: usize = 0;
        while loc < n
            invariant
                self.wf(),
                self.sv == old(self).sv,
                self.grid == old(self).grid,
                self.pipes == old(self).pipes,
                self.heights == old(self).heights,
                self.temp_heights.water_height == old(self).temp_heights.water_height,
                self.temp_heights.sediment_height == old(self).temp_heights.sediment_height,
                old(self).wf(),
                n == self.grid.n(),
                loc <= n,
                self.temp_heights.terrain_height@.len() == n,
                self.heights.terrain_height@.len() == n,
                forall|j: int|
                    0 <= j < loc ==> #[trigger] self.temp_heights.terrain_height@[j] == old(
                        self,
                    ).heights.terrain_height@[j],
                forall|j: int|
                    loc <= j < n ==> #[trigger] self.temp_heights.terrain_height@[j] == old(
                        self,
                    ).temp_heights.terrain_height@[j],
            decreases n - loc,
        {
            let t = self.heights.terrain_height[loc];
            self.temp_heights.terrain_height.set(loc, t);
            loc += 1;
        }
        proof {
            assert(self.temp_heights.terrain_height@ =~= old(self).heights.terrain_height@);
        }
    }

    /// The sediment transport capacity of interior cell `loc`:
    /// `sediment_capacity` times the Manhattan-style speed proxy
    /// `|vel_x| + |vel_y|` derived from the finalized flux field.
    pub fn get_sediment_transport_capacity(
        sv: &SimulationVariables,
        grid: &Grid,
        pipes: &Vec<CellPipes>,
        loc: usize,
    ) -> (r: i128)
        requires
            sv.valid(),
            grid.wf(),
            pipes@.len() == grid.n(),
            interior_at(grid.size_x as int, grid.size_y as int, loc as int),
            forall|j: int|
                0 <= j < pipes@.len() ==> {
                    let p = (#[trigger] pipes@[j]).v();
                    &&& 0 <= p.left <= FLUX_LIMIT
                    &&& 0 <= p.right <= FLUX_LIMIT
                    &&& 0 <= p.up <= FLUX_LIMIT
                    &&& 0 <= p.down <= FLUX_LIMIT
                },
        ensures
            r == capacity_at(
                *sv,
                pipes@.map_values(|c: CellPipes| c.v()),
                grid.size_x as int,
                loc as int,
            ),
            0 <= r <= 1_600_000_000_000_000,
    {
        let sx = grid.size_x;
        proof {
            lemma_interior_bounds(sx as int, grid.size_y as int, loc as int);
            assert((pipes@[loc as int]).v().left >= 0);
            assert((pipes@[loc - 1]).v().left >= 0);
            assert((pipes@[loc + 1]).v().left >= 0);
            assert((pipes@[loc - sx]).v().left >= 0);
            assert((pipes@[loc + sx]).v().left >= 0);
        }
        let l = grid.left(loc);
        let rr = grid.right(loc);
        let u = grid.up(loc);
        let d = grid.down(loc);
        let vx = (pipes[l].right.flux - pipes[loc].left.flux) + (pipes[loc].right.flux
            - pipes[rr].left.flux);
        let vy = (pipes[d].up.flux - pipes[loc].down.flux) + (pipes[loc].up.flux
            - pipes[u].down.flux);
        let ax = div_nn(if vx >= 0 { vx } else { -vx }, 2);
        let ay = div_nn(if vy >= 0 { vy } else { -vy }, 2);
        let vel = ax + ay;
        proof {
            lemma_mul_upper_bound(
                sv.sediment_capacity as int,
                CONFIG_LIMIT as int,
                vel as int,
                16_000_000_000_000,
            );
            lemma_div_is_ordered(
                sv.sediment_capacity * vel,
                1_600_000_000_000_000_000_000,
                SCALE as int,
            );
        }
        muldiv(sv.sediment_capacity, vel, SCALE)
    }

    /// Phase 6a: erosion & deposition — at every interior cell, compare
    /// the flow's transport capacity with the sediment present, dissolve
    /// terrain into sediment where capacity is spare (at
    /// `dissolve_constant`) and deposit sediment back where it is
    /// exceeded (at `deposition_constant`).  The exchange moves exactly
    /// the same height out of one field and into the other.
    #[verifier::rlimit(30)]
    pub fn update_erosion_and_deposition(&mut self)
        requires
            old(self).wf(),
            old(self).sv.valid(),
            flux_bounds(old(self).model()),
            forall|j: int|
                0 <= j < old(self).model().n() ==> {
                    &&& -HEIGHT_LIMIT <= #[trigger] old(self).model().terrain[j] <= HEIGHT_LIMIT
                    &&& 0 <= old(self).model().sediment[j] <= LIQUID_MID
                },
        ensures
            final(self).wf(),
            final(self).sv == old(self).sv,
            final(self).grid == old(self).grid,
            final(self).pipes == old(self).pipes,
            final(self).temp_heights == old(self).temp_heights,
            final(self).heights.water_height == old(self).heights.water_height,
            final(self).model() == erosion_map(old(self).sv, old(self).model()),
    {
        let n = self.grid.size_x * self.grid.size_y;
        let mut loc: usize = 0;
        while loc < n
            invariant
                self.wf(),
                self.sv == old(self).sv,
                self.grid == old(self).grid,
                self.pipes == old(self).pipes,
                self.temp_heights == old(self).temp_heights,
                self.heights.water_height == old(self).heights.water_height,
                old(self).wf(),
                old(self).sv.valid(),
                flux_bounds(old(self).model()),
                forall|j: int|
                    0 <= j < old(self).model().n() ==> {
                        &&& -HEIGHT_LIMIT <= #[trigger] old(self).model().terrain[j]
                            <= HEIGHT_LIMIT
                        &&& 0 <= old(self).model().sediment[j] <= LIQUID_MID
                    },
                n == self.grid.n(),
                loc <= n,
                self.heights.terrain_height@.len() == n,
                self.heights.sediment_height@.len() == n,
                forall|j: int|
                    0 <= j < loc ==> {
                        &&& (#[trigger] self.heights.t()[j]) == (if old(self).model().interior(
                            j,
                        ) {
                            old(self).model().terrain[j] - erosion_cell(
                                old(self).sv,
                                old(self).model(),
                                j,
                            )
                        } else {
                            old(self).model().terrain[j]
                        })
                        &&& self.heights.s()[j] == (if old(self).model().interior(j) {
                            old(self).model().sediment[j] + erosion_cell(
                                old(self).sv,
                                old(self).model(),
                                j,
                            )
                        } else {
                            old(self).model().sediment[j]
                        })
                    },
                forall|j: int|
                    loc <= j < n ==> (#[trigger] self.heights.terrain_height@[j]) == old(
                        self,
                    ).heights.terrain_height@[j] && self.heights.sediment_height@[j] == old(
                        self,
                    ).heights.sediment_height@[j],
            decreases n - loc,
        {
            let ghost prev = *self;
            let ghost jj = loc as int;
            let inter = is_interior(&self.grid, loc);
            if inter {
                proof {
                    assert forall|j: int|
                        0 <= j < self.pipes@.len() implies {
                        let p = (#[trigger] self.pipes@[j]).v();
                        &&& 0 <= p.left <= FLUX_LIMIT
                        &&& 0 <= p.right <= FLUX_LIMIT
                        &&& 0 <= p.up <= FLUX_LIMIT
                        &&& 0 <= p.down <= FLUX_LIMIT
                    } by {
                        assert(0 <= old(self).model().flux[j].left <= FLUX_LIMIT);
                        assert(old(self).model().flux[j] == (self.pipes@[j]).v());
                    }
                }
                let cap = Self::get_sediment_transport_capacity(
                    &self.sv,
                    &self.grid,
                    &self.pipes,
                    loc,
                );
                let sed = self.heights.sediment_height[loc];
                proof {
                    assert(-HEIGHT_LIMIT <= old(self).model().terrain[jj] <= HEIGHT_LIMIT);
                    assert(self.heights.terrain_height@[jj] == old(
                        self,
                    ).heights.terrain_height@[jj]);
                    assert(0 <= old(self).model().sediment[jj] <= LIQUID_MID);
                    assert(sed as int == old(self).model().sediment[jj]);
                }
                let desired = cap - sed;
                let speed = if desired > 0 {
                    self.sv.dissolve_constant
                } else {
                    self.sv.deposition_constant
                };
                proof {
                    lemma_mul_upper_bound(
                        speed as int,
                        CONFIG_LIMIT as int,
                        self.sv.dt as int,
                        CONFIG_LIMIT as int,
                    );
                    lemma_mul_nonnegative(speed as int, self.sv.dt as int);
                }
                let rd = speed * self.sv.dt;
                let mag = if desired >= 0 { desired } else { -desired };
                proof {
                    lemma_mul_upper_bound(
                        rd as int,
                        10_000_000_000_000_000,
                        mag as int,
                        1_700_000_000_000_000,
                    );
                    lemma_mul_nonnegative(rd as int, mag as int);
                }
                let p = rd * mag;
                let q = div_nn(p, SCALE * SCALE);
                let change = if desired > 0 { q } else { -q };
                let t = self.heights.terrain_height[loc];
                self.heights.terrain_height.set(loc, t - change);
                self.heights.sediment_height.set(loc, sed + change);
                proof {
                    assert(old(self).model().flux =~= prev.pipes@.map_values(
                        |c: CellPipes| c.v(),
                    ));
                    assert(change as int == erosion_cell(old(self).sv, old(self).model(), jj));
                }
            }
            proof {
                assert forall|j: int|
                    0 <= j < jj + 1 implies {
                    &&& (#[trigger] self.heights.t()[j]) == (if old(self).model().interior(j) {
                        old(self).model().terrain[j] - erosion_cell(
                            old(self).sv,
                            old(self).model(),
                            j,
                        )
                    } else {
                        old(self).model().terrain[j]
                    })
                    &&& self.heights.s()[j] == (if old(self).model().interior(j) {
                        old(self).model().sediment[j] + erosion_cell(
                            old(self).sv,
                            old(self).model(),
                            j,
                        )
                    } else {
                        old(self).model().sediment[j]
                    })
                } by {
                    if j < jj {
                        assert(prev.heights.t()[j] == (if old(self).model().interior(j) {
                            old(self).model().terrain[j] - erosion_cell(
                                old(self).sv,
                                old(self).model(),
                                j,
                            )
                        } else {
                            old(self).model().terrain[j]
                        }));
                        assert(prev.heights.s()[j] == (if old(self).model().interior(j) {
                            old(self).model().sediment[j] + erosion_cell(
                                old(self).sv,
                                old(self).model(),
                                j,
                            )
                        } else {
                            old(self).model().sediment[j]
                        }));
                        assert(self.heights.terrain_height@[j]
                            == prev.heights.terrain_height@[j]);
                        assert(self.heights.sediment_height@[j]
                            == prev.heights.sediment_height@[j]);
                    } else {
                        assert(self.heights.t()[jj] == self.heights.terrain_height@[jj] as int);
                        assert(self.heights.s()[jj] == self.heights.sediment_height@[jj] as int);
                    }
                }
                assert forall|j: int|
                    jj + 1 <= j < n implies (#[trigger] self.heights.terrain_height@[j]) == old(
                    self,
                ).heights.terrain_height@[j] && self.heights.sediment_height@[j] == old(
                    self,
                ).heights.sediment_height@[j] by {
                    assert(self.heights.terrain_height@[j] == prev.heights.terrain_height@[j]);
                    assert(self.heights.sediment_height@[j] == prev.heights.sediment_height@[j]);
                    assert(prev.heights.terrain_height@[j] == old(
                        self,
                    ).heights.terrain_height@[j]);
                }
            }
            loc += 1;
        }
        proof {
            let e = erosion_map(old(self).sv, old(self).model());
            assert(self.model().terrain =~= e.terrain);
            assert forall|j: int|
                0 <= j < self.grid.n() implies self.model().sediment[j] == e.sediment[j] by {
                assert(self.heights.t()[j] == e.terrain[j]);
            }
            assert(self.model().sediment =~= e.sediment);
            assert(self.model().water =~= e.water);
            assert(self.model().flux =~= e.flux);
            assert(self.model() =~= erosion_map(old(self).sv, old(self).model()));
        }
    }

    /// Phase 6b: evaporation — shrink every interior cell's water by the
    /// factor `1 - evaporation * dt`, sequentially (no cross-cell
    /// dependency exists and the cost is negligible).
    pub fn update_evaporation(&mut self)
        requires
            old(self).wf(),
            old(self).sv.valid(),
            forall|j: int|
                0 <= j < old(self).model().n() ==> 0 <= #[trigger] old(self).model().water[j]
                    <= LIQUID_MID,
        ensures
            final(self).wf(),
            final(self).sv == old(self).sv,
            final(self).grid == old(self).grid,
            final(self).pipes == old(self).pipes,
            final(self).temp_heights == old(self).temp_heights,
            final(self).heights.terrain_height == old(self).heights.terrain_height,
            final(self).heights.sediment_height == old(self).heights.sediment_height,
            final(self).model() == evap_map(old(self).sv, old(self).model()),
    {
        proof {
            lemma_mul_upper_bound(
                self.sv.evaporation as int,
                CONFIG_LIMIT as int,
                self.sv.dt as int,
                CONFIG_LIMIT as int,
            );
            lemma_mul_nonnegative(self.sv.evaporation as int, self.sv.dt as int);
        }
        let factor = SCALE * SCALE - self.sv.evaporation * self.sv.dt;
        let n = self.grid.size_x * self.grid.size_y;
        let mut loc: usize = 0;
        while loc < n
            invariant
                self.wf(),
                self.sv == old(self).sv,
                self.grid == old(self).grid,
                self.pipes == old(self).pipes,
                self.temp_heights == old(self).temp_heights,
                self.heights.terrain_height == old(self).heights.terrain_height,
                self.heights.sediment_height == old(self).heights.sediment_height,
                old(self).wf(),
                old(self).sv.valid(),
                forall|j: int|
                    0 <= j < old(self).model().n() ==> 0 <= #[trigger] old(self).model().water[j]
                        <= LIQUID_MID,
                n == self.grid.n(),
                loc <= n,
                factor as int == evap_factor(old(self).sv),
                0 <= factor <= 1_000_000_000_000,
                self.heights.water_height@.len() == n,
                forall|j: int|
                    0 <= j < loc ==> (#[trigger] self.heights.w()[j]) == (if old(
                        self,
                    ).model().interior(j) {
                        evap_cell(old(self).sv, old(self).model().water[j])
                    } else {
                        old(self).model().water[j]
                    }),
                forall|j: int|
                    loc <= j < n ==> (#[trigger] self.heights.water_height@[j]) == old(
                        self,
                    ).heights.water_height@[j],
            decreases n - loc,
        {
            let ghost prev = *self;
            let ghost jj = loc as int;
            proof {
                assert(0 <= old(self).model().water[jj] <= LIQUID_MID);
                assert(self.heights.water_height@[jj] == old(self).heights.water_height@[jj]);
            }
            let inter = is_interior(&self.grid, loc);
            if inter {
                let w = self.heights.water_height[loc];
                proof {
                    lemma_mul_upper_bound(
                        w as int,
                        LIQUID_MID as int,
                        factor as int,
                        1_000_000_000_000,
                    );
                }
                let neww = muldiv(w, factor, SCALE * SCALE);
                self.heights.water_height.set(loc, neww);
            }
            proof {
                assert forall|j: int|
                    0 <= j < jj + 1 implies (#[trigger] self.heights.w()[j]) == (if old(
                        self,
                    ).model().interior(j) {
                        evap_cell(old(self).sv, old(self).model().water[j])
                    } else {
                        old(self).model().water[j]
                    }) by {
                    if j < jj {
                        assert(prev.heights.w()[j] == (if old(self).model().interior(j) {
                            evap_cell(old(self).sv, old(self).model().water[j])
                        } else {
                            old(self).model().water[j]
                        }));
                        assert(self.heights.water_height@[j] == prev.heights.water_height@[j]);
                    } else {
                        assert(self.heights.w()[jj] == self.heights.water_height@[jj] as int);
                    }
                }
            }
            loc += 1;
        }
        proof {
            assert(self.model() =~= evap_map(old(self).sv, old(self).model()));
        }
    }

    /// Advance the simulation by exactly one tick of the fixed,
    /// non-skippable eight-phase pipeline: rainfall, flux update, boundary
    /// condition, transport (into temp), steepness pass-through (into
    /// temp), buffer commit, erosion & deposition, evaporation.  Each
    /// phase is a full barrier relative to the next.
    ///
    /// The result is exactly `step_map` of the previous state — a pure
    /// function of the heights, the flux field and the configuration's
    /// numeric constants, so it is independent of `thread_count` and of
    /// any worker scheduling — and every water, sediment and flux value
    /// stays non-negative.
    #[verifier::rlimit(60)]
    pub fn step(&mut self)
        requires
            old(self).wf(),
            old(self).sv.valid(),
            nonneg(old(self).model()),
            bounded(old(self).model()),
            border_flux_zero(old(self).model()),
        ensures
            final(self).wf(),
            final(self).sv == old(self).sv,
            final(self).grid == old(self).grid,
            final(self).model() == step_map(old(self).sv, old(self).model()),
            nonneg(final(self).model()),
            border_flux_zero(final(self).model()),
    {
        let ghost sv = self.sv;
        let ghost m0 = self.model();
        proof {
            assert forall|j: int|
                0 <= j < m0.n() implies 0 <= #[trigger] m0.water[j] <= HEIGHT_LIMIT by {
                assert(m0.water[j] >= 0);
                assert(-HEIGHT_LIMIT <= m0.terrain[j] <= HEIGHT_LIMIT);
            }
        }
        self.add_rainfall();
        let ghost m1 = self.model();
        proof {
            lemma_after_rain(sv, m0, m1);
        }
        self.update_flux();
        let ghost m2 = self.model();
        self.apply_boundary_condition();
        let ghost m3 = self.model();
        proof {
            lemma_after_flux_boundary(sv, m1, m2, m3);
        }
        self.update_water_and_sediment();
        let ghost ta = *self;
        self.update_steepness();
        let ghost tb = *self;
        self.apply_calculated_values();
        let ghost m4 = self.model();
        proof {
            let tm = transport_map(sv, m3);
            assert forall|j: int|
                0 <= j < m4.n() implies #[trigger] m4.water[j] == tm.water[j] && m4.sediment[j]
                == tm.sediment[j] && m4.terrain[j] == tm.terrain[j] by {
                assert(ta.temp_heights.w()[j] == tm.water[j]);
                assert(ta.temp_heights.s()[j] == tm.sediment[j]);
                assert(tb.temp_heights.water_height == ta.temp_heights.water_height);
                assert(self.heights == tb.temp_heights);
                assert(m4.water[j] == self.heights.water_height@[j] as int);
                assert(self.heights.water_height@[j] == ta.temp_heights.water_height@[j]);
                assert(m4.sediment[j] == self.heights.sediment_height@[j] as int);
                assert(self.heights.sediment_height@[j] == ta.temp_heights.sediment_height@[j]);
                assert(tb.temp_heights.terrain_height@[j] == ta.heights.terrain_height@[j]);
                assert(m4.terrain[j] == ta.heights.t()[j]);
                assert(tm.terrain[j] == m3.terrain[j]);
            }
            assert(m4.water.len() == m4.n() && m4.sediment.len() == m4.n() && m4.terrain.len()
                == m4.n());
            assert(m3.water.len() == m4.n() && m3.sediment.len() == m4.n() && m3.terrain.len()
                == m4.n());
            assert(m4.terrain =~= tm.terrain);
            assert(m4.water =~= tm.water);
            assert forall|j: int|
                0 <= j < m4.n() implies #[trigger] m4.sediment[j] == tm.sediment[j] by {
                assert(m4.water[j] == tm.water[j]);
            }
            assert(m4.sediment =~= tm.sediment);
            assert(m4.flux =~= tm.flux);
            assert(m4 =~= tm);
            lemma_after_transport(sv, m3, m4);
        }
        self.update_erosion_and_deposition();
        let ghost m5 = self.model();
        proof {
            assert(m5 == erosion_map(sv, m4));
            lemma_after_erosion(sv, m4, m5);
        }
        self.update_evaporation();
        proof {
            let m6 = self.model();
            assert(m6 == evap_map(sv, m5));
            assert forall|j: int|
                0 <= j < m5.n() implies {
                &&& 0 <= #[trigger] m5.water[j] <= LIQUID_MID
                &&& 0 <= m5.sediment[j]
                &&& m5.flux[j].left >= 0 && m5.flux[j].right >= 0 && m5.flux[j].up >= 0
                    && m5.flux[j].down >= 0
            } by {
                assert(0 <= m5.water[j] <= LIQUID_MID);
                assert(0 <= m4.flux[j].left <= FLUX_LIMIT);
                assert(m5.flux[j] == m4.flux[j]);
            }
            lemma_after_evap(sv, m5, m6);
            assert(m6 == step_map(sv, m0));
        }
    }

    /// Phase 5: commit — swap the active and temp height buffers in O(1).
    /// The previous temp values become authoritative; the old active
    /// contents become don't-care scratch for the next step.
    pub fn apply_calculated_values(&mut self)
        ensures
            final(self).heights == old(self).temp_heights,
            final(self).temp_heights == old(self).heights,
            final(self).sv == old(self).sv,
            final(self).grid == old(self).grid,
            final(self).pipes == old(self).pipes,
    {
        core::mem::swap(&mut self.heights, &mut self.temp_heights);
    }
}

/// A vector of `size` cells of zeroed pipes.
fn zero_pipes(size: usize) -> (v: Vec<CellPipes>)
    ensures
        v@.len() == size,
        forall|i: int|
            0 <= i < size ==> (#[trigger] v@[i]).v() == (PipesV {
                left: 0,
                right: 0,
                up: 0,
                down: 0,
            }),
{
    let mut v: Vec<CellPipes> = Vec::new();
    let mut k: usize = 0;
    while k < size
        invariant
            k <= size,
            v@.len() == k,
            forall|i: int|
                0 <= i < k ==> (#[trigger] v@[i]).v() == (PipesV {
                    left: 0,
                    right: 0,
                    up: 0,
                    down: 0,
                }),
        decreases size - k,
    {
        v.push(CellPipes::new());
        k += 1;
    }
    v
}

/// Convert a flow rate into the column height it moves during one step:
/// `f * dt / pipe_length^2`.
fn to_height_x(sv: &SimulationVariables, f: i128) -> (h: i128)
    requires
        sv.valid(),
        0 <= f <= 16_000_000_000_000,
    ensures
        h == to_height(*sv, f as int),
        0 <= h <= f,
{
    proof {
        lemma_mul_upper_bound(f as int, 16_000_000_000_000, sv.dt as int, CONFIG_LIMIT as int);
        lemma_mul_nonnegative(f as int, sv.dt as int);
        lemma_mul_upper_bound(
            f * sv.dt,
            1_600_000_000_000_000_000_000,
            SCALE as int,
            SCALE as int,
        );
        lemma_mul_upper_bound(
            sv.pipe_length as int,
            CONFIG_LIMIT as int,
            sv.pipe_length as int,
            CONFIG_LIMIT as int,
        );
        assert(1 <= sv.pipe_length * sv.pipe_length) by (nonlinear_arith)
            requires
                1 <= sv.pipe_length,
        ;
        crate::bounds::lemma_to_height_le(*sv, f as int);
    }
    let p1 = f * sv.dt;
    let p2 = p1 * SCALE;
    let l2 = sv.pipe_length * sv.pipe_length;
    div_nn(p2, l2)
}

/// The `num / den` fraction of a transported height `h`, or zero where
/// the source holds no liquid at all.
fn share_x(h: i128, num: i128, den: i128) -> (r: i128)
    requires
        0 <= h,
        0 <= num,
        h * num <= i128::MAX,
        0 <= den,
    ensures
        r == share(h as int, num as int, den as int),
        0 <= r <= h * num,
{
    if den == 0 {
        0
    } else {
        muldiv(h, num, den)
    }
}

/// Whether linear index `loc` names an interior cell of `grid`.
fn is_interior(grid: &Grid, loc: usize) -> (b: bool)
    requires
        grid.wf(),
    ensures
        b == interior_at(grid.size_x as int, grid.size_y as int, loc as int),
{
    let x = loc % grid.size_x;
    let y = loc / grid.size_x;
    1 <= x && x < grid.size_x - 1 && 1 <= y && y < grid.size_y - 1
}

} // verus!
