use vstd::prelude::*;
use crate::config::{SimulationVariables, SCALE};
use crate::grid::interior_at;

verus! {

/// The four directional outflow rates of one cell, as mathematical
/// integers (in `SCALE` units, like every quantity of the model).
#[verifier::ext_equal]
pub struct PipesV {
    pub left: int,
    pub right: int,
    pub up: int,
    pub down: int,
}

/// The mathematical state of a simulation: the grid dimensions, the three
/// height fields and the flux field, all row-major indexed by
/// `loc = x + y * sx`.
#[verifier::ext_equal]
pub struct StateV {
    pub sx: int,
    pub sy: int,
    pub terrain: Seq<int>,
    pub water: Seq<int>,
    pub sediment: Seq<int>,
    pub flux: Seq<PipesV>,
}

impl StateV {
    pub open spec fn n(self) -> int {
        self.sx * self.sy
    }

    pub open spec fn wf(self) -> bool {
        &&& 3 <= self.sx
        &&& 3 <= self.sy
        &&& self.terrain.len() == self.n()
        &&& self.water.len() == self.n()
        &&& self.sediment.len() == self.n()
        &&& self.flux.len() == self.n()
    }

    pub open spec fn interior(self, loc: int) -> bool {
        interior_at(self.sx, self.sy, loc)
    }

    /// The transportable liquid volume of a cell, expressed as a height.
    pub open spec fn liquid(self, loc: int) -> int {
        self.water[loc] + self.sediment[loc]
    }

    /// The total column height of a cell: terrain + water + sediment.
    pub open spec fn total(self, loc: int) -> int {
        self.terrain[loc] + self.liquid(loc)
    }

    /// The sum of a cell's four outflow rates.
    pub open spec fn out_flux(self, loc: int) -> int {
        self.flux[loc].left + self.flux[loc].right + self.flux[loc].up + self.flux[loc].down
    }
}

/// Water, sediment and every pipe's flux are non-negative in all cells.
pub open spec fn nonneg(s: StateV) -> bool {
    forall|loc: int|
        0 <= loc < s.n() ==> {
            &&& #[trigger] s.water[loc] >= 0
            &&& s.sediment[loc] >= 0
            &&& s.flux[loc].left >= 0
            &&& s.flux[loc].right >= 0
            &&& s.flux[loc].up >= 0
            &&& s.flux[loc].down >= 0
        }
}

/// Magnitude bounds under which one whole step is free of `i128` overflow.
pub open spec fn bounded(s: StateV) -> bool {
    forall|loc: int|
        0 <= loc < s.n() ==> {
            &&& -HEIGHT_LIMIT <= #[trigger] s.terrain[loc] <= HEIGHT_LIMIT
            &&& s.water[loc] <= HEIGHT_LIMIT
            &&& s.sediment[loc] <= HEIGHT_LIMIT
            &&& s.flux[loc].left <= FLUX_LIMIT
            &&& s.flux[loc].right <= FLUX_LIMIT
            &&& s.flux[loc].up <= FLUX_LIMIT
            &&& s.flux[loc].down <= FLUX_LIMIT
        }
}

/// Every border-ring cell has all four pipes at zero.  The constructor
/// establishes this and no phase ever writes a border cell's pipes, so the
/// closed world edge stays closed.
pub open spec fn border_flux_zero(s: StateV) -> bool {
    forall|loc: int|
        0 <= loc < s.n() && !s.interior(loc) ==> #[trigger] s.flux[loc] == (PipesV {
            left: 0,
            right: 0,
            up: 0,
            down: 0,
        })
}

/// Largest height magnitude a step accepts at entry (one million real
/// units of height).
pub const HEIGHT_LIMIT: i128 = 1_000_000_000_000;

/// Largest per-pipe flux a step accepts at entry.  The flux phase itself
/// re-bounds every pipe by the cell's liquid height, so steps keep their
/// fluxes far below this.
pub const FLUX_LIMIT: i128 = 4_000_000_000_000;

/// Largest total column height magnitude the flux phase accepts
/// (terrain within `HEIGHT_LIMIT`, water and sediment liquid on top).
pub const TOTAL_BOUND: i128 = 4_000_000_000_000;

/// Largest change one pipe update can make to a flux, under `valid`
/// configurations and `TOTAL_BOUND`-bounded column heights.
pub const DELTA_BOUND: i128 = 100_000_000_000_000_000_000_000;

/// Largest water or sediment height that can come out of the transport
/// phase from `HEIGHT_LIMIT`-bounded inputs; the erosion and evaporation
/// phases accept values up to here.
pub const LIQUID_MID: i128 = 100_000_000_000_000;

/// Height-field bounds under which the flux and transport phases are free
/// of overflow: terrain within `HEIGHT_LIMIT`, water and sediment
/// non-negative and at most `2 * HEIGHT_LIMIT` resp. `HEIGHT_LIMIT`
/// (water may exceed `HEIGHT_LIMIT` slightly right after rainfall).
pub open spec fn heights_bounds(s: StateV) -> bool {
    forall|j: int|
        0 <= j < s.n() ==> {
            &&& -HEIGHT_LIMIT <= #[trigger] s.terrain[j] <= HEIGHT_LIMIT
            &&& 0 <= s.water[j] <= 2 * HEIGHT_LIMIT
            &&& 0 <= s.sediment[j] <= HEIGHT_LIMIT
        }
}

/// Every pipe of every cell within `[0, FLUX_LIMIT]`.
pub open spec fn flux_bounds(s: StateV) -> bool {
    forall|j: int|
        0 <= j < s.n() ==> {
            &&& 0 <= #[trigger] s.flux[j].left <= FLUX_LIMIT
            &&& 0 <= s.flux[j].right <= FLUX_LIMIT
            &&& 0 <= s.flux[j].up <= FLUX_LIMIT
            &&& 0 <= s.flux[j].down <= FLUX_LIMIT
        }
}

/// `flux_cell` reads only the height fields, the grid width and the
/// cell's own pipes, so two states agreeing there agree on it.
pub proof fn lemma_flux_cell_congr(sv: SimulationVariables, s1: StateV, s2: StateV, loc: int)
    requires
        s1.sx == s2.sx,
        s1.terrain == s2.terrain,
        s1.water == s2.water,
        s1.sediment == s2.sediment,
        s1.flux[loc] == s2.flux[loc],
    ensures
        flux_cell(sv, s1, loc) == flux_cell(sv, s2, loc),
{
}

// --- Phase 1: rainfall -----------------------------------------------------

/// The uniform water height added to every interior cell by one step.
pub open spec fn rain_amount(sv: SimulationVariables) -> int {
    sv.dt * sv.rainfall / (SCALE as int)
}

pub open spec fn rain_map(sv: SimulationVariables, s: StateV) -> StateV {
    StateV {
        water: Seq::new(
            s.water.len(),
            |loc: int| if s.interior(loc) { s.water[loc] + rain_amount(sv) } else { s.water[loc] },
        ),
        ..s
    }
}

// --- Phase 2: flux update --------------------------------------------------

/// The change of one pipe's flow rate from the height difference across
/// it: `dt * gravity * (h - h_out) / pipe_length`, rounded toward zero.
pub open spec fn flux_delta(sv: SimulationVariables, h: int, h_out: int) -> int {
    let num = sv.dt * sv.gravity;
    let den = sv.pipe_length * (SCALE as int);
    if h - h_out >= 0 {
        num * (h - h_out) / den
    } else {
        -(num * (h_out - h) / den)
    }
}

/// A pipe's updated flow rate, clamped at zero: reverse flow is encoded by
/// the opposing cell's own pipe, never by a negative flux.
pub open spec fn pipe_update(sv: SimulationVariables, f: int, h: int, h_out: int) -> int {
    let nf = f + flux_delta(sv, h, h_out);
    if nf < 0 {
        0
    } else {
        nf
    }
}

/// A cell's pipes after the scale-back: when the total outflow exceeds
/// the cell's transportable liquid `avail`, all four pipes are scaled by
/// `avail / outflow`, so the cell can never send more than it holds.
/// When the outflow is already within `avail` (in particular when it is
/// zero, where the naive ratio would divide by zero) nothing changes.
pub open spec fn scale_back_v(p: PipesV, avail: int) -> PipesV {
    let out = p.left + p.right + p.up + p.down;
    if out > avail {
        PipesV {
            left: p.left * avail / out,
            right: p.right * avail / out,
            up: p.up * avail / out,
            down: p.down * avail / out,
        }
    } else {
        p
    }
}

/// One cell's four pipes after the flux phase: each pipe is updated from
/// the height difference toward its neighbor, then the scale-back is
/// applied with the cell's liquid height.
pub open spec fn flux_cell(sv: SimulationVariables, s: StateV, loc: int) -> PipesV {
    let h = s.total(loc);
    let p = PipesV {
        left: pipe_update(sv, s.flux[loc].left, h, s.total(loc - 1)),
        right: pipe_update(sv, s.flux[loc].right, h, s.total(loc + 1)),
        up: pipe_update(sv, s.flux[loc].up, h, s.total(loc - s.sx)),
        down: pipe_update(sv, s.flux[loc].down, h, s.total(loc + s.sx)),
    };
    scale_back_v(p, s.liquid(loc))
}

pub open spec fn flux_map(sv: SimulationVariables, s: StateV) -> StateV {
    StateV {
        flux: Seq::new(
            s.flux.len(),
            |loc: int| if s.interior(loc) { flux_cell(sv, s, loc) } else { s.flux[loc] },
        ),
        ..s
    }
}

// --- Phase 3: boundary condition -------------------------------------------

/// An interior cell's pipes after the boundary phase: every pipe that
/// points into the border ring is forced to zero.
pub open spec fn boundary_cell(sx: int, sy: int, loc: int, p: PipesV) -> PipesV {
    let x = loc % sx;
    let y = loc / sx;
    PipesV {
        left: if x == 1 { 0 } else { p.left },
        right: if x == sx - 2 { 0 } else { p.right },
        up: if y == 1 { 0 } else { p.up },
        down: if y == sy - 2 { 0 } else { p.down },
    }
}

pub open spec fn boundary_map(s: StateV) -> StateV {
    StateV {
        flux: Seq::new(
            s.flux.len(),
            |loc: int|
                if s.interior(loc) {
                    boundary_cell(s.sx, s.sy, loc, s.flux[loc])
                } else {
                    s.flux[loc]
                },
        ),
        ..s
    }
}

// --- Phase 4: water & sediment transport ------------------------------------

/// Conversion of a flow rate (volume per second) into the column height it
/// moves during one step: `flux * dt / pipe_length^2`.
pub open spec fn to_height(sv: SimulationVariables, f: int) -> int {
    f * sv.dt * (SCALE as int) / (sv.pipe_length * sv.pipe_length)
}

/// The part of a transported height `h` that is made of `num`, where the
/// source cell holds `num` out of `den` total liquid.  A cell without
/// liquid transports nothing (its flux was already scaled back to zero),
/// so the ratio is taken as zero there.
pub open spec fn share(h: int, num: int, den: int) -> int {
    if den == 0 {
        0
    } else {
        h * num / den
    }
}

/// The water fraction of a height `h` leaving source cell `j`.
pub open spec fn water_share(s: StateV, j: int, h: int) -> int {
    share(h, s.water[j], s.liquid(j))
}

/// The sediment fraction of a height `h` leaving source cell `j`.
pub open spec fn sediment_share(s: StateV, j: int, h: int) -> int {
    share(h, s.sediment[j], s.liquid(j))
}

/// A cell's new water height: its old water, minus the water fraction of
/// everything it sends out, plus the water fractions of what its four
/// neighbors send toward it — each fraction computed at the source cell.
pub open spec fn water_cell(sv: SimulationVariables, s: StateV, loc: int) -> int {
    s.water[loc] - water_share(s, loc, to_height(sv, s.out_flux(loc))) + water_share(
        s,
        loc - 1,
        to_height(sv, s.flux[loc - 1].right),
    ) + water_share(s, loc + 1, to_height(sv, s.flux[loc + 1].left)) + water_share(
        s,
        loc - s.sx,
        to_height(sv, s.flux[loc - s.sx].down),
    ) + water_share(s, loc + s.sx, to_height(sv, s.flux[loc + s.sx].up))
}

pub open spec fn sediment_cell(sv: SimulationVariables, s: StateV, loc: int) -> int {
    s.sediment[loc] - sediment_share(s, loc, to_height(sv, s.out_flux(loc))) + sediment_share(
        s,
        loc - 1,
        to_height(sv, s.flux[loc - 1].right),
    ) + sediment_share(s, loc + 1, to_height(sv, s.flux[loc + 1].left)) + sediment_share(
        s,
        loc - s.sx,
        to_height(sv, s.flux[loc - s.sx].down),
    ) + sediment_share(s, loc + s.sx, to_height(sv, s.flux[loc + s.sx].up))
}

/// The transport phase rewrites water and sediment of every interior cell
/// from the pre-phase state (double-buffered in the implementation, so
/// neighbor reads are never corrupted by same-phase writes); terrain and
/// flux pass through, and the border ring keeps its values.
pub open spec fn transport_map(sv: SimulationVariables, s: StateV) -> StateV {
    StateV {
        water: Seq::new(
            s.water.len(),
            |loc: int| if s.interior(loc) { water_cell(sv, s, loc) } else { s.water[loc] },
        ),
        sediment: Seq::new(
            s.sediment.len(),
            |loc: int| if s.interior(loc) { sediment_cell(sv, s, loc) } else { s.sediment[loc] },
        ),
        ..s
    }
}

// --- Phase 5: erosion & deposition ------------------------------------------

/// Half the absolute value of `v` (the model's velocity components are
/// averages of two flux differences).
pub open spec fn half_abs(v: int) -> int {
    if v >= 0 {
        v / 2
    } else {
        (-v) / 2
    }
}

/// The sediment transport capacity of a cell: `sediment_capacity` times a
/// Manhattan-style speed proxy, `|vel_x| + |vel_y|`, each component the
/// mean of the net horizontal (resp. vertical) flux through the cell's two
/// faces.  Deliberately not a Euclidean magnitude.
pub open spec fn capacity_at(sv: SimulationVariables, flux: Seq<PipesV>, sx: int, loc: int) -> int {
    let vx = (flux[loc - 1].right - flux[loc].left) + (flux[loc].right - flux[loc + 1].left);
    let vy = (flux[loc + sx].up - flux[loc].down) + (flux[loc].up - flux[loc - sx].down);
    sv.sediment_capacity * (half_abs(vx) + half_abs(vy)) / (SCALE as int)
}

pub open spec fn capacity(sv: SimulationVariables, s: StateV, loc: int) -> int {
    capacity_at(sv, s.flux, s.sx, loc)
}

/// The height converted between terrain and sediment at one cell: positive
/// dissolves terrain into sediment (at `dissolve_constant`), negative
/// deposits sediment back (at `deposition_constant`).
pub open spec fn erosion_change(sv: SimulationVariables, cap: int, sed: int) -> int {
    let desired = cap - sed;
    if desired > 0 {
        sv.dissolve_constant * sv.dt * desired / ((SCALE as int) * (SCALE as int))
    } else {
        -(sv.deposition_constant * sv.dt * (sed - cap) / ((SCALE as int) * (SCALE as int)))
    }
}

pub open spec fn erosion_cell(sv: SimulationVariables, s: StateV, loc: int) -> int {
    erosion_change(sv, capacity(sv, s, loc), s.sediment[loc])
}

/// The erosion phase moves `erosion_cell` from terrain to sediment at
/// every interior cell — an exactly conservative exchange of the two.
pub open spec fn erosion_map(sv: SimulationVariables, s: StateV) -> StateV {
    StateV {
        terrain: Seq::new(
            s.terrain.len(),
            |loc: int|
                if s.interior(loc) {
                    s.terrain[loc] - erosion_cell(sv, s, loc)
                } else {
                    s.terrain[loc]
                },
        ),
        sediment: Seq::new(
            s.sediment.len(),
            |loc: int|
                if s.interior(loc) {
                    s.sediment[loc] + erosion_cell(sv, s, loc)
                } else {
                    s.sediment[loc]
                },
        ),
        ..s
    }
}

// --- Phase 6: evaporation ----------------------------------------------------

/// The fixed-point factor `1 - evaporation * dt`, in `SCALE * SCALE` units.
pub open spec fn evap_factor(sv: SimulationVariables) -> int {
    (SCALE as int) * (SCALE as int) - sv.evaporation * sv.dt
}

pub open spec fn evap_cell(sv: SimulationVariables, w: int) -> int {
    w * evap_factor(sv) / ((SCALE as int) * (SCALE as int))
}

pub open spec fn evap_map(sv: SimulationVariables, s: StateV) -> StateV {
    StateV {
        water: Seq::new(
            s.water.len(),
            |loc: int| if s.interior(loc) { evap_cell(sv, s.water[loc]) } else { s.water[loc] },
        ),
        ..s
    }
}

// --- The whole step -----------------------------------------------------------

/// One tick of the fixed pipeline: rainfall, flux update, boundary
/// condition, transport, steepness pass-through, buffer commit, erosion &
/// deposition, evaporation.  The steepness phase copies terrain unchanged
/// and the commit only swaps buffers, so neither appears as a map of its
/// own here.
pub open spec fn step_map(sv: SimulationVariables, s: StateV) -> StateV {
    evap_map(
        sv,
        erosion_map(sv, transport_map(sv, boundary_map(flux_map(sv, rain_map(sv, s))))),
    )
}

/// `k` consecutive ticks.
pub open spec fn step_iter(sv: SimulationVariables, s: StateV, k: nat) -> StateV
    decreases k,
{
    if k == 0 {
        s
    } else {
        step_map(sv, step_iter(sv, s, (k - 1) as nat))
    }
}

} // verus!
