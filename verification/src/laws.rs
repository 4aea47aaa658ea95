use vstd::prelude::*;
use crate::bounds::{
    lemma_after_erosion, lemma_after_evap, lemma_after_flux_boundary, lemma_after_rain,
    lemma_after_transport, lemma_flux_cell_bounds,
};
use crate::config::{SimulationVariables, SCALE};
use crate::model::{
    border_flux_zero, bounded, boundary_map, capacity_at, erosion_cell, erosion_change,
    erosion_map, evap_map, flux_cell, flux_map, half_abs, nonneg, rain_map, step_iter, step_map,
    transport_map, PipesV, StateV, FLUX_LIMIT, LIQUID_MID,
};
use vstd::arithmetic::div_mod::lemma_div_of0;
use vstd::arithmetic::mul::{lemma_mul_basics, lemma_mul_inequality};

verus! {

/// Flux stability bound: immediately after the flux phase's scale-back,
/// every cell's total outgoing flux is at most the transportable liquid
/// height it holds — an interior cell by the scale-back itself, a border
/// cell because its pipes stay at zero.
pub proof fn lemma_flux_stability_bound(sv: SimulationVariables, s: StateV)
    requires
        sv.valid(),
        s.wf(),
        nonneg(s),
        border_flux_zero(s),
    ensures
        forall|loc: int|
            0 <= loc < s.n() ==> #[trigger] flux_map(sv, s).out_flux(loc) <= flux_map(
                sv,
                s,
            ).liquid(loc),
{
    let f = flux_map(sv, s);
    assert forall|loc: int|
        0 <= loc < s.n() implies #[trigger] f.out_flux(loc) <= f.liquid(loc) by {
        assert(s.water[loc] >= 0);
        if s.interior(loc) {
            lemma_flux_cell_bounds(sv, s, loc);
            assert(f.flux[loc] == flux_cell(sv, s, loc));
        } else {
            assert(s.flux[loc] == (PipesV { left: 0, right: 0, up: 0, down: 0 }));
            assert(f.flux[loc] == s.flux[loc]);
        }
    }
}

/// Boundary enforcement: immediately after the boundary phase, every pipe
/// of the inner ring that points into the border is exactly zero.
pub proof fn lemma_boundary_enforcement(s: StateV)
    requires
        s.wf(),
    ensures
        forall|loc: int|
            0 <= loc < s.n() && s.interior(loc) ==> {
                let p = #[trigger] boundary_map(s).flux[loc];
                &&& (loc % s.sx == 1 ==> p.left == 0)
                &&& (loc % s.sx == s.sx - 2 ==> p.right == 0)
                &&& (loc / s.sx == 1 ==> p.up == 0)
                &&& (loc / s.sx == s.sy - 2 ==> p.down == 0)
            },
{
}

/// Mass exchange conservation: across the erosion/deposition phase alone,
/// every cell's `terrain + sediment` sum is exactly preserved — the phase
/// only converts between the two fields, it never creates or destroys
/// column height.
pub proof fn lemma_erosion_conserves_mass(sv: SimulationVariables, s: StateV)
    requires
        s.wf(),
    ensures
        forall|loc: int|
            0 <= loc < s.n() ==> #[trigger] erosion_map(sv, s).terrain[loc] + erosion_map(
                sv,
                s,
            ).sediment[loc] == s.terrain[loc] + s.sediment[loc],
{
}

/// Determinism across parallelism: the step's outcome is a function of
/// the heights, the flux field and the numeric constants alone — the
/// `thread_count` knob (which only selects how a host runner schedules
/// rows) never influences a single value.  Together with `step` returning
/// exactly `step_map`, any two runs from identical state agree bit for
/// bit, whatever the worker count.
pub proof fn lemma_thread_count_irrelevant(
    sv1: SimulationVariables,
    sv2: SimulationVariables,
    s: StateV,
)
    requires
        sv1.rainfall == sv2.rainfall,
        sv1.evaporation == sv2.evaporation,
        sv1.dt == sv2.dt,
        sv1.gravity == sv2.gravity,
        sv1.pipe_length == sv2.pipe_length,
        sv1.sediment_capacity == sv2.sediment_capacity,
        sv1.dissolve_constant == sv2.dissolve_constant,
        sv1.deposition_constant == sv2.deposition_constant,
    ensures
        step_map(sv1, s) == step_map(sv2, s),
{
    let m1 = rain_map(sv1, s);
    assert(m1.water =~= rain_map(sv2, s).water);
    assert(m1 =~= rain_map(sv2, s));
    let m2 = flux_map(sv1, m1);
    assert(m2.flux =~= flux_map(sv2, m1).flux);
    assert(m2 =~= flux_map(sv2, m1));
    let m3 = boundary_map(m2);
    let m4 = transport_map(sv1, m3);
    assert(m4.water =~= transport_map(sv2, m3).water);
    assert(m4.sediment =~= transport_map(sv2, m3).sediment);
    assert(m4 =~= transport_map(sv2, m3));
    let m5 = erosion_map(sv1, m4);
    assert(m5.terrain =~= erosion_map(sv2, m4).terrain);
    assert(m5.sediment =~= erosion_map(sv2, m4).sediment);
    assert(m5 =~= erosion_map(sv2, m4));
    let m6 = evap_map(sv1, m5);
    assert(m6.water =~= evap_map(sv2, m5).water);
    assert(m6 =~= evap_map(sv2, m5));
}

/// Non-negativity: one step from a well-formed, bounded state with
/// non-negative water, sediment and flux (and a resting border) leaves
/// every one of those quantities non-negative again, in every cell.
/// The executable `step` carries the same guarantee in its own contract.
pub proof fn lemma_step_nonneg(sv: SimulationVariables, s: StateV)
    requires
        sv.valid(),
        s.wf(),
        nonneg(s),
        bounded(s),
        border_flux_zero(s),
    ensures
        step_map(sv, s).wf(),
        nonneg(step_map(sv, s)),
        border_flux_zero(step_map(sv, s)),
{
    let m1 = rain_map(sv, s);
    lemma_after_rain(sv, s, m1);
    let m2 = flux_map(sv, m1);
    let m3 = boundary_map(m2);
    lemma_after_flux_boundary(sv, m1, m2, m3);
    let m4 = transport_map(sv, m3);
    lemma_after_transport(sv, m3, m4);
    let m5 = erosion_map(sv, m4);
    lemma_after_erosion(sv, m4, m5);
    let m6 = evap_map(sv, m5);
    assert forall|j: int|
        0 <= j < m5.n() implies {
        &&& 0 <= #[trigger] m5.water[j] <= LIQUID_MID
        &&& 0 <= m5.sediment[j]
        &&& m5.flux[j].left >= 0 && m5.flux[j].right >= 0 && m5.flux[j].up >= 0
            && m5.flux[j].down >= 0
    } by {
        assert(0 <= m5.water[j] <= LIQUID_MID);
        assert(0 <= m4.flux[j].left <= FLUX_LIMIT);
        assert(m5.flux[j] == m4.flux[j]);
    }
    lemma_after_evap(sv, m5, m6);
}

/// A perfectly flat world: uniform terrain at height `c`, no water, no
/// sediment, and a resting flux field.
pub open spec fn flat(s: StateV, c: int) -> bool {
    forall|loc: int|
        0 <= loc < s.n() ==> {
            &&& #[trigger] s.terrain[loc] == c
            &&& s.water[loc] == 0
            &&& s.sediment[loc] == 0
            &&& s.flux[loc] == (PipesV { left: 0, right: 0, up: 0, down: 0 })
        }
}

/// No-op stability: on a perfectly flat grid with `rainfall = 0` and
/// `evaporation = 0`, one step changes nothing at all — the flux stays
/// zero and every height is returned exactly.
pub proof fn lemma_noop_stable(sv: SimulationVariables, s: StateV, c: int)
    requires
        sv.valid(),
        sv.rainfall == 0,
        sv.evaporation == 0,
        s.wf(),
        flat(s, c),
    ensures
        step_map(sv, s) == s,
{
    let den = sv.pipe_length * (SCALE as int);
    lemma_mul_inequality(1, sv.pipe_length as int, SCALE as int);
    lemma_div_of0(den);
    let l2 = sv.pipe_length * sv.pipe_length;
    assert(1 <= sv.pipe_length * sv.pipe_length) by (nonlinear_arith)
        requires
            1 <= sv.pipe_length,
    ;
    lemma_div_of0(l2);
    lemma_div_of0((SCALE as int) * (SCALE as int));
    lemma_div_of0(SCALE as int);
    lemma_div_of0(2);

    let m1 = rain_map(sv, s);
    assert forall|loc: int| 0 <= loc < s.n() implies #[trigger] m1.water[loc] == s.water[loc] by {
        assert(s.terrain[loc] == c);
    }
    assert(m1.water =~= s.water);
    assert(m1 =~= s);

    let m2 = flux_map(sv, s);
    assert forall|loc: int| 0 <= loc < s.n() implies #[trigger] m2.flux[loc] == s.flux[loc] by {
        assert(s.terrain[loc] == c);
        if s.interior(loc) {
            crate::grid::lemma_interior_bounds(s.sx, s.sy, loc);
            assert(s.n() == s.sx * s.sy);
            assert(s.terrain[loc - 1] == c && s.terrain[loc + 1] == c && s.terrain[loc - s.sx]
                == c && s.terrain[loc + s.sx] == c);
            assert(s.total(loc) == c && s.total(loc - 1) == c && s.total(loc + 1) == c && s.total(
                loc - s.sx,
            ) == c && s.total(loc + s.sx) == c);
            assert(flux_cell(sv, s, loc) == (PipesV { left: 0, right: 0, up: 0, down: 0 }));
        }
    }
    assert(m2.flux =~= s.flux);
    assert(m2 =~= s);

    let m3 = boundary_map(s);
    assert forall|loc: int| 0 <= loc < s.n() implies #[trigger] m3.flux[loc] == s.flux[loc] by {
        assert(s.terrain[loc] == c);
    }
    assert(m3.flux =~= s.flux);
    assert(m3 =~= s);

    let m4 = transport_map(sv, s);
    assert forall|loc: int|
        0 <= loc < s.n() implies #[trigger] m4.water[loc] == s.water[loc] && m4.sediment[loc]
        == s.sediment[loc] by {
        assert(s.terrain[loc] == c);
        if s.interior(loc) {
            crate::grid::lemma_interior_bounds(s.sx, s.sy, loc);
            assert(s.n() == s.sx * s.sy);
            assert(s.flux[loc] == (PipesV { left: 0, right: 0, up: 0, down: 0 }));
            assert(s.flux[loc - 1] == (PipesV { left: 0, right: 0, up: 0, down: 0 }));
            assert(s.flux[loc + 1] == (PipesV { left: 0, right: 0, up: 0, down: 0 }));
            assert(s.flux[loc - s.sx] == (PipesV { left: 0, right: 0, up: 0, down: 0 }));
            assert(s.flux[loc + s.sx] == (PipesV { left: 0, right: 0, up: 0, down: 0 }));
        }
    }
    assert(m4.water =~= s.water);
    assert(m4.sediment =~= s.sediment);
    assert(m4 =~= s);

    let m5 = erosion_map(sv, s);
    assert forall|loc: int|
        0 <= loc < s.n() implies #[trigger] m5.terrain[loc] == s.terrain[loc] && m5.sediment[loc]
        == s.sediment[loc] by {
        assert(s.terrain[loc] == c);
        if s.interior(loc) {
            crate::grid::lemma_interior_bounds(s.sx, s.sy, loc);
            assert(s.n() == s.sx * s.sy);
            assert(s.flux[loc] == (PipesV { left: 0, right: 0, up: 0, down: 0 }));
            assert(s.flux[loc - 1] == (PipesV { left: 0, right: 0, up: 0, down: 0 }));
            assert(s.flux[loc + 1] == (PipesV { left: 0, right: 0, up: 0, down: 0 }));
            assert(s.flux[loc - s.sx] == (PipesV { left: 0, right: 0, up: 0, down: 0 }));
            assert(s.flux[loc + s.sx] == (PipesV { left: 0, right: 0, up: 0, down: 0 }));
            lemma_mul_basics(sv.sediment_capacity as int);
            assert(half_abs(0) == 0);
            assert(capacity_at(sv, s.flux, s.sx, loc) == 0);
            lemma_mul_basics(sv.deposition_constant * sv.dt);
            assert(erosion_change(sv, 0, 0) == 0);
            assert(erosion_cell(sv, s, loc) == 0);
        }
    }
    assert(m5.terrain =~= s.terrain);
    assert(m5.sediment =~= s.sediment);
    assert(m5 =~= s);

    let m6 = evap_map(sv, s);
    assert forall|loc: int| 0 <= loc < s.n() implies #[trigger] m6.water[loc] == s.water[loc] by {
        assert(s.terrain[loc] == c);
    }
    assert(m6.water =~= s.water);
    assert(m6 =~= s);

    assert(step_map(sv, s) == s);
}

/// No-op stability over any number of steps: iterating the step on a
/// flat, rainless, evaporation-free world returns it unchanged.
pub proof fn lemma_noop_stable_iter(sv: SimulationVariables, s: StateV, c: int, k: nat)
    requires
        sv.valid(),
        sv.rainfall == 0,
        sv.evaporation == 0,
        s.wf(),
        flat(s, c),
    ensures
        step_iter(sv, s, k) == s,
    decreases k,
{
    if k > 0 {
        lemma_noop_stable_iter(sv, s, c, (k - 1) as nat);
        lemma_noop_stable(sv, s, c);
    }
}

} // verus!
