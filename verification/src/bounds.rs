use vstd::prelude::*;
use crate::arith::{lemma_div_superadd, lemma_ratio_le};
use crate::config::{SimulationVariables, CONFIG_LIMIT, SCALE};
use crate::grid::lemma_interior_bounds;
use crate::model::{
    border_flux_zero, bounded, boundary_map, capacity_at, erosion_change, erosion_map, evap_cell,
    evap_map, flux_bounds, flux_cell, flux_map, half_abs, heights_bounds, nonneg, pipe_update,
    rain_amount, rain_map, scale_back_v, sediment_cell, share, to_height, transport_map,
    water_cell, PipesV, StateV, FLUX_LIMIT, HEIGHT_LIMIT, LIQUID_MID,
};
use vstd::arithmetic::div_mod::{
    lemma_div_is_ordered, lemma_div_multiples_vanish, lemma_div_of0, lemma_div_pos_is_pos,
};
use vstd::arithmetic::mul::{lemma_mul_inequality, lemma_mul_nonnegative, lemma_mul_upper_bound};

verus! {

/// The scale-back keeps every pipe non-negative, never raises a pipe, and
/// caps the cell's total outflow by its available liquid.
pub proof fn lemma_scale_back_bounds(p: PipesV, avail: int)
    requires
        0 <= p.left,
        0 <= p.right,
        0 <= p.up,
        0 <= p.down,
        0 <= avail,
    ensures
        ({
            let q = scale_back_v(p, avail);
            &&& 0 <= q.left <= p.left
            &&& 0 <= q.right <= p.right
            &&& 0 <= q.up <= p.up
            &&& 0 <= q.down <= p.down
            &&& q.left + q.right + q.up + q.down <= avail
        }),
{
    let out = p.left + p.right + p.up + p.down;
    if out > avail {
        lemma_ratio_le(p.left, avail, out);
        lemma_ratio_le(p.right, avail, out);
        lemma_ratio_le(p.up, avail, out);
        lemma_ratio_le(p.down, avail, out);
        lemma_div_superadd(p.left * avail, p.right * avail, out);
        lemma_div_superadd(p.left * avail + p.right * avail, p.up * avail, out);
        lemma_div_superadd(p.left * avail + p.right * avail + p.up * avail, p.down * avail, out);
        assert(p.left * avail + p.right * avail + p.up * avail + p.down * avail == out * avail)
            by (nonlinear_arith)
            requires
                out == p.left + p.right + p.up + p.down,
        ;
        lemma_div_multiples_vanish(avail, out);
    }
}

/// The flux phase leaves every pipe of a cell non-negative and the cell's
/// total outflow at or below its transportable liquid.
pub proof fn lemma_flux_cell_bounds(sv: SimulationVariables, s: StateV, loc: int)
    requires
        sv.valid(),
        0 <= s.water[loc],
        0 <= s.sediment[loc],
    ensures
        ({
            let q = flux_cell(sv, s, loc);
            &&& 0 <= q.left
            &&& 0 <= q.right
            &&& 0 <= q.up
            &&& 0 <= q.down
            &&& q.left + q.right + q.up + q.down <= s.liquid(loc)
        }),
{
    let h = s.total(loc);
    let p = PipesV {
        left: pipe_update(sv, s.flux[loc].left, h, s.total(loc - 1)),
        right: pipe_update(sv, s.flux[loc].right, h, s.total(loc + 1)),
        up: pipe_update(sv, s.flux[loc].up, h, s.total(loc - s.sx)),
        down: pipe_update(sv, s.flux[loc].down, h, s.total(loc + s.sx)),
    };
    lemma_scale_back_bounds(p, s.liquid(loc));
}

/// Converting a non-negative flow rate to a transported height under a
/// valid configuration (`dt * SCALE <= pipe_length^2`) never yields more
/// height than the rate itself.
pub proof fn lemma_to_height_le(sv: SimulationVariables, f: int)
    requires
        sv.valid(),
        0 <= f,
    ensures
        0 <= to_height(sv, f) <= f,
{
    let l2 = sv.pipe_length * sv.pipe_length;
    assert(1 <= sv.pipe_length * sv.pipe_length) by (nonlinear_arith)
        requires
            1 <= sv.pipe_length,
    ;
    assert(f * sv.dt * (SCALE as int) <= f * (sv.pipe_length * sv.pipe_length))
        by (nonlinear_arith)
        requires
            0 <= f,
            0 <= sv.dt,
            sv.dt * (SCALE as int) <= sv.pipe_length * sv.pipe_length,
    ;
    lemma_mul_nonnegative(f * sv.dt, SCALE as int);
    lemma_mul_nonnegative(f, sv.dt as int);
    lemma_div_pos_is_pos(f * sv.dt * (SCALE as int), l2);
    assert(f * l2 == l2 * f) by (nonlinear_arith);
    lemma_div_is_ordered(f * sv.dt * (SCALE as int), l2 * f, l2);
    lemma_div_multiples_vanish(f, l2);
}

/// A share of a transported height is non-negative and bounded both by the
/// height itself and by the numerator's stock at the source.
pub proof fn lemma_share_bounds(h: int, num: int, den: int)
    requires
        0 <= h <= den,
        0 <= num <= den,
    ensures
        0 <= share(h, num, den) <= num,
        share(h, num, den) <= h,
{
    if den != 0 {
        lemma_ratio_le(h, num, den);
    }
}

/// The transport phase keeps a cell's water and sediment non-negative: it
/// can lose at most what it holds (thanks to the flux scale-back and the
/// stability bound on `dt`), and every incoming share is non-negative and
/// bounded by the sending neighbor's own liquid.
pub proof fn lemma_transport_cell(sv: SimulationVariables, s: StateV, loc: int)
    requires
        sv.valid(),
        s.wf(),
        s.interior(loc),
        nonneg(s),
        border_flux_zero(s),
        forall|j: int|
            0 <= j < s.n() && s.interior(j) ==> #[trigger] s.out_flux(j) <= s.liquid(j),
    ensures
        0 <= water_cell(sv, s, loc),
        0 <= sediment_cell(sv, s, loc),
        water_cell(sv, s, loc) <= s.water[loc] + s.liquid(loc - 1) + s.liquid(loc + 1) + s.liquid(
            loc - s.sx,
        ) + s.liquid(loc + s.sx),
        sediment_cell(sv, s, loc) <= s.sediment[loc] + s.liquid(loc - 1) + s.liquid(loc + 1)
            + s.liquid(loc - s.sx) + s.liquid(loc + s.sx),
{
    lemma_interior_bounds(s.sx, s.sy, loc);
    assert(s.n() == s.sx * s.sy);
    let liq = s.liquid(loc);
    assert(0 <= s.water[loc] && 0 <= s.sediment[loc]);
    let out = s.out_flux(loc);
    assert(0 <= out && out <= liq);
    lemma_to_height_le(sv, out);
    let oh = to_height(sv, out);
    lemma_share_bounds(oh, s.water[loc], liq);
    lemma_share_bounds(oh, s.sediment[loc], liq);
    lemma_in_share_bounds(sv, s, loc - 1, s.flux[loc - 1].right);
    lemma_in_share_bounds(sv, s, loc + 1, s.flux[loc + 1].left);
    lemma_in_share_bounds(sv, s, loc - s.sx, s.flux[loc - s.sx].down);
    lemma_in_share_bounds(sv, s, loc + s.sx, s.flux[loc + s.sx].up);
}

/// An incoming share from source cell `j` through one of its pipes `f`
/// lies between zero and `j`'s own water (resp. sediment) stock.
proof fn lemma_in_share_bounds(sv: SimulationVariables, s: StateV, j: int, f: int)
    requires
        sv.valid(),
        s.wf(),
        0 <= j < s.n(),
        nonneg(s),
        border_flux_zero(s),
        f == s.flux[j].left || f == s.flux[j].right || f == s.flux[j].up || f == s.flux[j].down,
        s.interior(j) ==> s.out_flux(j) <= s.liquid(j),
    ensures
        0 <= share(to_height(sv, f), s.water[j], s.liquid(j)) <= s.water[j],
        0 <= share(to_height(sv, f), s.sediment[j], s.liquid(j)) <= s.sediment[j],
{
    lemma_to_height_le(sv, f);
    let h = to_height(sv, f);
    if s.interior(j) {
        assert(f <= s.out_flux(j));
        lemma_share_bounds(h, s.water[j], s.liquid(j));
        lemma_share_bounds(h, s.sediment[j], s.liquid(j));
    } else {
        assert(s.flux[j] == (PipesV { left: 0, right: 0, up: 0, down: 0 }));
        assert(f == 0);
        let l2 = sv.pipe_length * sv.pipe_length;
        assert(1 <= sv.pipe_length * sv.pipe_length) by (nonlinear_arith)
            requires
                1 <= sv.pipe_length,
        ;
        lemma_div_of0(l2);
        assert(h == 0);
        lemma_share_bounds(0, s.water[j], s.liquid(j));
        lemma_share_bounds(0, s.sediment[j], s.liquid(j));
    }
}

/// What the rainfall phase leaves behind, given a non-negative, bounded
/// entry state: heights within the flux phase's bounds and the flux field
/// untouched.
pub proof fn lemma_after_rain(sv: SimulationVariables, m0: StateV, m1: StateV)
    requires
        sv.valid(),
        m0.wf(),
        nonneg(m0),
        bounded(m0),
        border_flux_zero(m0),
        m1 == rain_map(sv, m0),
    ensures
        m1.wf(),
        heights_bounds(m1),
        flux_bounds(m1),
        nonneg(m1),
        border_flux_zero(m1),
        forall|j: int| 0 <= j < m1.n() ==> #[trigger] m1.flux[j] == m0.flux[j],
{
    lemma_mul_upper_bound(
        sv.dt as int,
        CONFIG_LIMIT as int,
        sv.rainfall as int,
        CONFIG_LIMIT as int,
    );
    lemma_mul_nonnegative(sv.dt as int, sv.rainfall as int);
    lemma_div_is_ordered(sv.dt * sv.rainfall, 10_000_000_000_000_000, SCALE as int);
    lemma_div_pos_is_pos(sv.dt * sv.rainfall, SCALE as int);
    assert(0 <= rain_amount(sv) <= 10_000_000_000);
    assert forall|j: int|
        0 <= j < m1.n() implies {
        &&& -HEIGHT_LIMIT <= #[trigger] m1.terrain[j] <= HEIGHT_LIMIT
        &&& 0 <= m1.water[j] <= 2 * HEIGHT_LIMIT
        &&& 0 <= m1.sediment[j] <= HEIGHT_LIMIT
    } by {
        assert(-HEIGHT_LIMIT <= m0.terrain[j] <= HEIGHT_LIMIT);
        assert(m0.water[j] >= 0);
    }
    assert forall|j: int|
        0 <= j < m1.n() implies {
        &&& 0 <= (#[trigger] m1.flux[j].left) <= FLUX_LIMIT
        &&& 0 <= m1.flux[j].right <= FLUX_LIMIT
        &&& 0 <= m1.flux[j].up <= FLUX_LIMIT
        &&& 0 <= m1.flux[j].down <= FLUX_LIMIT
    } by {
        assert(-HEIGHT_LIMIT <= m0.terrain[j] <= HEIGHT_LIMIT);
        assert(m0.water[j] >= 0);
    }
    assert forall|j: int|
        0 <= j < m1.n() implies 0 <= (#[trigger] m1.water[j]) && 0 <= m1.sediment[j] by {
        assert(-HEIGHT_LIMIT <= m1.terrain[j] <= HEIGHT_LIMIT);
    }
    assert forall|j: int|
        0 <= j < m1.n() && !m1.interior(j) implies (#[trigger] m1.flux[j]) == (PipesV {
        left: 0,
        right: 0,
        up: 0,
        down: 0,
    }) by {
        assert(m0.flux[j] == (PipesV { left: 0, right: 0, up: 0, down: 0 }));
    }
}

/// What the flux and boundary phases leave behind: every pipe
/// non-negative and bounded, every interior cell's outflow within its
/// liquid, and the border ring's pipes still zero.
pub proof fn lemma_after_flux_boundary(sv: SimulationVariables, m1: StateV, m2: StateV, m3: StateV)
    requires
        sv.valid(),
        m1.wf(),
        heights_bounds(m1),
        flux_bounds(m1),
        nonneg(m1),
        border_flux_zero(m1),
        m2 == flux_map(sv, m1),
        m3 == boundary_map(m2),
    ensures
        m3.wf(),
        heights_bounds(m3),
        flux_bounds(m3),
        nonneg(m3),
        border_flux_zero(m3),
        forall|j: int|
            0 <= j < m3.n() && m3.interior(j) ==> #[trigger] m3.out_flux(j) <= m3.liquid(j),
{
    assert forall|j: int|
        0 <= j < m3.n() implies {
        &&& 0 <= (#[trigger] m3.flux[j].left) <= FLUX_LIMIT
        &&& 0 <= m3.flux[j].right <= FLUX_LIMIT
        &&& 0 <= m3.flux[j].up <= FLUX_LIMIT
        &&& 0 <= m3.flux[j].down <= FLUX_LIMIT
        &&& (m3.interior(j) ==> m3.out_flux(j) <= m3.liquid(j))
        &&& (!m3.interior(j) ==> m3.flux[j] == (PipesV { left: 0, right: 0, up: 0, down: 0 }))
    } by {
        assert(-HEIGHT_LIMIT <= m1.terrain[j] <= HEIGHT_LIMIT);
        assert(0 <= m1.flux[j].left <= FLUX_LIMIT);
        assert(0 <= m1.water[j]);
        if m1.interior(j) {
            lemma_flux_cell_bounds(sv, m1, j);
            assert(m2.flux[j] == flux_cell(sv, m1, j));
        } else {
            assert(m1.flux[j] == (PipesV { left: 0, right: 0, up: 0, down: 0 }));
            assert(m2.flux[j] == m1.flux[j]);
            assert(m3.flux[j] == m2.flux[j]);
        }
    }
    assert forall|j: int|
        0 <= j < m3.n() implies {
        &&& -HEIGHT_LIMIT <= (#[trigger] m3.terrain[j]) <= HEIGHT_LIMIT
        &&& 0 <= m3.water[j] <= 2 * HEIGHT_LIMIT
        &&& 0 <= m3.sediment[j] <= HEIGHT_LIMIT
    } by {
        assert(-HEIGHT_LIMIT <= m1.terrain[j] <= HEIGHT_LIMIT);
    }
    assert forall|j: int|
        0 <= j < m3.n() implies 0 <= (#[trigger] m3.water[j]) && 0 <= m3.sediment[j] by {
        assert(-HEIGHT_LIMIT <= m3.terrain[j] <= HEIGHT_LIMIT);
    }
    assert forall|j: int|
        0 <= j < m3.n() && !m3.interior(j) implies (#[trigger] m3.flux[j]) == (PipesV {
        left: 0,
        right: 0,
        up: 0,
        down: 0,
    }) by {
        assert(0 <= m3.flux[j].left);
    }
}

/// What the transport phase leaves behind: water and sediment still
/// non-negative (the heart of the non-negativity argument) and within
/// `LIQUID_MID`, the flux field and terrain untouched.
pub proof fn lemma_after_transport(sv: SimulationVariables, m3: StateV, m4: StateV)
    requires
        sv.valid(),
        m3.wf(),
        heights_bounds(m3),
        flux_bounds(m3),
        nonneg(m3),
        border_flux_zero(m3),
        forall|j: int|
            0 <= j < m3.n() && m3.interior(j) ==> #[trigger] m3.out_flux(j) <= m3.liquid(j),
        m4 == transport_map(sv, m3),
    ensures
        m4.wf(),
        nonneg(m4),
        border_flux_zero(m4),
        flux_bounds(m4),
        forall|j: int|
            0 <= j < m4.n() ==> {
                &&& -HEIGHT_LIMIT <= #[trigger] m4.terrain[j] <= HEIGHT_LIMIT
                &&& 0 <= m4.water[j] <= LIQUID_MID
                &&& 0 <= m4.sediment[j] <= LIQUID_MID
            },
{
    assert forall|j: int|
        0 <= j < m4.n() implies {
        &&& -HEIGHT_LIMIT <= #[trigger] m4.terrain[j] <= HEIGHT_LIMIT
        &&& 0 <= m4.water[j] <= LIQUID_MID
        &&& 0 <= m4.sediment[j] <= LIQUID_MID
    } by {
        assert(-HEIGHT_LIMIT <= m3.terrain[j] <= HEIGHT_LIMIT);
        assert(0 <= m3.water[j] <= 2 * HEIGHT_LIMIT);
        if m3.interior(j) {
            lemma_interior_bounds(m3.sx, m3.sy, j);
            assert(m3.n() == m3.sx * m3.sy);
            assert(-HEIGHT_LIMIT <= m3.terrain[j - 1] <= HEIGHT_LIMIT);
            assert(-HEIGHT_LIMIT <= m3.terrain[j + 1] <= HEIGHT_LIMIT);
            assert(-HEIGHT_LIMIT <= m3.terrain[j - m3.sx] <= HEIGHT_LIMIT);
            assert(-HEIGHT_LIMIT <= m3.terrain[j + m3.sx] <= HEIGHT_LIMIT);
            lemma_transport_cell(sv, m3, j);
        }
    }
    assert forall|j: int|
        0 <= j < m4.n() implies 0 <= (#[trigger] m4.water[j]) && 0 <= m4.sediment[j] by {
        assert(-HEIGHT_LIMIT <= m4.terrain[j] <= HEIGHT_LIMIT);
    }
    assert forall|j: int|
        0 <= j < m4.n() implies {
        &&& 0 <= (#[trigger] m4.flux[j].left) <= FLUX_LIMIT
        &&& 0 <= m4.flux[j].right <= FLUX_LIMIT
        &&& 0 <= m4.flux[j].up <= FLUX_LIMIT
        &&& 0 <= m4.flux[j].down <= FLUX_LIMIT
    } by {
        assert(0 <= m3.flux[j].left <= FLUX_LIMIT);
        assert(m4.flux[j] == m3.flux[j]);
    }
    assert forall|j: int|
        0 <= j < m4.n() && !m4.interior(j) implies (#[trigger] m4.flux[j]) == (PipesV {
        left: 0,
        right: 0,
        up: 0,
        down: 0,
    }) by {
        assert(m4.flux[j] == m3.flux[j]);
        assert(m3.flux[j] == (PipesV { left: 0, right: 0, up: 0, down: 0 }));
    }
}

/// What the erosion phase leaves behind: sediment still non-negative
/// (deposition never overdraws, by `deposition_constant * dt <= 1`),
/// water and flux untouched.
pub proof fn lemma_after_erosion(sv: SimulationVariables, m4: StateV, m5: StateV)
    requires
        sv.valid(),
        m4.wf(),
        nonneg(m4),
        border_flux_zero(m4),
        flux_bounds(m4),
        forall|j: int|
            0 <= j < m4.n() ==> {
                &&& -HEIGHT_LIMIT <= #[trigger] m4.terrain[j] <= HEIGHT_LIMIT
                &&& 0 <= m4.water[j] <= LIQUID_MID
                &&& 0 <= m4.sediment[j] <= LIQUID_MID
            },
        m5 == erosion_map(sv, m4),
    ensures
        m5.wf(),
        border_flux_zero(m5),
        forall|j: int|
            0 <= j < m5.n() ==> {
                &&& 0 <= #[trigger] m5.water[j] <= LIQUID_MID
                &&& 0 <= m5.sediment[j]
                &&& m5.flux[j] == m4.flux[j]
            },
{
    assert forall|j: int|
        0 <= j < m5.n() implies {
        &&& 0 <= #[trigger] m5.water[j] <= LIQUID_MID
        &&& 0 <= m5.sediment[j]
        &&& m5.flux[j] == m4.flux[j]
    } by {
        assert(-HEIGHT_LIMIT <= m4.terrain[j] <= HEIGHT_LIMIT);
        assert(0 <= m4.water[j] <= LIQUID_MID);
        if m4.interior(j) {
            lemma_capacity_nonneg(sv, m4.flux, m4.sx, j);
            lemma_erosion_change_bounds(sv, capacity_at(sv, m4.flux, m4.sx, j), m4.sediment[j]);
        }
    }
    assert forall|j: int|
        0 <= j < m5.n() && !m5.interior(j) implies (#[trigger] m5.flux[j]) == (PipesV {
        left: 0,
        right: 0,
        up: 0,
        down: 0,
    }) by {
        assert(0 <= m5.water[j] <= LIQUID_MID);
        assert(m4.flux[j] == (PipesV { left: 0, right: 0, up: 0, down: 0 }));
    }
}

/// What the evaporation phase leaves behind: a fully non-negative state
/// with the border ring's pipes still zero.
pub proof fn lemma_after_evap(sv: SimulationVariables, m5: StateV, m6: StateV)
    requires
        sv.valid(),
        m5.wf(),
        border_flux_zero(m5),
        forall|j: int|
            0 <= j < m5.n() ==> {
                &&& 0 <= #[trigger] m5.water[j] <= LIQUID_MID
                &&& 0 <= m5.sediment[j]
                &&& m5.flux[j].left >= 0 && m5.flux[j].right >= 0 && m5.flux[j].up >= 0
                    && m5.flux[j].down >= 0
            },
        m6 == evap_map(sv, m5),
    ensures
        m6.wf(),
        nonneg(m6),
        border_flux_zero(m6),
{
    assert forall|j: int|
        0 <= j < m6.n() implies {
        &&& 0 <= #[trigger] m6.water[j]
        &&& 0 <= m6.sediment[j]
        &&& m6.flux[j].left >= 0 && m6.flux[j].right >= 0 && m6.flux[j].up >= 0
            && m6.flux[j].down >= 0
    } by {
        assert(0 <= m5.water[j] <= LIQUID_MID);
        if m6.interior(j) {
            lemma_evap_cell_bounds(sv, m5.water[j]);
        }
    }
    assert forall|j: int|
        0 <= j < m6.n() && !m6.interior(j) implies (#[trigger] m6.flux[j]) == (PipesV {
        left: 0,
        right: 0,
        up: 0,
        down: 0,
    }) by {
        assert(0 <= m6.water[j]);
        assert(m5.flux[j] == (PipesV { left: 0, right: 0, up: 0, down: 0 }));
    }
}

/// Evaporation under a valid configuration (`evaporation * dt <= 1` in
/// real units) shrinks a non-negative water height toward zero but never
/// past it.
pub proof fn lemma_evap_cell_bounds(sv: SimulationVariables, w: int)
    requires
        sv.valid(),
        0 <= w,
    ensures
        0 <= evap_cell(sv, w) <= w,
{
    let s2 = (SCALE as int) * (SCALE as int);
    let factor = s2 - sv.evaporation * sv.dt;
    lemma_mul_nonnegative(sv.evaporation as int, sv.dt as int);
    assert(0 <= factor <= s2);
    lemma_mul_nonnegative(w, factor);
    lemma_div_pos_is_pos(w * factor, s2);
    lemma_mul_inequality(factor, s2, w);
    assert(w * factor == factor * w) by (nonlinear_arith);
    lemma_div_is_ordered(w * factor, s2 * w, s2);
    lemma_div_multiples_vanish(w, s2);
}

/// The sediment transport capacity is never negative.
pub proof fn lemma_capacity_nonneg(sv: SimulationVariables, flux: Seq<PipesV>, sx: int, loc: int)
    requires
        sv.valid(),
    ensures
        0 <= capacity_at(sv, flux, sx, loc),
{
    let vx = (flux[loc - 1].right - flux[loc].left) + (flux[loc].right - flux[loc + 1].left);
    let vy = (flux[loc + sx].up - flux[loc].down) + (flux[loc].up - flux[loc - sx].down);
    lemma_half_abs_nonneg(vx);
    lemma_half_abs_nonneg(vy);
    lemma_mul_nonnegative(sv.sediment_capacity as int, half_abs(vx) + half_abs(vy));
    lemma_div_pos_is_pos(sv.sediment_capacity as int * (half_abs(vx) + half_abs(vy)), SCALE as int);
}

proof fn lemma_half_abs_nonneg(v: int)
    ensures
        0 <= half_abs(v),
{
    if v >= 0 {
        lemma_div_pos_is_pos(v, 2);
    } else {
        lemma_div_pos_is_pos(-v, 2);
    }
}

/// The erosion/deposition exchange under a valid configuration
/// (`deposition_constant * dt <= 1` in real units) never takes more
/// sediment from a cell than it holds.
pub proof fn lemma_erosion_change_bounds(sv: SimulationVariables, cap: int, sed: int)
    requires
        sv.valid(),
        0 <= sed,
        0 <= cap,
    ensures
        0 <= sed + erosion_change(sv, cap, sed),
{
    let s2 = (SCALE as int) * (SCALE as int);
    let desired = cap - sed;
    if desired > 0 {
        lemma_mul_nonnegative(sv.dissolve_constant as int, sv.dt as int);
        lemma_mul_nonnegative(sv.dissolve_constant * sv.dt, desired);
        lemma_div_pos_is_pos(sv.dissolve_constant * sv.dt * desired, s2);
    } else {
        let rate = sv.deposition_constant * sv.dt;
        lemma_mul_nonnegative(sv.deposition_constant as int, sv.dt as int);
        lemma_mul_inequality(rate, s2, sed - cap);
        assert(rate * (sed - cap) == (sed - cap) * rate && s2 * (sed - cap) == (sed - cap) * s2)
            by (nonlinear_arith)
        ;
        lemma_mul_inequality(sed - cap, sed, s2);
        lemma_div_is_ordered(rate * (sed - cap), s2 * sed, s2);
        lemma_div_multiples_vanish(sed, s2);
        lemma_mul_nonnegative(rate, sed - cap);
        lemma_div_pos_is_pos(rate * (sed - cap), s2);
    }
}

} // verus!
