use vstd::prelude::*;
use crate::arith::{div_nn, muldiv};
use crate::config::{SimulationVariables, CONFIG_LIMIT, SCALE};
use crate::model::{pipe_update, scale_back_v, PipesV, DELTA_BOUND, FLUX_LIMIT, TOTAL_BOUND};
use vstd::arithmetic::div_mod::{lemma_div_is_ordered, lemma_div_is_ordered_by_denominator};
use vstd::arithmetic::mul::{lemma_mul_inequality, lemma_mul_upper_bound};

verus! {

/// One directional conduit: its volumetric outflow rate for the current
/// step, never negative (reverse flow is the opposing cell's own pipe).
#[derive(Clone, Copy, Debug, PartialEq, Eq, Structural)]
pub struct Pipe {
    pub flux: i128,
}

impl Pipe {
    pub fn new() -> (p: Pipe)
        ensures
            p.flux == 0,
    {
        Pipe { flux: 0 }
    }

    /// `flux' = max(0, flux + dt * gravity * (height - height_out) / pipe_length)`.
    pub fn update(&mut self, sv: &SimulationVariables, height: i128, height_out: i128)
        requires
            sv.valid(),
            0 <= old(self).flux <= FLUX_LIMIT,
            -TOTAL_BOUND <= height <= TOTAL_BOUND,
            -TOTAL_BOUND <= height_out <= TOTAL_BOUND,
        ensures
            final(self).flux == pipe_update(*sv, old(self).flux as int, height as int, height_out as int),
            0 <= final(self).flux <= FLUX_LIMIT + DELTA_BOUND,
    {
        let diff = height - height_out;
        proof {
            lemma_mul_upper_bound(sv.dt as int, CONFIG_LIMIT as int, sv.gravity as int, CONFIG_LIMIT as int);
            lemma_mul_upper_bound(sv.pipe_length as int, CONFIG_LIMIT as int, SCALE as int, SCALE as int);
            lemma_mul_inequality(1, sv.pipe_length as int, SCALE as int);
        }
        let num = sv.dt * sv.gravity;
        let den = sv.pipe_length * SCALE;
        let mag = if diff >= 0 { diff } else { -diff };
        proof {
            lemma_mul_upper_bound(num as int, 10_000_000_000_000_000, mag as int, 2 * TOTAL_BOUND as int);
        }
        let prod = num * mag;
        let q = div_nn(prod, den);
        proof {
            lemma_div_is_ordered_by_denominator(prod as int, SCALE as int, den as int);
            lemma_div_is_ordered(prod as int, 80_000_000_000_000_000_000_000_000_000, SCALE as int);
        }
        let delta = if diff >= 0 { q } else { -q };
        let nf = self.flux + delta;
        self.flux = if nf < 0 { 0 } else { nf };
    }
}

/// The four pipes of one cell.
#[derive(Clone, Copy, Debug, PartialEq, Eq, Structural)]
pub struct CellPipes {
    pub left: Pipe,
    pub right: Pipe,
    pub up: Pipe,
    pub down: Pipe,
}

impl CellPipes {
    /// The cell's pipes as a value of the mathematical model.
    pub open spec fn v(self) -> PipesV {
        PipesV {
            left: self.left.flux as int,
            right: self.right.flux as int,
            up: self.up.flux as int,
            down: self.down.flux as int,
        }
    }

    pub fn new() -> (c: CellPipes)
        ensures
            c.v() == (PipesV { left: 0, right: 0, up: 0, down: 0 }),
    {
        CellPipes { left: Pipe::new(), right: Pipe::new(), up: Pipe::new(), down: Pipe::new() }
    }

    /// The sum of the cell's four outflow rates.
    pub fn out_flux(&self) -> (r: i128)
        requires
            0 <= self.left.flux <= FLUX_LIMIT + DELTA_BOUND,
            0 <= self.right.flux <= FLUX_LIMIT + DELTA_BOUND,
            0 <= self.up.flux <= FLUX_LIMIT + DELTA_BOUND,
            0 <= self.down.flux <= FLUX_LIMIT + DELTA_BOUND,
        ensures
            r == self.v().left + self.v().right + self.v().up + self.v().down,
    {
        self.left.flux + self.right.flux + self.up.flux + self.down.flux
    }

    /// Scale the four pipes back so their sum never exceeds the cell's
    /// transportable liquid height `water_volume`.  A zero or already-small
    /// outflow is left alone, which is exactly where the naive ratio
    /// `water_volume / out_flux` would be undefined or above one.
    pub fn scale_back(&mut self, water_volume: i128)
        requires
            0 <= old(self).left.flux <= FLUX_LIMIT + DELTA_BOUND,
            0 <= old(self).right.flux <= FLUX_LIMIT + DELTA_BOUND,
            0 <= old(self).up.flux <= FLUX_LIMIT + DELTA_BOUND,
            0 <= old(self).down.flux <= FLUX_LIMIT + DELTA_BOUND,
            0 <= water_volume <= TOTAL_BOUND,
        ensures
            final(self).v() == scale_back_v(old(self).v(), water_volume as int),
    {
        let out = self.out_flux();
        if out > water_volume {
            proof {
                let bound = (FLUX_LIMIT + DELTA_BOUND) as int;
                lemma_mul_upper_bound(old(self).left.flux as int, bound, water_volume as int, TOTAL_BOUND as int);
                lemma_mul_upper_bound(old(self).right.flux as int, bound, water_volume as int, TOTAL_BOUND as int);
                lemma_mul_upper_bound(old(self).up.flux as int, bound, water_volume as int, TOTAL_BOUND as int);
                lemma_mul_upper_bound(old(self).down.flux as int, bound, water_volume as int, TOTAL_BOUND as int);
            }
            self.left.flux = muldiv(self.left.flux, water_volume, out);
            self.right.flux = muldiv(self.right.flux, water_volume, out);
            self.up.flux = muldiv(self.up.flux, water_volume, out);
            self.down.flux = muldiv(self.down.flux, water_volume, out);
        }
    }
}

} // verus!
