use vstd::prelude::*;

verus! {

/// Fixed-point scale: every physical quantity in this crate is stored as an
/// integer number of `1/SCALE` units.  A stored value `v` stands for the
/// real quantity `v / SCALE`.
pub const SCALE: i128 = 1_000_000;

/// Largest magnitude a configuration field may take (100.0 in real units).
/// Keeping the constants this small lets every intermediate product of the
/// step pipeline be proved free of overflow in `i128` arithmetic.
pub const CONFIG_LIMIT: i128 = 100_000_000;

/// All physical constants of one simulation.  A plain value object: every
/// field is public and may be changed by the caller between steps.
///
/// All numeric fields are fixed-point (`SCALE` units per real unit) and
/// non-negative; `thread_count` selects how many workers a host-side
/// parallel runner should use (`0` meaning the fully sequential path), and
/// `rain_random` is a configuration knob that is currently never consulted.
pub struct SimulationVariables {
    pub thread_count: usize,
    pub rainfall: i128,
    pub evaporation: i128,
    pub dt: i128,
    pub gravity: i128,
    pub pipe_length: i128,
    pub sediment_capacity: i128,
    pub dissolve_constant: i128,
    pub deposition_constant: i128,
    pub max_step: i128,
    pub rain_random: i128,
}

impl SimulationVariables {
    /// A configuration the step pipeline accepts:
    /// - every constant is non-negative and at most `CONFIG_LIMIT`;
    /// - the pipe length is positive (flux divides by it);
    /// - `dt * SCALE <= pipe_length^2`: one step's transport never moves
    ///   more liquid out of a cell than the flux scale-back allowed it
    ///   (the CFL-like stability bound);
    /// - `evaporation * dt <= 1` and `deposition_constant * dt <= 1`
    ///   (in real units): the explicit-Euler evaporation and deposition
    ///   updates never overshoot, which is what keeps water and sediment
    ///   heights non-negative.
    pub open spec fn valid(&self) -> bool {
        &&& 0 <= self.rainfall <= CONFIG_LIMIT
        &&& 0 <= self.evaporation <= CONFIG_LIMIT
        &&& 0 <= self.dt <= CONFIG_LIMIT
        &&& 0 <= self.gravity <= CONFIG_LIMIT
        &&& 1 <= self.pipe_length <= CONFIG_LIMIT
        &&& 0 <= self.sediment_capacity <= CONFIG_LIMIT
        &&& 0 <= self.dissolve_constant <= CONFIG_LIMIT
        &&& 0 <= self.deposition_constant <= CONFIG_LIMIT
        &&& 0 <= self.max_step <= CONFIG_LIMIT
        &&& self.dt * SCALE <= self.pipe_length * self.pipe_length
        &&& self.evaporation * self.dt <= SCALE * SCALE
        &&& self.deposition_constant * self.dt <= SCALE * SCALE
    }

    /// The default configuration: rainfall 0.02, evaporation 0.025,
    /// dt 0.05, gravity 9.81, pipe length 1, sediment capacity 0.15,
    /// dissolve constant 0.025, deposition constant 2, max step tan(60deg)
    /// (all in real units, stored in `SCALE` units), and one worker per
    /// logical CPU of the machine.
    pub fn new() -> (sv: Self)
        ensures
            sv.valid(),
            sv.thread_count >= 1,
            sv.rainfall == 20_000,
            sv.evaporation == 25_000,
            sv.dt == 50_000,
            sv.gravity == 9_810_000,
            sv.pipe_length == 1_000_000,
            sv.sediment_capacity == 150_000,
            sv.dissolve_constant == 25_000,
            sv.deposition_constant == 2_000_000,
            sv.max_step == 1_732_051,
            sv.rain_random == 10,
    {
        SimulationVariables {
            thread_count: cpu_count(),
            rainfall: 20_000,
            evaporation: 25_000,
            dt: 50_000,
            gravity: 9_810_000,
            pipe_length: 1_000_000,
            sediment_capacity: 150_000,
            dissolve_constant: 25_000,
            deposition_constant: 2_000_000,
            max_step: 1_732_051,
            rain_random: 10,
        }
    }
}

/// Relies on `num_cpus::get`: the number of logical CPUs of the machine,
/// which its documentation promises is always at least 1.
#[verifier::external_body]
fn cpu_count() -> (n: usize)
    ensures
        n >= 1,
{
    num_cpus::get()
}

} // verus!
