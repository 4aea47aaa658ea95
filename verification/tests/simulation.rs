use water_test::config::SimulationVariables;
use water_test::grid::Grid;
use water_test::heights::Heights;
use water_test::sim::WaterSimulator;

const SCALE: i128 = 1_000_000;

fn quiet_variables() -> SimulationVariables {
    let mut sv = SimulationVariables::new();
    sv.thread_count = 0;
    sv
}

fn assert_all_zero(ws: &WaterSimulator) {
    let n = ws.size_x() * ws.size_y();
    for loc in 0..n {
        assert_eq!(ws.terrain_height()[loc], 0);
        assert_eq!(ws.water_height()[loc], 0);
        assert_eq!(ws.sediment_height()[loc], 0);
    }
}

#[test]
fn default_variables() {
    let sv = SimulationVariables::new();
    assert!(sv.thread_count >= 1);
    assert_eq!(sv.rainfall, 20_000); // 0.02
    assert_eq!(sv.evaporation, 25_000); // 0.025
    assert_eq!(sv.dt, 50_000); // 0.05
    assert_eq!(sv.gravity, 9_810_000); // 9.81
    assert_eq!(sv.pipe_length, SCALE); // 1.0
    assert_eq!(sv.sediment_capacity, 150_000); // 0.15
    assert_eq!(sv.dissolve_constant, 25_000); // 0.025
    assert_eq!(sv.deposition_constant, 2_000_000); // 2.0
}

#[test]
fn grid_neighbors() {
    let g = Grid::new(5, 4);
    assert_eq!(g.left(12), 11);
    assert_eq!(g.right(12), 13);
    assert_eq!(g.up(12), 7);
    assert_eq!(g.down(12), 17);
}

#[test]
fn grid_apply_row_major_interior() {
    let g = Grid::new(5, 4);
    assert_eq!(g.apply(), vec![6, 7, 8, 11, 12, 13]);
}

#[test]
fn new_simulator_is_zeroed() {
    let ws = WaterSimulator::new(quiet_variables(), 5, 5);
    assert_eq!(ws.size_x(), 5);
    assert_eq!(ws.size_y(), 5);
    assert_all_zero(&ws);
}

#[test]
fn heights_column_sums() {
    let mut h = Heights::new(3);
    h.terrain_height[1] = 5_000_000;
    h.water_height[1] = 250_000;
    h.sediment_height[1] = 750_000;
    assert_eq!(h.get_total_liquid_height(1), 1_000_000);
    assert_eq!(h.get_total_height(1), 6_000_000);
}

// One default-configuration step on a dry flat grid: rainfall adds
// dt * rainfall = 0.001 of water, nothing flows, and evaporation takes
// its exact fixed-point share: floor(1000 * (1 - 0.025 * 0.05)) = 998.
#[test]
fn one_default_step_exact_water() {
    let mut ws = WaterSimulator::new(quiet_variables(), 5, 5);
    ws.step();
    for y in 0..5usize {
        for x in 0..5usize {
            let loc = x + 5 * y;
            let interior = (1..4).contains(&x) && (1..4).contains(&y);
            assert_eq!(ws.water_height()[loc], if interior { 998 } else { 0 });
            assert_eq!(ws.terrain_height()[loc], 0);
            assert_eq!(ws.sediment_height()[loc], 0);
        }
    }
}

// Scenario: a 5x5 grid, all terrain/water/sediment zero, rainfall 0.02,
// dt = 1, no evaporation (with a deposition constant kept inside the
// stability bound for dt = 1).  After one step every interior cell holds
// exactly 0.02 of water and the flux field is still zero everywhere,
// since all column heights were equal before transport.
#[test]
fn scenario_uniform_rain() {
    let mut sv = quiet_variables();
    sv.dt = SCALE; // 1.0
    sv.evaporation = 0;
    sv.deposition_constant = SCALE; // 1.0, so deposition * dt <= 1
    let mut ws = WaterSimulator::new(sv, 5, 5);
    ws.step();
    for y in 0..5usize {
        for x in 0..5usize {
            let loc = x + 5 * y;
            let interior = (1..4).contains(&x) && (1..4).contains(&y);
            assert_eq!(ws.water_height()[loc], if interior { 20_000 } else { 0 });
            assert_eq!(ws.terrain_height()[loc], 0);
            assert_eq!(ws.sediment_height()[loc], 0);
            let p = &ws.pipes[loc];
            assert_eq!(p.left.flux, 0);
            assert_eq!(p.right.flux, 0);
            assert_eq!(p.up.flux, 0);
            assert_eq!(p.down.flux, 0);
        }
    }
}

// With the default evaporation constant kept on, the same rain step ends
// at exactly 0.02 * (1 - 0.025) = 0.0195.
#[test]
fn scenario_uniform_rain_with_evaporation() {
    let mut sv = quiet_variables();
    sv.dt = SCALE;
    sv.deposition_constant = SCALE;
    let mut ws = WaterSimulator::new(sv, 5, 5);
    ws.step();
    assert_eq!(ws.water_height()[12], 19_500);
}

// Scenario: the center interior cell's terrain raised to 1.0, everything
// else dry, dt = 1.  After the flux phase the center's four pipes have
// been scaled back to exactly zero: each was dt*gravity*1.0/pipe_length
// before the scale-back, but the cell holds no liquid to send.
#[test]
fn scenario_dry_hill_flux_scaled_to_zero() {
    let mut sv = quiet_variables();
    sv.dt = SCALE;
    sv.rainfall = 0;
    sv.evaporation = 0;
    sv.deposition_constant = SCALE;
    let mut ws = WaterSimulator::new(sv, 5, 5);
    ws.terrain_height_mut()[12] = SCALE; // 1.0 at the center of the 3x3 interior
    ws.add_rainfall();
    ws.update_flux();
    let p = &ws.pipes[12];
    assert_eq!(p.left.flux, 0);
    assert_eq!(p.right.flux, 0);
    assert_eq!(p.up.flux, 0);
    assert_eq!(p.down.flux, 0);
}

// The same hill under ample water shows the un-scaled pipe value: each of
// the center's four pipes is exactly dt * gravity * 1.0 / pipe_length
// = 9.81, because the outflow (4 * 9.81) stays below the cell's liquid.
#[test]
fn scenario_wet_hill_unscaled_flux() {
    let mut sv = quiet_variables();
    sv.dt = SCALE;
    sv.rainfall = 0;
    sv.evaporation = 0;
    sv.deposition_constant = SCALE;
    let mut ws = WaterSimulator::new(sv, 5, 5);
    ws.terrain_height_mut()[12] = SCALE;
    for loc in 0..25 {
        ws.water_height_mut()[loc] = 100 * SCALE;
    }
    ws.update_flux();
    let p = &ws.pipes[12];
    assert_eq!(p.left.flux, 9_810_000);
    assert_eq!(p.right.flux, 9_810_000);
    assert_eq!(p.up.flux, 9_810_000);
    assert_eq!(p.down.flux, 9_810_000);
}

fn seeded_simulator(threads: usize) -> WaterSimulator {
    let mut sv = SimulationVariables::new();
    sv.thread_count = threads;
    let mut ws = WaterSimulator::new(sv, 6, 5);
    for loc in 0..30 {
        ws.terrain_height_mut()[loc] = ((loc as i128) % 7) * 300_000;
        ws.water_height_mut()[loc] = ((loc as i128) % 5) * 120_000;
        ws.sediment_height_mut()[loc] = ((loc as i128) % 3) * 40_000;
    }
    ws
}

// Flux stability bound: right after the flux phase's scale-back, no
// cell's total outgoing flux exceeds the liquid height it holds.
#[test]
fn flux_never_exceeds_liquid() {
    let mut ws = seeded_simulator(0);
    ws.add_rainfall();
    ws.update_flux();
    for loc in 0..30 {
        let p = &ws.pipes[loc];
        let out = p.left.flux + p.right.flux + p.up.flux + p.down.flux;
        let liquid = ws.water_height()[loc] + ws.sediment_height()[loc];
        assert!(out <= liquid, "cell {loc}: outflow {out} > liquid {liquid}");
    }
}

// Boundary enforcement: after the boundary phase, every pipe of the inner
// ring that points at the border is exactly zero.
#[test]
fn boundary_pipes_forced_to_zero() {
    let mut ws = seeded_simulator(0);
    ws.add_rainfall();
    ws.update_flux();
    ws.apply_boundary_condition();
    let (sx, sy) = (ws.size_x(), ws.size_y());
    for y in 1..sy - 1 {
        for x in 1..sx - 1 {
            let p = &ws.pipes[x + sx * y];
            if x == 1 {
                assert_eq!(p.left.flux, 0);
            }
            if x == sx - 2 {
                assert_eq!(p.right.flux, 0);
            }
            if y == 1 {
                assert_eq!(p.up.flux, 0);
            }
            if y == sy - 2 {
                assert_eq!(p.down.flux, 0);
            }
        }
    }
}

// Mass exchange conservation: across the erosion/deposition phase alone,
// every cell's terrain + sediment sum is preserved exactly.
#[test]
fn erosion_conserves_terrain_plus_sediment() {
    let mut ws = seeded_simulator(0);
    ws.step(); // produce a non-trivial flux field and liquid distribution
    let before: Vec<i128> = (0..30)
        .map(|loc| ws.terrain_height()[loc] + ws.sediment_height()[loc])
        .collect();
    ws.update_erosion_and_deposition();
    for loc in 0..30 {
        let after = ws.terrain_height()[loc] + ws.sediment_height()[loc];
        assert_eq!(after, before[loc], "cell {loc} changed its column mass");
    }
}

// Determinism across parallelism: the step's outcome never depends on the
// thread_count knob; runs from identical state agree bit for bit.
#[test]
fn thread_count_does_not_change_results() {
    let mut a = seeded_simulator(0);
    let mut b = seeded_simulator(8);
    for _ in 0..3 {
        a.step();
        b.step();
    }
    assert_eq!(a.terrain_height(), b.terrain_height());
    assert_eq!(a.water_height(), b.water_height());
    assert_eq!(a.sediment_height(), b.sediment_height());
}

// Non-negativity: after every step, water, sediment and all fluxes stay
// at or above zero.
#[test]
fn water_sediment_and_flux_stay_nonnegative() {
    let mut ws = seeded_simulator(0);
    for _ in 0..4 {
        ws.step();
        for loc in 0..30 {
            assert!(ws.water_height()[loc] >= 0);
            assert!(ws.sediment_height()[loc] >= 0);
            let p = &ws.pipes[loc];
            assert!(p.left.flux >= 0 && p.right.flux >= 0 && p.up.flux >= 0 && p.down.flux >= 0);
        }
    }
}

// No-op stability: a perfectly flat world without rain or evaporation is
// a fixed point of the step, for any number of steps.
#[test]
fn flat_world_is_stable() {
    let mut sv = quiet_variables();
    sv.rainfall = 0;
    sv.evaporation = 0;
    let mut ws = WaterSimulator::new(sv, 7, 6);
    for loc in 0..42 {
        ws.terrain_height_mut()[loc] = 500_000; // a uniform 0.5 plateau
    }
    for _ in 0..5 {
        ws.step();
    }
    for loc in 0..42 {
        assert_eq!(ws.terrain_height()[loc], 500_000);
        assert_eq!(ws.water_height()[loc], 0);
        assert_eq!(ws.sediment_height()[loc], 0);
        let p = &ws.pipes[loc];
        assert_eq!(p.left.flux + p.right.flux + p.up.flux + p.down.flux, 0);
    }
}

// The transport capacity formula on a hand-built flux field:
// vel_x = ((2.0 - 0) + (1.0 - 0)) / 2 = 1.5, vel_y = 0, so the capacity
// is 0.15 * 1.5 = 0.225 exactly.
#[test]
fn transport_capacity_exact_value() {
    let mut ws = WaterSimulator::new(quiet_variables(), 5, 5);
    ws.pipes[11].right.flux = 2_000_000;
    ws.pipes[12].right.flux = 1_000_000;
    let cap = WaterSimulator::get_sediment_transport_capacity(&ws.sv, &ws.grid, &ws.pipes, 12);
    assert_eq!(cap, 225_000);
}

// A hill with water sheds exact amounts: compare a whole step against the
// same update done through the public row kernels in reverse row order,
// as a parallel runner would be free to do.
#[test]
fn row_kernels_match_whole_phases() {
    let mut a = seeded_simulator(0);
    let mut b = seeded_simulator(0);
    a.add_rainfall();
    a.update_flux();
    b.add_rainfall();
    let rows: Vec<_> = (1..b.size_y() - 1)
        .rev()
        .map(|y| (y, b.flux_row_values(y)))
        .collect();
    for (y, row) in rows {
        b.store_flux_row(y, &row);
    }
    for loc in 0..30 {
        assert_eq!(a.pipes[loc], b.pipes[loc]);
    }
    a.update_water_and_sediment();
    let rows: Vec<_> = (0..b.size_y())
        .rev()
        .map(|y| (y, b.transport_row_values(y)))
        .collect();
    for (y, (wr, sr)) in rows {
        b.store_transport_row(y, &wr, &sr);
    }
    a.update_steepness();
    b.update_steepness();
    a.apply_calculated_values();
    b.apply_calculated_values();
    assert_eq!(a.terrain_height(), b.terrain_height());
    assert_eq!(a.water_height(), b.water_height());
    assert_eq!(a.sediment_height(), b.sediment_height());
}
