//! A hydraulic erosion simulator for a terrain heightfield, built on the
//! virtual-pipe model: water flows between grid cells through four
//! directional conduits driven by height differences, and flowing water
//! dissolves or deposits sediment.
//!
//! All physical quantities are fixed-point integers: a stored value `v`
//! stands for the real quantity `v / SCALE`.  This keeps the whole
//! numerical model inside verified integer arithmetic.

pub mod arith;
pub mod bounds;
pub mod config;
pub mod grid;
pub mod heights;
pub mod laws;
pub mod model;
pub mod pipes;
pub mod sim;

pub use config::SimulationVariables;
pub use config::SCALE;
pub use grid::Grid;
pub use heights::Heights;
pub use sim::WaterSimulator;
