//! Core engine for a time-stepped resource-network simulation.
//!
//! Flows between nodes are determined, at every timestep and for every
//! scenario, by a constrained network solve whose bounds and costs are
//! computed by a dependency graph of dynamic parameters.
//!
//! All scalar quantities (flows, volumes, parameter values, metric values)
//! are signed 64-bit integers in caller-chosen fixed-point units.
//! Dimensionless ratios (factors, efficiencies, unit conversions) are
//! scaled by [`RATIO_SCALE`].

use vstd::prelude::*;

pub mod control_curves;
pub mod driver;
pub mod errors;
pub mod evaluator;
pub mod hydropower;
pub mod interpolated;
pub mod metric;
pub mod network;
pub mod num;
pub mod parameter;
pub mod parameters;
pub mod recorder;
pub mod scenario;
pub mod solve;
pub mod state;
pub mod timestep;

verus! {

/// Fixed-point denominator for dimensionless ratio quantities.
pub const RATIO_SCALE: i64 = 1_000_000;

} // verus!
