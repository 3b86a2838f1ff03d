//! Per-layer error kinds.
//!
//! Load-time failures stop a run before it starts; evaluation-time and
//! solve-time failures abort the affected scenario and carry the timestep
//! and scenario context outward.

use vstd::prelude::*;

verus! {

/// Errors raised while assembling a network, before any run starts.
#[derive(Debug, Clone)]
pub enum LoadError {
    /// No node with the given name exists.
    NodeNotFound(String),
    /// A metric refers to a parameter index that does not exist.
    ParameterNotFound(String),
    /// No scenario group with the given name exists.
    ScenarioNotFound(String),
    /// A storage or virtual storage was configured without any initial
    /// volume policy.
    MissingInitialVolume(String),
    /// The parameter graph cannot be ordered; the names of every parameter
    /// in the unresolved set are listed.
    CircularParameterReference(Vec<String>),
    /// Two data series that must have equal lengths do not.
    DataLengthMismatch { expected: usize, found: usize },
    /// The name does not denote an aggregation function.
    InvalidAggregationFunction(String),
    /// The day/month pair does not name a date that exists in every year.
    InvalidResetDate { day: u8, month: u8 },
}

/// Errors raised while computing parameter values for one timestep.
#[derive(Debug, Clone, PartialEq, Eq, Structural)]
pub enum EvalError {
    /// A lookup or interpolation had no matching band for its input.
    DataOutOfRange,
    /// A domain violation inside the named parameter, such as a derived
    /// negative flow or a non-positive divisor.
    InternalParameterError { parameter: usize },
    /// A metric read an entity that does not exist or a parameter value
    /// that has not been computed this timestep.
    MetricNotAvailable,
    /// A fixed-point intermediate fell outside the representable range.
    ValueOverflow,
}

/// Errors raised while committing a solve result.
#[derive(Debug, Clone, PartialEq, Eq, Structural)]
pub enum SolveError {
    /// The candidate flow assignment violates the constraint set built for
    /// this timestep and scenario.
    Infeasible { timestep: usize, scenario: usize },
}

/// Errors raised by an output recorder.
#[derive(Debug, Clone, PartialEq, Eq, Structural)]
pub enum RecorderError {
    /// The recorder was used before `setup` or after `finalise`.
    NotInitialised,
    /// A recorded metric could not be resolved against the current state.
    MetricNotAvailable,
}

/// The error surfaced by a whole run, with its originating context.
#[derive(Debug, Clone)]
pub enum RunError {
    Load(LoadError),
    Eval { timestep: usize, scenario: usize, error: EvalError },
    Solve(SolveError),
    Recorder(RecorderError),
}

} // verus!
