//! Metrics: typed references to a scalar readable from the current state.
//!
//! Resolution is a pure read; a parameter value may be read only after the
//! evaluator has computed it this timestep, and a derived metric only after
//! it has been refreshed from post-solve state.

use vstd::prelude::*;
use crate::errors::EvalError;
use crate::state::State;

verus! {

/// A reference to a scalar source in the current state.
#[derive(Clone, Copy, Debug, PartialEq, Eq, Structural)]
pub enum Metric {
    /// A literal value.
    Constant(i64),
    /// The value computed this timestep by the parameter at this index.
    ParameterValue(usize),
    /// The most recently committed total inflow of the node at this
    /// index: during parameter evaluation this is the previous
    /// timestep's solved flow.
    NodeInFlow(usize),
    /// The most recently committed total outflow of the node at this
    /// index: during parameter evaluation this is the previous
    /// timestep's solved flow.
    NodeOutFlow(usize),
    /// The cached value of the derived metric at this index.
    DerivedMetric(usize),
}

/// Whether the metric can be resolved against this state.
pub open spec fn metric_ok(m: Metric, s: State) -> bool {
    match m {
        Metric::Constant(_) => true,
        Metric::ParameterValue(i) => i < s.parameter_values@.len()
            && s.parameter_values@[i as int] is Some,
        Metric::NodeInFlow(i) => i < s.node_in_flow@.len(),
        Metric::NodeOutFlow(i) => i < s.node_out_flow@.len(),
        Metric::DerivedMetric(i) => i < s.derived_values@.len()
            && s.derived_values@[i as int] is Some,
    }
}

/// The value the metric resolves to, when [`metric_ok`] holds.
pub open spec fn metric_value(m: Metric, s: State) -> i64 {
    match m {
        Metric::Constant(v) => v,
        Metric::ParameterValue(i) => s.parameter_values@[i as int]->0,
        Metric::NodeInFlow(i) => s.node_in_flow@[i as int],
        Metric::NodeOutFlow(i) => s.node_out_flow@[i as int],
        Metric::DerivedMetric(i) => s.derived_values@[i as int]->0,
    }
}

/// The parameter this metric depends on, if any: the dependency edges of
/// the parameter graph.
pub open spec fn metric_param_dep(m: Metric) -> Option<usize> {
    match m {
        Metric::ParameterValue(i) => Some(i),
        _ => None,
    }
}

impl Metric {
    /// Read the metric's value from the current state.
    ///
    /// Fails with `MetricNotAvailable` exactly when the reference is out
    /// of range or names a value not yet computed this timestep.
    pub fn get_value(&self, state: &State) -> (r: Result<i64, EvalError>)
        ensures
            r is Ok <==> metric_ok(*self, *state),
            r is Ok ==> r->Ok_0 == metric_value(*self, *state),
            r is Err ==> r->Err_0 == EvalError::MetricNotAvailable,
    {
        match self {
            Metric::Constant(v) => Ok(*v),
            Metric::ParameterValue(i) => {
                if *i < state.parameter_values.len() {
                    match state.parameter_values[*i] {
                        Some(v) => Ok(v),
                        None => Err(EvalError::MetricNotAvailable),
                    }
                } else {
                    Err(EvalError::MetricNotAvailable)
                }
            },
            Metric::NodeInFlow(i) => {
                if *i < state.node_in_flow.len() {
                    Ok(state.node_in_flow[*i])
                } else {
                    Err(EvalError::MetricNotAvailable)
                }
            },
            Metric::NodeOutFlow(i) => {
                if *i < state.node_out_flow.len() {
                    Ok(state.node_out_flow[*i])
                } else {
                    Err(EvalError::MetricNotAvailable)
                }
            },
            Metric::DerivedMetric(i) => {
                if *i < state.derived_values.len() {
                    match state.derived_values[*i] {
                        Some(v) => Ok(v),
                        None => Err(EvalError::MetricNotAvailable),
                    }
                } else {
                    Err(EvalError::MetricNotAvailable)
                }
            },
        }
    }

    /// The parameter index this metric reads, if it reads one.
    pub fn param_dep(&self) -> (r: Option<usize>)
        ensures
            r == metric_param_dep(*self),
    {
        match self {
            Metric::ParameterValue(i) => Some(*i),
            _ => None,
        }
    }
}


/// Whether every index the metric holds names an entity that exists:
/// references are resolved against the model's sizes at load time.
pub open spec fn metric_in_range(m: Metric, n_nodes: int, n_params: int, n_derived: int)
    -> bool {
    match m {
        Metric::Constant(_) => true,
        Metric::ParameterValue(i) => i < n_params,
        Metric::NodeInFlow(i) => i < n_nodes,
        Metric::NodeOutFlow(i) => i < n_nodes,
        Metric::DerivedMetric(i) => i < n_derived,
    }
}

/// The entity category a dangling metric reference names.
pub enum DanglingRef {
    NoneDangling,
    Parameter,
    Node,
    Derived,
}

impl Metric {
    /// Classify this metric against the model's sizes.
    pub fn check_range(&self, n_nodes: usize, n_params: usize, n_derived: usize) -> (r:
        DanglingRef)
        ensures
            (r is NoneDangling) == metric_in_range(*self, n_nodes as int, n_params as int,
                n_derived as int),
    {
        match self {
            Metric::Constant(_) => DanglingRef::NoneDangling,
            Metric::ParameterValue(i) => {
                if *i < n_params {
                    DanglingRef::NoneDangling
                } else {
                    DanglingRef::Parameter
                }
            },
            Metric::NodeInFlow(i) => {
                if *i < n_nodes {
                    DanglingRef::NoneDangling
                } else {
                    DanglingRef::Node
                }
            },
            Metric::NodeOutFlow(i) => {
                if *i < n_nodes {
                    DanglingRef::NoneDangling
                } else {
                    DanglingRef::Node
                }
            },
            Metric::DerivedMetric(i) => {
                if *i < n_derived {
                    DanglingRef::NoneDangling
                } else {
                    DanglingRef::Derived
                }
            },
        }
    }
}

} // verus!
