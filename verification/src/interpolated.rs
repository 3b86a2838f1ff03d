//! A parameter interpolating a driving metric against a piecewise-linear
//! lookup table of `(xp, fp)` points.

use vstd::prelude::*;
use crate::errors::{EvalError, LoadError};
use crate::metric::{Metric, metric_ok, metric_value};
use crate::num::{interp, interpolate};
use crate::parameters::ParameterMeta;
use crate::state::State;

verus! {

/// A piecewise-linear lookup table over a driving metric. The points'
/// x-values are expected in ascending order; out-of-bounds driving values
/// either raise `DataOutOfRange` or clamp to the end values.
#[derive(Clone, Debug)]
pub struct InterpolatedParameter {
    pub meta: ParameterMeta,
    pub x: Metric,
    pub xp: Vec<Metric>,
    pub fp: Vec<Metric>,
    pub error_on_bounds: bool,
}

/// The table segment scan, entered knowing `x >= xp[from]`: the first
/// segment whose right point is at or above `x` interpolates; past the
/// last point the value errors or clamps.
pub open spec fn interp_segment_spec(
    x: i64,
    xp: Seq<Metric>,
    fp: Seq<Metric>,
    error_on_bounds: bool,
    s: State,
    from: int,
) -> Result<i64, EvalError>
    decreases xp.len() - from,
{
    if from < 0 || from >= xp.len() || xp.len() != fp.len() {
        Err(EvalError::DataOutOfRange)
    } else if from == xp.len() - 1 {
        if x > metric_value(xp[from], s) && error_on_bounds {
            Err(EvalError::DataOutOfRange)
        } else if !metric_ok(fp[from], s) {
            Err(EvalError::MetricNotAvailable)
        } else {
            Ok(metric_value(fp[from], s))
        }
    } else if !metric_ok(xp[from + 1], s) {
        Err(EvalError::MetricNotAvailable)
    } else if x <= metric_value(xp[from + 1], s) {
        if !metric_ok(fp[from], s) {
            Err(EvalError::MetricNotAvailable)
        } else if !metric_ok(fp[from + 1], s) {
            Err(EvalError::MetricNotAvailable)
        } else {
            Ok(
                interp(
                    x as int,
                    metric_value(xp[from], s) as int,
                    metric_value(xp[from + 1], s) as int,
                    metric_value(fp[from], s) as int,
                    metric_value(fp[from + 1], s) as int,
                ) as i64,
            )
        }
    } else {
        interp_segment_spec(x, xp, fp, error_on_bounds, s, from + 1)
    }
}

/// The result of the lookup-table parameter.
pub open spec fn interpolated_result_spec(
    xm: Metric,
    xp: Seq<Metric>,
    fp: Seq<Metric>,
    error_on_bounds: bool,
    s: State,
) -> Result<i64, EvalError> {
    if !metric_ok(xm, s) {
        Err(EvalError::MetricNotAvailable)
    } else if xp.len() == 0 || xp.len() != fp.len() {
        Err(EvalError::DataOutOfRange)
    } else if !metric_ok(xp[0], s) {
        Err(EvalError::MetricNotAvailable)
    } else {
        let x = metric_value(xm, s);
        if x < metric_value(xp[0], s) {
            if error_on_bounds {
                Err(EvalError::DataOutOfRange)
            } else if !metric_ok(fp[0], s) {
                Err(EvalError::MetricNotAvailable)
            } else {
                Ok(metric_value(fp[0], s))
            }
        } else {
            interp_segment_spec(x, xp, fp, error_on_bounds, s, 0)
        }
    }
}

impl InterpolatedParameter {
    /// Build the parameter; the two point lists must have equal lengths.
    pub fn new(
        name: &str,
        x: Metric,
        xp: Vec<Metric>,
        fp: Vec<Metric>,
        error_on_bounds: bool,
    ) -> (r: Result<Self, LoadError>)
        ensures
            match r {
                Ok(p) => xp@.len() == fp@.len() && p.meta.name@ == name@ && p.x == x
                    && p.xp@ == xp@ && p.fp@ == fp@ && p.error_on_bounds == error_on_bounds,
                Err(e) => xp@.len() != fp@.len()
                    && (e matches LoadError::DataLengthMismatch { expected, found }
                        && expected == xp@.len() && found == fp@.len()),
            },
    {
        if xp.len() != fp.len() {
            return Err(
                LoadError::DataLengthMismatch { expected: xp.len(), found: fp.len() },
            );
        }
        Ok(Self { meta: ParameterMeta::new(name), x, xp, fp, error_on_bounds })
    }

    pub fn compute(&self, state: &State) -> (r: Result<i64, EvalError>)
        ensures
            r == interpolated_result_spec(self.x, self.xp@, self.fp@, self.error_on_bounds,
                *state),
    {
        let x = self.x.get_value(state)?;
        let n = self.xp.len();
        if n == 0 || n != self.fp.len() {
            return Err(EvalError::DataOutOfRange);
        }
        let x0 = self.xp[0].get_value(state)?;
        if x < x0 {
            if self.error_on_bounds {
                return Err(EvalError::DataOutOfRange);
            }
            return self.fp[0].get_value(state);
        }
        let mut from: usize = 0;
        while from < n - 1
            invariant
                n == self.xp@.len(),
                n == self.fp@.len(),
                n > 0,
                metric_ok(self.x, *state),
                x == metric_value(self.x, *state),
                0 <= from <= n - 1,
                metric_ok(self.xp@[from as int], *state),
                interpolated_result_spec(self.x, self.xp@, self.fp@, self.error_on_bounds,
                    *state) == interp_segment_spec(x, self.xp@, self.fp@,
                    self.error_on_bounds, *state, from as int),
            decreases n - 1 - from,
        {
            let x1 = self.xp[from + 1].get_value(state)?;
            if x <= x1 {
                let f0 = self.fp[from].get_value(state)?;
                let f1 = self.fp[from + 1].get_value(state)?;
                let xl = self.xp[from].get_value(state)?;
                return Ok(interpolate(x, xl, x1, f0, f1));
            }
            from = from + 1;
        }
        if x > self.xp[from].get_value(state)? && self.error_on_bounds {
            return Err(EvalError::DataOutOfRange);
        }
        self.fp[from].get_value(state)
    }
}

} // verus!
