//! Control-curve parameters: an ordered list of thresholds over a driving
//! metric selects a value or an interpolation band.
//!
//! Curves are supplied from fullest to emptiest. The plain variant selects
//! with an inclusive comparison (a driving value exactly on a curve takes
//! that curve's band); the piecewise-interpolated variant selects with a
//! strict one. The distinction is kept deliberately: it changes
//! boundary-value behaviour.

use vstd::prelude::*;
use crate::errors::EvalError;
use crate::metric::{Metric, metric_ok, metric_value};
use crate::num::{interp, interpolate};
use crate::parameters::ParameterMeta;
use crate::state::State;

verus! {

/// The band selected by driving value `x` against ordered curves: the
/// index of the first curve `x` is at (inclusive) or above (strict), or
/// `curves.len()` when no curve is crossed. Fails on the first curve that
/// cannot be resolved before a selection is made.
pub open spec fn cc_selected_band(
    x: i64,
    curves: Seq<Metric>,
    s: State,
    strict: bool,
) -> Result<int, EvalError>
    decreases curves.len(),
{
    if curves.len() == 0 {
        Ok(0)
    } else if !metric_ok(curves[0], s) {
        Err(EvalError::MetricNotAvailable)
    } else if (if strict {
        x > metric_value(curves[0], s)
    } else {
        x >= metric_value(curves[0], s)
    }) {
        Ok(0)
    } else {
        match cc_selected_band(x, curves.skip(1), s, strict) {
            Ok(i) => Ok(i + 1),
            Err(e) => Err(e),
        }
    }
}

/// A parameter selecting one of several value metrics by where a driving
/// metric sits relative to ordered curve thresholds.
#[derive(Clone, Debug)]
pub struct ControlCurveParameter {
    pub meta: ParameterMeta,
    pub metric: Metric,
    pub control_curves: Vec<Metric>,
    pub values: Vec<Metric>,
}

/// The result of the plain control-curve parameter: the value metric of
/// the selected band, the last value when no curve is crossed, and
/// `DataOutOfRange` when the band has no value.
pub open spec fn control_curve_result_spec(
    metric: Metric,
    curves: Seq<Metric>,
    values: Seq<Metric>,
    s: State,
) -> Result<i64, EvalError> {
    if !metric_ok(metric, s) {
        Err(EvalError::MetricNotAvailable)
    } else {
        let x = metric_value(metric, s);
        match cc_selected_band(x, curves, s, false) {
            Err(e) => Err(e),
            Ok(sel) => {
                if sel < curves.len() {
                    if sel >= values.len() {
                        Err(EvalError::DataOutOfRange)
                    } else if !metric_ok(values[sel], s) {
                        Err(EvalError::MetricNotAvailable)
                    } else {
                        Ok(metric_value(values[sel], s))
                    }
                } else {
                    if values.len() == 0 {
                        Err(EvalError::DataOutOfRange)
                    } else if !metric_ok(values.last(), s) {
                        Err(EvalError::MetricNotAvailable)
                    } else {
                        Ok(metric_value(values.last(), s))
                    }
                }
            },
        }
    }
}

impl ControlCurveParameter {
    pub fn new(name: &str, metric: Metric, control_curves: Vec<Metric>, values: Vec<Metric>)
        -> (r: Self)
        ensures
            r.meta.name@ == name@,
            r.metric == metric,
            r.control_curves@ == control_curves@,
            r.values@ == values@,
    {
        Self { meta: ParameterMeta::new(name), metric, control_curves, values }
    }

    pub fn compute(&self, state: &State) -> (r: Result<i64, EvalError>)
        ensures
            r == control_curve_result_spec(self.metric, self.control_curves@, self.values@,
                *state),
    {
        let ghost curves = self.control_curves@;
        let x = self.metric.get_value(state)?;
        let n = self.control_curves.len();
        let mut i: usize = 0;
        proof {
            assert(curves.skip(0) =~= curves);
        }
        while i < n
            invariant
                n == self.control_curves@.len(),
                curves == self.control_curves@,
                metric_ok(self.metric, *state),
                x == metric_value(self.metric, *state),
                0 <= i <= n,
                cc_selected_band(x, curves, *state, false) == band_shift(
                    cc_selected_band(x, curves.skip(i as int), *state, false),
                    i as int,
                ),
            decreases n - i,
        {
            proof {
                assert(curves.skip(i as int)[0] == curves[i as int]);
                assert(curves.skip(i as int).skip(1) =~= curves.skip(i as int + 1));
            }
            let cc_value = self.control_curves[i].get_value(state)?;
            if x >= cc_value {
                proof {
                    assert(cc_selected_band(x, curves, *state, false) == Ok::<int, EvalError>(
                        i as int,
                    ));
                }
                if i >= self.values.len() {
                    return Err(EvalError::DataOutOfRange);
                }
                return self.values[i].get_value(state);
            }
            i = i + 1;
        }
        proof {
            assert(curves.skip(n as int).len() == 0);
        }
        if self.values.len() == 0 {
            return Err(EvalError::DataOutOfRange);
        }
        let last = self.values.len() - 1;
        self.values[last].get_value(state)
    }
}

/// A selection result moved outward past `k` already-inspected curves.
pub open spec fn band_shift(r: Result<int, EvalError>, k: int) -> Result<int, EvalError> {
    match r {
        Ok(i) => Ok(i + k),
        Err(e) => Err(e),
    }
}

/// Tie-break of the plain control curve: a driving value exactly equal to
/// a curve threshold selects that curve's band, not the next lower one.
pub proof fn lemma_control_curve_tie_break(x: i64, curves: Seq<Metric>, s: State, i: int)
    requires
        0 <= i < curves.len(),
        forall|j: int| 0 <= j <= i ==> metric_ok(#[trigger] curves[j], s),
        x == metric_value(curves[i], s),
        forall|j: int| 0 <= j < i ==> x < metric_value(#[trigger] curves[j], s),
    ensures
        cc_selected_band(x, curves, s, false) == Ok::<int, EvalError>(i),
    decreases i,
{
    if i == 0 {
    } else {
        assert(forall|j: int| 0 <= j <= i - 1
            ==> metric_ok(#[trigger] curves.skip(1)[j], s) && curves.skip(1)[j] == curves[j + 1]);
        lemma_control_curve_tie_break(x, curves.skip(1), s, i - 1);
    }
}

/// A control-curve parameter whose bands carry pairs of values linearly
/// interpolated over the band's driving range; the global maximum and
/// minimum act as the outermost thresholds.
#[derive(Clone, Debug)]
pub struct PiecewiseInterpolatedParameter {
    pub meta: ParameterMeta,
    pub metric: Metric,
    pub control_curves: Vec<Metric>,
    /// Per band, the value at its upper bound and the value at its lower
    /// bound, from the fullest band down.
    pub values: Vec<(i64, i64)>,
    pub maximum: i64,
    pub minimum: i64,
}

/// The result of the piecewise-interpolated parameter: the band the
/// driving value lies strictly above its curve in, interpolated between
/// the band's bounding thresholds.
pub open spec fn piecewise_result_spec(
    metric: Metric,
    curves: Seq<Metric>,
    values: Seq<(i64, i64)>,
    maximum: i64,
    minimum: i64,
    s: State,
) -> Result<i64, EvalError> {
    if !metric_ok(metric, s) {
        Err(EvalError::MetricNotAvailable)
    } else {
        let x = metric_value(metric, s);
        match cc_selected_band(x, curves, s, true) {
            Err(e) => Err(e),
            Ok(sel) => {
                if sel < curves.len() {
                    if sel >= values.len() {
                        Err(EvalError::DataOutOfRange)
                    } else {
                        let lower = metric_value(curves[sel], s);
                        let upper = if sel == 0 {
                            maximum
                        } else {
                            metric_value(curves[sel - 1], s)
                        };
                        Ok(
                            interpolate_pair(x, lower, upper, values[sel]),
                        )
                    }
                } else {
                    if values.len() == 0 {
                        Err(EvalError::DataOutOfRange)
                    } else {
                        let upper = if curves.len() == 0 {
                            maximum
                        } else {
                            metric_value(curves[curves.len() - 1], s)
                        };
                        Ok(interpolate_pair(x, minimum, upper, values.last()))
                    }
                }
            },
        }
    }
}

/// Interpolation across one band: `v.1` is the value at the lower bound,
/// `v.0` the value at the upper bound.
pub open spec fn interpolate_pair(x: i64, lower: i64, upper: i64, v: (i64, i64)) -> i64 {
    interp(x as int, lower as int, upper as int, v.1 as int, v.0 as int) as i64
}

impl PiecewiseInterpolatedParameter {
    pub fn new(
        name: &str,
        metric: Metric,
        control_curves: Vec<Metric>,
        values: Vec<(i64, i64)>,
        maximum: i64,
        minimum: i64,
    ) -> (r: Self)
        ensures
            r.meta.name@ == name@,
            r.metric == metric,
            r.control_curves@ == control_curves@,
            r.values@ == values@,
            r.maximum == maximum,
            r.minimum == minimum,
    {
        Self {
            meta: ParameterMeta::new(name),
            metric,
            control_curves,
            values,
            maximum,
            minimum,
        }
    }

    pub fn compute(&self, state: &State) -> (r: Result<i64, EvalError>)
        ensures
            r == piecewise_result_spec(self.metric, self.control_curves@, self.values@,
                self.maximum, self.minimum, *state),
    {
        let ghost curves = self.control_curves@;
        let x = self.metric.get_value(state)?;
        let n = self.control_curves.len();
        let mut cc_previous_value = self.maximum;
        let mut i: usize = 0;
        proof {
            assert(curves.skip(0) =~= curves);
        }
        while i < n
            invariant
                n == self.control_curves@.len(),
                curves == self.control_curves@,
                self.values@ == self.values@,
                metric_ok(self.metric, *state),
                x == metric_value(self.metric, *state),
                0 <= i <= n,
                cc_previous_value == (if i == 0 {
                    self.maximum
                } else {
                    metric_value(curves[i as int - 1], *state)
                }),
                cc_selected_band(x, curves, *state, true) == band_shift(
                    cc_selected_band(x, curves.skip(i as int), *state, true),
                    i as int,
                ),
            decreases n - i,
        {
            proof {
                assert(curves.skip(i as int)[0] == curves[i as int]);
                assert(curves.skip(i as int).skip(1) =~= curves.skip(i as int + 1));
            }
            let cc_value = self.control_curves[i].get_value(state)?;
            if x > cc_value {
                proof {
                    assert(cc_selected_band(x, curves, *state, true) == Ok::<int, EvalError>(
                        i as int,
                    ));
                }
                if i >= self.values.len() {
                    return Err(EvalError::DataOutOfRange);
                }
                let v = self.values[i];
                return Ok(interpolate(x, cc_value, cc_previous_value, v.1, v.0));
            }
            cc_previous_value = cc_value;
            i = i + 1;
        }
        proof {
            assert(curves.skip(n as int).len() == 0);
        }
        if self.values.len() == 0 {
            return Err(EvalError::DataOutOfRange);
        }
        let last = self.values.len() - 1;
        let v = self.values[last];
        Ok(interpolate(x, self.minimum, cc_previous_value, v.1, v.0))
    }
}

/// Continuity of the piecewise interpolation at a curve threshold: when
/// adjacent bands share their boundary value, the band below (selected at
/// the threshold, since selection is strict) returns exactly the value
/// the band above attains there, so the piecewise output has no jump at
/// the threshold.
pub proof fn lemma_piecewise_continuous_at_boundary(
    boundary: i64,
    upper: i64,
    lower: i64,
    v_above: (i64, i64),
    v_below: (i64, i64),
)
    requires
        lower < boundary,
        v_above.1 == v_below.0,
    ensures
        interpolate_pair(boundary, lower, boundary, v_below)
            == interpolate_pair(boundary, boundary, upper, v_above),
        interpolate_pair(boundary, lower, boundary, v_below) == v_above.1,
{
}

} // verus!
