//! The closed set of parameter variants, their dispatch, and the
//! dependency edges their metric references induce on the parameter
//! graph.

use vstd::prelude::*;
use crate::control_curves::{
    ControlCurveParameter, PiecewiseInterpolatedParameter, control_curve_result_spec,
    piecewise_result_spec,
};
use crate::errors::EvalError;
use crate::hydropower::{HydropowerTargetParameter, hydropower_result_spec};
use crate::interpolated::{InterpolatedParameter, interpolated_result_spec};
use crate::metric::{Metric, metric_param_dep};
use crate::parameters::{
    AggregatedParameter, ConstantParameter, DelayParameter, DivisionParameter, MaxParameter,
    MinParameter, NegativeMaxParameter, NegativeMinParameter, NegativeParameter, ParameterMeta,
    aggregated_result_spec, delay_memory_post, delay_result_spec, division_result_spec,
    max_result_spec, min_result_spec, negative_max_result_spec, negative_min_result_spec,
    negative_result_spec,
};
use crate::state::{ParameterMemory, State};

verus! {

/// One registered parameter of the network.
#[derive(Clone, Debug)]
pub enum Parameter {
    Constant(ConstantParameter),
    Aggregated(AggregatedParameter),
    Max(MaxParameter),
    Min(MinParameter),
    Negative(NegativeParameter),
    NegativeMax(NegativeMaxParameter),
    NegativeMin(NegativeMinParameter),
    Division(DivisionParameter),
    ControlCurve(ControlCurveParameter),
    PiecewiseInterpolated(PiecewiseInterpolatedParameter),
    Interpolated(InterpolatedParameter),
    Delay(DelayParameter),
    HydropowerTarget(HydropowerTargetParameter),
}

/// The value a parameter computes against a state and its own memory as
/// they stand at its turn in the evaluation order.
pub open spec fn compute_result_spec(
    p: Parameter,
    s: State,
    mem: ParameterMemory,
    own_index: usize,
) -> Result<i64, EvalError> {
    match p {
        Parameter::Constant(c) => Ok(c.value),
        Parameter::Aggregated(a) => aggregated_result_spec(a.values@, a.agg_func, s),
        Parameter::Max(m) => max_result_spec(m.metric, m.threshold, s),
        Parameter::Min(m) => min_result_spec(m.metric, m.threshold, s),
        Parameter::Negative(m) => negative_result_spec(m.metric, s),
        Parameter::NegativeMax(m) => negative_max_result_spec(m.metric, m.threshold, s),
        Parameter::NegativeMin(m) => negative_min_result_spec(m.metric, m.threshold, s),
        Parameter::Division(d) => division_result_spec(d.numerator, d.denominator, s,
            own_index),
        Parameter::ControlCurve(c) => control_curve_result_spec(c.metric, c.control_curves@,
            c.values@, s),
        Parameter::PiecewiseInterpolated(c) => piecewise_result_spec(c.metric,
            c.control_curves@, c.values@, c.maximum, c.minimum, s),
        Parameter::Interpolated(p) => interpolated_result_spec(p.x, p.xp@, p.fp@,
            p.error_on_bounds, s),
        Parameter::Delay(d) => delay_result_spec(d.metric, d.delay, d.initial_value, s, mem),
        Parameter::HydropowerTarget(h) => hydropower_result_spec(h, s, own_index),
    }
}

/// How a parameter's private memory advances over one computation; only
/// the delay parameter carries memory.
pub open spec fn memory_post_spec(
    p: Parameter,
    s: State,
    mem: ParameterMemory,
    post: ParameterMemory,
) -> bool {
    match p {
        Parameter::Delay(d) => delay_memory_post(d.metric, d.delay, d.initial_value, s, mem,
            post),
        _ => post == mem,
    }
}

/// Whether a metric of `p` reads the value of parameter `d`: the
/// dependency edges of the parameter graph.
pub open spec fn is_dep(p: Parameter, d: usize) -> bool {
    match p {
        Parameter::Constant(_) => false,
        Parameter::Aggregated(a) => seq_has_dep(a.values@, d),
        Parameter::Max(m) => metric_param_dep(m.metric) == Some(d),
        Parameter::Min(m) => metric_param_dep(m.metric) == Some(d),
        Parameter::Negative(m) => metric_param_dep(m.metric) == Some(d),
        Parameter::NegativeMax(m) => metric_param_dep(m.metric) == Some(d),
        Parameter::NegativeMin(m) => metric_param_dep(m.metric) == Some(d),
        Parameter::Division(v) => metric_param_dep(v.numerator) == Some(d)
            || metric_param_dep(v.denominator) == Some(d),
        Parameter::ControlCurve(c) => metric_param_dep(c.metric) == Some(d)
            || seq_has_dep(c.control_curves@, d) || seq_has_dep(c.values@, d),
        Parameter::PiecewiseInterpolated(c) => metric_param_dep(c.metric) == Some(d)
            || seq_has_dep(c.control_curves@, d),
        Parameter::Interpolated(p) => metric_param_dep(p.x) == Some(d)
            || seq_has_dep(p.xp@, d) || seq_has_dep(p.fp@, d),
        Parameter::Delay(dl) => metric_param_dep(dl.metric) == Some(d),
        Parameter::HydropowerTarget(h) => metric_param_dep(h.target) == Some(d)
            || opt_has_dep(h.water_elevation, d) || opt_has_dep(h.max_flow, d)
            || opt_has_dep(h.min_flow, d),
    }
}

/// Whether any metric of the sequence reads parameter `d`.
pub open spec fn seq_has_dep(ms: Seq<Metric>, d: usize) -> bool {
    exists|i: int| 0 <= i < ms.len() && metric_param_dep(ms[i]) == Some(d)
}

/// Whether an optional metric reads parameter `d`.
pub open spec fn opt_has_dep(m: Option<Metric>, d: usize) -> bool {
    m is Some && metric_param_dep(m->0) == Some(d)
}

impl Parameter {
    /// The parameter's meta-data.
    pub fn meta(&self) -> (r: &ParameterMeta)
        ensures
            r.name@ == spec_name(*self),
    {
        match self {
            Parameter::Constant(p) => &p.meta,
            Parameter::Aggregated(p) => &p.meta,
            Parameter::Max(p) => &p.meta,
            Parameter::Min(p) => &p.meta,
            Parameter::Negative(p) => &p.meta,
            Parameter::NegativeMax(p) => &p.meta,
            Parameter::NegativeMin(p) => &p.meta,
            Parameter::Division(p) => &p.meta,
            Parameter::ControlCurve(p) => &p.meta,
            Parameter::PiecewiseInterpolated(p) => &p.meta,
            Parameter::Interpolated(p) => &p.meta,
            Parameter::Delay(p) => &p.meta,
            Parameter::HydropowerTarget(p) => &p.meta,
        }
    }

    /// The parameter's name.
    pub fn name(&self) -> (r: &String)
        ensures
            r@ == spec_name(*self),
    {
        &self.meta().name
    }

    /// Compute the parameter's value for this timestep, advancing its
    /// private memory.
    pub fn compute(&self, state: &State, memory: &mut ParameterMemory, own_index: usize)
        -> (r: Result<i64, EvalError>)
        ensures
            r == compute_result_spec(*self, *state, *old(memory), own_index),
            memory_post_spec(*self, *state, *old(memory), *final(memory)),
    {
        match self {
            Parameter::Constant(p) => p.compute(),
            Parameter::Aggregated(p) => p.compute(state),
            Parameter::Max(p) => p.compute(state),
            Parameter::Min(p) => p.compute(state),
            Parameter::Negative(p) => p.compute(state),
            Parameter::NegativeMax(p) => p.compute(state),
            Parameter::NegativeMin(p) => p.compute(state),
            Parameter::Division(p) => p.compute(state, own_index),
            Parameter::ControlCurve(p) => p.compute(state),
            Parameter::PiecewiseInterpolated(p) => p.compute(state),
            Parameter::Interpolated(p) => p.compute(state),
            Parameter::Delay(p) => p.compute(state, memory),
            Parameter::HydropowerTarget(p) => p.compute(state, own_index),
        }
    }

    /// The indices of the parameters this one reads, exactly the
    /// dependency edges of [`is_dep`].
    pub fn dependencies(&self) -> (r: Vec<usize>)
        ensures
            forall|d: usize| r@.contains(d) <==> #[trigger] is_dep(*self, d),
    {
        let mut out: Vec<usize> = Vec::new();
        match self {
            Parameter::Constant(_) => {},
            Parameter::Aggregated(p) => {
                push_seq_deps(&p.values, &mut out);
            },
            Parameter::Max(p) => {
                push_metric_dep(&p.metric, &mut out);
            },
            Parameter::Min(p) => {
                push_metric_dep(&p.metric, &mut out);
            },
            Parameter::Negative(p) => {
                push_metric_dep(&p.metric, &mut out);
            },
            Parameter::NegativeMax(p) => {
                push_metric_dep(&p.metric, &mut out);
            },
            Parameter::NegativeMin(p) => {
                push_metric_dep(&p.metric, &mut out);
            },
            Parameter::Division(p) => {
                push_metric_dep(&p.numerator, &mut out);
                let ghost o1 = out@;
                push_metric_dep(&p.denominator, &mut out);
                proof {
                    assert forall|d: usize| out@.contains(d)
                        <==> (metric_param_dep(p.numerator) == Some(d)
                            || metric_param_dep(p.denominator) == Some(d)) by {
                        assert(o1.contains(d) <==> metric_param_dep(p.numerator) == Some(d));
                        assert(out@.contains(d) <==> (o1.contains(d)
                            || metric_param_dep(p.denominator) == Some(d)));
                    }
                }
            },
            Parameter::ControlCurve(p) => {
                push_metric_dep(&p.metric, &mut out);
                let ghost o1 = out@;
                push_seq_deps(&p.control_curves, &mut out);
                let ghost o2 = out@;
                push_seq_deps(&p.values, &mut out);
                proof {
                    assert forall|d: usize| out@.contains(d)
                        <==> (metric_param_dep(p.metric) == Some(d)
                            || seq_has_dep(p.control_curves@, d)
                            || seq_has_dep(p.values@, d)) by {
                        assert(o1.contains(d) <==> metric_param_dep(p.metric) == Some(d));
                        assert(o2.contains(d) <==> (o1.contains(d)
                            || seq_has_dep(p.control_curves@, d)));
                        assert(out@.contains(d) <==> (o2.contains(d)
                            || seq_has_dep(p.values@, d)));
                    }
                }
            },
            Parameter::PiecewiseInterpolated(p) => {
                push_metric_dep(&p.metric, &mut out);
                let ghost o1 = out@;
                push_seq_deps(&p.control_curves, &mut out);
                proof {
                    assert forall|d: usize| out@.contains(d)
                        <==> (metric_param_dep(p.metric) == Some(d)
                            || seq_has_dep(p.control_curves@, d)) by {
                        assert(o1.contains(d) <==> metric_param_dep(p.metric) == Some(d));
                        assert(out@.contains(d) <==> (o1.contains(d)
                            || seq_has_dep(p.control_curves@, d)));
                    }
                }
            },
            Parameter::Interpolated(p) => {
                push_metric_dep(&p.x, &mut out);
                let ghost o1 = out@;
                push_seq_deps(&p.xp, &mut out);
                let ghost o2 = out@;
                push_seq_deps(&p.fp, &mut out);
                proof {
                    assert forall|d: usize| out@.contains(d)
                        <==> (metric_param_dep(p.x) == Some(d) || seq_has_dep(p.xp@, d)
                            || seq_has_dep(p.fp@, d)) by {
                        assert(o1.contains(d) <==> metric_param_dep(p.x) == Some(d));
                        assert(o2.contains(d) <==> (o1.contains(d) || seq_has_dep(p.xp@, d)));
                        assert(out@.contains(d) <==> (o2.contains(d)
                            || seq_has_dep(p.fp@, d)));
                    }
                }
            },
            Parameter::Delay(p) => {
                push_metric_dep(&p.metric, &mut out);
            },
            Parameter::HydropowerTarget(p) => {
                push_metric_dep(&p.target, &mut out);
                let ghost o1 = out@;
                push_opt_dep(&p.water_elevation, &mut out);
                let ghost o2 = out@;
                push_opt_dep(&p.max_flow, &mut out);
                let ghost o3 = out@;
                push_opt_dep(&p.min_flow, &mut out);
                proof {
                    assert forall|d: usize| out@.contains(d)
                        <==> (metric_param_dep(p.target) == Some(d)
                            || opt_has_dep(p.water_elevation, d) || opt_has_dep(p.max_flow, d)
                            || opt_has_dep(p.min_flow, d)) by {
                        assert(o1.contains(d) <==> metric_param_dep(p.target) == Some(d));
                        assert(o2.contains(d) <==> (o1.contains(d)
                            || opt_has_dep(p.water_elevation, d)));
                        assert(o3.contains(d) <==> (o2.contains(d)
                            || opt_has_dep(p.max_flow, d)));
                        assert(out@.contains(d) <==> (o3.contains(d)
                            || opt_has_dep(p.min_flow, d)));
                    }
                }
            },
        }
        proof {
            match self {
                Parameter::Constant(_) => {
                    assert forall|d: usize| out@.contains(d) <==> is_dep(*self, d) by {}
                },
                Parameter::Aggregated(p) => {
                    assert forall|d: usize| out@.contains(d) <==> is_dep(*self, d) by {
                        assert(out@.contains(d) <==> seq_has_dep(p.values@, d));
                    }
                },
                Parameter::Max(p) => {
                    assert forall|d: usize| out@.contains(d) <==> is_dep(*self, d) by {
                        assert(out@.contains(d) <==> metric_param_dep(p.metric) == Some(d));
                    }
                },
                Parameter::Min(p) => {
                    assert forall|d: usize| out@.contains(d) <==> is_dep(*self, d) by {
                        assert(out@.contains(d) <==> metric_param_dep(p.metric) == Some(d));
                    }
                },
                Parameter::Negative(p) => {
                    assert forall|d: usize| out@.contains(d) <==> is_dep(*self, d) by {
                        assert(out@.contains(d) <==> metric_param_dep(p.metric) == Some(d));
                    }
                },
                Parameter::NegativeMax(p) => {
                    assert forall|d: usize| out@.contains(d) <==> is_dep(*self, d) by {
                        assert(out@.contains(d) <==> metric_param_dep(p.metric) == Some(d));
                    }
                },
                Parameter::NegativeMin(p) => {
                    assert forall|d: usize| out@.contains(d) <==> is_dep(*self, d) by {
                        assert(out@.contains(d) <==> metric_param_dep(p.metric) == Some(d));
                    }
                },
                Parameter::Division(p) => {
                    assert forall|d: usize| out@.contains(d) <==> is_dep(*self, d) by {
                        assert(out@.contains(d) <==> (metric_param_dep(p.numerator) == Some(d)
                            || metric_param_dep(p.denominator) == Some(d)));
                    }
                },
                Parameter::ControlCurve(p) => {
                    assert forall|d: usize| out@.contains(d) <==> is_dep(*self, d) by {
                        assert(out@.contains(d) <==> (metric_param_dep(p.metric) == Some(d)
                            || seq_has_dep(p.control_curves@, d)
                            || seq_has_dep(p.values@, d)));
                    }
                },
                Parameter::PiecewiseInterpolated(p) => {
                    assert forall|d: usize| out@.contains(d) <==> is_dep(*self, d) by {
                        assert(out@.contains(d) <==> (metric_param_dep(p.metric) == Some(d)
                            || seq_has_dep(p.control_curves@, d)));
                    }
                },
                Parameter::Interpolated(p) => {
                    assert forall|d: usize| out@.contains(d) <==> is_dep(*self, d) by {
                        assert(out@.contains(d) <==> (metric_param_dep(p.x) == Some(d)
                            || seq_has_dep(p.xp@, d) || seq_has_dep(p.fp@, d)));
                    }
                },
                Parameter::Delay(p) => {
                    assert forall|d: usize| out@.contains(d) <==> is_dep(*self, d) by {
                        assert(out@.contains(d) <==> metric_param_dep(p.metric) == Some(d));
                    }
                },
                Parameter::HydropowerTarget(p) => {
                    assert forall|d: usize| out@.contains(d) <==> is_dep(*self, d) by {
                        assert(out@.contains(d) <==> (metric_param_dep(p.target) == Some(d)
                            || opt_has_dep(p.water_elevation, d)
                            || opt_has_dep(p.max_flow, d) || opt_has_dep(p.min_flow, d)));
                    }
                },
            }
        }
        out
    }
}

/// Membership in a pushed sequence.
proof fn lemma_push_contains(s: Seq<usize>, x: usize, y: usize)
    ensures
        s.push(x).contains(y) <==> (s.contains(y) || y == x),
{
    if s.contains(y) {
        let k = choose|k: int| 0 <= k < s.len() && s[k] == y;
        assert(s.push(x)[k] == y);
    }
    if y == x {
        assert(s.push(x)[s.len() as int] == y);
    }
    if s.push(x).contains(y) {
        let k = choose|k: int| 0 <= k < s.push(x).len() && s.push(x)[k] == y;
        if k < s.len() {
            assert(s[k] == y);
        }
    }
}

/// Append the parameter reference of one metric, if it holds one.
fn push_metric_dep(m: &Metric, out: &mut Vec<usize>)
    ensures
        forall|d: usize| #[trigger] final(out)@.contains(d) <==> (old(out)@.contains(d)
            || metric_param_dep(*m) == Some(d)),
{
    let ghost pre = out@;
    match m.param_dep() {
        Some(d) => {
            out.push(d);
            proof {
                assert(out@ == pre.push(d));
                assert forall|x: usize| out@.contains(x) <==> (pre.contains(x)
                    || metric_param_dep(*m) == Some(x)) by {
                    lemma_push_contains(pre, d, x);
                }
            }
        },
        None => {},
    }
}

/// Append the parameter references of every metric in the slice.
fn push_seq_deps(ms: &Vec<Metric>, out: &mut Vec<usize>)
    ensures
        forall|d: usize| #[trigger] final(out)@.contains(d) <==> (old(out)@.contains(d)
            || seq_has_dep(ms@, d)),
{
    let n = ms.len();
    let mut i: usize = 0;
    while i < n
        invariant
            n == ms@.len(),
            0 <= i <= n,
            forall|d: usize| out@.contains(d) <==> (old(out)@.contains(d)
                || exists|t: int| 0 <= t < i && metric_param_dep(ms@[t]) == Some(d)),
        decreases n - i,
    {
        let ghost pre = out@;
        match ms[i].param_dep() {
            Some(d) => {
                out.push(d);
                proof {
                    assert(out@ == pre.push(d));
                    assert forall|x: usize| out@.contains(x) <==> (old(out)@.contains(x)
                        || exists|t: int| 0 <= t < i + 1
                            && metric_param_dep(ms@[t]) == Some(x)) by {
                        lemma_push_contains(pre, d, x);
                        if x == d {
                            assert(metric_param_dep(ms@[i as int]) == Some(x));
                        }
                        if exists|t: int| 0 <= t < i + 1 && metric_param_dep(ms@[t])
                            == Some(x) {
                            let t = choose|t: int| 0 <= t < i + 1
                                && metric_param_dep(ms@[t]) == Some(x);
                            if t < i {
                                assert(pre.contains(x));
                            } else {
                                assert(x == d);
                            }
                        }
                    }
                }
            },
            None => {
                proof {
                    assert forall|x: usize| out@.contains(x) <==> (old(out)@.contains(x)
                        || exists|t: int| 0 <= t < i + 1
                            && metric_param_dep(ms@[t]) == Some(x)) by {
                        if exists|t: int| 0 <= t < i + 1 && metric_param_dep(ms@[t])
                            == Some(x) {
                            let t = choose|t: int| 0 <= t < i + 1
                                && metric_param_dep(ms@[t]) == Some(x);
                            assert(t < i);
                        }
                    }
                }
            },
        }
        i = i + 1;
    }
    proof {
        assert forall|d: usize| final(out)@.contains(d) <==> (old(out)@.contains(d)
            || seq_has_dep(ms@, d)) by {
            if seq_has_dep(ms@, d) {
                let t = choose|t: int| 0 <= t < ms@.len()
                    && metric_param_dep(ms@[t]) == Some(d);
                assert(0 <= t < n && metric_param_dep(ms@[t]) == Some(d));
            }
            if exists|t: int| 0 <= t < n && metric_param_dep(ms@[t]) == Some(d) {
                let t = choose|t: int| 0 <= t < n && metric_param_dep(ms@[t]) == Some(d);
                assert(seq_has_dep(ms@, d));
            }
        }
    }
}

/// Append the parameter reference of an optional metric.
fn push_opt_dep(m: &Option<Metric>, out: &mut Vec<usize>)
    ensures
        forall|d: usize| #[trigger] final(out)@.contains(d) <==> (old(out)@.contains(d)
            || opt_has_dep(*m, d)),
{
    match m {
        Some(metric) => {
            push_metric_dep(metric, out);
        },
        None => {},
    }
}

/// The parameter's name, as a spec value.
pub open spec fn spec_name(p: Parameter) -> Seq<char> {
    match p {
        Parameter::Constant(q) => q.meta.name@,
        Parameter::Aggregated(q) => q.meta.name@,
        Parameter::Max(q) => q.meta.name@,
        Parameter::Min(q) => q.meta.name@,
        Parameter::Negative(q) => q.meta.name@,
        Parameter::NegativeMax(q) => q.meta.name@,
        Parameter::NegativeMin(q) => q.meta.name@,
        Parameter::Division(q) => q.meta.name@,
        Parameter::ControlCurve(q) => q.meta.name@,
        Parameter::PiecewiseInterpolated(q) => q.meta.name@,
        Parameter::Interpolated(q) => q.meta.name@,
        Parameter::Delay(q) => q.meta.name@,
        Parameter::HydropowerTarget(q) => q.meta.name@,
    }
}


/// Every metric a parameter reads, in a fixed order: the driving metric
/// first, then any metric lists.
pub open spec fn spec_metrics(p: Parameter) -> Seq<Metric> {
    match p {
        Parameter::Constant(_) => Seq::empty(),
        Parameter::Aggregated(a) => a.values@,
        Parameter::Max(m) => seq![m.metric],
        Parameter::Min(m) => seq![m.metric],
        Parameter::Negative(m) => seq![m.metric],
        Parameter::NegativeMax(m) => seq![m.metric],
        Parameter::NegativeMin(m) => seq![m.metric],
        Parameter::Division(d) => seq![d.numerator, d.denominator],
        Parameter::ControlCurve(c) => seq![c.metric].add(c.control_curves@).add(c.values@),
        Parameter::PiecewiseInterpolated(c) => seq![c.metric].add(c.control_curves@),
        Parameter::Interpolated(ip) => seq![ip.x].add(ip.xp@).add(ip.fp@),
        Parameter::Delay(d) => seq![d.metric],
        Parameter::HydropowerTarget(h) => seq![h.target].add(opt_metric_seq(h.water_elevation))
            .add(opt_metric_seq(h.max_flow)).add(opt_metric_seq(h.min_flow)),
    }
}

/// An optional metric as a sequence of none or one.
pub open spec fn opt_metric_seq(m: Option<Metric>) -> Seq<Metric> {
    match m {
        Some(metric) => seq![metric],
        None => Seq::empty(),
    }
}

impl Parameter {
    /// Every metric this parameter reads, exactly [`spec_metrics`].
    pub fn metrics(&self) -> (r: Vec<Metric>)
        ensures
            r@ == spec_metrics(*self),
    {
        let mut out: Vec<Metric> = Vec::new();
        match self {
            Parameter::Constant(_) => {},
            Parameter::Aggregated(p) => {
                push_all_metrics(&mut out, &p.values);
            },
            Parameter::Max(p) => {
                out.push(p.metric);
            },
            Parameter::Min(p) => {
                out.push(p.metric);
            },
            Parameter::Negative(p) => {
                out.push(p.metric);
            },
            Parameter::NegativeMax(p) => {
                out.push(p.metric);
            },
            Parameter::NegativeMin(p) => {
                out.push(p.metric);
            },
            Parameter::Division(p) => {
                out.push(p.numerator);
                out.push(p.denominator);
            },
            Parameter::ControlCurve(p) => {
                out.push(p.metric);
                push_all_metrics(&mut out, &p.control_curves);
                push_all_metrics(&mut out, &p.values);
            },
            Parameter::PiecewiseInterpolated(p) => {
                out.push(p.metric);
                push_all_metrics(&mut out, &p.control_curves);
            },
            Parameter::Interpolated(p) => {
                out.push(p.x);
                push_all_metrics(&mut out, &p.xp);
                push_all_metrics(&mut out, &p.fp);
            },
            Parameter::Delay(p) => {
                out.push(p.metric);
            },
            Parameter::HydropowerTarget(p) => {
                out.push(p.target);
                push_opt_metric(&mut out, &p.water_elevation);
                push_opt_metric(&mut out, &p.max_flow);
                push_opt_metric(&mut out, &p.min_flow);
            },
        }
        proof {
            assert(out@ =~= spec_metrics(*self));
        }
        out
    }
}

/// Append a whole metric list.
fn push_all_metrics(out: &mut Vec<Metric>, ms: &Vec<Metric>)
    ensures
        final(out)@ == old(out)@.add(ms@),
{
    let n = ms.len();
    let mut i: usize = 0;
    while i < n
        invariant
            n == ms@.len(),
            0 <= i <= n,
            out@ == old(out)@.add(ms@.take(i as int)),
        decreases n - i,
    {
        let ghost pre = out@;
        out.push(ms[i]);
        proof {
            assert(out@ =~= old(out)@.add(ms@.take(i as int + 1)));
        }
        i = i + 1;
    }
    proof {
        assert(ms@.take(n as int) =~= ms@);
        assert(out@ =~= old(out)@.add(ms@));
    }
}

/// Append an optional metric.
fn push_opt_metric(out: &mut Vec<Metric>, m: &Option<Metric>)
    ensures
        final(out)@ == old(out)@.add(opt_metric_seq(*m)),
{
    match m {
        Some(metric) => {
            out.push(*metric);
            proof {
                assert(out@ =~= old(out)@.add(opt_metric_seq(*m)));
            }
        },
        None => {
            proof {
                assert(out@ =~= old(out)@.add(opt_metric_seq(*m)));
            }
        },
    }
}


/// Every dependency edge comes from some metric of the parameter.
pub proof fn lemma_dep_has_metric(p: Parameter, d: usize)
    requires
        is_dep(p, d),
    ensures
        exists|k: int| 0 <= k < spec_metrics(p).len()
            && metric_param_dep(#[trigger] spec_metrics(p)[k]) == Some(d),
{
    match p {
        Parameter::Constant(_) => {},
        Parameter::Aggregated(a) => {
            let i = choose|i: int| 0 <= i < a.values@.len()
                && metric_param_dep(a.values@[i]) == Some(d);
            assert(spec_metrics(p)[i] == a.values@[i]);
        },
        Parameter::Max(m) => {
            assert(spec_metrics(p)[0] == m.metric);
        },
        Parameter::Min(m) => {
            assert(spec_metrics(p)[0] == m.metric);
        },
        Parameter::Negative(m) => {
            assert(spec_metrics(p)[0] == m.metric);
        },
        Parameter::NegativeMax(m) => {
            assert(spec_metrics(p)[0] == m.metric);
        },
        Parameter::NegativeMin(m) => {
            assert(spec_metrics(p)[0] == m.metric);
        },
        Parameter::Division(v) => {
            assert(spec_metrics(p)[0] == v.numerator);
            assert(spec_metrics(p)[1] == v.denominator);
        },
        Parameter::ControlCurve(c) => {
            assert(spec_metrics(p)[0] == c.metric);
            if seq_has_dep(c.control_curves@, d) {
                let i = choose|i: int| 0 <= i < c.control_curves@.len()
                    && metric_param_dep(c.control_curves@[i]) == Some(d);
                assert(spec_metrics(p)[1 + i] == c.control_curves@[i]);
            } else if seq_has_dep(c.values@, d) {
                let i = choose|i: int| 0 <= i < c.values@.len()
                    && metric_param_dep(c.values@[i]) == Some(d);
                assert(spec_metrics(p)[1 + c.control_curves@.len() + i] == c.values@[i]);
            }
        },
        Parameter::PiecewiseInterpolated(c) => {
            assert(spec_metrics(p)[0] == c.metric);
            if seq_has_dep(c.control_curves@, d) {
                let i = choose|i: int| 0 <= i < c.control_curves@.len()
                    && metric_param_dep(c.control_curves@[i]) == Some(d);
                assert(spec_metrics(p)[1 + i] == c.control_curves@[i]);
            }
        },
        Parameter::Interpolated(ip) => {
            assert(spec_metrics(p)[0] == ip.x);
            if seq_has_dep(ip.xp@, d) {
                let i = choose|i: int| 0 <= i < ip.xp@.len()
                    && metric_param_dep(ip.xp@[i]) == Some(d);
                assert(spec_metrics(p)[1 + i] == ip.xp@[i]);
            } else if seq_has_dep(ip.fp@, d) {
                let i = choose|i: int| 0 <= i < ip.fp@.len()
                    && metric_param_dep(ip.fp@[i]) == Some(d);
                assert(spec_metrics(p)[1 + ip.xp@.len() + i] == ip.fp@[i]);
            }
        },
        Parameter::Delay(dl) => {
            assert(spec_metrics(p)[0] == dl.metric);
        },
        Parameter::HydropowerTarget(h) => {
            assert(spec_metrics(p)[0] == h.target);
            let base = 1int;
            if opt_has_dep(h.water_elevation, d) {
                assert(spec_metrics(p)[base] == h.water_elevation->0);
            } else if opt_has_dep(h.max_flow, d) {
                assert(spec_metrics(p)[base + opt_metric_seq(h.water_elevation).len()]
                    == h.max_flow->0);
            } else if opt_has_dep(h.min_flow, d) {
                assert(spec_metrics(p)[base + opt_metric_seq(h.water_elevation).len()
                    + opt_metric_seq(h.max_flow).len()] == h.min_flow->0);
            }
        },
    }
}

} // verus!
