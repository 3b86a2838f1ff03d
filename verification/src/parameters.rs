//! Dynamic parameters: named units of computation producing one scalar per
//! timestep and scenario, possibly reading other parameters or node
//! metrics through [`Metric`] references.

use vstd::prelude::*;
use crate::errors::{EvalError, LoadError};
use crate::metric::{Metric, metric_ok, metric_value};
use crate::num::div_trunc;
use crate::state::{DelayMemory, ParameterMemory, State};

verus! {

/// Meta-data common to all parameters.
#[derive(Clone, Debug)]
pub struct ParameterMeta {
    pub name: String,
}

impl ParameterMeta {
    pub fn new(name: &str) -> (r: Self)
        ensures
            r.name@ == name@,
    {
        Self { name: name.to_owned() }
    }
}

/// A parameter returning a fixed value.
#[derive(Clone, Debug)]
pub struct ConstantParameter {
    pub meta: ParameterMeta,
    pub value: i64,
}

impl ConstantParameter {
    pub fn new(name: &str, value: i64) -> (r: Self)
        ensures
            r.meta.name@ == name@,
            r.value == value,
    {
        Self { meta: ParameterMeta::new(name), value }
    }

    pub fn compute(&self) -> (r: Result<i64, EvalError>)
        ensures
            r == Ok::<i64, EvalError>(self.value),
    {
        Ok(self.value)
    }
}

/// The minimum of a metric and a constant threshold.
#[derive(Clone, Debug)]
pub struct MinParameter {
    pub meta: ParameterMeta,
    pub metric: Metric,
    pub threshold: i64,
}

impl MinParameter {
    pub fn new(name: &str, metric: Metric, threshold: i64) -> (r: Self)
        ensures
            r.meta.name@ == name@,
            r.metric == metric,
            r.threshold == threshold,
    {
        Self { meta: ParameterMeta::new(name), metric, threshold }
    }

    pub fn compute(&self, state: &State) -> (r: Result<i64, EvalError>)
        ensures
            r == min_result_spec(self.metric, self.threshold, *state),
    {
        let x = self.metric.get_value(state)?;
        if x < self.threshold {
            Ok(x)
        } else {
            Ok(self.threshold)
        }
    }
}

/// The result of a min-threshold parameter.
pub open spec fn min_result_spec(metric: Metric, threshold: i64, s: State) -> Result<
    i64,
    EvalError,
> {
    if !metric_ok(metric, s) {
        Err(EvalError::MetricNotAvailable)
    } else {
        let x = metric_value(metric, s);
        Ok(if x < threshold { x } else { threshold })
    }
}

/// The maximum of a metric and a constant threshold.
#[derive(Clone, Debug)]
pub struct MaxParameter {
    pub meta: ParameterMeta,
    pub metric: Metric,
    pub threshold: i64,
}

impl MaxParameter {
    pub fn new(name: &str, metric: Metric, threshold: i64) -> (r: Self)
        ensures
            r.meta.name@ == name@,
            r.metric == metric,
            r.threshold == threshold,
    {
        Self { meta: ParameterMeta::new(name), metric, threshold }
    }

    pub fn compute(&self, state: &State) -> (r: Result<i64, EvalError>)
        ensures
            r == max_result_spec(self.metric, self.threshold, *state),
    {
        let x = self.metric.get_value(state)?;
        if x > self.threshold {
            Ok(x)
        } else {
            Ok(self.threshold)
        }
    }
}

/// The result of a max-threshold parameter.
pub open spec fn max_result_spec(metric: Metric, threshold: i64, s: State) -> Result<
    i64,
    EvalError,
> {
    if !metric_ok(metric, s) {
        Err(EvalError::MetricNotAvailable)
    } else {
        let x = metric_value(metric, s);
        Ok(if x > threshold { x } else { threshold })
    }
}

/// The negation of a metric.
#[derive(Clone, Debug)]
pub struct NegativeParameter {
    pub meta: ParameterMeta,
    pub metric: Metric,
}

impl NegativeParameter {
    pub fn new(name: &str, metric: Metric) -> (r: Self)
        ensures
            r.meta.name@ == name@,
            r.metric == metric,
    {
        Self { meta: ParameterMeta::new(name), metric }
    }

    pub fn compute(&self, state: &State) -> (r: Result<i64, EvalError>)
        ensures
            r == negative_result_spec(self.metric, *state),
    {
        let x = self.metric.get_value(state)?;
        if x == i64::MIN {
            Err(EvalError::ValueOverflow)
        } else {
            Ok(-x)
        }
    }
}

/// The result of a negation parameter: fails only on the one value whose
/// negation is not representable.
pub open spec fn negative_result_spec(metric: Metric, s: State) -> Result<i64, EvalError> {
    if !metric_ok(metric, s) {
        Err(EvalError::MetricNotAvailable)
    } else {
        let x = metric_value(metric, s);
        if x == i64::MIN {
            Err(EvalError::ValueOverflow)
        } else {
            Ok((-x) as i64)
        }
    }
}

/// The maximum of a metric's negation and a constant threshold.
#[derive(Clone, Debug)]
pub struct NegativeMaxParameter {
    pub meta: ParameterMeta,
    pub metric: Metric,
    pub threshold: i64,
}

impl NegativeMaxParameter {
    pub fn new(name: &str, metric: Metric, threshold: i64) -> (r: Self)
        ensures
            r.meta.name@ == name@,
            r.metric == metric,
            r.threshold == threshold,
    {
        Self { meta: ParameterMeta::new(name), metric, threshold }
    }

    pub fn compute(&self, state: &State) -> (r: Result<i64, EvalError>)
        ensures
            r == negative_max_result_spec(self.metric, self.threshold, *state),
    {
        let x = self.metric.get_value(state)?;
        if x == i64::MIN {
            return Err(EvalError::ValueOverflow);
        }
        let neg = -x;
        if neg > self.threshold {
            Ok(neg)
        } else {
            Ok(self.threshold)
        }
    }
}

/// The result of a negative-max parameter.
pub open spec fn negative_max_result_spec(metric: Metric, threshold: i64, s: State) -> Result<
    i64,
    EvalError,
> {
    if !metric_ok(metric, s) {
        Err(EvalError::MetricNotAvailable)
    } else {
        let x = metric_value(metric, s);
        if x == i64::MIN {
            Err(EvalError::ValueOverflow)
        } else {
            Ok(if -x > threshold { (-x) as i64 } else { threshold })
        }
    }
}

/// The minimum of a metric's negation and a constant threshold.
#[derive(Clone, Debug)]
pub struct NegativeMinParameter {
    pub meta: ParameterMeta,
    pub metric: Metric,
    pub threshold: i64,
}

impl NegativeMinParameter {
    pub fn new(name: &str, metric: Metric, threshold: i64) -> (r: Self)
        ensures
            r.meta.name@ == name@,
            r.metric == metric,
            r.threshold == threshold,
    {
        Self { meta: ParameterMeta::new(name), metric, threshold }
    }

    pub fn compute(&self, state: &State) -> (r: Result<i64, EvalError>)
        ensures
            r == negative_min_result_spec(self.metric, self.threshold, *state),
    {
        let x = self.metric.get_value(state)?;
        if x == i64::MIN {
            return Err(EvalError::ValueOverflow);
        }
        let neg = -x;
        if neg < self.threshold {
            Ok(neg)
        } else {
            Ok(self.threshold)
        }
    }
}

/// The result of a negative-min parameter.
pub open spec fn negative_min_result_spec(metric: Metric, threshold: i64, s: State) -> Result<
    i64,
    EvalError,
> {
    if !metric_ok(metric, s) {
        Err(EvalError::MetricNotAvailable)
    } else {
        let x = metric_value(metric, s);
        if x == i64::MIN {
            Err(EvalError::ValueOverflow)
        } else {
            Ok(if -x < threshold { (-x) as i64 } else { threshold })
        }
    }
}

/// One metric divided by another, truncating toward zero.
#[derive(Clone, Debug)]
pub struct DivisionParameter {
    pub meta: ParameterMeta,
    pub numerator: Metric,
    pub denominator: Metric,
}

impl DivisionParameter {
    pub fn new(name: &str, numerator: Metric, denominator: Metric) -> (r: Self)
        ensures
            r.meta.name@ == name@,
            r.numerator == numerator,
            r.denominator == denominator,
    {
        Self { meta: ParameterMeta::new(name), numerator, denominator }
    }

    pub fn compute(&self, state: &State, own_index: usize) -> (r: Result<i64, EvalError>)
        ensures
            r == division_result_spec(self.numerator, self.denominator, *state, own_index),
    {
        let n = self.numerator.get_value(state)?;
        let d = self.denominator.get_value(state)?;
        if d == 0 {
            return Err(EvalError::InternalParameterError { parameter: own_index });
        }
        if n == i64::MIN && d == -1 {
            return Err(EvalError::ValueOverflow);
        }
        Ok(crate::num::div_trunc_i64(n, d))
    }
}

/// The result of a division parameter: a zero divisor is a domain error of
/// the parameter itself, and the one unrepresentable quotient overflows.
pub open spec fn division_result_spec(
    numerator: Metric,
    denominator: Metric,
    s: State,
    own_index: usize,
) -> Result<i64, EvalError> {
    if !metric_ok(numerator, s) {
        Err(EvalError::MetricNotAvailable)
    } else if !metric_ok(denominator, s) {
        Err(EvalError::MetricNotAvailable)
    } else {
        let n = metric_value(numerator, s);
        let d = metric_value(denominator, s);
        if d == 0 {
            Err(EvalError::InternalParameterError { parameter: own_index })
        } else if n == i64::MIN && d == -1 {
            Err(EvalError::ValueOverflow)
        } else {
            Ok(div_trunc(n as int, d as int) as i64)
        }
    }
}

/// An aggregation function over several values.
#[derive(Clone, Copy, Debug, PartialEq, Eq, Structural)]
pub enum AggFunc {
    Sum,
    Product,
    Mean,
    Min,
    Max,
}

impl AggFunc {
    /// Parse an aggregation function name.
    pub fn from_str(name: &str) -> (r: Result<AggFunc, LoadError>)
        ensures
            name@ == "sum"@ ==> r == Ok::<AggFunc, LoadError>(AggFunc::Sum),
            name@ == "product"@ ==> r == Ok::<AggFunc, LoadError>(AggFunc::Product),
            name@ == "mean"@ ==> r == Ok::<AggFunc, LoadError>(AggFunc::Mean),
            name@ == "min"@ ==> r == Ok::<AggFunc, LoadError>(AggFunc::Min),
            name@ == "max"@ ==> r == Ok::<AggFunc, LoadError>(AggFunc::Max),
            r is Err ==> name@ != "sum"@ && name@ != "product"@ && name@ != "mean"@
                && name@ != "min"@ && name@ != "max"@
                && (r->Err_0 matches LoadError::InvalidAggregationFunction(n) && n@ == name@),
            !(name@ == "sum"@ || name@ == "product"@ || name@ == "mean"@ || name@ == "min"@
                || name@ == "max"@) ==> r is Err,
    {
        proof {
            reveal_strlit("sum");
            reveal_strlit("product");
            reveal_strlit("mean");
            reveal_strlit("min");
            reveal_strlit("max");
            assert("sum"@.len() == 3 && "product"@.len() == 7 && "mean"@.len() == 4
                && "min"@.len() == 3 && "max"@.len() == 3);
            assert("sum"@[0] == 's' && "min"@[0] == 'm' && "max"@[0] == 'm');
            assert("min"@[1] == 'i' && "max"@[1] == 'a');
            assert("sum"@ != "product"@ && "sum"@ != "mean"@ && "sum"@ != "min"@
                && "sum"@ != "max"@);
            assert("product"@ != "mean"@ && "product"@ != "min"@ && "product"@ != "max"@);
            assert("mean"@ != "min"@ && "mean"@ != "max"@);
            assert("min"@ != "max"@);
        }
        let owned: String = name.to_owned();
        if owned == "sum".to_owned() {
            Ok(AggFunc::Sum)
        } else if owned == "product".to_owned() {
            Ok(AggFunc::Product)
        } else if owned == "mean".to_owned() {
            Ok(AggFunc::Mean)
        } else if owned == "min".to_owned() {
            Ok(AggFunc::Min)
        } else if owned == "max".to_owned() {
            Ok(AggFunc::Max)
        } else {
            Err(LoadError::InvalidAggregationFunction(owned))
        }
    }
}

/// An aggregation (sum, product, mean, min or max) over child values.
#[derive(Clone, Debug)]
pub struct AggregatedParameter {
    pub meta: ParameterMeta,
    pub values: Vec<Metric>,
    pub agg_func: AggFunc,
}

/// Left fold of a sum with overflow reported at the first step whose
/// running total escapes the representable range.
pub open spec fn agg_sum_spec(ms: Seq<Metric>, s: State, acc: i64) -> Result<i64, EvalError>
    decreases ms.len(),
{
    if ms.len() == 0 {
        Ok(acc)
    } else if !metric_ok(ms[0], s) {
        Err(EvalError::MetricNotAvailable)
    } else {
        let t = acc + metric_value(ms[0], s);
        if t < i64::MIN || t > i64::MAX {
            Err(EvalError::ValueOverflow)
        } else {
            agg_sum_spec(ms.skip(1), s, t as i64)
        }
    }
}

/// Left fold of a product with overflow reported at the first step whose
/// running total escapes the representable range.
pub open spec fn agg_product_spec(ms: Seq<Metric>, s: State, acc: i64) -> Result<i64, EvalError>
    decreases ms.len(),
{
    if ms.len() == 0 {
        Ok(acc)
    } else if !metric_ok(ms[0], s) {
        Err(EvalError::MetricNotAvailable)
    } else {
        let t = (acc as int) * (metric_value(ms[0], s) as int);
        if t < i64::MIN || t > i64::MAX {
            Err(EvalError::ValueOverflow)
        } else {
            agg_product_spec(ms.skip(1), s, t as i64)
        }
    }
}

/// Left fold of a maximum, starting from the smallest representable value.
pub open spec fn agg_max_spec(ms: Seq<Metric>, s: State, acc: i64) -> Result<i64, EvalError>
    decreases ms.len(),
{
    if ms.len() == 0 {
        Ok(acc)
    } else if !metric_ok(ms[0], s) {
        Err(EvalError::MetricNotAvailable)
    } else {
        let v = metric_value(ms[0], s);
        agg_max_spec(ms.skip(1), s, if v > acc { v } else { acc })
    }
}

/// Left fold of a minimum, starting from the largest representable value.
pub open spec fn agg_min_spec(ms: Seq<Metric>, s: State, acc: i64) -> Result<i64, EvalError>
    decreases ms.len(),
{
    if ms.len() == 0 {
        Ok(acc)
    } else if !metric_ok(ms[0], s) {
        Err(EvalError::MetricNotAvailable)
    } else {
        let v = metric_value(ms[0], s);
        agg_min_spec(ms.skip(1), s, if v < acc { v } else { acc })
    }
}

/// The result of an aggregated parameter. The mean is the truncated
/// quotient of the sum; aggregating an empty list is a data error for the
/// mean and yields the fold's starting value otherwise.
pub open spec fn aggregated_result_spec(values: Seq<Metric>, f: AggFunc, s: State) -> Result<
    i64,
    EvalError,
> {
    match f {
        AggFunc::Sum => agg_sum_spec(values, s, 0),
        AggFunc::Product => agg_product_spec(values, s, 1),
        AggFunc::Max => agg_max_spec(values, s, i64::MIN),
        AggFunc::Min => agg_min_spec(values, s, i64::MAX),
        AggFunc::Mean => {
            if values.len() == 0 {
                Err(EvalError::DataOutOfRange)
            } else {
                match agg_sum_spec(values, s, 0) {
                    Ok(total) => Ok(div_trunc(total as int, values.len() as int) as i64),
                    Err(e) => Err(e),
                }
            }
        },
    }
}

impl AggregatedParameter {
    pub fn new(name: &str, values: Vec<Metric>, agg_func: AggFunc) -> (r: Self)
        ensures
            r.meta.name@ == name@,
            r.values@ == values@,
            r.agg_func == agg_func,
    {
        Self { meta: ParameterMeta::new(name), values, agg_func }
    }

    pub fn compute(&self, state: &State) -> (r: Result<i64, EvalError>)
        ensures
            r == aggregated_result_spec(self.values@, self.agg_func, *state),
    {
        let ghost ms = self.values@;
        let n = self.values.len();
        match self.agg_func {
            AggFunc::Sum => {
                let total = self.fold_sum(state)?;
                Ok(total)
            },
            AggFunc::Mean => {
                if n == 0 {
                    return Err(EvalError::DataOutOfRange);
                }
                let total = self.fold_sum(state)?;
                Ok(crate::num::div_trunc_i64_by_usize(total, n))
            },
            AggFunc::Product => {
                let mut total: i64 = 1;
                let mut i: usize = 0;
                proof {
                    assert(ms.skip(0) =~= ms);
                }
                while i < n
                    invariant
                        n == self.values@.len(),
                        ms == self.values@,
                        0 <= i <= n,
                        self.agg_func == AggFunc::Product,
                        aggregated_result_spec(ms, AggFunc::Product, *state)
                            == agg_product_spec(ms.skip(i as int), *state, total),
                    decreases n - i,
                {
                    proof {
                        assert(ms.skip(i as int)[0] == ms[i as int]);
                        assert(ms.skip(i as int).skip(1) =~= ms.skip(i as int + 1));
                    }
                    let v = self.values[i].get_value(state)?;
                    total = match total.checked_mul(v) {
                        Some(t) => t,
                        None => {
                            return Err(EvalError::ValueOverflow);
                        },
                    };
                    i = i + 1;
                }
                proof {
                    assert(ms.skip(n as int).len() == 0);
                }
                Ok(total)
            },
            AggFunc::Max => {
                let mut total: i64 = i64::MIN;
                let mut i: usize = 0;
                proof {
                    assert(ms.skip(0) =~= ms);
                }
                while i < n
                    invariant
                        n == self.values@.len(),
                        ms == self.values@,
                        0 <= i <= n,
                        self.agg_func == AggFunc::Max,
                        aggregated_result_spec(ms, AggFunc::Max, *state)
                            == agg_max_spec(ms.skip(i as int), *state, total),
                    decreases n - i,
                {
                    proof {
                        assert(ms.skip(i as int)[0] == ms[i as int]);
                        assert(ms.skip(i as int).skip(1) =~= ms.skip(i as int + 1));
                    }
                    let v = self.values[i].get_value(state)?;
                    if v > total {
                        total = v;
                    }
                    i = i + 1;
                }
                proof {
                    assert(ms.skip(n as int).len() == 0);
                }
                Ok(total)
            },
            AggFunc::Min => {
                let mut total: i64 = i64::MAX;
                let mut i: usize = 0;
                proof {
                    assert(ms.skip(0) =~= ms);
                }
                while i < n
                    invariant
                        n == self.values@.len(),
                        ms == self.values@,
                        0 <= i <= n,
                        self.agg_func == AggFunc::Min,
                        aggregated_result_spec(ms, AggFunc::Min, *state)
                            == agg_min_spec(ms.skip(i as int), *state, total),
                    decreases n - i,
                {
                    proof {
                        assert(ms.skip(i as int)[0] == ms[i as int]);
                        assert(ms.skip(i as int).skip(1) =~= ms.skip(i as int + 1));
                    }
                    let v = self.values[i].get_value(state)?;
                    if v < total {
                        total = v;
                    }
                    i = i + 1;
                }
                proof {
                    assert(ms.skip(n as int).len() == 0);
                }
                Ok(total)
            },
        }
    }

    /// The summation fold shared by `Sum` and `Mean`.
    fn fold_sum(&self, state: &State) -> (r: Result<i64, EvalError>)
        ensures
            r == agg_sum_spec(self.values@, *state, 0),
    {
        let ghost ms = self.values@;
        let n = self.values.len();
        let mut total: i64 = 0;
        let mut i: usize = 0;
        proof {
            assert(ms.skip(0) =~= ms);
        }
        while i < n
            invariant
                n == self.values@.len(),
                ms == self.values@,
                0 <= i <= n,
                agg_sum_spec(ms, *state, 0) == agg_sum_spec(ms.skip(i as int), *state, total),
            decreases n - i,
        {
            proof {
                assert(ms.skip(i as int)[0] == ms[i as int]);
                assert(ms.skip(i as int).skip(1) =~= ms.skip(i as int + 1));
            }
            let v = self.values[i].get_value(state)?;
            total = match total.checked_add(v) {
                Some(t) => t,
                None => {
                    return Err(EvalError::ValueOverflow);
                },
            };
            i = i + 1;
        }
        proof {
            assert(ms.skip(n as int).len() == 0);
        }
        Ok(total)
    }
}

/// A parameter returning the value its metric had a fixed number of
/// timesteps ago, carrying a ring buffer as private memory.
#[derive(Clone, Debug)]
pub struct DelayParameter {
    pub meta: ParameterMeta,
    pub metric: Metric,
    pub delay: usize,
    pub initial_value: i64,
}

/// The result of a delay parameter against its memory as it stood before
/// the call: the oldest buffered value, or the initial value while the
/// buffer is still filling, or the current metric for a zero delay.
pub open spec fn delay_result_spec(
    metric: Metric,
    delay: usize,
    initial_value: i64,
    s: State,
    mem: ParameterMemory,
) -> Result<i64, EvalError> {
    if !metric_ok(metric, s) {
        Err(EvalError::MetricNotAvailable)
    } else if delay == 0 {
        Ok(metric_value(metric, s))
    } else {
        match mem {
            ParameterMemory::Empty => Ok(initial_value),
            ParameterMemory::Delay(m) => {
                if m.buffer@.len() == delay && m.pos < delay {
                    Ok(m.buffer@[m.pos as int])
                } else {
                    Err(EvalError::DataOutOfRange)
                }
            },
        }
    }
}

/// How a delay parameter's memory advances: the slot holding the value
/// just returned is overwritten with the current metric value and the
/// cursor moves on circularly. A fresh memory starts as a buffer full of
/// the initial value.
pub open spec fn delay_memory_post(
    metric: Metric,
    delay: usize,
    initial_value: i64,
    s: State,
    mem: ParameterMemory,
    post: ParameterMemory,
) -> bool {
    if !metric_ok(metric, s) || delay == 0 {
        post == mem
    } else {
        match mem {
            ParameterMemory::Empty => {
                &&& post is Delay
                &&& post->Delay_0.buffer@ == Seq::new(delay as nat, |j: int| initial_value)
                    .update(0, metric_value(metric, s))
                &&& post->Delay_0.pos == 1int % (delay as int)
            },
            ParameterMemory::Delay(m) => {
                if m.buffer@.len() == delay && m.pos < delay {
                    &&& post is Delay
                    &&& post->Delay_0.buffer@ == m.buffer@.update(
                        m.pos as int,
                        metric_value(metric, s),
                    )
                    &&& post->Delay_0.pos == (m.pos + 1) % (delay as int)
                } else {
                    post == mem
                }
            },
        }
    }
}

impl DelayParameter {
    pub fn new(name: &str, metric: Metric, delay: usize, initial_value: i64) -> (r: Self)
        ensures
            r.meta.name@ == name@,
            r.metric == metric,
            r.delay == delay,
            r.initial_value == initial_value,
    {
        Self { meta: ParameterMeta::new(name), metric, delay, initial_value }
    }

    pub fn compute(&self, state: &State, memory: &mut ParameterMemory) -> (r: Result<
        i64,
        EvalError,
    >)
        ensures
            r == delay_result_spec(self.metric, self.delay, self.initial_value, *state,
                *old(memory)),
            delay_memory_post(self.metric, self.delay, self.initial_value, *state,
                *old(memory), *final(memory)),
    {
        let x = match self.metric.get_value(state) {
            Ok(v) => v,
            Err(e) => {
                return Err(e);
            },
        };
        if self.delay == 0 {
            return Ok(x);
        }
        let mut taken = ParameterMemory::Empty;
        core::mem::swap(memory, &mut taken);
        match taken {
            ParameterMemory::Empty => {
                let mut buffer: Vec<i64> = Vec::new();
                let mut i: usize = 0;
                while i < self.delay
                    invariant
                        0 <= i <= self.delay,
                        buffer@.len() == i,
                        forall|t: int| 0 <= t < i ==> buffer@[t] == self.initial_value,
                    decreases self.delay - i,
                {
                    buffer.push(self.initial_value);
                    i = i + 1;
                }
                buffer.set(0, x);
                proof {
                    assert(buffer@ =~= Seq::new(self.delay as nat, |j: int| self.initial_value)
                        .update(0, x));
                }
                *memory = ParameterMemory::Delay(DelayMemory { buffer, pos: 1 % self.delay });
                Ok(self.initial_value)
            },
            ParameterMemory::Delay(m) => {
                if m.buffer.len() == self.delay && m.pos < self.delay {
                    let out = m.buffer[m.pos];
                    let p = m.pos;
                    let mut buffer = m.buffer;
                    buffer.set(p, x);
                    *memory = ParameterMemory::Delay(
                        DelayMemory { buffer, pos: (p + 1) % self.delay },
                    );
                    Ok(out)
                } else {
                    *memory = ParameterMemory::Delay(m);
                    Err(EvalError::DataOutOfRange)
                }
            },
        }
    }
}

} // verus!
