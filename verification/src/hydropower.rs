//! The hydropower target parameter: inverts an energy-production target
//! into the flow required through a turbine, given working head,
//! efficiency and water density.

use vstd::prelude::*;
use crate::errors::EvalError;
use crate::metric::{Metric, metric_ok, metric_value};
use crate::num::div_trunc;
use crate::parameters::ParameterMeta;
use crate::state::State;

verus! {

/// Standard gravity, scaled by 100 (9.81 m/s^2).
pub const GRAVITY_CENTI: i64 = 981;

/// The configuration handed to [`HydropowerTargetParameter::new`]; unset
/// entries take the documented defaults.
#[derive(Clone, Debug)]
pub struct TurbineData {
    /// Energy-production target per timestep.
    pub target: Metric,
    /// Elevation of the turbine; the difference with the water elevation
    /// gives the working head. Defaults to 0.
    pub elevation: Option<i64>,
    /// Head below which no flow is produced. Defaults to 0.
    pub min_head: Option<i64>,
    pub max_flow: Option<Metric>,
    pub min_flow: Option<Metric>,
    /// Turbine efficiency as a ratio scaled by [`crate::RATIO_SCALE`].
    /// Defaults to one.
    pub efficiency: Option<i64>,
    /// Elevation of the water entering the turbine.
    pub water_elevation: Option<Metric>,
    /// Density of water. Defaults to 1000.
    pub water_density: Option<i64>,
    /// Flow unit conversion as a scaled ratio. Defaults to one.
    pub flow_unit_conversion: Option<i64>,
    /// Energy unit conversion as a scaled ratio. Defaults to one
    /// millionth.
    pub energy_unit_conversion: Option<i64>,
}

/// A parameter inverting a power target into a required flow.
#[derive(Clone, Debug)]
pub struct HydropowerTargetParameter {
    pub meta: ParameterMeta,
    pub target: Metric,
    pub max_flow: Option<Metric>,
    pub min_flow: Option<Metric>,
    pub turbine_min_head: i64,
    pub turbine_elevation: i64,
    pub turbine_efficiency: i64,
    pub water_elevation: Option<Metric>,
    pub water_density: i64,
    pub flow_unit_conversion: i64,
    pub energy_unit_conversion: i64,
}

/// The working head: water elevation above the turbine, floored at zero.
pub open spec fn working_head_spec(
    water_elevation: Option<Metric>,
    turbine_elevation: i64,
    s: State,
) -> int {
    let h = match water_elevation {
        Some(we) => metric_value(we, s) - turbine_elevation,
        None => turbine_elevation as int,
    };
    if h < 0 {
        0
    } else {
        h
    }
}

/// The flow delivering `power` through a turbine of the given working
/// head: `power` divided by the energy produced per unit of flow,
/// `flow_conv * density * g * head * efficiency * energy_conv`, with the
/// three ratio factors scaled by [`crate::RATIO_SCALE`] and gravity by
/// 100.
pub open spec fn inverse_hydropower_spec(
    power: i64,
    head: int,
    density: i64,
    efficiency: i64,
    flow_conv: i64,
    energy_conv: i64,
) -> int {
    div_trunc(
        (power as int) * 100_000_000_000_000_000_000,
        head * (density as int) * (GRAVITY_CENTI as int) * (efficiency as int)
            * (flow_conv as int) * (energy_conv as int),
    )
}

/// Whether the fixed-point evaluation of [`inverse_hydropower_spec`] fits
/// the machine: both sides of the division and the quotient must be
/// representable.
pub open spec fn inverse_hydropower_fits(
    power: i64,
    head: int,
    density: i64,
    efficiency: i64,
    flow_conv: i64,
    energy_conv: i64,
) -> bool {
    let num = (power as int) * 100_000_000_000_000_000_000;
    let den = head * (density as int) * (GRAVITY_CENTI as int) * (efficiency as int)
        * (flow_conv as int) * (energy_conv as int);
    &&& (if num < 0 { -num } else { num }) <= u128::MAX
    &&& den <= u128::MAX
    &&& i64::MIN <= inverse_hydropower_spec(power, head, density, efficiency, flow_conv,
        energy_conv) <= i64::MAX
}

/// The full result of the hydropower target parameter.
///
/// A head below the configured minimum yields a flow of exactly zero,
/// whatever the target. A head of zero at or above the minimum, or a
/// non-positive divisor factor, is a domain error of the parameter. After
/// the optional bounding, a negative flow is reported as an error, never
/// clamped.
pub open spec fn hydropower_result_spec(p: HydropowerTargetParameter, s: State, own_index: usize)
    -> Result<i64, EvalError> {
    if p.water_elevation is Some && !metric_ok(p.water_elevation->0, s) {
        Err(EvalError::MetricNotAvailable)
    } else {
        let head = working_head_spec(p.water_elevation, p.turbine_elevation, s);
        if head < p.turbine_min_head {
            Ok(0)
        } else if !metric_ok(p.target, s) {
            Err(EvalError::MetricNotAvailable)
        } else if head == 0 || p.water_density <= 0 || p.turbine_efficiency <= 0
            || p.flow_unit_conversion <= 0 || p.energy_unit_conversion <= 0 {
            Err(EvalError::InternalParameterError { parameter: own_index })
        } else {
            let power = metric_value(p.target, s);
            if !inverse_hydropower_fits(power, head, p.water_density, p.turbine_efficiency,
                p.flow_unit_conversion, p.energy_unit_conversion) {
                Err(EvalError::ValueOverflow)
            } else {
                let q0 = inverse_hydropower_spec(power, head, p.water_density,
                    p.turbine_efficiency, p.flow_unit_conversion, p.energy_unit_conversion);
                if p.max_flow is Some {
                    if !metric_ok(p.max_flow->0, s) {
                        Err(EvalError::MetricNotAvailable)
                    } else {
                        let mf = metric_value(p.max_flow->0, s) as int;
                        let q = if q0 < mf { q0 } else { mf };
                        if q < 0 {
                            Err(EvalError::InternalParameterError { parameter: own_index })
                        } else {
                            Ok(q as i64)
                        }
                    }
                } else if p.min_flow is Some {
                    if !metric_ok(p.min_flow->0, s) {
                        Err(EvalError::MetricNotAvailable)
                    } else {
                        let mf = metric_value(p.min_flow->0, s) as int;
                        let q = if q0 > mf { q0 } else { mf };
                        if q < 0 {
                            Err(EvalError::InternalParameterError { parameter: own_index })
                        } else {
                            Ok(q as i64)
                        }
                    }
                } else {
                    if q0 < 0 {
                        Err(EvalError::InternalParameterError { parameter: own_index })
                    } else {
                        Ok(q0 as i64)
                    }
                }
            }
        }
    }
}

/// A working head below the configured minimum yields a flow of exactly
/// zero, whatever the target asks for.
pub proof fn lemma_head_below_minimum_gives_zero(
    p: HydropowerTargetParameter,
    s: State,
    own_index: usize,
)
    requires
        p.water_elevation is Some ==> metric_ok(p.water_elevation->0, s),
        working_head_spec(p.water_elevation, p.turbine_elevation, s) < p.turbine_min_head,
    ensures
        hydropower_result_spec(p, s, own_index) == Ok::<i64, EvalError>(0),
{
}

/// A negative computed flow is never returned: it is reported as an
/// error, not clamped.
pub proof fn lemma_negative_flow_is_never_returned(
    p: HydropowerTargetParameter,
    s: State,
    own_index: usize,
)
    ensures
        (hydropower_result_spec(p, s, own_index) matches Ok(q) ==> q >= 0),
{
}

impl HydropowerTargetParameter {
    /// Build the parameter from turbine data, applying the documented
    /// defaults to unset entries.
    pub fn new(name: &str, turbine_data: TurbineData) -> (r: Self)
        ensures
            r.meta.name@ == name@,
            r.target == turbine_data.target,
            r.water_elevation == turbine_data.water_elevation,
            r.turbine_elevation == (match turbine_data.elevation {
                Some(v) => v,
                None => 0,
            }),
            r.turbine_min_head == (match turbine_data.min_head {
                Some(v) => v,
                None => 0,
            }),
            r.turbine_efficiency == (match turbine_data.efficiency {
                Some(v) => v,
                None => crate::RATIO_SCALE,
            }),
            r.max_flow == turbine_data.max_flow,
            r.min_flow == turbine_data.min_flow,
            r.water_density == (match turbine_data.water_density {
                Some(v) => v,
                None => 1000,
            }),
            r.flow_unit_conversion == (match turbine_data.flow_unit_conversion {
                Some(v) => v,
                None => crate::RATIO_SCALE,
            }),
            r.energy_unit_conversion == (match turbine_data.energy_unit_conversion {
                Some(v) => v,
                None => 1,
            }),
    {
        Self {
            meta: ParameterMeta::new(name),
            target: turbine_data.target,
            water_elevation: turbine_data.water_elevation,
            turbine_elevation: match turbine_data.elevation {
                Some(v) => v,
                None => 0,
            },
            turbine_min_head: match turbine_data.min_head {
                Some(v) => v,
                None => 0,
            },
            turbine_efficiency: match turbine_data.efficiency {
                Some(v) => v,
                None => crate::RATIO_SCALE,
            },
            max_flow: turbine_data.max_flow,
            min_flow: turbine_data.min_flow,
            water_density: match turbine_data.water_density {
                Some(v) => v,
                None => 1000,
            },
            flow_unit_conversion: match turbine_data.flow_unit_conversion {
                Some(v) => v,
                None => crate::RATIO_SCALE,
            },
            energy_unit_conversion: match turbine_data.energy_unit_conversion {
                Some(v) => v,
                None => 1,
            },
        }
    }

    pub fn compute(&self, state: &State, own_index: usize) -> (r: Result<i64, EvalError>)
        ensures
            r == hydropower_result_spec(*self, *state, own_index),
    {
        // Working head, floored at zero.
        let head: i128 = match &self.water_elevation {
            Some(we) => {
                let v = we.get_value(state)?;
                let h = (v as i128) - (self.turbine_elevation as i128);
                if h < 0 {
                    0
                } else {
                    h
                }
            },
            None => {
                if self.turbine_elevation < 0 {
                    0
                } else {
                    self.turbine_elevation as i128
                }
            },
        };
        if head < self.turbine_min_head as i128 {
            return Ok(0);
        }
        let power = self.target.get_value(state)?;
        if head == 0 || self.water_density <= 0 || self.turbine_efficiency <= 0
            || self.flow_unit_conversion <= 0 || self.energy_unit_conversion <= 0 {
            return Err(EvalError::InternalParameterError { parameter: own_index });
        }
        let q0 = match inverse_hydropower(power, head, self.water_density,
            self.turbine_efficiency, self.flow_unit_conversion, self.energy_unit_conversion) {
            Some(q) => q,
            None => {
                return Err(EvalError::ValueOverflow);
            },
        };
        let q: i64 = if let Some(max_flow) = &self.max_flow {
            let mf = max_flow.get_value(state)?;
            if q0 < mf {
                q0
            } else {
                mf
            }
        } else if let Some(min_flow) = &self.min_flow {
            let mf = min_flow.get_value(state)?;
            if q0 > mf {
                q0
            } else {
                mf
            }
        } else {
            q0
        };
        if q < 0 {
            return Err(EvalError::InternalParameterError { parameter: own_index });
        }
        Ok(q)
    }
}

/// The fixed-point inversion itself; `None` exactly when the computation
/// does not fit the machine.
fn inverse_hydropower(
    power: i64,
    head: i128,
    density: i64,
    efficiency: i64,
    flow_conv: i64,
    energy_conv: i64,
) -> (r: Option<i64>)
    requires
        1 <= head <= u64::MAX,
        density >= 1,
        efficiency >= 1,
        flow_conv >= 1,
        energy_conv >= 1,
    ensures
        inverse_hydropower_fits(power, head as int, density, efficiency, flow_conv,
            energy_conv) ==> r == Some(
            inverse_hydropower_spec(power, head as int, density, efficiency, flow_conv,
                energy_conv) as i64,
        ),
        !inverse_hydropower_fits(power, head as int, density, efficiency, flow_conv,
            energy_conv) ==> r is None,
{
    let ghost num_spec = (power as int) * 100_000_000_000_000_000_000;
    let ghost p2 = (head as int) * (density as int);
    let ghost p3 = p2 * (GRAVITY_CENTI as int);
    let ghost p4 = p3 * (efficiency as int);
    let ghost p5 = p4 * (flow_conv as int);
    let ghost p6 = p5 * (energy_conv as int);
    proof {
        vstd::arithmetic::mul::lemma_mul_strictly_positive(head as int, density as int);
        vstd::arithmetic::mul::lemma_mul_strictly_positive(p2, GRAVITY_CENTI as int);
        vstd::arithmetic::mul::lemma_mul_strictly_positive(p3, efficiency as int);
        vstd::arithmetic::mul::lemma_mul_strictly_positive(p4, flow_conv as int);
        vstd::arithmetic::mul::lemma_mul_strictly_positive(p5, energy_conv as int);
        lemma_mul_ge_one(p3, efficiency as int);
        lemma_mul_ge_one(p4, flow_conv as int);
        lemma_mul_ge_one(p5, energy_conv as int);
        lemma_abs_mul_scale(power as int);
    }
    let neg = power < 0;
    let pabs: u128 = if neg {
        (-(power as i128)) as u128
    } else {
        power as u128
    };
    // 100 times the cube of the ratio scale.
    let scale: u128 = 100_000_000_000_000_000_000;
    let num: u128 = match pabs.checked_mul(scale) {
        Some(v) => v,
        None => {
            return None;
        },
    };
    proof {
        vstd::arithmetic::mul::lemma_mul_upper_bound(
            head as int,
            u64::MAX as int,
            density as int,
            i64::MAX as int,
        );
    }
    let d1: u128 = (head as u128) * (density as u128);
    let d2: u128 = match d1.checked_mul(GRAVITY_CENTI as u128) {
        Some(v) => v,
        None => {
            return None;
        },
    };
    let d3: u128 = match d2.checked_mul(efficiency as u128) {
        Some(v) => v,
        None => {
            return None;
        },
    };
    let d4: u128 = match d3.checked_mul(flow_conv as u128) {
        Some(v) => v,
        None => {
            return None;
        },
    };
    let den: u128 = match d4.checked_mul(energy_conv as u128) {
        Some(v) => v,
        None => {
            return None;
        },
    };
    let qabs: u128 = num / den;
    proof {
        vstd::arithmetic::div_mod::lemma_div_pos_is_pos(num as int, den as int);
        assert(p6 == den);
        assert((if num_spec < 0 { -num_spec } else { num_spec }) == num);
        assert(inverse_hydropower_spec(power, head as int, density, efficiency, flow_conv,
            energy_conv) == if neg { -(qabs as int) } else { qabs as int });
    }
    if neg {
        if qabs > 9_223_372_036_854_775_808u128 {
            return None;
        }
        Some((-(qabs as i128)) as i64)
    } else {
        if qabs > i64::MAX as u128 {
            return None;
        }
        Some(qabs as i64)
    }
}

/// The magnitude of the scaled power target is the scaled magnitude, and
/// its sign is the sign of the target.
proof fn lemma_abs_mul_scale(a: int)
    ensures
        (if a * 100_000_000_000_000_000_000 < 0 {
            -(a * 100_000_000_000_000_000_000)
        } else {
            a * 100_000_000_000_000_000_000
        }) == (if a < 0 { -a } else { a }) * 100_000_000_000_000_000_000,
        (a * 100_000_000_000_000_000_000 < 0) <==> a < 0,
{
    let s = 100_000_000_000_000_000_000;
    vstd::arithmetic::mul::lemma_mul_unary_negation(a, s);
    if a < 0 {
        vstd::arithmetic::mul::lemma_mul_strictly_positive(-a, s);
    } else if a > 0 {
        vstd::arithmetic::mul::lemma_mul_strictly_positive(a, s);
    } else {
        vstd::arithmetic::mul::lemma_mul_basics(s);
    }
}

proof fn lemma_mul_ge_one(p: int, f: int)
    requires
        p >= 0,
        f >= 1,
    ensures
        p * f >= p,
{
    vstd::arithmetic::mul::lemma_mul_inequality(1, f, p);
    vstd::arithmetic::mul::lemma_mul_is_commutative(f, p);
    vstd::arithmetic::mul::lemma_mul_basics(p);
}


/// The energy a flow produces through a turbine of the given working
/// head: the exact counterpart of [`inverse_hydropower_spec`].
pub open spec fn forward_hydropower_spec(
    flow: i64,
    head: int,
    density: i64,
    efficiency: i64,
    flow_conv: i64,
    energy_conv: i64,
) -> int {
    div_trunc(
        (flow as int) * head * (density as int) * (GRAVITY_CENTI as int) * (efficiency as int)
            * (flow_conv as int) * (energy_conv as int),
        100_000_000_000_000_000_000,
    )
}

/// Whether the fixed-point evaluation of [`forward_hydropower_spec`] fits
/// the machine.
pub open spec fn forward_hydropower_fits(
    flow: i64,
    head: int,
    density: i64,
    efficiency: i64,
    flow_conv: i64,
    energy_conv: i64,
) -> bool {
    let num = (flow as int) * head * (density as int) * (GRAVITY_CENTI as int)
        * (efficiency as int) * (flow_conv as int) * (energy_conv as int);
    &&& (if num < 0 { -num } else { num }) <= u128::MAX
    &&& i64::MIN <= forward_hydropower_spec(flow, head, density, efficiency, flow_conv,
        energy_conv) <= i64::MAX
}

/// The fixed-point power computation itself; `None` exactly when it does
/// not fit the machine.
pub fn forward_hydropower(
    flow: i64,
    head: i128,
    density: i64,
    efficiency: i64,
    flow_conv: i64,
    energy_conv: i64,
) -> (r: Option<i64>)
    requires
        0 <= head <= u64::MAX,
        density >= 1,
        efficiency >= 1,
        flow_conv >= 1,
        energy_conv >= 1,
    ensures
        forward_hydropower_fits(flow, head as int, density, efficiency, flow_conv,
            energy_conv) ==> r == Some(
            forward_hydropower_spec(flow, head as int, density, efficiency, flow_conv,
                energy_conv) as i64,
        ),
        !forward_hydropower_fits(flow, head as int, density, efficiency, flow_conv,
            energy_conv) ==> r is None,
{
    let ghost s1 = (flow as int) * (head as int);
    let ghost s2 = s1 * (density as int);
    let ghost s3 = s2 * (GRAVITY_CENTI as int);
    let ghost s4 = s3 * (efficiency as int);
    let ghost s5 = s4 * (flow_conv as int);
    let ghost s6 = s5 * (energy_conv as int);
    let ghost a1 = if s1 < 0 { -s1 } else { s1 };
    let ghost a2 = if s2 < 0 { -s2 } else { s2 };
    let ghost a3 = if s3 < 0 { -s3 } else { s3 };
    let ghost a4 = if s4 < 0 { -s4 } else { s4 };
    let ghost a5 = if s5 < 0 { -s5 } else { s5 };
    let ghost a6 = if s6 < 0 { -s6 } else { s6 };
    let neg = flow < 0;
    let fabs: u128 = if neg {
        (-(flow as i128)) as u128
    } else {
        flow as u128
    };
    proof {
        lemma_abs_product_general(flow as int, head as int);
        lemma_abs_product_general(s1, density as int);
        lemma_abs_product_general(s2, GRAVITY_CENTI as int);
        lemma_abs_product_general(s3, efficiency as int);
        lemma_abs_product_general(s4, flow_conv as int);
        lemma_abs_product_general(s5, energy_conv as int);
        vstd::arithmetic::mul::lemma_mul_upper_bound(fabs as int, u64::MAX as int,
            head as int, u64::MAX as int);
    }
    let n1: u128 = fabs * (head as u128);
    let n2: u128 = match n1.checked_mul(density as u128) {
        Some(v) => v,
        None => {
            proof {
                lemma_num_overflow(a2, GRAVITY_CENTI as int, efficiency as int,
                    flow_conv as int, energy_conv as int);
            }
            return None;
        },
    };
    let n3: u128 = match n2.checked_mul(GRAVITY_CENTI as u128) {
        Some(v) => v,
        None => {
            proof {
                lemma_num_overflow(a3, efficiency as int, flow_conv as int,
                    energy_conv as int, 1);
            }
            return None;
        },
    };
    let n4: u128 = match n3.checked_mul(efficiency as u128) {
        Some(v) => v,
        None => {
            proof {
                lemma_num_overflow(a4, flow_conv as int, energy_conv as int, 1, 1);
            }
            return None;
        },
    };
    let n5: u128 = match n4.checked_mul(flow_conv as u128) {
        Some(v) => v,
        None => {
            proof {
                lemma_num_overflow(a5, energy_conv as int, 1, 1, 1);
            }
            return None;
        },
    };
    let num: u128 = match n5.checked_mul(energy_conv as u128) {
        Some(v) => v,
        None => {
            return None;
        },
    };
    let den: u128 = 100_000_000_000_000_000_000;
    let qabs: u128 = num / den;
    proof {
        vstd::arithmetic::div_mod::lemma_div_pos_is_pos(num as int, den as int);
        assert(a6 == num);
        assert(forward_hydropower_spec(flow, head as int, density, efficiency, flow_conv,
            energy_conv) == if s6 < 0 { -(qabs as int) } else { qabs as int });
    }
    if neg && head > 0 {
        if qabs > 9_223_372_036_854_775_808u128 {
            return None;
        }
        Some((-(qabs as i128)) as i64)
    } else {
        proof {
            if head == 0 {
                vstd::arithmetic::mul::lemma_mul_basics(flow as int);
                assert(s1 == 0);
                vstd::arithmetic::mul::lemma_mul_basics(density as int);
                vstd::arithmetic::mul::lemma_mul_basics(GRAVITY_CENTI as int);
                vstd::arithmetic::mul::lemma_mul_basics(efficiency as int);
                vstd::arithmetic::mul::lemma_mul_basics(flow_conv as int);
                vstd::arithmetic::mul::lemma_mul_basics(energy_conv as int);
                assert(s6 == 0);
            }
        }
        if qabs > i64::MAX as u128 {
            return None;
        }
        Some(qabs as i64)
    }
}

/// The magnitude of a product with a non-negative factor.
proof fn lemma_abs_product_general(a: int, b: int)
    requires
        b >= 0,
    ensures
        (if a * b < 0 { -(a * b) } else { a * b }) == (if a < 0 { -a } else { a }) * b,
        a * b < 0 ==> a < 0,
        b > 0 ==> ((a * b < 0) <==> a < 0),
{
    if a < 0 {
        vstd::arithmetic::mul::lemma_mul_unary_negation(a, b);
        vstd::arithmetic::mul::lemma_mul_nonnegative(-a, b);
        if b > 0 {
            vstd::arithmetic::mul::lemma_mul_strictly_positive(-a, b);
        }
    } else {
        vstd::arithmetic::mul::lemma_mul_nonnegative(a, b);
    }
}

/// A magnitude beyond the representable range stays beyond it when
/// multiplied by factors of at least one.
proof fn lemma_num_overflow(a: int, f1: int, f2: int, f3: int, f4: int)
    requires
        a > u128::MAX,
        f1 >= 1,
        f2 >= 1,
        f3 >= 1,
        f4 >= 1,
    ensures
        a * f1 * f2 * f3 * f4 > u128::MAX,
{
    lemma_mul_ge_one(a, f1);
    lemma_mul_ge_one(a * f1, f2);
    lemma_mul_ge_one(a * f1 * f2, f3);
    lemma_mul_ge_one(a * f1 * f2 * f3, f4);
}

} // verus!
