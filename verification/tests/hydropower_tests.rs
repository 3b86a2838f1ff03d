use pywr_core::errors::EvalError;
use pywr_core::hydropower::{HydropowerTargetParameter, TurbineData};
use pywr_core::metric::Metric;
use pywr_core::state::State;
use pywr_core::RATIO_SCALE;

fn turbine(target: i64, water_elevation: i64, min_head: i64) -> HydropowerTargetParameter {
    HydropowerTargetParameter::new(
        "turbine",
        TurbineData {
            target: Metric::Constant(target),
            elevation: Some(0),
            min_head: Some(min_head),
            max_flow: None,
            min_flow: None,
            efficiency: Some(RATIO_SCALE),
            water_elevation: Some(Metric::Constant(water_elevation)),
            water_density: Some(1000),
            flow_unit_conversion: Some(RATIO_SCALE),
            energy_unit_conversion: Some(1),
        },
    )
}

/// A power target of 981 through a head of 10 with unit conversions
/// inverts to a flow of exactly 10000:
/// q = P / (rho * g * H * eta) with g scaled as 9.81.
#[test]
fn inversion_is_exact() {
    let state = State::new(0, 0, 0, 0, 0);
    let p = turbine(981, 10, 0);
    assert_eq!(p.compute(&state, 0).unwrap(), 10_000);
}

/// Below the configured minimum head the output flow is exactly zero,
/// whatever the target.
#[test]
fn head_below_minimum_gives_zero_flow() {
    let state = State::new(0, 0, 0, 0, 0);
    let p = turbine(981, 5, 10);
    assert_eq!(p.compute(&state, 0).unwrap(), 0);
    let q = turbine(i64::MAX, 5, 10);
    assert_eq!(q.compute(&state, 0).unwrap(), 0);
}

/// A negative computed flow is reported as an error, never clamped.
#[test]
fn negative_flow_is_an_error() {
    let state = State::new(0, 0, 0, 0, 0);
    let p = turbine(-981, 10, 0);
    assert!(matches!(
        p.compute(&state, 7),
        Err(EvalError::InternalParameterError { parameter: 7 })
    ));
}

/// An overly strict maximum bound can force the flow negative, which is
/// likewise an error.
#[test]
fn negative_flow_from_bounding_is_an_error() {
    let state = State::new(0, 0, 0, 0, 0);
    let mut p = turbine(981, 10, 0);
    p.max_flow = Some(Metric::Constant(-5));
    assert!(matches!(
        p.compute(&state, 0),
        Err(EvalError::InternalParameterError { parameter: 0 })
    ));
}

/// A zero head at a zero minimum is a domain error of the parameter.
#[test]
fn zero_head_is_a_domain_error() {
    let state = State::new(0, 0, 0, 0, 0);
    let p = turbine(981, 0, 0);
    assert!(matches!(
        p.compute(&state, 3),
        Err(EvalError::InternalParameterError { parameter: 3 })
    ));
}
