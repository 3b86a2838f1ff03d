use pywr_core::control_curves::{ControlCurveParameter, PiecewiseInterpolatedParameter};
use pywr_core::metric::Metric;
use pywr_core::state::State;

fn empty_state() -> State {
    State::new(0, 0, 0, 0, 0)
}

/// Basic functional sweep of the piecewise interpolation: a driver value
/// falling from full (1.00, scaled by 1000) to empty in steps of 0.05
/// against curves at 0.8 and 0.5 mapping to the value pairs
/// [10, 1], [0, 0], [-1, -10] (scaled by 1000).
#[test]
fn test_basic() {
    let state = empty_state();
    let parameter = PiecewiseInterpolatedParameter::new(
        "test-parameter",
        Metric::Constant(0),
        vec![Metric::Constant(800), Metric::Constant(500)],
        vec![(10_000, 1_000), (0, 0), (-1_000, -10_000)],
        1_000,
        0,
    );
    let expected_values: [i64; 21] = [
        10_000,  // full
        7_750,   // 95%: 1 + 9*0.15/0.2
        5_500,   // 90%: 1 + 9*0.10/0.2
        3_250,   // 85%: 1 + 9*0.05/0.2
        0,       // 80%
        0,       // 75%
        0,       // 70%
        0,       // 65%
        0,       // 60%
        0,       // 55%
        -1_000,  // 50%
        -1_900,  // 45%: -1 - 9*0.05/0.5
        -2_800,  // 40%
        -3_700,  // 35%
        -4_600,  // 30%
        -5_500,  // 25%
        -6_400,  // 20%
        -7_300,  // 15%
        -8_200,  // 10%
        -9_100,  // 05%
        -10_000, // 00%
    ];
    for (step, expected) in expected_values.iter().enumerate() {
        let x = 1_000 - 50 * step as i64;
        let mut p = parameter.clone();
        p.metric = Metric::Constant(x);
        let got = p.compute(&state).unwrap();
        assert_eq!(got, *expected, "driver value {}", x);
    }
}

/// A driving value exactly on a curve threshold takes that curve's band
/// in the plain control-curve parameter: the comparison is inclusive.
#[test]
fn control_curve_tie_break_is_inclusive() {
    let state = empty_state();
    let p = ControlCurveParameter::new(
        "cc",
        Metric::Constant(800),
        vec![Metric::Constant(800), Metric::Constant(500)],
        vec![Metric::Constant(30), Metric::Constant(20), Metric::Constant(10)],
    );
    // x == 800 selects the first band's value, not the next lower one.
    assert_eq!(p.compute(&state).unwrap(), 30);

    let mut below = p.clone();
    below.metric = Metric::Constant(799);
    assert_eq!(below.compute(&state).unwrap(), 20);

    let mut bottom = p.clone();
    bottom.metric = Metric::Constant(499);
    assert_eq!(bottom.compute(&state).unwrap(), 10);
}

/// The strict piecewise variant, by contrast, passes a value exactly on
/// the threshold to the band below.
#[test]
fn piecewise_boundary_goes_to_band_below() {
    let state = empty_state();
    let p = PiecewiseInterpolatedParameter::new(
        "pw",
        Metric::Constant(800),
        vec![Metric::Constant(800), Metric::Constant(500)],
        vec![(10_000, 1_000), (1_000, 0), (-1_000, -10_000)],
        1_000,
        0,
    );
    // x == 800 is not strictly above the first curve, so the second band
    // applies; at its upper bound it returns the band's upper value,
    // which chains continuously with the first band's lower value.
    assert_eq!(p.compute(&state).unwrap(), 1_000);
}

#[test]
fn control_curve_without_values_is_out_of_range() {
    let state = empty_state();
    let p = ControlCurveParameter::new("cc", Metric::Constant(1), vec![], vec![]);
    assert!(matches!(
        p.compute(&state),
        Err(pywr_core::errors::EvalError::DataOutOfRange)
    ));
}

#[test]
fn control_curve_unresolved_metric_fails() {
    let state = empty_state();
    let p = ControlCurveParameter::new(
        "cc",
        Metric::ParameterValue(0),
        vec![],
        vec![Metric::Constant(1)],
    );
    assert!(matches!(
        p.compute(&state),
        Err(pywr_core::errors::EvalError::MetricNotAvailable)
    ));
}
