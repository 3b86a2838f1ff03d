use pywr_core::errors::EvalError;
use pywr_core::interpolated::InterpolatedParameter;
use pywr_core::metric::Metric;
use pywr_core::parameters::{
    AggFunc, AggregatedParameter, DelayParameter, DivisionParameter, MaxParameter,
    MinParameter, NegativeMaxParameter, NegativeMinParameter, NegativeParameter,
};
use pywr_core::state::{ParameterMemory, State};

fn empty_state() -> State {
    State::new(0, 0, 0, 0, 0)
}

fn consts(values: &[i64]) -> Vec<Metric> {
    values.iter().map(|v| Metric::Constant(*v)).collect()
}

#[test]
fn aggregation_functions_compute_exactly() {
    let state = empty_state();
    let cases: [(AggFunc, i64); 5] = [
        (AggFunc::Sum, 60),
        (AggFunc::Product, 6000),
        (AggFunc::Mean, 20),
        (AggFunc::Min, 10),
        (AggFunc::Max, 30),
    ];
    for (f, expected) in cases {
        let p = AggregatedParameter::new("agg", consts(&[10, 20, 30]), f);
        assert_eq!(p.compute(&state).unwrap(), expected);
    }
}

#[test]
fn aggregation_mean_truncates_toward_zero() {
    let state = empty_state();
    let p = AggregatedParameter::new("agg", consts(&[-3, -4]), AggFunc::Mean);
    assert_eq!(p.compute(&state).unwrap(), -3);
}

#[test]
fn aggregation_over_nothing() {
    let state = empty_state();
    let mean = AggregatedParameter::new("agg", Vec::new(), AggFunc::Mean);
    assert!(matches!(mean.compute(&state), Err(EvalError::DataOutOfRange)));
    // The extremal folds start from the representable extremes.
    let max = AggregatedParameter::new("agg", Vec::new(), AggFunc::Max);
    assert_eq!(max.compute(&state).unwrap(), i64::MIN);
    let sum = AggregatedParameter::new("agg", Vec::new(), AggFunc::Sum);
    assert_eq!(sum.compute(&state).unwrap(), 0);
}

#[test]
fn aggregation_sum_overflow_is_reported() {
    let state = empty_state();
    let p = AggregatedParameter::new("agg", consts(&[i64::MAX, 1]), AggFunc::Sum);
    assert!(matches!(p.compute(&state), Err(EvalError::ValueOverflow)));
}

#[test]
fn agg_func_from_str() {
    assert!(matches!(AggFunc::from_str("sum"), Ok(AggFunc::Sum)));
    assert!(matches!(AggFunc::from_str("product"), Ok(AggFunc::Product)));
    assert!(matches!(AggFunc::from_str("mean"), Ok(AggFunc::Mean)));
    assert!(matches!(AggFunc::from_str("min"), Ok(AggFunc::Min)));
    assert!(matches!(AggFunc::from_str("max"), Ok(AggFunc::Max)));
    match AggFunc::from_str("median") {
        Err(pywr_core::errors::LoadError::InvalidAggregationFunction(name)) => {
            assert_eq!(name, "median");
        },
        _ => panic!("expected an invalid-aggregation error"),
    }
}

#[test]
fn threshold_parameters() {
    let state = empty_state();
    assert_eq!(
        MinParameter::new("m", Metric::Constant(7), 5).compute(&state).unwrap(),
        5
    );
    assert_eq!(
        MaxParameter::new("m", Metric::Constant(7), 5).compute(&state).unwrap(),
        7
    );
    assert_eq!(
        NegativeParameter::new("n", Metric::Constant(7)).compute(&state).unwrap(),
        -7
    );
    assert_eq!(
        NegativeMaxParameter::new("n", Metric::Constant(-3), 2).compute(&state).unwrap(),
        3
    );
    assert_eq!(
        NegativeMinParameter::new("n", Metric::Constant(-3), 2).compute(&state).unwrap(),
        2
    );
}

#[test]
fn negation_of_smallest_value_overflows() {
    let state = empty_state();
    let p = NegativeParameter::new("n", Metric::Constant(i64::MIN));
    assert!(matches!(p.compute(&state), Err(EvalError::ValueOverflow)));
}

#[test]
fn division_truncates_and_rejects_zero() {
    let state = empty_state();
    let p = DivisionParameter::new("d", Metric::Constant(-7), Metric::Constant(2));
    assert_eq!(p.compute(&state, 0).unwrap(), -3);
    let z = DivisionParameter::new("d", Metric::Constant(1), Metric::Constant(0));
    assert!(matches!(
        z.compute(&state, 4),
        Err(EvalError::InternalParameterError { parameter: 4 })
    ));
    let ovf = DivisionParameter::new("d", Metric::Constant(i64::MIN), Metric::Constant(-1));
    assert!(matches!(ovf.compute(&state, 0), Err(EvalError::ValueOverflow)));
}

#[test]
fn delay_returns_values_observed_earlier() {
    let state = empty_state();
    let p = DelayParameter::new("delay", Metric::Constant(0), 3, -1);
    let mut memory = ParameterMemory::Empty;
    // While the buffer fills, the initial value comes out.
    let mut observed = Vec::new();
    for step in 0..6 {
        let mut q = p.clone();
        q.metric = Metric::Constant(100 + step);
        observed.push(q.compute(&state, &mut memory).unwrap());
    }
    assert_eq!(observed, vec![-1, -1, -1, 100, 101, 102]);
}

#[test]
fn delay_of_zero_passes_through() {
    let state = empty_state();
    let p = DelayParameter::new("delay", Metric::Constant(42), 0, -1);
    let mut memory = ParameterMemory::Empty;
    assert_eq!(p.compute(&state, &mut memory).unwrap(), 42);
    assert!(matches!(memory, ParameterMemory::Empty));
}

#[test]
fn interpolated_lookup_table() {
    let state = empty_state();
    let p = InterpolatedParameter::new(
        "interp",
        Metric::Constant(15),
        consts(&[0, 10, 20]),
        consts(&[0, 100, 400]),
        true,
    )
    .unwrap();
    assert_eq!(p.compute(&state).unwrap(), 250);

    let mut at_point = p.clone();
    at_point.x = Metric::Constant(10);
    assert_eq!(at_point.compute(&state).unwrap(), 100);

    let mut above = p.clone();
    above.x = Metric::Constant(25);
    assert!(matches!(above.compute(&state), Err(EvalError::DataOutOfRange)));

    let mut below = p.clone();
    below.x = Metric::Constant(-5);
    assert!(matches!(below.compute(&state), Err(EvalError::DataOutOfRange)));
}

#[test]
fn interpolated_clamps_when_bounds_allowed() {
    let state = empty_state();
    let p = InterpolatedParameter::new(
        "interp",
        Metric::Constant(25),
        consts(&[0, 10, 20]),
        consts(&[0, 100, 400]),
        false,
    )
    .unwrap();
    assert_eq!(p.compute(&state).unwrap(), 400);
}

#[test]
fn interpolated_length_mismatch_is_rejected() {
    match InterpolatedParameter::new(
        "interp",
        Metric::Constant(0),
        consts(&[0, 10]),
        consts(&[0]),
        true,
    ) {
        Err(pywr_core::errors::LoadError::DataLengthMismatch { expected, found }) => {
            assert_eq!(expected, 2);
            assert_eq!(found, 1);
        },
        _ => panic!("expected a length mismatch"),
    }
}
