use pywr_core::errors::LoadError;
use pywr_core::evaluator::{compute_evaluation_order, evaluate_all};
use pywr_core::metric::Metric;
use pywr_core::parameter::Parameter;
use pywr_core::parameters::{AggFunc, AggregatedParameter, ConstantParameter, MaxParameter};
use pywr_core::state::State;

/// A mutual reference between two parameters is reported as a circular
/// reference listing both names; the check is iterative and returns
/// rather than recursing without bound.
#[test]
fn mutual_reference_is_circular() {
    let params = vec![
        Parameter::Max(MaxParameter::new("p-one", Metric::ParameterValue(1), 0)),
        Parameter::Max(MaxParameter::new("p-two", Metric::ParameterValue(0), 0)),
    ];
    match compute_evaluation_order(&params) {
        Err(LoadError::CircularParameterReference(names)) => {
            assert_eq!(names.len(), 2);
            assert!(names.contains(&"p-one".to_owned()));
            assert!(names.contains(&"p-two".to_owned()));
        },
        _ => panic!("expected a circular-reference error"),
    }
}

/// A self-referencing parameter is itself a cycle.
#[test]
fn self_reference_is_circular() {
    let params = vec![
        Parameter::Max(MaxParameter::new("selfish", Metric::ParameterValue(0), 0)),
    ];
    match compute_evaluation_order(&params) {
        Err(LoadError::CircularParameterReference(names)) => {
            assert_eq!(names, vec!["selfish".to_owned()]);
        },
        _ => panic!("expected a circular-reference error"),
    }
}

/// An acyclic graph orders dependencies before their readers, and the
/// evaluator computes every parameter exactly once in that order.
#[test]
fn chain_evaluates_in_dependency_order() {
    // p0 reads p2, p2 reads p1, p1 is constant.
    let params = vec![
        Parameter::Max(MaxParameter::new("top", Metric::ParameterValue(2), 0)),
        Parameter::Constant(ConstantParameter::new("base", 5)),
        Parameter::Aggregated(AggregatedParameter::new(
            "middle",
            vec![Metric::ParameterValue(1), Metric::Constant(2)],
            AggFunc::Sum,
        )),
    ];
    let order = compute_evaluation_order(&params).unwrap();
    let pos = |x: usize| order.iter().position(|v| *v == x).unwrap();
    assert!(pos(1) < pos(2));
    assert!(pos(2) < pos(0));

    let mut state = State::new(0, 0, 0, params.len(), 0);
    evaluate_all(&params, &order, &mut state).unwrap();
    assert_eq!(state.parameter_values[1], Some(5));
    assert_eq!(state.parameter_values[2], Some(7));
    assert_eq!(state.parameter_values[0], Some(7));
}

/// A failing computation aborts evaluation: parameters after the failing
/// one in the order stay uncomputed.
#[test]
fn evaluation_stops_at_first_failure() {
    let params = vec![
        Parameter::Aggregated(AggregatedParameter::new(
            "bad",
            vec![Metric::Constant(i64::MAX), Metric::Constant(1)],
            AggFunc::Sum,
        )),
        Parameter::Max(MaxParameter::new("after", Metric::ParameterValue(0), 0)),
    ];
    let order = compute_evaluation_order(&params).unwrap();
    let mut state = State::new(0, 0, 0, params.len(), 0);
    let r = evaluate_all(&params, &order, &mut state);
    assert!(matches!(r, Err(pywr_core::errors::EvalError::ValueOverflow)));
    assert_eq!(state.parameter_values[0], None);
    assert_eq!(state.parameter_values[1], None);
}
