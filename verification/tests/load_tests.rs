use pywr_core::errors::{LoadError, RecorderError};
use pywr_core::metric::Metric;
use pywr_core::network::{Network, NodeKind, StorageInitialVolume};
use pywr_core::parameter::Parameter;
use pywr_core::parameters::MaxParameter;
use pywr_core::recorder::MemoryRecorder;
use pywr_core::state::State;
use pywr_core::timestep::Date;

#[test]
fn storage_without_initial_volume_is_rejected() {
    let mut network = Network::new();
    match network.add_storage_node("tank", None, None, None, Some(100)) {
        Err(LoadError::MissingInitialVolume(name)) => assert_eq!(name, "tank"),
        _ => panic!("expected a missing-initial-volume error"),
    }
}

#[test]
fn proportional_initial_volume_needs_a_maximum() {
    let mut network = Network::new();
    match network.add_storage_node(
        "tank",
        None,
        Some(StorageInitialVolume::Proportional(500_000)),
        None,
        None,
    ) {
        Err(LoadError::MissingInitialVolume(name)) => assert_eq!(name, "tank"),
        _ => panic!("expected a missing-initial-volume error"),
    }
}

#[test]
fn virtual_storage_factor_lengths_must_match() {
    let mut network = Network::new();
    let a = network.add_node("a", None, NodeKind::Link);
    let b = network.add_node("b", None, NodeKind::Link);
    match network.add_virtual_storage(
        "group",
        vec![a, b],
        Some(vec![1_000_000]),
        Some(StorageInitialVolume::Absolute(0)),
        0,
        None,
        None,
    ) {
        Err(LoadError::DataLengthMismatch { expected, found }) => {
            assert_eq!(expected, 2);
            assert_eq!(found, 1);
        },
        _ => panic!("expected a length mismatch"),
    }
}

#[test]
fn reset_day_must_exist_in_every_year() {
    let mut network = Network::new();
    let a = network.add_node("a", None, NodeKind::Link);
    match network.add_virtual_storage(
        "group",
        vec![a],
        None,
        Some(StorageInitialVolume::Absolute(0)),
        0,
        None,
        Some(pywr_core::network::VirtualStorageReset {
            day: 29,
            month: 2,
            use_initial_volume: false,
        }),
    ) {
        Err(LoadError::InvalidResetDate { day, month }) => {
            assert_eq!((day, month), (29, 2));
        },
        _ => panic!("expected an invalid reset date"),
    }
}

#[test]
fn unknown_node_names_are_load_errors() {
    let mut network = Network::new();
    network.add_node("present", None, NodeKind::Link);
    match network.get_node_index_by_name("absent", None) {
        Err(LoadError::NodeNotFound(name)) => assert_eq!(name, "absent"),
        _ => panic!("expected node-not-found"),
    }
    // An edge to an absent endpoint names the endpoint that is missing.
    match network.add_edge("present", None, "absent", None) {
        Err(LoadError::NodeNotFound(name)) => assert_eq!(name, "absent"),
        _ => panic!("expected node-not-found"),
    }
    match network.add_edge("gone", None, "present", None) {
        Err(LoadError::NodeNotFound(name)) => assert_eq!(name, "gone"),
        _ => panic!("expected node-not-found"),
    }
    // The same name with a different sub-name is a different node.
    assert!(network.get_node_index_by_name("present", Some("sub")).is_err());
}

#[test]
fn virtual_storage_member_out_of_range_is_rejected() {
    let mut network = Network::new();
    network.add_node("a", None, NodeKind::Link);
    match network.add_virtual_storage(
        "group",
        vec![7],
        None,
        Some(StorageInitialVolume::Absolute(0)),
        0,
        None,
        None,
    ) {
        Err(LoadError::NodeNotFound(name)) => assert_eq!(name, "group"),
        _ => panic!("expected node-not-found"),
    }
}

#[test]
fn dangling_parameter_reference_fails_setup() {
    let mut network = Network::new();
    network.add_parameter(Parameter::Max(MaxParameter::new(
        "dangling",
        Metric::ParameterValue(5),
        0,
    )));
    match network.setup() {
        Err(LoadError::ParameterNotFound(name)) => assert_eq!(name, "dangling"),
        _ => panic!("expected parameter-not-found"),
    }
}

#[test]
fn dangling_node_reference_fails_setup() {
    let mut network = Network::new();
    network.add_node("only", None, NodeKind::Link);
    network.add_parameter(Parameter::Max(MaxParameter::new(
        "reads-missing-node",
        Metric::NodeInFlow(99),
        0,
    )));
    match network.setup() {
        Err(LoadError::NodeNotFound(name)) => assert_eq!(name, "reads-missing-node"),
        _ => panic!("expected node-not-found"),
    }
}

#[test]
fn dangling_node_bound_fails_setup() {
    let mut network = Network::new();
    network.add_node("only", None, NodeKind::Link);
    network
        .set_node_cost("only", None, Metric::ParameterValue(3))
        .unwrap();
    match network.setup() {
        Err(LoadError::NodeNotFound(name)) => assert_eq!(name, "only"),
        _ => panic!("expected node-not-found"),
    }
}

#[test]
fn recorder_must_be_set_up_before_use() {
    let mut recorder = MemoryRecorder::new("rec", vec![(
        Metric::Constant(1),
        ("a".to_owned(), None),
    )]);
    recorder.setup(1, 1);
    let state = State::new(0, 0, 0, 0, 0);
    recorder.save(0, 0, &state).unwrap();
    let data = recorder.finalise().unwrap();
    assert_eq!(data, vec![1]);
    // After finalising, the recorder is released.
    assert!(matches!(recorder.finalise(), Err(RecorderError::NotInitialised)));
}

#[test]
fn recorder_reports_unresolvable_metrics() {
    let mut recorder = MemoryRecorder::new("rec", vec![(
        Metric::ParameterValue(0),
        ("a".to_owned(), None),
    )]);
    recorder.setup(1, 1);
    let state = State::new(0, 0, 0, 0, 0);
    assert!(matches!(
        recorder.save(0, 0, &state),
        Err(RecorderError::MetricNotAvailable)
    ));
}

#[test]
fn calendar_dates_are_validated() {
    assert!(Date::new(2024, 2, 29).is_valid());
    assert!(!Date::new(2023, 2, 29).is_valid());
    assert!(!Date::new(1900, 2, 29).is_valid());
    assert!(Date::new(2000, 2, 29).is_valid());
    assert!(!Date::new(2000, 13, 1).is_valid());
    assert!(Date::new(2000, 12, 31).is_valid());
    let d = Date::new(2000, 12, 31).next_day();
    assert_eq!((d.year, d.month, d.day), (2001, 1, 1));
}
