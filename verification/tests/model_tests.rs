use pywr_core::driver::run;
use pywr_core::errors::{RunError, SolveError};
use pywr_core::metric::Metric;
use pywr_core::network::{Network, NodeKind, StorageInitialVolume, VirtualStorageReset};
use pywr_core::parameter::Parameter;
use pywr_core::parameters::DelayParameter;
use pywr_core::recorder::MemoryRecorder;
use pywr_core::scenario::ScenarioGroupCollection;
use pywr_core::solve::SolverProblem;
use pywr_core::timestep::{Date, Timestepper};

/// A solver good enough for chain networks: each edge carries the larger
/// of its endpoints' minimum flows.
fn greedy_solver(edges: Vec<(usize, usize)>) -> impl Fn(SolverProblem) -> Option<Vec<i64>> {
    move |problem: SolverProblem| {
        let mut flows = Vec::new();
        for (from, to) in &edges {
            let lo_from = problem.constraints[*from].min_flow;
            let lo_to = problem.constraints[*to].min_flow;
            flows.push(lo_from.max(lo_to));
        }
        Some(flows)
    }
}

/// A river reach with three days of travel time: flow entering the reach
/// reappears at its downstream end three timesteps later.
#[test]
fn test_model_run() {
    let mut network = Network::new();
    let inflow = network.add_node("inflow", None, NodeKind::Input);
    let reach_in = network.add_node("link1", Some("inflow"), NodeKind::Output);
    let reach_out = network.add_node("link1", Some("outflow"), NodeKind::Input);
    let _outflow = network.add_node("outflow", None, NodeKind::Output);
    network.add_edge("inflow", None, "link1", Some("inflow")).unwrap();
    network.add_edge("link1", Some("outflow"), "outflow", None).unwrap();
    assert_eq!(network.nodes.len(), 4);
    assert_eq!(network.edges.len(), 2);

    // The upstream inflow is a fixed 15 per day.
    network.set_node_min_flow("inflow", None, Metric::Constant(15)).unwrap();
    network.set_node_max_flow("inflow", None, Metric::Constant(15)).unwrap();

    // Flow leaving the reach equals the flow that reached its head three
    // days earlier: one day of lag in the metric plus a two-slot buffer.
    let delay_idx = network.add_parameter(Parameter::Delay(DelayParameter::new(
        "link1-delay",
        Metric::NodeInFlow(reach_in),
        2,
        0,
    )));
    let delayed = Metric::ParameterValue(delay_idx);
    network.set_node_min_flow("link1", Some("outflow"), delayed).unwrap();
    network.set_node_max_flow("link1", Some("outflow"), delayed).unwrap();
    network.setup().unwrap();

    let timesteps = Timestepper::new(Date::new(2000, 1, 1), 366).timesteps();
    let scenarios = ScenarioGroupCollection { groups: Vec::new() }.scenario_indices();
    let mut recorder = MemoryRecorder::new(
        "flows",
        vec![
            (Metric::NodeInFlow(reach_in), ("link1".to_owned(), Some("inflow".to_owned()))),
            (
                Metric::NodeOutFlow(reach_out),
                ("link1".to_owned(), Some("outflow".to_owned())),
            ),
        ],
    );
    let solver = greedy_solver(vec![(inflow, reach_in), (reach_out, _outflow)]);
    let states = run(&network, &timesteps, &scenarios, &solver, &mut recorder).unwrap();
    assert_eq!(states.len(), 1);

    let data = recorder.finalise().unwrap();
    // Two metrics, one scenario: cells are [t*2 + metric].
    let expected_inflow = vec![15i64; 366];
    let inflow_series: Vec<i64> = (0..366).map(|t| data[t * 2]).collect();
    assert_eq!(inflow_series, expected_inflow);

    let mut expected_outflow = vec![0i64; 3];
    expected_outflow.extend(vec![15i64; 363]);
    let outflow_series: Vec<i64> = (0..366).map(|t| data[t * 2 + 1]).collect();
    assert_eq!(outflow_series, expected_outflow);
}

fn virtual_storage_network(use_initial_volume: bool) -> (Network, usize, usize) {
    let mut network = Network::new();
    let source = network.add_node("source", None, NodeKind::Input);
    let sink = network.add_node("sink", None, NodeKind::Output);
    network.add_edge("source", None, "sink", None).unwrap();
    network.set_node_min_flow("source", None, Metric::Constant(5)).unwrap();
    network.set_node_max_flow("source", None, Metric::Constant(5)).unwrap();
    network
        .add_virtual_storage(
            "licence",
            vec![source],
            None,
            Some(StorageInitialVolume::Absolute(100)),
            0,
            Some(1_000_000),
            Some(VirtualStorageReset { day: 1, month: 1, use_initial_volume }),
        )
        .unwrap();
    network.setup().unwrap();
    (network, source, sink)
}

/// A virtual storage with a reset date and `use_initial_volume` set shows
/// its volume back at the configured initial value on the first timestep
/// at the turn of the year, independent of what had accumulated, and then
/// resumes accumulating.
#[test]
fn virtual_storage_resets_to_initial_volume() {
    let (network, source, sink) = virtual_storage_network(true);
    let timesteps = Timestepper::new(Date::new(2020, 12, 29), 6).timesteps();
    let scenarios = ScenarioGroupCollection { groups: Vec::new() }.scenario_indices();
    let mut recorder = MemoryRecorder::new("none", vec![]);
    let solver = greedy_solver(vec![(source, sink)]);
    let states = run(&network, &timesteps, &scenarios, &solver, &mut recorder).unwrap();
    // Three days accumulate 15; the reset on the 1st of January restores
    // 100 before that day's 5 accumulates, and two more days follow.
    assert_eq!(states[0].virtual_storage_volume[0], 115);
}

/// Without `use_initial_volume` the same reset clears the accumulation to
/// zero instead.
#[test]
fn virtual_storage_resets_to_zero_accumulation() {
    let (network, source, sink) = virtual_storage_network(false);
    let timesteps = Timestepper::new(Date::new(2020, 12, 29), 6).timesteps();
    let scenarios = ScenarioGroupCollection { groups: Vec::new() }.scenario_indices();
    let mut recorder = MemoryRecorder::new("none", vec![]);
    let solver = greedy_solver(vec![(source, sink)]);
    let states = run(&network, &timesteps, &scenarios, &solver, &mut recorder).unwrap();
    assert_eq!(states[0].virtual_storage_volume[0], 15);
}

/// An assignment that violates a bound is rejected as infeasible for the
/// timestep and scenario it arose in; nothing is silently clamped.
#[test]
fn infeasible_assignment_aborts_the_run() {
    let mut network = Network::new();
    let source = network.add_node("source", None, NodeKind::Input);
    let sink = network.add_node("sink", None, NodeKind::Output);
    network.add_edge("source", None, "sink", None).unwrap();
    network.set_node_min_flow("source", None, Metric::Constant(10)).unwrap();
    network.set_node_max_flow("source", None, Metric::Constant(5)).unwrap();
    network.setup().unwrap();

    let timesteps = Timestepper::new(Date::new(2000, 1, 1), 2).timesteps();
    let scenarios = ScenarioGroupCollection { groups: Vec::new() }.scenario_indices();
    let mut recorder = MemoryRecorder::new("none", vec![]);
    let solver = greedy_solver(vec![(source, sink)]);
    match run(&network, &timesteps, &scenarios, &solver, &mut recorder) {
        Err(RunError::Solve(SolveError::Infeasible { timestep, scenario })) => {
            assert_eq!(timestep, 0);
            assert_eq!(scenario, 0);
        },
        _ => panic!("expected an infeasible solve"),
    }
}

/// A storage node buffers the difference between its inflow and a firm
/// downstream demand.
#[test]
fn storage_volume_advances_by_net_flow() {
    let mut network = Network::new();
    let source = network.add_node("source", None, NodeKind::Input);
    let _store = network
        .add_storage_node(
            "reservoir",
            None,
            Some(StorageInitialVolume::Absolute(50)),
            Some(0),
            Some(1000),
        )
        .unwrap();
    let sink = network.add_node("demand", None, NodeKind::Output);
    network.add_edge("source", None, "reservoir", None).unwrap();
    network.add_edge("reservoir", None, "demand", None).unwrap();
    network.set_node_min_flow("source", None, Metric::Constant(3)).unwrap();
    network.set_node_max_flow("source", None, Metric::Constant(3)).unwrap();
    network.set_node_min_flow("demand", None, Metric::Constant(8)).unwrap();
    network.setup().unwrap();

    let timesteps = Timestepper::new(Date::new(2000, 1, 1), 4).timesteps();
    let scenarios = ScenarioGroupCollection { groups: Vec::new() }.scenario_indices();
    let mut recorder = MemoryRecorder::new("none", vec![]);
    let solver = greedy_solver(vec![(source, 1), (1, sink)]);
    let states = run(&network, &timesteps, &scenarios, &solver, &mut recorder).unwrap();
    // Each day 3 comes in and 8 goes out: the volume drops by 5 a day.
    assert_eq!(states[0].storage_volume[1], 30);
}

/// A run over no timesteps succeeds without consulting the solver.
#[test]
fn empty_run_succeeds() {
    let mut network = Network::new();
    let source = network.add_node("source", None, NodeKind::Input);
    let sink = network.add_node("sink", None, NodeKind::Output);
    network.add_edge("source", None, "sink", None).unwrap();
    network.setup().unwrap();
    let timesteps = Timestepper::new(Date::new(2000, 1, 1), 0).timesteps();
    let scenarios = ScenarioGroupCollection { groups: Vec::new() }.scenario_indices();
    let mut recorder = MemoryRecorder::new("none", vec![]);
    let solver = greedy_solver(vec![(source, sink)]);
    let states = run(&network, &timesteps, &scenarios, &solver, &mut recorder).unwrap();
    assert_eq!(states.len(), 1);
}
