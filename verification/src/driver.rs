//! The scenario/timestep driver: each scenario owns one state and steps
//! through every timestep in order — evaluate parameters, apply virtual
//! storage resets, build constraints, solve, commit, refresh derived
//! metrics and record — aborting the whole run on the first failure with
//! its originating context.
//!
//! The solver itself is an opaque capability supplied by the caller: any
//! candidate assignment it returns is validated against the constraint
//! set before it is committed, so nothing is trusted about it.
//!
//! Parameters are evaluated before the solve, so a metric reading a
//! node's flow resolves to the flow committed on the *previous* timestep
//! (zero on the first); derived metrics are refreshed after the solve
//! and carry this timestep's flows. This one-step lag is part of the
//! step relation below.

use vstd::prelude::*;
use crate::errors::{EvalError, RunError};
use crate::evaluator::{evaluate_all, evaluated, evaluation_failed};
use crate::network::{Network, NodeKind, initial_volume_sane, initial_volume_spec};
use crate::recorder::{
    MemoryRecorder, lemma_cell_in_range, lemma_cell_triple_injective,
};
use crate::metric::{metric_ok, metric_value};
use crate::scenario::ScenarioIndex;
use crate::solve::{
    NodeConstraint, SolverProblem, apply_virtual_storage_resets, build_problem,
    commit_solution, committed, constraint_build_failed, constraints_built,
    derived_refresh_failed, derived_refreshed, resets_applied, sizes_within_machine,
    update_derived_metrics,
};
use crate::state::State;
use crate::timestep::{Date, Timestep, spec_date_le, valid_date};

verus! {

/// Every storage node carries a usable initial-volume policy.
pub open spec fn storages_initialised(network: Network) -> bool {
    forall|i: int| 0 <= i < network.nodes@.len()
        && (#[trigger] network.nodes@[i]).kind == NodeKind::Storage
        ==> network.nodes@[i].initial_volume is Some && initial_volume_sane(
            network.nodes@[i].initial_volume->0,
            network.nodes@[i].max_volume,
        )
}

/// A usable timestep sequence: real dates, non-decreasing, with headroom
/// for computing the following years' reset dates.
pub open spec fn timesteps_usable(timesteps: Seq<Timestep>) -> bool {
    &&& forall|t: int| 0 <= t < timesteps.len()
        ==> valid_date((#[trigger] timesteps[t]).date)
    &&& forall|t: int| 0 < t < timesteps.len()
        ==> spec_date_le(timesteps[t - 1].date, (#[trigger] timesteps[t]).date)
    &&& forall|t: int| 0 <= t < timesteps.len()
        ==> (#[trigger] timesteps[t]).date.year < i32::MAX - 2
}

/// Everything a fresh scenario state satisfies: zeroed flows, storages at
/// their configured initial volume, virtual storages empty with no reset
/// pending, no parameter computed, no memory held, no derived value
/// cached.
pub open spec fn is_initial_state(network: Network, s: State) -> bool {
    &&& s.shape(network.nodes@.len() as int, network.edges@.len() as int,
        network.virtual_storages@.len() as int, network.parameters@.len() as int,
        network.derived_metrics@.len() as int)
    &&& forall|i: int| 0 <= i < network.nodes@.len() ==> (#[trigger] s.node_in_flow@[i]) == 0
    &&& forall|i: int| 0 <= i < network.nodes@.len() ==> (#[trigger] s.node_out_flow@[i])
        == 0
    &&& forall|e: int| 0 <= e < network.edges@.len() ==> (#[trigger] s.edge_flow@[e]) == 0
    &&& forall|i: int| 0 <= i < network.nodes@.len() ==> (#[trigger] s.storage_volume@[i])
        == (if network.nodes@[i].kind == NodeKind::Storage {
            initial_volume_spec(network.nodes@[i].initial_volume->0,
                network.nodes@[i].max_volume)
        } else {
            0
        })
    &&& forall|v: int| 0 <= v < network.virtual_storages@.len()
        ==> (#[trigger] s.virtual_storage_volume@[v]) == 0
            && s.virtual_storage_next_reset@[v] is None
    &&& forall|p: int| 0 <= p < network.parameters@.len()
        ==> (#[trigger] s.parameter_values@[p]) is None && s.parameter_memory@[p] is Empty
    &&& forall|d: int| 0 <= d < network.derived_metrics@.len()
        ==> (#[trigger] s.derived_values@[d]) is None
}

/// A fresh per-scenario state: everything zero except storage volumes,
/// which start at their configured initial volume.
pub fn initial_state(network: &Network) -> (r: State)
    requires
        storages_initialised(*network),
    ensures
        is_initial_state(*network, r),
{
    let mut state = State::new(
        network.nodes.len(),
        network.edges.len(),
        network.virtual_storages.len(),
        network.parameters.len(),
        network.derived_metrics.len(),
    );
    let n = network.nodes.len();
    let mut i: usize = 0;
    while i < n
        invariant
            storages_initialised(*network),
            n == network.nodes@.len(),
            state.shape(n as int, network.edges@.len() as int,
                network.virtual_storages@.len() as int, network.parameters@.len() as int,
                network.derived_metrics@.len() as int),
            0 <= i <= n,
            forall|t: int| 0 <= t < n ==> (#[trigger] state.node_in_flow@[t]) == 0,
            forall|t: int| 0 <= t < n ==> (#[trigger] state.node_out_flow@[t]) == 0,
            forall|e: int| 0 <= e < network.edges@.len()
                ==> (#[trigger] state.edge_flow@[e]) == 0,
            forall|t: int| 0 <= t < i ==> (#[trigger] state.storage_volume@[t])
                == (if network.nodes@[t].kind == NodeKind::Storage {
                    initial_volume_spec(network.nodes@[t].initial_volume->0,
                        network.nodes@[t].max_volume)
                } else {
                    0
                }),
            forall|t: int| i <= t < n ==> (#[trigger] state.storage_volume@[t]) == 0,
            forall|v: int| 0 <= v < network.virtual_storages@.len()
                ==> (#[trigger] state.virtual_storage_volume@[v]) == 0
                    && state.virtual_storage_next_reset@[v] is None,
            forall|p: int| 0 <= p < network.parameters@.len()
                ==> (#[trigger] state.parameter_values@[p]) is None
                    && state.parameter_memory@[p] is Empty,
            forall|d: int| 0 <= d < network.derived_metrics@.len()
                ==> (#[trigger] state.derived_values@[d]) is None,
        decreases n - i,
    {
        if matches!(network.nodes[i].kind, NodeKind::Storage) {
            let node = &network.nodes[i];
            let vol: i64 = match node.initial_volume {
                Some(crate::network::StorageInitialVolume::Absolute(a)) => a,
                Some(crate::network::StorageInitialVolume::Proportional(p)) => {
                    let m = match node.max_volume {
                        Some(m) => m,
                        None => 0,
                    };
                    proof {
                        vstd::arithmetic::mul::lemma_mul_upper_bound(p as int,
                            crate::RATIO_SCALE as int, m as int, i64::MAX as int);
                        vstd::arithmetic::mul::lemma_mul_nonnegative(p as int, m as int);
                        crate::num::lemma_scaled_ratio_bounds(p as int, m as int);
                    }
                    let wide: u128 = (p as u128) * (m as u128);
                    (wide / (crate::RATIO_SCALE as u128)) as i64
                },
                None => 0,
            };
            state.storage_volume.set(i, vol);
        }
        i = i + 1;
    }
    state
}

/// One committed timestep, spelled out over its intermediate states:
/// parameters evaluate against the incoming state (so node-flow metrics
/// carry the previous step's flows), reset policies apply, a constraint
/// set is built, the flow assignment satisfies it and is committed, and
/// derived metrics refresh from the committed flows.
pub open spec fn step_witnesses(
    network: Network,
    date: Date,
    s0: State,
    s1: State,
    s_eval: State,
    s_reset: State,
    s_commit: State,
    c: Seq<NodeConstraint>,
    flows: Seq<i64>,
) -> bool {
    &&& evaluated(network.parameters@, network.eval_order@, s0, s_eval)
    &&& resets_applied(network, date, s_eval, s_reset)
    &&& constraints_built(network, s_reset, c)
    &&& committed(network, c, s_reset, s_commit, flows)
    &&& derived_refreshed(network, s_commit, s1)
}

/// One committed timestep at the given date.
pub open spec fn step_committed(network: Network, date: Date, s0: State, s1: State) -> bool {
    exists|s_eval: State, s_reset: State, s_commit: State, c: Seq<NodeConstraint>, flows:
        Seq<i64>| #[trigger] step_witnesses(network, date, s0, s1, s_eval, s_reset,
        s_commit, c, flows)
}

/// A constraint build that fails after a successful evaluation and reset
/// pass.
pub open spec fn build_fail_witnesses(
    network: Network,
    date: Date,
    s0: State,
    s_eval: State,
    s_reset: State,
    e: EvalError,
) -> bool {
    &&& evaluated(network.parameters@, network.eval_order@, s0, s_eval)
    &&& resets_applied(network, date, s_eval, s_reset)
    &&& constraint_build_failed(network, s_reset, e)
}

/// A derived-metric refresh that fails after a committed solve.
pub open spec fn refresh_fail_witnesses(
    network: Network,
    date: Date,
    s0: State,
    s_eval: State,
    s_reset: State,
    s_commit: State,
    c: Seq<NodeConstraint>,
    flows: Seq<i64>,
    e: EvalError,
) -> bool {
    &&& evaluated(network.parameters@, network.eval_order@, s0, s_eval)
    &&& resets_applied(network, date, s_eval, s_reset)
    &&& constraints_built(network, s_reset, c)
    &&& committed(network, c, s_reset, s_commit, flows)
    &&& derived_refresh_failed(network, s_commit, e)
}

/// A timestep that fails with an evaluation-layer error: the parameter
/// evaluation itself, the constraint build after it, or the derived
/// refresh after a commit fails with exactly this error.
pub open spec fn step_failed(network: Network, date: Date, s0: State, e: EvalError) -> bool {
    ||| exists|s1: State| #[trigger] evaluation_failed(network.parameters@,
        network.eval_order@, s0, s1, e)
    ||| exists|s_eval: State, s_reset: State| #[trigger] build_fail_witnesses(network, date,
        s0, s_eval, s_reset, e)
    ||| exists|s_eval: State, s_reset: State, s_commit: State, c: Seq<NodeConstraint>,
        flows: Seq<i64>| #[trigger] refresh_fail_witnesses(network, date, s0, s_eval,
        s_reset, s_commit, c, flows, e)
}

/// A chain of states through the first `k` timesteps: it starts at a
/// fresh scenario state and each link is one committed timestep.
pub open spec fn scenario_trace_prefix(
    network: Network,
    timesteps: Seq<Timestep>,
    k: int,
    trace: Seq<State>,
) -> bool {
    &&& trace.len() == k + 1
    &&& is_initial_state(network, trace[0])
    &&& forall|t: int| 0 <= t < k
        ==> #[trigger] step_committed(network, timesteps[t].date, trace[t], trace[t + 1])
}

/// The recorder cells of scenario `s` for the first `upto` timesteps
/// hold the metrics resolved in the states the chain committed there.
pub open spec fn cells_recorded(
    rec: MemoryRecorder,
    s: int,
    upto: int,
    trace: Seq<State>,
) -> bool {
    forall|t: int, m: int| 0 <= t < upto && 0 <= m < rec.metrics@.len()
        ==> #[trigger] metric_ok(rec.metrics@[m].0, trace[t + 1])
            && rec.data@[rec.cell(t, m, s)] == metric_value(rec.metrics@[m].0, trace[t + 1])
}

/// One full chain of committed timesteps ending at the scenario's final
/// state, with every recorder cell of the scenario holding its metric
/// resolved in the state committed at that timestep.
pub open spec fn trace_recorded(
    network: Network,
    timesteps: Seq<Timestep>,
    rec: MemoryRecorder,
    s: int,
    s_final: State,
    trace: Seq<State>,
) -> bool {
    &&& scenario_trace_prefix(network, timesteps, timesteps.len() as int, trace)
    &&& trace[timesteps.len() as int] == s_final
    &&& cells_recorded(rec, s, timesteps.len() as int, trace)
}

/// One scenario of a finished run.
pub open spec fn scenario_recorded(
    network: Network,
    timesteps: Seq<Timestep>,
    rec: MemoryRecorder,
    s: int,
    s_final: State,
) -> bool {
    exists|trace: Seq<State>| #[trigger] trace_recorded(network, timesteps, rec, s, s_final,
        trace)
}

/// A scenario already recorded stays recorded when later writes touch
/// only other scenarios' cells.
proof fn lemma_scenario_recording_persists(
    network: Network,
    timesteps: Seq<Timestep>,
    r1: MemoryRecorder,
    r2: MemoryRecorder,
    s: int,
    s_final: State,
)
    requires
        scenario_recorded(network, timesteps, r1, s, s_final),
        r2.metrics@ == r1.metrics@,
        r2.n_scenarios == r1.n_scenarios,
        forall|t: int, m: int| 0 <= t < timesteps.len() && 0 <= m < r1.metrics@.len()
            ==> r2.data@[#[trigger] r1.cell(t, m, s)] == r1.data@[r1.cell(t, m, s)],
    ensures
        scenario_recorded(network, timesteps, r2, s, s_final),
{
    let trace = choose|trace: Seq<State>| #[trigger] trace_recorded(network, timesteps, r1,
        s, s_final, trace);
    assert(cells_recorded(r2, s, timesteps.len() as int, trace)) by {
        assert forall|t: int, m: int| 0 <= t < timesteps.len() && 0 <= m < r2.metrics@.len()
            implies #[trigger] metric_ok(r2.metrics@[m].0, trace[t + 1])
                && r2.data@[r2.cell(t, m, s)] == metric_value(r2.metrics@[m].0,
                trace[t + 1]) by {
            assert(metric_ok(r1.metrics@[m].0, trace[t + 1]));
            assert(r2.cell(t, m, s) == r1.cell(t, m, s));
            assert(r2.data@[r1.cell(t, m, s)] == r1.data@[r1.cell(t, m, s)]);
        }
    }
    assert(trace_recorded(network, timesteps, r2, s, s_final, trace));
}

/// An explicit copy of a constraint set./// An explicit copy of a constraint set.
fn copy_constraints(c: &Vec<NodeConstraint>) -> (r: Vec<NodeConstraint>)
    ensures
        r@ == c@,
{
    let n = c.len();
    let mut out: Vec<NodeConstraint> = Vec::new();
    let mut i: usize = 0;
    while i < n
        invariant
            n == c@.len(),
            0 <= i <= n,
            out@ == c@.take(i as int),
        decreases n - i,
    {
        out.push(c[i]);
        proof {
            assert(out@ =~= c@.take(i as int + 1));
        }
        i = i + 1;
    }
    proof {
        assert(c@.take(n as int) =~= c@);
    }
    out
}

/// One timestep of one scenario, from the state the previous step left:
/// evaluate parameters, apply resets, build constraints, obtain a
/// candidate assignment from the solver, validate and commit it, and
/// refresh derived metrics.
fn run_timestep<F: Fn(SolverProblem) -> Option<Vec<i64>>>(
    network: &Network,
    date: Date,
    ts_index: usize,
    si: usize,
    solver: &F,
    state: &mut State,
) -> (r: Result<(), RunError>)
    requires
        network.well_formed(),
        sizes_within_machine(*network),
        forall|v: int| 0 <= v < network.virtual_storages@.len()
            ==> initial_volume_sane((#[trigger] network.virtual_storages@[v]).initial_volume,
                network.virtual_storages@[v].max_volume),
        old(state).shape(network.nodes@.len() as int, network.edges@.len() as int,
            network.virtual_storages@.len() as int, network.parameters@.len() as int,
            network.derived_metrics@.len() as int),
        forall|v: int| 0 <= v < network.virtual_storages@.len()
            && (#[trigger] old(state).virtual_storage_next_reset@[v]) is Some
            ==> old(state).virtual_storage_next_reset@[v]->0.year < i32::MAX - 1,
        date.year < i32::MAX - 2,
        forall|p: SolverProblem| solver.requires((p,)),
    ensures
        match r {
            Ok(()) => step_committed(*network, date, *old(state), *final(state))
                && final(state).shape(network.nodes@.len() as int,
                network.edges@.len() as int, network.virtual_storages@.len() as int,
                network.parameters@.len() as int, network.derived_metrics@.len() as int)
                && forall|v: int| 0 <= v < network.virtual_storages@.len()
                && (#[trigger] final(state).virtual_storage_next_reset@[v]) is Some
                ==> final(state).virtual_storage_next_reset@[v]->0.year < i32::MAX - 1,
            Err(e) => !(e is Load) && (e matches RunError::Eval { timestep, scenario, error }
                ==> timestep == ts_index && scenario == si
                    && step_failed(*network, date, *old(state), error)),
        },
{
    let ghost s_begin = *state;
    // Parameter evaluation in dependency order.
    match evaluate_all(&network.parameters, &network.eval_order, &mut *state) {
        Ok(()) => {},
        Err(e) => {
            proof {
                assert(evaluation_failed(network.parameters@, network.eval_order@, s_begin,
                    *state, e));
                assert(step_failed(*network, date, s_begin, e));
            }
            return Err(RunError::Eval { timestep: ts_index, scenario: si, error: e });
        },
    }
    let ghost s_eval = *state;
    // Reset transitions, before this timestep's accumulation.
    proof {
        assert forall|d: Date| (exists|v: int|
            0 <= v < state.virtual_storage_next_reset@.len()
            && state.virtual_storage_next_reset@[v] == Some(d))
            implies d.year < i32::MAX - 1 by {
            let v = choose|v: int| 0 <= v < state.virtual_storage_next_reset@.len()
                && state.virtual_storage_next_reset@[v] == Some(d);
            assert(state.virtual_storage_next_reset@[v] is Some);
        }
    }
    apply_virtual_storage_resets(network, &mut *state, date);
    let ghost s_reset = *state;
    // Constraints from the evaluated parameters.
    let constraints = match build_problem(network, state) {
        Ok(p) => p.constraints,
        Err(e) => {
            proof {
                assert(build_fail_witnesses(*network, date, s_begin, s_eval, s_reset, e));
                assert(step_failed(*network, date, s_begin, e));
            }
            return Err(RunError::Eval { timestep: ts_index, scenario: si, error: e });
        },
    };
    let problem = SolverProblem { constraints: copy_constraints(&constraints) };
    // The external solve capability.
    let flows = match solver(problem) {
        Some(f) => f,
        None => {
            return Err(
                RunError::Solve(
                    crate::errors::SolveError::Infeasible { timestep: ts_index, scenario: si },
                ),
            );
        },
    };
    // Validate and commit; an infeasible candidate is fatal.
    match commit_solution(network, &constraints, &mut *state, &flows, ts_index, si) {
        Ok(()) => {},
        Err(e) => {
            return Err(RunError::Solve(e));
        },
    }
    let ghost s_commit = *state;
    // Post-solve derived metrics.
    match update_derived_metrics(network, &mut *state) {
        Ok(()) => {},
        Err(e) => {
            proof {
                assert(refresh_fail_witnesses(*network, date, s_begin, s_eval, s_reset,
                    s_commit, constraints@, flows@, e));
                assert(step_failed(*network, date, s_begin, e));
            }
            return Err(RunError::Eval { timestep: ts_index, scenario: si, error: e });
        },
    }
    proof {
        assert(step_witnesses(*network, date, s_begin, *state, s_eval, s_reset, s_commit,
            constraints@, flows@));
        assert(step_committed(*network, date, s_begin, *state));
        // Pending reset dates stay within the usable year range: a kept
        // date was already in range, and a newly planted one lies at
        // most one year past this timestep's date.
        assert forall|v: int| 0 <= v < network.virtual_storages@.len()
            && (#[trigger] state.virtual_storage_next_reset@[v]) is Some
            implies state.virtual_storage_next_reset@[v]->0.year < i32::MAX - 1 by {
            let vsv = network.virtual_storages@[v];
            let oldnext = s_eval.virtual_storage_next_reset@[v];
            let stepv = crate::solve::vs_reset_step(vsv, date,
                s_eval.virtual_storage_volume@[v], oldnext);
            assert(state.virtual_storage_next_reset@[v] == stepv.1);
            match vsv.reset {
                None => {
                    assert(s_eval.virtual_storage_next_reset@[v] is Some);
                },
                Some(rs) => {
                    let target = match oldnext {
                        Some(d) => d,
                        None => crate::solve::next_reset_on_or_after(rs, date),
                    };
                    if oldnext is None {
                        assert(target.year <= date.year + 1);
                    } else {
                        assert(oldnext->0.year < i32::MAX - 1);
                        assert(s_begin.virtual_storage_next_reset@[v] is Some);
                    }
                    if spec_date_le(target, date) {
                        assert(target.year <= date.year);
                    }
                },
            }
        }
    }
    Ok(())
}

/// Run the whole simulation: every scenario over every timestep, with the
/// supplied solver deciding each timestep's flows and the recorder
/// reading each committed state. The run aborts on the first failure,
/// carrying the scenario and timestep it arose in.
///
/// On success each returned state is the end of a full chain of
/// committed timesteps from a fresh scenario state — each link's flow
/// assignment satisfies the constraint set built for its step — and
/// every recorder cell holds its metric resolved in the state committed
/// at that timestep and scenario. An evaluation-layer failure is
/// returned only when that timestep's evaluation, constraint build or
/// derived-metric refresh in fact fails, at the end of such a chain. A
/// run over no timesteps or no scenarios always succeeds.
pub fn run<F: Fn(SolverProblem) -> Option<Vec<i64>>>(
    network: &Network,
    timesteps: &Vec<Timestep>,
    scenario_indices: &Vec<ScenarioIndex>,
    solver: &F,
    recorder: &mut MemoryRecorder,
) -> (r: Result<Vec<State>, RunError>)
    requires
        network.well_formed(),
        sizes_within_machine(*network),
        storages_initialised(*network),
        forall|v: int| 0 <= v < network.virtual_storages@.len()
            ==> initial_volume_sane((#[trigger] network.virtual_storages@[v]).initial_volume,
                network.virtual_storages@[v].max_volume),
        timesteps_usable(timesteps@),
        timesteps@.len() * old(recorder).metrics@.len() * scenario_indices@.len()
            <= usize::MAX,
        forall|p: SolverProblem| solver.requires((p,)),
    ensures
        final(recorder).metrics@ == old(recorder).metrics@,
        final(recorder).n_timesteps == timesteps@.len(),
        final(recorder).n_scenarios == scenario_indices@.len(),
        timesteps@.len() == 0 || scenario_indices@.len() == 0 ==> r is Ok,
        match r {
            Ok(states) => states@.len() == scenario_indices@.len()
                && final(recorder).allocated() && forall|s: int|
                0 <= s < states@.len()
                ==> #[trigger] scenario_recorded(*network, timesteps@, *final(recorder), s,
                    states@[s]),
            Err(e) => !(e is Load) && (e matches RunError::Eval { timestep, scenario, error }
                ==> scenario < scenario_indices@.len() && exists|k: int, trace: Seq<State>|
                    #![trigger scenario_trace_prefix(*network, timesteps@, k, trace)]
                    0 <= k < timesteps@.len() && timesteps@[k].index == timestep
                        && scenario_trace_prefix(*network, timesteps@, k, trace)
                        && step_failed(*network, timesteps@[k].date, trace[k], error)),
        },
{
    recorder.setup(timesteps.len(), scenario_indices.len());
    let n_scenarios = scenario_indices.len();
    let n_steps = timesteps.len();
    let mut states: Vec<State> = Vec::new();
    let mut si: usize = 0;
    while si < n_scenarios
        invariant
            network.well_formed(),
            sizes_within_machine(*network),
            storages_initialised(*network),
            forall|v: int| 0 <= v < network.virtual_storages@.len()
                ==> initial_volume_sane((#[trigger] network.virtual_storages@[v])
                    .initial_volume, network.virtual_storages@[v].max_volume),
            timesteps_usable(timesteps@),
            forall|p: SolverProblem| solver.requires((p,)),
            n_scenarios == scenario_indices@.len(),
            n_steps == timesteps@.len(),
            recorder.n_timesteps == n_steps,
            recorder.n_scenarios == n_scenarios,
            recorder.metrics@ == old(recorder).metrics@,
            recorder.allocated(),
            0 <= si <= n_scenarios,
            states@.len() == si,
            forall|s: int| 0 <= s < si
                ==> #[trigger] scenario_recorded(*network, timesteps@, *recorder, s,
                    states@[s]),
        decreases n_scenarios - si,
    {
        let mut state = initial_state(network);
        let ghost mut trace: Seq<State> = seq![state];
        proof {
            assert forall|v: int| 0 <= v < network.virtual_storages@.len()
                implies (#[trigger] state.virtual_storage_next_reset@[v]) is None by {
                assert(state.virtual_storage_volume@[v] == 0);
            }
        }
        let mut ti: usize = 0;
        while ti < n_steps
            invariant
                network.well_formed(),
                sizes_within_machine(*network),
                storages_initialised(*network),
                forall|v: int| 0 <= v < network.virtual_storages@.len()
                    ==> initial_volume_sane((#[trigger] network.virtual_storages@[v])
                        .initial_volume, network.virtual_storages@[v].max_volume),
                timesteps_usable(timesteps@),
                forall|p: SolverProblem| solver.requires((p,)),
                n_scenarios == scenario_indices@.len(),
                n_steps == timesteps@.len(),
                recorder.n_timesteps == n_steps,
                recorder.n_scenarios == n_scenarios,
                recorder.metrics@ == old(recorder).metrics@,
                recorder.allocated(),
                si < n_scenarios,
                0 <= ti <= n_steps,
                state.shape(network.nodes@.len() as int, network.edges@.len() as int,
                    network.virtual_storages@.len() as int,
                    network.parameters@.len() as int,
                    network.derived_metrics@.len() as int),
                forall|v: int| 0 <= v < network.virtual_storages@.len()
                    && (#[trigger] state.virtual_storage_next_reset@[v]) is Some
                    ==> state.virtual_storage_next_reset@[v]->0.year < i32::MAX - 1,
                scenario_trace_prefix(*network, timesteps@, ti as int, trace),
                trace[ti as int] == state,
                cells_recorded(*recorder, si as int, ti as int, trace),
                forall|s: int| 0 <= s < si
                    ==> #[trigger] scenario_recorded(*network, timesteps@, *recorder, s,
                        states@[s]),
            decreases n_steps - ti,
        {
            let ts = timesteps[ti];
            let ghost s_begin = state;
            match run_timestep(network, ts.date, ts.index, si, solver, &mut state) {
                Ok(()) => {},
                Err(e) => {
                    proof {
                        match &e {
                            RunError::Eval { timestep, scenario, error } => {
                                assert(step_failed(*network, timesteps@[ti as int].date,
                                    trace[ti as int], *error));
                                assert(scenario_trace_prefix(*network, timesteps@,
                                    ti as int, trace));
                            },
                            _ => {},
                        }
                    }
                    return Err(e);
                },
            }
            // Record the committed state.
            let ghost rec_before = *recorder;
            match recorder.save(ti, si, &state) {
                Ok(()) => {},
                Err(e) => {
                    return Err(RunError::Recorder(e));
                },
            }
            proof {
                // Cells written this step hold this step's committed
                // metrics; every other cell, and with it every already
                // recorded scenario, is untouched.
                let nmi = rec_before.metrics@.len() as int;
                assert forall|t: int, m: int| 0 <= t < ti && 0 <= m < nmi
                    implies recorder.data@[#[trigger] rec_before.cell(t, m, si as int)]
                        == rec_before.data@[rec_before.cell(t, m, si as int)] by {
                    lemma_cell_in_range(n_steps as int, nmi, n_scenarios as int, t, m,
                        si as int);
                    assert forall|m2: int| 0 <= m2 < nmi
                        implies rec_before.cell(t, m, si as int)
                            != rec_before.cell(ti as int, m2, si as int) by {
                        lemma_cell_triple_injective(n_steps as int, nmi,
                            n_scenarios as int, t, m, si as int, ti as int, m2, si as int);
                    }
                }
                assert forall|s: int| 0 <= s < si
                    implies #[trigger] scenario_recorded(*network, timesteps@, *recorder,
                        s, states@[s]) by {
                    assert forall|t: int, m: int| 0 <= t < timesteps@.len() && 0 <= m < nmi
                        implies recorder.data@[#[trigger] rec_before.cell(t, m, s)]
                            == rec_before.data@[rec_before.cell(t, m, s)] by {
                        lemma_cell_in_range(n_steps as int, nmi, n_scenarios as int, t, m,
                            s);
                        assert forall|m2: int| 0 <= m2 < nmi
                            implies rec_before.cell(t, m, s)
                                != rec_before.cell(ti as int, m2, si as int) by {
                            lemma_cell_triple_injective(n_steps as int, nmi,
                                n_scenarios as int, t, m, s, ti as int, m2, si as int);
                        }
                    }
                    lemma_scenario_recording_persists(*network, timesteps@, rec_before,
                        *recorder, s, states@[s]);
                }
                let trace0 = trace;
                trace = trace0.push(state);
                assert(scenario_trace_prefix(*network, timesteps@, ti as int + 1, trace))
                    by {
                    assert(forall|t: int| 0 <= t <= ti ==> trace[t] == trace0[t]);
                    assert(trace[ti as int] == s_begin);
                    assert(trace[ti as int + 1] == state);
                    assert(forall|t: int| 0 <= t < ti
                        ==> step_committed(*network, timesteps@[t].date, trace0[t],
                            trace0[t + 1]));
                }
                assert(cells_recorded(*recorder, si as int, ti as int + 1, trace)) by {
                    assert forall|t: int, m: int| 0 <= t < ti + 1
                        && 0 <= m < recorder.metrics@.len()
                        implies #[trigger] metric_ok(recorder.metrics@[m].0, trace[t + 1])
                            && recorder.data@[recorder.cell(t, m, si as int)]
                            == metric_value(recorder.metrics@[m].0, trace[t + 1]) by {
                        assert(recorder.metrics@ == rec_before.metrics@);
                        assert(recorder.cell(t, m, si as int)
                            == rec_before.cell(t, m, si as int));
                        if t < ti {
                            assert(trace[t + 1] == trace0[t + 1]);
                            assert(cells_recorded(rec_before, si as int, ti as int,
                                trace0));
                            assert(metric_ok(rec_before.metrics@[m].0, trace0[t + 1]));
                            assert(rec_before.data@[rec_before.cell(t, m, si as int)]
                                == metric_value(rec_before.metrics@[m].0, trace0[t + 1]));
                            assert(recorder.data@[rec_before.cell(t, m, si as int)]
                                == rec_before.data@[rec_before.cell(t, m, si as int)]);
                        } else {
                            assert(trace[t + 1] == state);
                            assert(recorder.data@[rec_before.cell(ti as int, m,
                                si as int)] == metric_value(rec_before.metrics@[m].0,
                                state));
                        }
                    }
                }
            }
            ti = ti + 1;
        }
        proof {
            assert(cells_recorded(*recorder, si as int, timesteps@.len() as int, trace));
            assert(trace_recorded(*network, timesteps@, *recorder, si as int, state,
                trace));
            assert(scenario_recorded(*network, timesteps@, *recorder, si as int, state));
        }
        states.push(state);
        proof {
            assert forall|s: int| 0 <= s < si + 1
                implies #[trigger] scenario_recorded(*network, timesteps@, *recorder, s,
                    states@[s]) by {
                if s < si {
                    assert(states@[s] == states@.drop_last()[s]);
                } else {
                    assert(states@[s] == state);
                }
            }
        }
        si = si + 1;
    }
    Ok(states)
}

} // verus!
