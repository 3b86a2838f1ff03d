//! The per-timestep solve step: virtual-storage reset transitions,
//! constraint construction from evaluated parameters, and validation and
//! committal of a candidate flow assignment against the flow-balance and
//! bound constraints.

use vstd::prelude::*;
use crate::errors::{EvalError, SolveError};
use crate::hydropower::{
    forward_hydropower, forward_hydropower_fits, forward_hydropower_spec, working_head_spec,
};
use crate::metric::{metric_ok, metric_value};
use crate::network::DerivedMetricDef;
use crate::network::{
    Edge, Network, Node, NodeKind, VirtualStorage, VirtualStorageReset, initial_volume_sane,
    initial_volume_spec,
};
use crate::num::div_trunc;
use crate::state::State;
use crate::timestep::{Date, spec_date_le};

verus! {

/// The first calendar occurrence of the reset day at or after `date`.
pub open spec fn next_reset_on_or_after(rs: VirtualStorageReset, date: Date) -> Date {
    let c = Date { year: date.year, month: rs.month, day: rs.day };
    if spec_date_le(date, c) {
        c
    } else {
        Date { year: (date.year + 1) as i32, month: rs.month, day: rs.day }
    }
}

/// One reset-policy step of a virtual storage: the volume after the step
/// and the date of the next pending reset. On the first timestep at or
/// after the pending reset date the volume becomes the configured initial
/// volume, or zero accumulation, independent of what had accumulated;
/// afterwards accumulation resumes.
pub open spec fn vs_reset_step(vs: VirtualStorage, date: Date, vol: i64, next: Option<Date>)
    -> (i64, Option<Date>) {
    match vs.reset {
        None => (vol, next),
        Some(rs) => {
            let target = match next {
                Some(d) => d,
                None => next_reset_on_or_after(rs, date),
            };
            if spec_date_le(target, date) {
                let v2 = if rs.use_initial_volume {
                    initial_volume_spec(vs.initial_volume, vs.max_volume) as i64
                } else {
                    0
                };
                (v2, Some(Date { year: (target.year + 1) as i32, month: rs.month, day: rs.day }))
            } else {
                (vol, Some(target))
            }
        },
    }
}

/// On a reset timestep with `use_initial_volume` set, the volume after
/// the step is the configured initial volume whatever had accumulated
/// before.
pub proof fn lemma_reset_discards_accumulation(
    vs: VirtualStorage,
    date: Date,
    vol_a: i64,
    vol_b: i64,
    next: Option<Date>,
)
    requires
        vs.reset matches Some(rs) && rs.use_initial_volume,
        spec_date_le(
            (match next {
                Some(d) => d,
                None => next_reset_on_or_after(vs.reset->0, date),
            }),
            date,
        ),
    ensures
        vs_reset_step(vs, date, vol_a, next).0 == vs_reset_step(vs, date, vol_b, next).0,
        vs_reset_step(vs, date, vol_a, next).0 == initial_volume_spec(vs.initial_volume,
            vs.max_volume) as i64,
{
}

/// The whole effect of applying the reset policies for one date: each
/// virtual storage steps by [`vs_reset_step`] and nothing else changes.
pub open spec fn resets_applied(network: Network, date: Date, s0: State, s1: State) -> bool {
    &&& s1.virtual_storage_volume@.len() == network.virtual_storages@.len()
    &&& s1.virtual_storage_next_reset@.len() == network.virtual_storages@.len()
    &&& forall|v: int| 0 <= v < network.virtual_storages@.len() ==> {
        let step = vs_reset_step(#[trigger] network.virtual_storages@[v], date,
            s0.virtual_storage_volume@[v], s0.virtual_storage_next_reset@[v]);
        &&& s1.virtual_storage_volume@[v] == step.0
        &&& s1.virtual_storage_next_reset@[v] == step.1
    }
    &&& s1.node_in_flow@ == s0.node_in_flow@
    &&& s1.node_out_flow@ == s0.node_out_flow@
    &&& s1.edge_flow@ == s0.edge_flow@
    &&& s1.storage_volume@ == s0.storage_volume@
    &&& s1.parameter_values@ == s0.parameter_values@
    &&& s1.parameter_memory@ == s0.parameter_memory@
    &&& s1.derived_values@ == s0.derived_values@
}

/// Apply the reset policy of every virtual storage for this timestep's
/// date, before any flow is accumulated.
pub fn apply_virtual_storage_resets(network: &Network, state: &mut State, date: Date)
    requires
        old(state).virtual_storage_volume@.len() == network.virtual_storages@.len(),
        old(state).virtual_storage_next_reset@.len() == network.virtual_storages@.len(),
        forall|v: int| 0 <= v < network.virtual_storages@.len()
            ==> initial_volume_sane((#[trigger] network.virtual_storages@[v]).initial_volume,
                network.virtual_storages@[v].max_volume),
        date.year < i32::MAX - 1,
        forall|d: Date| (exists|v: int| 0 <= v < old(state).virtual_storage_next_reset@.len()
            && old(state).virtual_storage_next_reset@[v] == Some(d))
            ==> d.year < i32::MAX - 1,
    ensures
        resets_applied(*network, date, *old(state), *final(state)),
        final(state).virtual_storage_volume@.len() == network.virtual_storages@.len(),
        final(state).virtual_storage_next_reset@.len() == network.virtual_storages@.len(),
        forall|v: int| 0 <= v < network.virtual_storages@.len() ==> {
            let step = vs_reset_step(#[trigger] network.virtual_storages@[v], date,
                old(state).virtual_storage_volume@[v],
                old(state).virtual_storage_next_reset@[v]);
            &&& final(state).virtual_storage_volume@[v] == step.0
            &&& final(state).virtual_storage_next_reset@[v] == step.1
        },
        final(state).node_in_flow@ == old(state).node_in_flow@,
        final(state).node_out_flow@ == old(state).node_out_flow@,
        final(state).edge_flow@ == old(state).edge_flow@,
        final(state).storage_volume@ == old(state).storage_volume@,
        final(state).parameter_values@ == old(state).parameter_values@,
        final(state).parameter_memory@ == old(state).parameter_memory@,
        final(state).derived_values@ == old(state).derived_values@,
{
    let n = network.virtual_storages.len();
    let mut v: usize = 0;
    while v < n
        invariant
            n == network.virtual_storages@.len(),
            state.virtual_storage_volume@.len() == n,
            state.virtual_storage_next_reset@.len() == n,
            forall|t: int| 0 <= t < n
                ==> initial_volume_sane((#[trigger] network.virtual_storages@[t])
                    .initial_volume, network.virtual_storages@[t].max_volume),
            date.year < i32::MAX - 1,
            forall|d: Date| (exists|t: int| 0 <= t
                < old(state).virtual_storage_next_reset@.len()
                && old(state).virtual_storage_next_reset@[t] == Some(d))
                ==> d.year < i32::MAX - 1,
            0 <= v <= n,
            forall|t: int| 0 <= t < v ==> {
                let step = vs_reset_step(#[trigger] network.virtual_storages@[t], date,
                    old(state).virtual_storage_volume@[t],
                    old(state).virtual_storage_next_reset@[t]);
                &&& state.virtual_storage_volume@[t] == step.0
                &&& state.virtual_storage_next_reset@[t] == step.1
            },
            forall|t: int| v <= t < n
                ==> state.virtual_storage_volume@[t]
                    == old(state).virtual_storage_volume@[t]
                    && state.virtual_storage_next_reset@[t]
                        == old(state).virtual_storage_next_reset@[t],
            state.node_in_flow@ == old(state).node_in_flow@,
            state.node_out_flow@ == old(state).node_out_flow@,
            state.edge_flow@ == old(state).edge_flow@,
            state.storage_volume@ == old(state).storage_volume@,
            state.parameter_values@ == old(state).parameter_values@,
            state.parameter_memory@ == old(state).parameter_memory@,
            state.derived_values@ == old(state).derived_values@,
        decreases n - v,
    {
        let vs = &network.virtual_storages[v];
        match vs.reset {
            None => {},
            Some(rs) => {
                let target: Date = match state.virtual_storage_next_reset[v] {
                    Some(d) => d,
                    None => {
                        let c = Date { year: date.year, month: rs.month, day: rs.day };
                        if date.is_on_or_before(&c) {
                            c
                        } else {
                            Date { year: date.year + 1, month: rs.month, day: rs.day }
                        }
                    },
                };
                if target.is_on_or_before(&date) {
                    let v2: i64 = if rs.use_initial_volume {
                        initial_volume_value(vs)
                    } else {
                        0
                    };
                    state.virtual_storage_volume.set(v, v2);
                    state.virtual_storage_next_reset.set(
                        v,
                        Some(Date { year: target.year + 1, month: rs.month, day: rs.day }),
                    );
                } else {
                    state.virtual_storage_next_reset.set(v, Some(target));
                }
            },
        }
        v = v + 1;
    }
}

/// The configured starting volume of a virtual storage. A proportional
/// policy is validated at load time to be a sub-unit ratio of a
/// configured maximum, so the product stays representable.
fn initial_volume_value(vs: &VirtualStorage) -> (r: i64)
    requires
        initial_volume_sane(vs.initial_volume, vs.max_volume),
    ensures
        r == initial_volume_spec(vs.initial_volume, vs.max_volume) as i64,
{
    match vs.initial_volume {
        crate::network::StorageInitialVolume::Absolute(a) => a,
        crate::network::StorageInitialVolume::Proportional(p) => {
            let m = match vs.max_volume {
                Some(m) => m,
                None => 0,
            };
            proof {
                vstd::arithmetic::mul::lemma_mul_upper_bound(p as int, crate::RATIO_SCALE
                    as int, m as int, i64::MAX as int);
                vstd::arithmetic::mul::lemma_mul_nonnegative(p as int, m as int);
                crate::num::lemma_scaled_ratio_bounds(p as int, m as int);
            }
            let wide: u128 = (p as u128) * (m as u128);
            let q: u128 = wide / (crate::RATIO_SCALE as u128);
            q as i64
        },
    }
}

/// The resolved flow bounds and cost of one node for this timestep:
/// minimum zero, maximum unbounded and cost zero unless configured.
#[derive(Clone, Copy, Debug, PartialEq, Eq, Structural)]
pub struct NodeConstraint {
    pub min_flow: i64,
    pub max_flow: Option<i64>,
    pub cost: i64,
}

/// The resolved constraint of one node, with resolution failures in the
/// order minimum, maximum, cost.
pub open spec fn node_constraint_spec(node: Node, s: State) -> Result<NodeConstraint, EvalError> {
    if node.min_flow is Some && !metric_ok(node.min_flow->0, s) {
        Err(EvalError::MetricNotAvailable)
    } else if node.max_flow is Some && !metric_ok(node.max_flow->0, s) {
        Err(EvalError::MetricNotAvailable)
    } else if node.cost is Some && !metric_ok(node.cost->0, s) {
        Err(EvalError::MetricNotAvailable)
    } else {
        Ok(
            NodeConstraint {
                min_flow: match node.min_flow {
                    Some(m) => metric_value(m, s),
                    None => 0,
                },
                max_flow: match node.max_flow {
                    Some(m) => Some(metric_value(m, s)),
                    None => None,
                },
                cost: match node.cost {
                    Some(m) => metric_value(m, s),
                    None => 0,
                },
            },
        )
    }
}

/// The constraint set handed to the solver for one timestep and scenario.
#[derive(Clone, Debug)]
pub struct SolverProblem {
    pub constraints: Vec<NodeConstraint>,
}

/// Resolve one node's bounds and cost.
fn resolve_node_constraint(node: &Node, state: &State) -> (r: Result<NodeConstraint, EvalError>)
    ensures
        r == node_constraint_spec(*node, *state),
{
    let min_flow: i64 = match &node.min_flow {
        Some(m) => {
            match m.get_value(state) {
                Ok(v) => v,
                Err(e) => {
                    return Err(e);
                },
            }
        },
        None => 0,
    };
    let max_flow: Option<i64> = match &node.max_flow {
        Some(m) => {
            match m.get_value(state) {
                Ok(v) => Some(v),
                Err(e) => {
                    return Err(e);
                },
            }
        },
        None => None,
    };
    let cost: i64 = match &node.cost {
        Some(m) => {
            match m.get_value(state) {
                Ok(v) => v,
                Err(e) => {
                    return Err(e);
                },
            }
        },
        None => 0,
    };
    Ok(NodeConstraint { min_flow, max_flow, cost })
}

/// A constraint set resolved from this state: one triple per node, each
/// exactly what the node's bounds and cost resolve to.
pub open spec fn constraints_built(network: Network, s: State, c: Seq<NodeConstraint>) -> bool {
    &&& c.len() == network.nodes@.len()
    &&& forall|i: int| 0 <= i < network.nodes@.len()
        ==> node_constraint_spec(network.nodes@[i], s)
            == Ok::<NodeConstraint, EvalError>(#[trigger] c[i])
}

/// A constraint build that fails: some node's bounds cannot be resolved,
/// with exactly this error, and every earlier node resolves.
pub open spec fn constraint_build_failed(network: Network, s: State, e: EvalError) -> bool {
    exists|i: int| 0 <= i < network.nodes@.len()
        && node_constraint_spec(#[trigger] network.nodes@[i], s)
            == Err::<NodeConstraint, EvalError>(e)
        && forall|j: int| 0 <= j < i ==> node_constraint_spec(network.nodes@[j], s) is Ok
}

/// Build the constraint set from the evaluated parameter values: one
/// resolved bound triple per node, failing on the first node whose
/// metrics cannot be resolved.
pub fn build_problem(network: &Network, state: &State) -> (r: Result<SolverProblem, EvalError>)
    ensures
        match r {
            Ok(p) => constraints_built(*network, *state, p.constraints@),
            Err(e) => constraint_build_failed(*network, *state, e),
        },
{
    let n = network.nodes.len();
    let mut constraints: Vec<NodeConstraint> = Vec::new();
    let mut i: usize = 0;
    while i < n
        invariant
            n == network.nodes@.len(),
            0 <= i <= n,
            constraints@.len() == i,
            forall|t: int| 0 <= t < i
                ==> node_constraint_spec(network.nodes@[t], *state)
                    == Ok::<NodeConstraint, EvalError>(#[trigger] constraints@[t]),
        decreases n - i,
    {
        match resolve_node_constraint(&network.nodes[i], state) {
            Ok(c) => {
                constraints.push(c);
            },
            Err(e) => {
                proof {
                    assert forall|j: int| 0 <= j < i
                        implies node_constraint_spec(network.nodes@[j], *state) is Ok by {
                        assert(node_constraint_spec(network.nodes@[j], *state)
                            == Ok::<NodeConstraint, EvalError>(constraints@[j]));
                    }
                    assert(node_constraint_spec(network.nodes@[i as int], *state)
                        == Err::<NodeConstraint, EvalError>(e));
                }
                return Err(e);
            },
        }
        i = i + 1;
    }
    Ok(SolverProblem { constraints })
}

/// The total flow into a node over the first `k` edges.
pub open spec fn in_flow_sum(edges: Seq<Edge>, flows: Seq<i64>, node: int, k: int) -> int
    decreases k,
{
    if k <= 0 {
        0
    } else {
        in_flow_sum(edges, flows, node, k - 1) + (if edges[k - 1].to == node {
            flows[k - 1] as int
        } else {
            0
        })
    }
}

/// The total flow out of a node over the first `k` edges.
pub open spec fn out_flow_sum(edges: Seq<Edge>, flows: Seq<i64>, node: int, k: int) -> int
    decreases k,
{
    if k <= 0 {
        0
    } else {
        out_flow_sum(edges, flows, node, k - 1) + (if edges[k - 1].from == node {
            flows[k - 1] as int
        } else {
            0
        })
    }
}

/// The flow passing through a node: its outflow, or its inflow for a
/// terminal node.
pub open spec fn through_flow(kind: NodeKind, fin: int, fout: int) -> int {
    match kind {
        NodeKind::Output => fin,
        _ => fout,
    }
}

/// Mass balance at a node: sources take nothing in, sinks send nothing
/// on, links pass everything through, storages may retain a difference.
pub open spec fn balance_ok(kind: NodeKind, fin: int, fout: int) -> bool {
    match kind {
        NodeKind::Input => fin == 0,
        NodeKind::Output => fout == 0,
        NodeKind::Link => fin == fout,
        NodeKind::Storage => true,
    }
}

/// A flow within the node's resolved bounds.
pub open spec fn flow_bounds_ok(c: NodeConstraint, f: int) -> bool {
    &&& c.min_flow <= f
    &&& (match c.max_flow {
        Some(m) => f <= m,
        None => true,
    })
}

/// The configured per-member weight of a virtual storage, scaled by
/// [`crate::RATIO_SCALE`].
pub open spec fn vs_factor(vs: VirtualStorage, j: int) -> int {
    match vs.factors {
        Some(f) => f@[j] as int,
        None => crate::RATIO_SCALE as int,
    }
}

/// The weighted accumulation a flow assignment adds to a virtual storage
/// over its first `k` members.
pub open spec fn vs_delta_sum(
    vs: VirtualStorage,
    nodes: Seq<Node>,
    edges: Seq<Edge>,
    flows: Seq<i64>,
    k: int,
) -> int
    decreases k,
{
    if k <= 0 {
        0
    } else {
        let m = vs.nodes@[k - 1] as int;
        let fin = in_flow_sum(edges, flows, m, edges.len() as int);
        let fout = out_flow_sum(edges, flows, m, edges.len() as int);
        vs_delta_sum(vs, nodes, edges, flows, k - 1) + div_trunc(
            vs_factor(vs, k - 1) * through_flow(nodes[m].kind, fin, fout),
            crate::RATIO_SCALE as int,
        )
    }
}

/// The volume bounds a storage node's new volume must satisfy.
pub open spec fn storage_volume_ok(node: Node, v2: int) -> bool {
    &&& (match node.min_volume {
        Some(mv) => mv <= v2,
        None => 0 <= v2,
    })
    &&& (match node.max_volume {
        Some(mv) => v2 <= mv,
        None => v2 <= i64::MAX,
    })
    &&& i64::MIN <= v2 <= i64::MAX
}

/// Feasibility of one node under the assignment: mass balance, flow
/// bounds for flow nodes, and volume bounds for storages.
pub open spec fn node_feasible(
    network: Network,
    constraints: Seq<NodeConstraint>,
    s: State,
    flows: Seq<i64>,
    i: int,
) -> bool {
    let edges = network.edges@;
    let nodes = network.nodes@;
    let fin = in_flow_sum(edges, flows, i, edges.len() as int);
    let fout = out_flow_sum(edges, flows, i, edges.len() as int);
    &&& fin <= i64::MAX
    &&& fout <= i64::MAX
    &&& balance_ok(nodes[i].kind, fin, fout)
    &&& (nodes[i].kind != NodeKind::Storage ==> flow_bounds_ok(constraints[i], through_flow(
        nodes[i].kind, fin, fout)))
    &&& (nodes[i].kind == NodeKind::Storage ==> storage_volume_ok(nodes[i],
        s.storage_volume@[i] + fin - fout))
}

/// Feasibility of one virtual storage: its volume after this timestep's
/// weighted accumulation stays within its configured bounds.
pub open spec fn vs_feasible(network: Network, s: State, flows: Seq<i64>, v: int) -> bool {
    let vs = network.virtual_storages@[v];
    let v2 = s.virtual_storage_volume@[v] + vs_delta_sum(vs, network.nodes@, network.edges@,
        flows, vs.nodes@.len() as int);
    &&& vs.min_volume <= v2
    &&& (match vs.max_volume {
        Some(m) => v2 <= m,
        None => v2 <= i64::MAX,
    })
    &&& i64::MIN <= v2 <= i64::MAX
}

/// The whole feasibility predicate of a candidate flow assignment: one
/// non-negative flow per edge, mass balance and flow bounds at every
/// node, and every storage and virtual storage volume still within its
/// configured bounds after this timestep's flows are applied.
pub open spec fn satisfies(
    network: Network,
    constraints: Seq<NodeConstraint>,
    s: State,
    flows: Seq<i64>,
) -> bool {
    &&& flows.len() == network.edges@.len()
    &&& constraints.len() == network.nodes@.len()
    &&& forall|e: int| 0 <= e < flows.len() ==> (#[trigger] flows[e]) >= 0
    &&& forall|i: int| 0 <= i < network.nodes@.len() ==> #[trigger] node_feasible(network,
        constraints, s, flows, i)
    &&& forall|v: int| 0 <= v < network.virtual_storages@.len() ==> #[trigger] vs_feasible(
        network, s, flows, v)
}

/// The machine caps the sizes a constraint check can total up: fewer than
/// two-to-the-32 edges, and at most 65536 members per virtual storage.
pub open spec fn sizes_within_machine(network: Network) -> bool {
    &&& network.edges@.len() < 0x1_0000_0000
    &&& forall|v: int| 0 <= v < network.virtual_storages@.len()
        ==> (#[trigger] network.virtual_storages@[v]).nodes@.len() <= 0x10000
}

/// Total the flows entering and leaving one node.
fn node_flow_sums(edges: &Vec<Edge>, flows: &Vec<i64>, node: usize) -> (r: (i128, i128))
    requires
        flows@.len() == edges@.len(),
        edges@.len() < 0x1_0000_0000,
        forall|e: int| 0 <= e < flows@.len() ==> (#[trigger] flows@[e]) >= 0,
    ensures
        r.0 == in_flow_sum(edges@, flows@, node as int, edges@.len() as int),
        r.1 == out_flow_sum(edges@, flows@, node as int, edges@.len() as int),
        0 <= r.0,
        0 <= r.1,
{
    let n = edges.len();
    let mut fin: i128 = 0;
    let mut fout: i128 = 0;
    let mut e: usize = 0;
    while e < n
        invariant
            n == edges@.len(),
            flows@.len() == n,
            n < 0x1_0000_0000,
            forall|t: int| 0 <= t < n ==> (#[trigger] flows@[t]) >= 0,
            0 <= e <= n,
            fin == in_flow_sum(edges@, flows@, node as int, e as int),
            fout == out_flow_sum(edges@, flows@, node as int, e as int),
            0 <= fin <= (e as int) * (i64::MAX as int),
            0 <= fout <= (e as int) * (i64::MAX as int),
        decreases n - e,
    {
        proof {
            vstd::arithmetic::mul::lemma_mul_inequality(e as int, n as int, i64::MAX as int);
            vstd::arithmetic::mul::lemma_mul_is_distributive_add_other_way(
                i64::MAX as int,
                e as int,
                1,
            );
            vstd::arithmetic::mul::lemma_mul_is_commutative(e as int, i64::MAX as int);
            vstd::arithmetic::mul::lemma_mul_is_commutative(e as int + 1, i64::MAX as int);
            vstd::arithmetic::mul::lemma_mul_upper_bound(
                n as int,
                0x1_0000_0000,
                i64::MAX as int,
                i64::MAX as int,
            );
        }
        if edges[e].to == node {
            fin = fin + flows[e] as i128;
        }
        if edges[e].from == node {
            fout = fout + flows[e] as i128;
        }
        e = e + 1;
    }
    (fin, fout)
}

/// The weighted accumulation this assignment adds to one virtual storage.
fn vs_delta(
    network: &Network,
    vs_index: usize,
    flows: &Vec<i64>,
) -> (r: i128)
    requires
        network.well_formed(),
        sizes_within_machine(*network),
        vs_index < network.virtual_storages@.len(),
        flows@.len() == network.edges@.len(),
        forall|e: int| 0 <= e < flows@.len() ==> (#[trigger] flows@[e]) >= 0,
        forall|i: int| 0 <= i < network.nodes@.len()
            ==> in_flow_sum(network.edges@, flows@, i, network.edges@.len() as int)
                <= i64::MAX
                && out_flow_sum(network.edges@, flows@, i, network.edges@.len() as int)
                    <= i64::MAX,
    ensures
        r == vs_delta_sum(network.virtual_storages@[vs_index as int], network.nodes@,
            network.edges@, flows@, network.virtual_storages@[vs_index as int].nodes@.len()
            as int),
        -10633823966279326983230456482242756608 <= r <= 10633823966279326983230456482242756608,
{
    let vs = &network.virtual_storages[vs_index];
    let nm = vs.nodes.len();
    let mut delta: i128 = 0;
    let mut j: usize = 0;
    while j < nm
        invariant
            network.well_formed(),
            sizes_within_machine(*network),
            vs_index < network.virtual_storages@.len(),
            vs == network.virtual_storages@[vs_index as int],
            nm == vs.nodes@.len(),
            flows@.len() == network.edges@.len(),
            forall|e: int| 0 <= e < flows@.len() ==> (#[trigger] flows@[e]) >= 0,
            forall|i: int| 0 <= i < network.nodes@.len()
                ==> in_flow_sum(network.edges@, flows@, i, network.edges@.len() as int)
                    <= i64::MAX
                    && out_flow_sum(network.edges@, flows@, i, network.edges@.len() as int)
                        <= i64::MAX,
            0 <= j <= nm,
            delta == vs_delta_sum(*vs, network.nodes@, network.edges@, flows@, j as int),
            -((j as int) * 162259276829213363391578010288128) <= delta,
            delta <= (j as int) * 162259276829213363391578010288128,
        decreases nm - j,
    {
        let m = vs.nodes[j];
        proof {
            assert(m < network.nodes@.len());
        }
        let sums = node_flow_sums(&network.edges, flows, m);
        let through: i128 = match network.nodes[m].kind {
            NodeKind::Output => sums.0,
            _ => sums.1,
        };
        let factor: i64 = match &vs.factors {
            Some(f) => f[j],
            None => crate::RATIO_SCALE,
        };
        proof {
            vstd::arithmetic::mul::lemma_mul_upper_bound(
                (if factor < 0 { -(factor as int) } else { factor as int }),
                0x8000_0000_0000_0000,
                through as int,
                0x7fff_ffff_ffff_ffff,
            );
            vstd::arithmetic::mul::lemma_mul_nonnegative(
                (if factor < 0 { -(factor as int) } else { factor as int }),
                through as int,
            );
            lemma_abs_product(factor as int, through as int);
        }
        let wide: i128 = (factor as i128) * through;
        let term: i128 = crate::num::div_trunc_i128(wide, crate::RATIO_SCALE as i128);
        proof {
            // The magnitude of each term is below 2^107, and at most
            // 2^16 members keep the running total within 2^123.
            let wabs = if wide < 0 { -(wide as int) } else { wide as int };
            assert(wabs < 162259276829213363391578010288128 * (crate::RATIO_SCALE as int)) by {
                assert(162259276829213363391578010288128 * (crate::RATIO_SCALE as int) == 162259276829213363391578010288128000000)
                    ;
            }
            vstd::arithmetic::div_mod::lemma_multiply_divide_lt(wabs, 162259276829213363391578010288128,
                crate::RATIO_SCALE as int);
            vstd::arithmetic::mul::lemma_mul_is_distributive_add_other_way(
                162259276829213363391578010288128,
                j as int,
                1,
            );
            vstd::arithmetic::mul::lemma_mul_inequality(j as int + 1, 0x10000,
                162259276829213363391578010288128);
        }
        delta = delta + term;
        j = j + 1;
    }
    proof {
        vstd::arithmetic::mul::lemma_mul_inequality(nm as int, 0x10000, 162259276829213363391578010288128);
        vstd::arithmetic::mul::lemma_mul_is_commutative(nm as int, 162259276829213363391578010288128);
        assert(0x10000 * 162259276829213363391578010288128 == 10633823966279326983230456482242756608);
    }
    delta
}

/// The magnitude of a product is the product of the magnitudes.
proof fn lemma_abs_product(a: int, b: int)
    requires
        b >= 0,
    ensures
        (if a * b < 0 { -(a * b) } else { a * b }) == (if a < 0 { -a } else { a }) * b,
{
    if a < 0 {
        vstd::arithmetic::mul::lemma_mul_unary_negation(a, b);
        vstd::arithmetic::mul::lemma_mul_nonnegative(-a, b);
    } else {
        vstd::arithmetic::mul::lemma_mul_nonnegative(a, b);
    }
}

/// Decide whether a candidate flow assignment meets every constraint:
/// exactly the [`satisfies`] predicate.
pub fn validate_flows(
    network: &Network,
    constraints: &Vec<NodeConstraint>,
    state: &State,
    flows: &Vec<i64>,
) -> (b: bool)
    requires
        network.well_formed(),
        sizes_within_machine(*network),
        state.storage_volume@.len() == network.nodes@.len(),
        state.virtual_storage_volume@.len() == network.virtual_storages@.len(),
    ensures
        b == satisfies(*network, constraints@, *state, flows@),
{
    if flows.len() != network.edges.len() {
        return false;
    }
    if constraints.len() != network.nodes.len() {
        return false;
    }
    let ne = flows.len();
    let mut e: usize = 0;
    while e < ne
        invariant
            ne == flows@.len(),
            0 <= e <= ne,
            forall|t: int| 0 <= t < e ==> (#[trigger] flows@[t]) >= 0,
        decreases ne - e,
    {
        if flows[e] < 0 {
            proof {
                assert(0 <= e < flows@.len() && !(flows@[e as int] >= 0));
            }
            return false;
        }
        e = e + 1;
    }
    let n = network.nodes.len();
    let mut i: usize = 0;
    while i < n
        invariant
            network.well_formed(),
            sizes_within_machine(*network),
            n == network.nodes@.len(),
            constraints@.len() == n,
            state.storage_volume@.len() == n,
            flows@.len() == network.edges@.len(),
            forall|t: int| 0 <= t < flows@.len() ==> (#[trigger] flows@[t]) >= 0,
            0 <= i <= n,
            forall|t: int| 0 <= t < i ==> node_feasible(*network, constraints@, *state,
                flows@, t),
        decreases n - i,
    {
        let sums = node_flow_sums(&network.edges, flows, i);
        let fin = sums.0;
        let fout = sums.1;
        if fin > i64::MAX as i128 || fout > i64::MAX as i128 {
            proof {
                assert(!node_feasible(*network, constraints@, *state, flows@, i as int));
            }
            return false;
        }
        let node = &network.nodes[i];
        let bal = match node.kind {
            NodeKind::Input => fin == 0,
            NodeKind::Output => fout == 0,
            NodeKind::Link => fin == fout,
            NodeKind::Storage => true,
        };
        if !bal {
            proof {
                assert(!node_feasible(*network, constraints@, *state, flows@, i as int));
            }
            return false;
        }
        if !matches!(node.kind, NodeKind::Storage) {
            let through: i128 = match node.kind {
                NodeKind::Output => fin,
                _ => fout,
            };
            let c = &constraints[i];
            if (c.min_flow as i128) > through {
                proof {
                    assert(!node_feasible(*network, constraints@, *state, flows@,
                        i as int));
                }
                return false;
            }
            if let Some(m) = c.max_flow {
                if through > m as i128 {
                    proof {
                        assert(!node_feasible(*network, constraints@, *state, flows@,
                            i as int));
                    }
                    return false;
                }
            }
        } else {
            let v2: i128 = (state.storage_volume[i] as i128) + fin - fout;
            let min_ok = match node.min_volume {
                Some(mv) => (mv as i128) <= v2,
                None => 0 <= v2,
            };
            let max_ok = match node.max_volume {
                Some(mv) => v2 <= mv as i128,
                None => v2 <= i64::MAX as i128,
            };
            if !(min_ok && max_ok && (i64::MIN as i128) <= v2 && v2 <= (i64::MAX as i128)) {
                proof {
                    assert(!node_feasible(*network, constraints@, *state, flows@,
                        i as int));
                }
                return false;
            }
        }
        i = i + 1;
    }
    let nv = network.virtual_storages.len();
    let mut v: usize = 0;
    while v < nv
        invariant
            network.well_formed(),
            sizes_within_machine(*network),
            nv == network.virtual_storages@.len(),
            n == network.nodes@.len(),
            constraints@.len() == n,
            state.storage_volume@.len() == n,
            state.virtual_storage_volume@.len() == nv,
            flows@.len() == network.edges@.len(),
            forall|t: int| 0 <= t < flows@.len() ==> (#[trigger] flows@[t]) >= 0,
            forall|t: int| 0 <= t < n ==> node_feasible(*network, constraints@, *state,
                flows@, t),
            0 <= v <= nv,
            forall|t: int| 0 <= t < v ==> vs_feasible(*network, *state, flows@, t),
        decreases nv - v,
    {
        proof {
            assert forall|i2: int| 0 <= i2 < n implies in_flow_sum(network.edges@, flows@,
                i2, network.edges@.len() as int) <= i64::MAX && out_flow_sum(network.edges@,
                flows@, i2, network.edges@.len() as int) <= i64::MAX by {
                assert(node_feasible(*network, constraints@, *state, flows@, i2));
            }
        }
        let delta = vs_delta(network, v, flows);
        let vs = &network.virtual_storages[v];
        let v2: i128 = (state.virtual_storage_volume[v] as i128) + delta;
        if (vs.min_volume as i128) > v2 {
            proof {
                assert(!vs_feasible(*network, *state, flows@, v as int));
            }
            return false;
        }
        let max_ok = match vs.max_volume {
            Some(m) => v2 <= m as i128,
            None => v2 <= i64::MAX as i128,
        };
        if !(max_ok && (i64::MIN as i128) <= v2 && v2 <= (i64::MAX as i128)) {
            proof {
                assert(!vs_feasible(*network, *state, flows@, v as int));
            }
            return false;
        }
        v = v + 1;
    }
    proof {
        assert(satisfies(*network, constraints@, *state, flows@));
    }
    true
}


/// The whole effect of a feasible commit: the assignment satisfies the
/// constraint set against the pre-state, the flows and per-node totals
/// are written, every storage and virtual-storage volume advances by its
/// net effect, and everything else is untouched.
pub open spec fn committed(
    network: Network,
    c: Seq<NodeConstraint>,
    s0: State,
    s1: State,
    flows: Seq<i64>,
) -> bool {
    &&& satisfies(network, c, s0, flows)
    &&& s1.edge_flow@ == flows
    &&& s1.node_in_flow@.len() == network.nodes@.len()
    &&& s1.node_out_flow@.len() == network.nodes@.len()
    &&& s1.storage_volume@.len() == network.nodes@.len()
    &&& s1.virtual_storage_volume@.len() == network.virtual_storages@.len()
    &&& forall|i: int| 0 <= i < network.nodes@.len()
        ==> (#[trigger] s1.node_in_flow@[i]) == in_flow_sum(network.edges@, flows, i,
            network.edges@.len() as int)
    &&& forall|i: int| 0 <= i < network.nodes@.len()
        ==> (#[trigger] s1.node_out_flow@[i]) == out_flow_sum(network.edges@, flows, i,
            network.edges@.len() as int)
    &&& forall|i: int| 0 <= i < network.nodes@.len()
        ==> (#[trigger] s1.storage_volume@[i]) == (
        if network.nodes@[i].kind == NodeKind::Storage {
            s0.storage_volume@[i] + in_flow_sum(network.edges@, flows, i,
                network.edges@.len() as int) - out_flow_sum(network.edges@, flows, i,
                network.edges@.len() as int)
        } else {
            s0.storage_volume@[i] as int
        })
    &&& forall|v: int| 0 <= v < network.virtual_storages@.len()
        ==> (#[trigger] s1.virtual_storage_volume@[v]) == s0.virtual_storage_volume@[v]
            + vs_delta_sum(network.virtual_storages@[v], network.nodes@, network.edges@,
            flows, network.virtual_storages@[v].nodes@.len() as int)
    &&& s1.parameter_values@ == s0.parameter_values@
    &&& s1.parameter_memory@ == s0.parameter_memory@
    &&& s1.derived_values@ == s0.derived_values@
    &&& s1.virtual_storage_next_reset@ == s0.virtual_storage_next_reset@
}

/// Validate a candidate assignment and, when feasible, commit it: edge
/// flows and per-node totals are written into the state and every
/// storage and virtual-storage volume advances by its net effect. An
/// infeasible assignment changes nothing and reports the timestep and
/// scenario it was rejected for.
pub fn commit_solution(
    network: &Network,
    constraints: &Vec<NodeConstraint>,
    state: &mut State,
    flows: &Vec<i64>,
    timestep_index: usize,
    scenario_index: usize,
) -> (r: Result<(), SolveError>)
    requires
        network.well_formed(),
        sizes_within_machine(*network),
        old(state).storage_volume@.len() == network.nodes@.len(),
        old(state).node_in_flow@.len() == network.nodes@.len(),
        old(state).node_out_flow@.len() == network.nodes@.len(),
        old(state).edge_flow@.len() == network.edges@.len(),
        old(state).virtual_storage_volume@.len() == network.virtual_storages@.len(),
    ensures
        match r {
            Ok(()) => committed(*network, constraints@, *old(state), *final(state), flows@),
            Err(e) => !satisfies(*network, constraints@, *old(state), flows@),
        },
        match r {
            Ok(()) => satisfies(*network, constraints@, *old(state), flows@)
                && final(state).edge_flow@ == flows@
                && final(state).node_in_flow@.len() == network.nodes@.len()
                && final(state).node_out_flow@.len() == network.nodes@.len()
                && final(state).storage_volume@.len() == network.nodes@.len()
                && final(state).virtual_storage_volume@.len()
                    == network.virtual_storages@.len()
                && (forall|i: int| 0 <= i < network.nodes@.len()
                    ==> (#[trigger] final(state).node_in_flow@[i]) == in_flow_sum(
                        network.edges@, flows@, i, network.edges@.len() as int))
                && (forall|i: int| 0 <= i < network.nodes@.len()
                    ==> (#[trigger] final(state).node_out_flow@[i]) == out_flow_sum(
                        network.edges@, flows@, i, network.edges@.len() as int))
                && (forall|i: int| 0 <= i < network.nodes@.len()
                    ==> (#[trigger] final(state).storage_volume@[i]) == (
                    if network.nodes@[i].kind == NodeKind::Storage {
                        old(state).storage_volume@[i] + in_flow_sum(network.edges@, flows@,
                            i, network.edges@.len() as int) - out_flow_sum(network.edges@,
                            flows@, i, network.edges@.len() as int)
                    } else {
                        old(state).storage_volume@[i] as int
                    }))
                && (forall|v: int| 0 <= v < network.virtual_storages@.len()
                    ==> (#[trigger] final(state).virtual_storage_volume@[v])
                        == old(state).virtual_storage_volume@[v] + vs_delta_sum(
                        network.virtual_storages@[v], network.nodes@, network.edges@,
                        flows@, network.virtual_storages@[v].nodes@.len() as int)),
            Err(e) => !satisfies(*network, constraints@, *old(state), flows@)
                && e == (SolveError::Infeasible {
                    timestep: timestep_index,
                    scenario: scenario_index,
                }) && *final(state) == *old(state),
        },
        final(state).parameter_values@ == old(state).parameter_values@,
        final(state).parameter_memory@ == old(state).parameter_memory@,
        final(state).derived_values@ == old(state).derived_values@,
        final(state).virtual_storage_next_reset@
            == old(state).virtual_storage_next_reset@,
{
    if !validate_flows(network, constraints, state, flows) {
        return Err(
            SolveError::Infeasible { timestep: timestep_index, scenario: scenario_index },
        );
    }
    // Edge flows.
    let ne = flows.len();
    let mut e: usize = 0;
    while e < ne
        invariant
            ne == flows@.len(),
            state.edge_flow@.len() == ne,
            0 <= e <= ne,
            forall|t: int| 0 <= t < e ==> state.edge_flow@[t] == flows@[t],
            state.node_in_flow@ == old(state).node_in_flow@,
            state.node_out_flow@ == old(state).node_out_flow@,
            state.storage_volume@ == old(state).storage_volume@,
            state.virtual_storage_volume@ == old(state).virtual_storage_volume@,
            state.virtual_storage_next_reset@ == old(state).virtual_storage_next_reset@,
            state.parameter_values@ == old(state).parameter_values@,
            state.parameter_memory@ == old(state).parameter_memory@,
            state.derived_values@ == old(state).derived_values@,
        decreases ne - e,
    {
        state.edge_flow.set(e, flows[e]);
        e = e + 1;
    }
    proof {
        assert(state.edge_flow@ =~= flows@);
    }
    // Node totals and storage volumes.
    let n = network.nodes.len();
    let mut i: usize = 0;
    while i < n
        invariant
            network.well_formed(),
            sizes_within_machine(*network),
            satisfies(*network, constraints@, *old(state), flows@),
            n == network.nodes@.len(),
            flows@.len() == network.edges@.len(),
            state.node_in_flow@.len() == n,
            state.node_out_flow@.len() == n,
            state.storage_volume@.len() == n,
            0 <= i <= n,
            forall|t: int| 0 <= t < i ==> (#[trigger] state.node_in_flow@[t])
                == in_flow_sum(network.edges@, flows@, t, network.edges@.len() as int),
            forall|t: int| 0 <= t < i ==> (#[trigger] state.node_out_flow@[t])
                == out_flow_sum(network.edges@, flows@, t, network.edges@.len() as int),
            forall|t: int| 0 <= t < i ==> (#[trigger] state.storage_volume@[t]) == (
                if network.nodes@[t].kind == NodeKind::Storage {
                    old(state).storage_volume@[t] + in_flow_sum(network.edges@, flows@, t,
                        network.edges@.len() as int) - out_flow_sum(network.edges@, flows@,
                        t, network.edges@.len() as int)
                } else {
                    old(state).storage_volume@[t] as int
                }),
            forall|t: int| i <= t < n
                ==> state.storage_volume@[t] == old(state).storage_volume@[t],
            state.edge_flow@ == flows@,
            state.virtual_storage_volume@ == old(state).virtual_storage_volume@,
            state.virtual_storage_next_reset@ == old(state).virtual_storage_next_reset@,
            state.parameter_values@ == old(state).parameter_values@,
            state.parameter_memory@ == old(state).parameter_memory@,
            state.derived_values@ == old(state).derived_values@,
        decreases n - i,
    {
        proof {
            assert(forall|t: int| 0 <= t < flows@.len() ==> (#[trigger] flows@[t]) >= 0);
            assert(node_feasible(*network, constraints@, *old(state), flows@, i as int));
        }
        let sums = node_flow_sums(&network.edges, flows, i);
        state.node_in_flow.set(i, sums.0 as i64);
        state.node_out_flow.set(i, sums.1 as i64);
        if matches!(network.nodes[i].kind, NodeKind::Storage) {
            let v2: i128 = (state.storage_volume[i] as i128) + sums.0 - sums.1;
            state.storage_volume.set(i, v2 as i64);
        }
        i = i + 1;
    }
    // Virtual storage volumes.
    let nv = network.virtual_storages.len();
    let mut v: usize = 0;
    while v < nv
        invariant
            network.well_formed(),
            sizes_within_machine(*network),
            satisfies(*network, constraints@, *old(state), flows@),
            n == network.nodes@.len(),
            nv == network.virtual_storages@.len(),
            flows@.len() == network.edges@.len(),
            state.virtual_storage_volume@.len() == nv,
            0 <= v <= nv,
            forall|t: int| 0 <= t < v ==> (#[trigger] state.virtual_storage_volume@[t])
                == old(state).virtual_storage_volume@[t] + vs_delta_sum(
                network.virtual_storages@[t], network.nodes@, network.edges@, flows@,
                network.virtual_storages@[t].nodes@.len() as int),
            forall|t: int| v <= t < nv ==> state.virtual_storage_volume@[t]
                == old(state).virtual_storage_volume@[t],
            state.node_in_flow@.len() == n,
            state.node_out_flow@.len() == n,
            state.storage_volume@.len() == n,
            forall|t: int| 0 <= t < n ==> (#[trigger] state.node_in_flow@[t])
                == in_flow_sum(network.edges@, flows@, t, network.edges@.len() as int),
            forall|t: int| 0 <= t < n ==> (#[trigger] state.node_out_flow@[t])
                == out_flow_sum(network.edges@, flows@, t, network.edges@.len() as int),
            forall|t: int| 0 <= t < n ==> (#[trigger] state.storage_volume@[t]) == (
                if network.nodes@[t].kind == NodeKind::Storage {
                    old(state).storage_volume@[t] + in_flow_sum(network.edges@, flows@, t,
                        network.edges@.len() as int) - out_flow_sum(network.edges@, flows@,
                        t, network.edges@.len() as int)
                } else {
                    old(state).storage_volume@[t] as int
                }),
            state.edge_flow@ == flows@,
            state.virtual_storage_next_reset@ == old(state).virtual_storage_next_reset@,
            state.parameter_values@ == old(state).parameter_values@,
            state.parameter_memory@ == old(state).parameter_memory@,
            state.derived_values@ == old(state).derived_values@,
        decreases nv - v,
    {
        proof {
            assert(forall|t: int| 0 <= t < flows@.len() ==> (#[trigger] flows@[t]) >= 0);
            assert forall|i2: int| 0 <= i2 < n implies in_flow_sum(network.edges@, flows@,
                i2, network.edges@.len() as int) <= i64::MAX && out_flow_sum(network.edges@,
                flows@, i2, network.edges@.len() as int) <= i64::MAX by {
                assert(node_feasible(*network, constraints@, *old(state), flows@, i2));
            }
            assert(vs_feasible(*network, *old(state), flows@, v as int));
        }
        let delta = vs_delta(network, v, flows);
        let v2: i128 = (state.virtual_storage_volume[v] as i128) + delta;
        state.virtual_storage_volume.set(v, v2 as i64);
        v = v + 1;
    }
    Ok(())
}


/// The value of one derived metric against post-solve state, with the
/// derived-value cache as it stood before this refresh.
pub open spec fn derived_metric_result_spec(dm: DerivedMetricDef, s: State, own_index: usize)
    -> Result<i64, EvalError> {
    match dm {
        DerivedMetricDef::PowerFromNodeFlow { node, turbine } => {
            if node >= s.node_out_flow@.len() {
                Err(EvalError::MetricNotAvailable)
            } else if turbine.water_elevation is Some && !metric_ok(turbine.water_elevation->0,
                s) {
                Err(EvalError::MetricNotAvailable)
            } else {
                let head = working_head_spec(turbine.water_elevation, turbine.elevation, s);
                let flow = s.node_out_flow@[node as int];
                if turbine.water_density <= 0 || turbine.efficiency <= 0
                    || turbine.flow_unit_conversion <= 0
                    || turbine.energy_unit_conversion <= 0 {
                    Err(EvalError::InternalParameterError { parameter: own_index })
                } else if !forward_hydropower_fits(flow, head, turbine.water_density,
                    turbine.efficiency, turbine.flow_unit_conversion,
                    turbine.energy_unit_conversion) {
                    Err(EvalError::ValueOverflow)
                } else {
                    Ok(
                        forward_hydropower_spec(flow, head, turbine.water_density,
                            turbine.efficiency, turbine.flow_unit_conversion,
                            turbine.energy_unit_conversion) as i64,
                    )
                }
            }
        },
    }
}

/// The whole effect of a successful derived-metric refresh: every cache
/// slot holds exactly its metric's value against the pre-refresh state,
/// and nothing else changes.
pub open spec fn derived_refreshed(network: Network, s0: State, s1: State) -> bool {
    &&& s1.node_in_flow@ == s0.node_in_flow@
    &&& s1.node_out_flow@ == s0.node_out_flow@
    &&& s1.edge_flow@ == s0.edge_flow@
    &&& s1.storage_volume@ == s0.storage_volume@
    &&& s1.virtual_storage_volume@ == s0.virtual_storage_volume@
    &&& s1.virtual_storage_next_reset@ == s0.virtual_storage_next_reset@
    &&& s1.parameter_values@ == s0.parameter_values@
    &&& s1.parameter_memory@ == s0.parameter_memory@
    &&& s1.derived_values@.len() == s0.derived_values@.len()
    &&& forall|d: int| 0 <= d < network.derived_metrics@.len()
        ==> derived_metric_result_spec(network.derived_metrics@[d], s0, d as usize)
            == Ok::<i64, EvalError>((#[trigger] s1.derived_values@[d])->0)
            && s1.derived_values@[d] is Some
}

/// A derived-metric refresh that fails: some derived metric computes to
/// exactly this error against the given state.
pub open spec fn derived_refresh_failed(network: Network, s0: State, e: EvalError) -> bool {
    exists|d: int| 0 <= d < network.derived_metrics@.len()
        && derived_metric_result_spec(#[trigger] network.derived_metrics@[d], s0, d as usize)
            == Err::<i64, EvalError>(e)
}

/// Refresh every derived metric from post-solve state. All metrics are
/// computed against the state as it stood before the refresh, then
/// cached; a failure leaves the state unchanged.
pub fn update_derived_metrics(network: &Network, state: &mut State) -> (r: Result<
    (),
    EvalError,
>)
    requires
        old(state).derived_values@.len() == network.derived_metrics@.len(),
    ensures
        final(state).node_in_flow@ == old(state).node_in_flow@,
        final(state).node_out_flow@ == old(state).node_out_flow@,
        final(state).edge_flow@ == old(state).edge_flow@,
        final(state).storage_volume@ == old(state).storage_volume@,
        final(state).virtual_storage_volume@ == old(state).virtual_storage_volume@,
        final(state).virtual_storage_next_reset@ == old(state).virtual_storage_next_reset@,
        final(state).parameter_values@ == old(state).parameter_values@,
        final(state).parameter_memory@ == old(state).parameter_memory@,
        final(state).derived_values@.len() == old(state).derived_values@.len(),
        match r {
            Ok(()) => derived_refreshed(*network, *old(state), *final(state)),
            Err(e) => *final(state) == *old(state)
                && derived_refresh_failed(*network, *old(state), e),
        },
{
    let nd = network.derived_metrics.len();
    let mut values: Vec<i64> = Vec::new();
    let mut d: usize = 0;
    while d < nd
        invariant
            nd == network.derived_metrics@.len(),
            old(state).derived_values@.len() == nd,
            *state == *old(state),
            0 <= d <= nd,
            values@.len() == d,
            forall|t: int| 0 <= t < d
                ==> derived_metric_result_spec(network.derived_metrics@[t], *old(state),
                    t as usize) == Ok::<i64, EvalError>(#[trigger] values@[t]),
        decreases nd - d,
    {
        match compute_derived_metric(&network.derived_metrics[d], state, d) {
            Ok(v) => {
                values.push(v);
            },
            Err(e) => {
                return Err(e);
            },
        }
        d = d + 1;
    }
    let mut t: usize = 0;
    while t < nd
        invariant
            nd == network.derived_metrics@.len(),
            values@.len() == nd,
            state.derived_values@.len() == nd,
            0 <= t <= nd,
            forall|u: int| 0 <= u < t
                ==> (#[trigger] state.derived_values@[u]) == Some(values@[u]),
            forall|u: int| 0 <= u < nd
                ==> derived_metric_result_spec(network.derived_metrics@[u], *old(state),
                    u as usize) == Ok::<i64, EvalError>(#[trigger] values@[u]),
            state.node_in_flow@ == old(state).node_in_flow@,
            state.node_out_flow@ == old(state).node_out_flow@,
            state.edge_flow@ == old(state).edge_flow@,
            state.storage_volume@ == old(state).storage_volume@,
            state.virtual_storage_volume@ == old(state).virtual_storage_volume@,
            state.virtual_storage_next_reset@ == old(state).virtual_storage_next_reset@,
            state.parameter_values@ == old(state).parameter_values@,
            state.parameter_memory@ == old(state).parameter_memory@,
        decreases nd - t,
    {
        state.derived_values.set(t, Some(values[t]));
        t = t + 1;
    }
    Ok(())
}

/// Compute one derived metric.
fn compute_derived_metric(dm: &DerivedMetricDef, state: &State, own_index: usize) -> (r:
    Result<i64, EvalError>)
    ensures
        r == derived_metric_result_spec(*dm, *state, own_index),
{
    match dm {
        DerivedMetricDef::PowerFromNodeFlow { node, turbine } => {
            if *node >= state.node_out_flow.len() {
                return Err(EvalError::MetricNotAvailable);
            }
            let head: i128 = match &turbine.water_elevation {
                Some(we) => {
                    let v = match we.get_value(state) {
                        Ok(v) => v,
                        Err(e) => {
                            return Err(e);
                        },
                    };
                    let h = (v as i128) - (turbine.elevation as i128);
                    if h < 0 {
                        0
                    } else {
                        h
                    }
                },
                None => {
                    if turbine.elevation < 0 {
                        0
                    } else {
                        turbine.elevation as i128
                    }
                },
            };
            let flow = state.node_out_flow[*node];
            if turbine.water_density <= 0 || turbine.efficiency <= 0
                || turbine.flow_unit_conversion <= 0 || turbine.energy_unit_conversion <= 0 {
                return Err(EvalError::InternalParameterError { parameter: own_index });
            }
            match forward_hydropower(flow, head, turbine.water_density, turbine.efficiency,
                turbine.flow_unit_conversion, turbine.energy_unit_conversion) {
                Some(p) => Ok(p),
                None => Err(EvalError::ValueOverflow),
            }
        },
    }
}

} // verus!
