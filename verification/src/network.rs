//! The static network: nodes, edges, virtual storages, derived metrics
//! and the registered parameter set, with the load-time interface used by
//! configuration collaborators.

use vstd::prelude::*;
use crate::errors::LoadError;
use crate::evaluator::{
    compute_evaluation_order, deps_in_range, stuck_set, valid_evaluation_order,
};
use crate::metric::{DanglingRef, Metric, metric_in_range, metric_param_dep};
use crate::parameter::{Parameter, is_dep, lemma_dep_has_metric, spec_metrics, spec_name};
use crate::timestep::spec_days_in_month;

verus! {

/// The closed set of node kinds.
#[derive(Clone, Copy, Debug, PartialEq, Eq, Structural)]
pub enum NodeKind {
    Input,
    Output,
    Link,
    Storage,
}

/// How a storage's starting volume is configured: as a plain amount or as
/// a ratio (scaled by [`crate::RATIO_SCALE`]) of the maximum volume.
#[derive(Clone, Copy, Debug, PartialEq, Eq, Structural)]
pub enum StorageInitialVolume {
    Absolute(i64),
    Proportional(i64),
}

/// One node of the network. Flow bounds and cost are dynamic metrics;
/// volume bounds of storage nodes are plain amounts.
#[derive(Clone, Debug)]
pub struct Node {
    pub name: String,
    pub sub_name: Option<String>,
    pub kind: NodeKind,
    pub min_flow: Option<Metric>,
    pub max_flow: Option<Metric>,
    pub cost: Option<Metric>,
    pub initial_volume: Option<StorageInitialVolume>,
    pub min_volume: Option<i64>,
    pub max_volume: Option<i64>,
}

/// A directed flow path between two nodes; it carries no state of its
/// own.
#[derive(Clone, Copy, Debug, PartialEq, Eq, Structural)]
pub struct Edge {
    pub from: usize,
    pub to: usize,
}

/// The calendar day on which a virtual storage resets, and whether the
/// reset reinstates the configured initial volume rather than zero
/// accumulation.
#[derive(Clone, Copy, Debug, PartialEq, Eq, Structural)]
pub struct VirtualStorageReset {
    pub day: u8,
    pub month: u8,
    pub use_initial_volume: bool,
}

/// An aggregate pseudo-storage accounting a weighted sum of flows through
/// a set of real nodes. Its volume counts accumulated use, rising from
/// zero toward the configured maximum.
#[derive(Clone, Debug)]
pub struct VirtualStorage {
    pub name: String,
    pub nodes: Vec<usize>,
    /// Per-member weights scaled by [`crate::RATIO_SCALE`]; one weight of
    /// one per member when absent.
    pub factors: Option<Vec<i64>>,
    pub initial_volume: StorageInitialVolume,
    pub min_volume: i64,
    pub max_volume: Option<i64>,
    pub reset: Option<VirtualStorageReset>,
}

/// The coefficients of a turbine whose power output is derived from a
/// node's flow after the solve.
#[derive(Clone, Debug)]
pub struct TurbineCoefficients {
    pub elevation: i64,
    /// Ratio scaled by [`crate::RATIO_SCALE`].
    pub efficiency: i64,
    pub water_elevation: Option<Metric>,
    pub water_density: i64,
    /// Ratio scaled by [`crate::RATIO_SCALE`].
    pub flow_unit_conversion: i64,
    /// Ratio scaled by [`crate::RATIO_SCALE`].
    pub energy_unit_conversion: i64,
}

/// A metric computed from post-solve state, cached per timestep.
#[derive(Clone, Debug)]
pub enum DerivedMetricDef {
    PowerFromNodeFlow { node: usize, turbine: TurbineCoefficients },
}

/// A reset day/month pair that exists in every year (the 29th of February
/// does not).
pub open spec fn valid_reset_day(day: u8, month: u8) -> bool {
    &&& 1 <= month <= 12
    &&& 1 <= day
    &&& day <= spec_days_in_month(1, month as int)
}

/// A usable initial-volume policy: a proportional policy must be a
/// sub-unit ratio of a configured, non-negative maximum volume.
pub open spec fn initial_volume_sane(policy: StorageInitialVolume, max_volume: Option<i64>)
    -> bool {
    match policy {
        StorageInitialVolume::Absolute(_) => true,
        StorageInitialVolume::Proportional(r) => max_volume is Some && max_volume->0 >= 0
            && 0 <= r <= crate::RATIO_SCALE,
    }
}

/// The starting volume of a storage or virtual storage under its policy.
/// A proportional policy reads the configured maximum volume.
pub open spec fn initial_volume_spec(policy: StorageInitialVolume, max_volume: Option<i64>)
    -> int {
    match policy {
        StorageInitialVolume::Absolute(v) => v as int,
        StorageInitialVolume::Proportional(r) => match max_volume {
            Some(m) => crate::num::div_trunc((r as int) * (m as int), crate::RATIO_SCALE as int),
            None => 0,
        },
    }
}

/// The whole static model of one run.
#[derive(Clone, Debug)]
pub struct Network {
    pub nodes: Vec<Node>,
    pub edges: Vec<Edge>,
    pub parameters: Vec<Parameter>,
    pub virtual_storages: Vec<VirtualStorage>,
    pub derived_metrics: Vec<DerivedMetricDef>,
    pub eval_order: Vec<usize>,
    pub ready: bool,
}

impl Network {
    /// Structural soundness established by [`Network::setup`]: edges and
    /// virtual storages reference existing nodes, factors match members,
    /// and the stored evaluation order is dependency-respecting.
    pub open spec fn well_formed(&self) -> bool {
        &&& self.ready
        &&& valid_evaluation_order(self.parameters@, self.eval_order@)
        &&& forall|e: int| 0 <= e < self.edges@.len()
            ==> (#[trigger] self.edges@[e]).from < self.nodes@.len()
                && self.edges@[e].to < self.nodes@.len()
        &&& forall|v: int, j: int| 0 <= v < self.virtual_storages@.len()
            && 0 <= j < self.virtual_storages@[v].nodes@.len()
            ==> (#[trigger] self.virtual_storages@[v].nodes@[j]) < self.nodes@.len()
        &&& forall|v: int| 0 <= v < self.virtual_storages@.len()
            && (#[trigger] self.virtual_storages@[v]).factors is Some
            ==> self.virtual_storages@[v].factors->0@.len()
                == self.virtual_storages@[v].nodes@.len()
        &&& self.all_references_resolve()
    }

    /// Every metric anywhere in the model names an entity that exists:
    /// in parameters, in node bounds, and in derived metrics. Dangling
    /// references are a load-time error.
    pub open spec fn all_references_resolve(&self) -> bool {
        let nn = self.nodes@.len() as int;
        let np = self.parameters@.len() as int;
        let nd = self.derived_metrics@.len() as int;
        &&& forall|p: int, k: int| 0 <= p < self.parameters@.len()
            && 0 <= k < spec_metrics(self.parameters@[p]).len()
            ==> metric_in_range(#[trigger] spec_metrics(self.parameters@[p])[k], nn, np, nd)
        &&& forall|i: int| 0 <= i < self.nodes@.len() ==> {
            let node = #[trigger] self.nodes@[i];
            &&& (node.min_flow is Some ==> metric_in_range(node.min_flow->0, nn, np, nd))
            &&& (node.max_flow is Some ==> metric_in_range(node.max_flow->0, nn, np, nd))
            &&& (node.cost is Some ==> metric_in_range(node.cost->0, nn, np, nd))
        }
        &&& forall|d: int| 0 <= d < self.derived_metrics@.len() ==> {
            match #[trigger] self.derived_metrics@[d] {
                DerivedMetricDef::PowerFromNodeFlow { node, turbine } => node < nn
                    && (turbine.water_elevation is Some ==> metric_in_range(
                    turbine.water_elevation->0, nn, np, nd)),
            }
        }
    }

    /// An empty network, not yet set up.
    pub fn new() -> (r: Network)
        ensures
            r.nodes@.len() == 0,
            r.edges@.len() == 0,
            r.parameters@.len() == 0,
            r.virtual_storages@.len() == 0,
            r.derived_metrics@.len() == 0,
            !r.ready,
    {
        Network {
            nodes: Vec::new(),
            edges: Vec::new(),
            parameters: Vec::new(),
            virtual_storages: Vec::new(),
            derived_metrics: Vec::new(),
            eval_order: Vec::new(),
            ready: false,
        }
    }

    /// Add a non-storage node; returns its index.
    pub fn add_node(&mut self, name: &str, sub_name: Option<&str>, kind: NodeKind) -> (r:
        usize)
        ensures
            final(self).nodes@.len() == old(self).nodes@.len() + 1,
            r == old(self).nodes@.len(),
            final(self).nodes@.last().name@ == name@,
            (match sub_name {
                Some(sn) => final(self).nodes@.last().sub_name matches Some(s) && s@ == sn@,
                None => final(self).nodes@.last().sub_name is None,
            }),
            final(self).nodes@.last().kind == kind,
            final(self).nodes@.last().min_flow is None,
            final(self).nodes@.last().max_flow is None,
            final(self).nodes@.last().cost is None,
            final(self).nodes@.drop_last() == old(self).nodes@,
            final(self).edges@ == old(self).edges@,
            final(self).parameters@ == old(self).parameters@,
            final(self).virtual_storages@ == old(self).virtual_storages@,
            final(self).derived_metrics@ == old(self).derived_metrics@,
            !final(self).ready,
    {
        let idx = self.nodes.len();
        self.nodes.push(
            Node {
                name: name.to_owned(),
                sub_name: match sub_name {
                    Some(sn) => Some(sn.to_owned()),
                    None => None,
                },
                kind,
                min_flow: None,
                max_flow: None,
                cost: None,
                initial_volume: None,
                min_volume: None,
                max_volume: None,
            },
        );
        self.ready = false;
        proof {
            assert(self.nodes@.drop_last() =~= old(self).nodes@);
        }
        idx
    }

    /// Add a storage node; a proportional initial volume needs a
    /// configured maximum, and a missing policy is a load error.
    pub fn add_storage_node(
        &mut self,
        name: &str,
        sub_name: Option<&str>,
        initial_volume: Option<StorageInitialVolume>,
        min_volume: Option<i64>,
        max_volume: Option<i64>,
    ) -> (r: Result<usize, LoadError>)
        ensures
            match r {
                Ok(idx) => initial_volume is Some
                    && initial_volume_sane(initial_volume->0, max_volume)
                    && idx == old(self).nodes@.len()
                    && final(self).nodes@.len() == old(self).nodes@.len() + 1
                    && final(self).nodes@.last().name@ == name@
                    && final(self).nodes@.last().kind == NodeKind::Storage
                    && final(self).nodes@.last().initial_volume == initial_volume
                    && final(self).nodes@.last().min_volume == min_volume
                    && final(self).nodes@.last().max_volume == max_volume
                    && final(self).nodes@.drop_last() == old(self).nodes@
                    && !final(self).ready,
                Err(e) => (initial_volume is None
                    || !initial_volume_sane(initial_volume->0, max_volume))
                    && (e matches LoadError::MissingInitialVolume(n) && n@ == name@)
                    && *final(self) == *old(self),
            },
            final(self).edges@ == old(self).edges@,
            final(self).parameters@ == old(self).parameters@,
            final(self).virtual_storages@ == old(self).virtual_storages@,
    {
        let iv = match initial_volume {
            Some(v) => v,
            None => {
                return Err(LoadError::MissingInitialVolume(name.to_owned()));
            },
        };
        if let StorageInitialVolume::Proportional(r) = iv {
            let sane = match max_volume {
                Some(m) => m >= 0 && 0 <= r && r <= crate::RATIO_SCALE,
                None => false,
            };
            if !sane {
                return Err(LoadError::MissingInitialVolume(name.to_owned()));
            }
        }
        let idx = self.nodes.len();
        self.nodes.push(
            Node {
                name: name.to_owned(),
                sub_name: match sub_name {
                    Some(sn) => Some(sn.to_owned()),
                    None => None,
                },
                kind: NodeKind::Storage,
                min_flow: None,
                max_flow: None,
                cost: None,
                initial_volume: Some(iv),
                min_volume,
                max_volume,
            },
        );
        self.ready = false;
        proof {
            assert(self.nodes@.drop_last() =~= old(self).nodes@);
        }
        Ok(idx)
    }

    /// Find the first node with this name and sub-name.
    pub fn get_node_index_by_name(&self, name: &str, sub_name: Option<&str>) -> (r: Result<
        usize,
        LoadError,
    >)
        ensures
            match r {
                Ok(i) => 0 <= i < self.nodes@.len()
                    && node_name_matches(self.nodes@[i as int], name@, spec_sub(sub_name))
                    && forall|j: int| 0 <= j < i
                        ==> !node_name_matches(self.nodes@[j], name@, spec_sub(sub_name)),
                Err(e) => (e matches LoadError::NodeNotFound(n) && n@ == name@)
                    && forall|j: int| 0 <= j < self.nodes@.len()
                        ==> !node_name_matches(self.nodes@[j], name@, spec_sub(sub_name)),
            },
    {
        let key: String = name.to_owned();
        let sub_key: Option<String> = match sub_name {
            Some(sn) => Some(sn.to_owned()),
            None => None,
        };
        let n = self.nodes.len();
        let mut i: usize = 0;
        while i < n
            invariant
                n == self.nodes@.len(),
                key@ == name@,
                (match sub_name {
                    Some(sn) => sub_key matches Some(sk) && sk@ == sn@,
                    None => sub_key is None,
                }),
                0 <= i <= n,
                forall|j: int| 0 <= j < i
                    ==> !node_name_matches(self.nodes@[j], name@, spec_sub(sub_name)),
            decreases n - i,
        {
            let name_matches = self.nodes[i].name == key;
            let sub_matches = match (&self.nodes[i].sub_name, &sub_key) {
                (None, None) => true,
                (Some(a), Some(b)) => *a == *b,
                _ => false,
            };
            proof {
                assert((name_matches && sub_matches) == node_name_matches(
                    self.nodes@[i as int], name@, spec_sub(sub_name)));
            }
            if name_matches && sub_matches {
                return Ok(i);
            }
            i = i + 1;
        }
        Err(LoadError::NodeNotFound(key))
    }

    /// Connect two nodes by name.
    pub fn add_edge(
        &mut self,
        from_name: &str,
        from_sub: Option<&str>,
        to_name: &str,
        to_sub: Option<&str>,
    ) -> (r: Result<(), LoadError>)
        ensures
            match r {
                Ok(()) => final(self).edges@.len() == old(self).edges@.len() + 1
                    && final(self).edges@.drop_last() == old(self).edges@
                    && final(self).edges@.last().from < final(self).nodes@.len()
                    && final(self).edges@.last().to < final(self).nodes@.len()
                    && node_name_matches(
                    final(self).nodes@[final(self).edges@.last().from as int],
                    from_name@,
                    spec_sub(from_sub),
                ) && node_name_matches(
                    final(self).nodes@[final(self).edges@.last().to as int],
                    to_name@,
                    spec_sub(to_sub),
                ) && !final(self).ready,
                Err(e) => *final(self) == *old(self) && (e matches LoadError::NodeNotFound(n)
                    && ((n@ == from_name@ && forall|j: int| 0 <= j < old(self).nodes@.len()
                        ==> !node_name_matches(old(self).nodes@[j], from_name@,
                            spec_sub(from_sub)))
                        || (n@ == to_name@ && forall|j: int| 0 <= j < old(self).nodes@.len()
                        ==> !node_name_matches(old(self).nodes@[j], to_name@,
                            spec_sub(to_sub))))),
            },
            final(self).nodes@ == old(self).nodes@,
            final(self).parameters@ == old(self).parameters@,
    {
        let from = self.get_node_index_by_name(from_name, from_sub)?;
        let to = self.get_node_index_by_name(to_name, to_sub)?;
        self.edges.push(Edge { from, to });
        self.ready = false;
        proof {
            assert(self.edges@.drop_last() =~= old(self).edges@);
        }
        Ok(())
    }

    /// Register a parameter; returns its index.
    pub fn add_parameter(&mut self, p: Parameter) -> (r: usize)
        ensures
            final(self).parameters@.len() == old(self).parameters@.len() + 1,
            r == old(self).parameters@.len(),
            final(self).parameters@.last() == p,
            final(self).parameters@.drop_last() == old(self).parameters@,
            final(self).nodes@ == old(self).nodes@,
            final(self).edges@ == old(self).edges@,
            final(self).virtual_storages@ == old(self).virtual_storages@,
            final(self).derived_metrics@ == old(self).derived_metrics@,
            !final(self).ready,
    {
        let idx = self.parameters.len();
        self.parameters.push(p);
        self.ready = false;
        proof {
            assert(self.parameters@.drop_last() =~= old(self).parameters@);
        }
        idx
    }

    /// Register a derived metric; returns its index.
    pub fn add_derived_metric(&mut self, dm: DerivedMetricDef) -> (r: usize)
        ensures
            final(self).derived_metrics@.len() == old(self).derived_metrics@.len() + 1,
            r == old(self).derived_metrics@.len(),
            final(self).derived_metrics@.drop_last() == old(self).derived_metrics@,
            final(self).nodes@ == old(self).nodes@,
            final(self).edges@ == old(self).edges@,
            final(self).parameters@ == old(self).parameters@,
            final(self).virtual_storages@ == old(self).virtual_storages@,
    {
        let idx = self.derived_metrics.len();
        self.derived_metrics.push(dm);
        proof {
            assert(self.derived_metrics@.drop_last() =~= old(self).derived_metrics@);
        }
        idx
    }

    /// Add a virtual storage over member nodes. The members must exist,
    /// factors must match the members one for one, a proportional initial
    /// volume needs a maximum, and a reset day must exist in every year.
    pub fn add_virtual_storage(
        &mut self,
        name: &str,
        member_nodes: Vec<usize>,
        factors: Option<Vec<i64>>,
        initial_volume: Option<StorageInitialVolume>,
        min_volume: i64,
        max_volume: Option<i64>,
        reset: Option<VirtualStorageReset>,
    ) -> (r: Result<usize, LoadError>)
        ensures
            match r {
                Ok(idx) => idx == old(self).virtual_storages@.len()
                    && final(self).virtual_storages@.len()
                        == old(self).virtual_storages@.len() + 1
                    && final(self).virtual_storages@.drop_last()
                        == old(self).virtual_storages@
                    && {
                    let vs = final(self).virtual_storages@.last();
                    &&& vs.name@ == name@
                    &&& vs.nodes@ == member_nodes@
                    &&& (match factors {
                        Some(f) => vs.factors matches Some(g) && g@ == f@
                            && f@.len() == member_nodes@.len(),
                        None => vs.factors is None,
                    })
                    &&& initial_volume matches Some(iv) && vs.initial_volume == iv
                    &&& initial_volume_sane(vs.initial_volume, vs.max_volume)
                    &&& vs.min_volume == min_volume
                    &&& vs.max_volume == max_volume
                    &&& vs.reset == reset
                    &&& (reset matches Some(rs)
                        ==> valid_reset_day(rs.day, rs.month))
                    &&& forall|j: int| 0 <= j < member_nodes@.len()
                        ==> (#[trigger] member_nodes@[j]) < final(self).nodes@.len()
                },
                Err(e) => *final(self) == *old(self) && {
                    let policy_ok = initial_volume matches Some(iv)
                        && initial_volume_sane(iv, max_volume);
                    let factors_ok = factors matches Some(f)
                        ==> f@.len() == member_nodes@.len();
                    let reset_ok = reset matches Some(rs)
                        ==> valid_reset_day(rs.day, rs.month);
                    match e {
                        LoadError::MissingInitialVolume(n) => n@ == name@ && !policy_ok,
                        LoadError::DataLengthMismatch { expected, found } => policy_ok
                            && (factors matches Some(f) && f@.len() != member_nodes@.len()
                            && expected == member_nodes@.len() && found == f@.len()),
                        LoadError::InvalidResetDate { day, month } => policy_ok
                            && factors_ok && (reset matches Some(rs)
                            && !valid_reset_day(rs.day, rs.month) && day == rs.day
                            && month == rs.month),
                        LoadError::NodeNotFound(n) => n@ == name@ && policy_ok
                            && factors_ok && reset_ok && exists|j: int|
                            0 <= j < member_nodes@.len()
                                && (#[trigger] member_nodes@[j]) >= old(self).nodes@.len(),
                        _ => false,
                    }
                },
            },
            final(self).nodes@ == old(self).nodes@,
            final(self).edges@ == old(self).edges@,
            final(self).parameters@ == old(self).parameters@,
    {
        let iv = match initial_volume {
            Some(v) => v,
            None => {
                return Err(LoadError::MissingInitialVolume(name.to_owned()));
            },
        };
        if let StorageInitialVolume::Proportional(r) = iv {
            let sane = match max_volume {
                Some(m) => m >= 0 && 0 <= r && r <= crate::RATIO_SCALE,
                None => false,
            };
            if !sane {
                return Err(LoadError::MissingInitialVolume(name.to_owned()));
            }
        }
        if let Some(f) = &factors {
            if f.len() != member_nodes.len() {
                return Err(
                    LoadError::DataLengthMismatch {
                        expected: member_nodes.len(),
                        found: f.len(),
                    },
                );
            }
        }
        if let Some(rs) = &reset {
            let ok = 1 <= rs.month && rs.month <= 12 && 1 <= rs.day
                && rs.day <= crate::timestep::days_in_month(1, rs.month);
            if !ok {
                return Err(LoadError::InvalidResetDate { day: rs.day, month: rs.month });
            }
        }
        let n_nodes = self.nodes.len();
        let mut j: usize = 0;
        while j < member_nodes.len()
            invariant
                n_nodes == self.nodes@.len(),
                *self == *old(self),
                initial_volume == Some(iv),
                initial_volume_sane(iv, max_volume),
                factors matches Some(f) ==> f@.len() == member_nodes@.len(),
                reset matches Some(rs) ==> valid_reset_day(rs.day, rs.month),
                0 <= j <= member_nodes@.len(),
                forall|t: int| 0 <= t < j
                    ==> (#[trigger] member_nodes@[t]) < n_nodes,
            decreases member_nodes@.len() - j,
        {
            if member_nodes[j] >= n_nodes {
                proof {
                    assert(member_nodes@[j as int] >= old(self).nodes@.len());
                }
                return Err(LoadError::NodeNotFound(name.to_owned()));
            }
            j = j + 1;
        }
        let idx = self.virtual_storages.len();
        self.virtual_storages.push(
            VirtualStorage {
                name: name.to_owned(),
                nodes: member_nodes,
                factors,
                initial_volume: iv,
                min_volume,
                max_volume,
                reset,
            },
        );
        proof {
            assert(self.virtual_storages@.drop_last() =~= old(self).virtual_storages@);
        }
        Ok(idx)
    }

    /// Set a node's minimum-flow bound.
    pub fn set_node_min_flow(&mut self, name: &str, sub_name: Option<&str>, value: Metric)
        -> (r: Result<(), LoadError>)
        ensures
            set_bound_post(*old(self), *final(self), r, name@, spec_sub(sub_name)),
            match r {
                Ok(()) => exists|i: int| #![auto] 0 <= i < old(self).nodes@.len()
                    && node_name_matches(old(self).nodes@[i], name@, spec_sub(sub_name))
                    && final(self).nodes@[i].min_flow == Some(value)
                    && final(self).nodes@[i].max_flow == old(self).nodes@[i].max_flow
                    && final(self).nodes@[i].cost == old(self).nodes@[i].cost,
                Err(_) => true,
            },
    {
        let i = self.get_node_index_by_name(name, sub_name)?;
        let mut node = self.nodes[i].clone_node();
        node.min_flow = Some(value);
        self.nodes.set(i, node);
        proof {
            assert(set_bound_frame(*old(self), *self, i as int));
        }
        Ok(())
    }

    /// Set a node's maximum-flow bound.
    pub fn set_node_max_flow(&mut self, name: &str, sub_name: Option<&str>, value: Metric)
        -> (r: Result<(), LoadError>)
        ensures
            set_bound_post(*old(self), *final(self), r, name@, spec_sub(sub_name)),
            match r {
                Ok(()) => exists|i: int| #![auto] 0 <= i < old(self).nodes@.len()
                    && node_name_matches(old(self).nodes@[i], name@, spec_sub(sub_name))
                    && final(self).nodes@[i].max_flow == Some(value)
                    && final(self).nodes@[i].min_flow == old(self).nodes@[i].min_flow
                    && final(self).nodes@[i].cost == old(self).nodes@[i].cost,
                Err(_) => true,
            },
    {
        let i = self.get_node_index_by_name(name, sub_name)?;
        let mut node = self.nodes[i].clone_node();
        node.max_flow = Some(value);
        self.nodes.set(i, node);
        proof {
            assert(set_bound_frame(*old(self), *self, i as int));
        }
        Ok(())
    }

    /// Set a node's cost.
    pub fn set_node_cost(&mut self, name: &str, sub_name: Option<&str>, value: Metric) -> (r:
        Result<(), LoadError>)
        ensures
            set_bound_post(*old(self), *final(self), r, name@, spec_sub(sub_name)),
            match r {
                Ok(()) => exists|i: int| #![auto] 0 <= i < old(self).nodes@.len()
                    && node_name_matches(old(self).nodes@[i], name@, spec_sub(sub_name))
                    && final(self).nodes@[i].cost == Some(value)
                    && final(self).nodes@[i].min_flow == old(self).nodes@[i].min_flow
                    && final(self).nodes@[i].max_flow == old(self).nodes@[i].max_flow,
                Err(_) => true,
            },
    {
        let i = self.get_node_index_by_name(name, sub_name)?;
        let mut node = self.nodes[i].clone_node();
        node.cost = Some(value);
        self.nodes.set(i, node);
        proof {
            assert(set_bound_frame(*old(self), *self, i as int));
        }
        Ok(())
    }

    /// Validate the parameter graph's references and compute the
    /// evaluation order: after a successful setup the network is
    /// [`Network::well_formed`] and ready to run.
    pub fn setup(&mut self) -> (r: Result<(), LoadError>)
        requires
            forall|e: int| 0 <= e < old(self).edges@.len()
                ==> (#[trigger] old(self).edges@[e]).from < old(self).nodes@.len()
                    && old(self).edges@[e].to < old(self).nodes@.len(),
            forall|v: int, j: int| 0 <= v < old(self).virtual_storages@.len()
                && 0 <= j < old(self).virtual_storages@[v].nodes@.len()
                ==> (#[trigger] old(self).virtual_storages@[v].nodes@[j])
                    < old(self).nodes@.len(),
            forall|v: int| 0 <= v < old(self).virtual_storages@.len()
                && (#[trigger] old(self).virtual_storages@[v]).factors is Some
                ==> old(self).virtual_storages@[v].factors->0@.len()
                    == old(self).virtual_storages@[v].nodes@.len(),
        ensures
            final(self).nodes@ == old(self).nodes@,
            final(self).edges@ == old(self).edges@,
            final(self).parameters@ == old(self).parameters@,
            final(self).virtual_storages@ == old(self).virtual_storages@,
            final(self).derived_metrics@ == old(self).derived_metrics@,
            match r {
                Ok(()) => final(self).well_formed(),
                Err(e) => !final(self).ready && match e {
                    LoadError::ParameterNotFound(_) | LoadError::NodeNotFound(_) =>
                        !final(self).all_references_resolve(),
                    LoadError::CircularParameterReference(names) => names@.len() > 0
                        && exists|stuck: Seq<usize>|
                            #[trigger] stuck_set(final(self).parameters@, stuck)
                            && names@.len() == stuck.len()
                            && forall|k: int| 0 <= k < stuck.len()
                                ==> names@[k]@ == spec_name(
                                final(self).parameters@[stuck[k] as int]),
                    _ => false,
                },
            },
    {
        self.ready = false;
        let nn = self.nodes.len();
        let nd = self.derived_metrics.len();
        let np = self.parameters.len();
        // Every metric of every parameter must name an existing entity.
        let mut p: usize = 0;
        while p < np
            invariant
                np == self.parameters@.len(),
                nn == self.nodes@.len(),
                nd == self.derived_metrics@.len(),
                0 <= p <= np,
                self.nodes@ == old(self).nodes@,
                self.edges@ == old(self).edges@,
                self.parameters@ == old(self).parameters@,
                self.virtual_storages@ == old(self).virtual_storages@,
                self.derived_metrics@ == old(self).derived_metrics@,
                !self.ready,
                forall|q: int, k: int| 0 <= q < p
                    && 0 <= k < spec_metrics(self.parameters@[q]).len()
                    ==> metric_in_range(#[trigger] spec_metrics(self.parameters@[q])[k],
                        nn as int, np as int, nd as int),
            decreases np - p,
        {
            let ms = self.parameters[p].metrics();
            let mut k: usize = 0;
            while k < ms.len()
                invariant
                    np == self.parameters@.len(),
                    nn == self.nodes@.len(),
                    nd == self.derived_metrics@.len(),
                    p < np,
                    self.nodes@ == old(self).nodes@,
                    self.edges@ == old(self).edges@,
                    self.parameters@ == old(self).parameters@,
                    self.virtual_storages@ == old(self).virtual_storages@,
                    self.derived_metrics@ == old(self).derived_metrics@,
                    !self.ready,
                    ms@ == spec_metrics(self.parameters@[p as int]),
                    0 <= k <= ms@.len(),
                    forall|u: int| 0 <= u < k ==> metric_in_range(#[trigger] ms@[u],
                        nn as int, np as int, nd as int),
                decreases ms@.len() - k,
            {
                match ms[k].check_range(nn, np, nd) {
                    DanglingRef::NoneDangling => {},
                    DanglingRef::Node => {
                        proof {
                            assert(!metric_in_range(spec_metrics(
                                self.parameters@[p as int])[k as int], nn as int,
                                np as int, nd as int));
                            assert(!self.all_references_resolve());
                        }
                        return Err(
                            LoadError::NodeNotFound(self.parameters[p].name().clone()),
                        );
                    },
                    _ => {
                        proof {
                            assert(!metric_in_range(spec_metrics(
                                self.parameters@[p as int])[k as int], nn as int,
                                np as int, nd as int));
                            assert(!self.all_references_resolve());
                        }
                        return Err(
                            LoadError::ParameterNotFound(self.parameters[p].name().clone()),
                        );
                    },
                }
                k = k + 1;
            }
            p = p + 1;
        }
        // Node bounds and costs must resolve likewise.
        let mut i: usize = 0;
        while i < nn
            invariant
                np == self.parameters@.len(),
                nn == self.nodes@.len(),
                nd == self.derived_metrics@.len(),
                0 <= i <= nn,
                self.nodes@ == old(self).nodes@,
                self.edges@ == old(self).edges@,
                self.parameters@ == old(self).parameters@,
                self.virtual_storages@ == old(self).virtual_storages@,
                self.derived_metrics@ == old(self).derived_metrics@,
                !self.ready,
                forall|t: int| 0 <= t < i ==> {
                    let node = #[trigger] self.nodes@[t];
                    &&& (node.min_flow is Some ==> metric_in_range(node.min_flow->0,
                        nn as int, np as int, nd as int))
                    &&& (node.max_flow is Some ==> metric_in_range(node.max_flow->0,
                        nn as int, np as int, nd as int))
                    &&& (node.cost is Some ==> metric_in_range(node.cost->0, nn as int,
                        np as int, nd as int))
                },
            decreases nn - i,
        {
            let node = &self.nodes[i];
            let checks = [node.min_flow, node.max_flow, node.cost];
            let mut c: usize = 0;
            while c < 3
                invariant
                    nn == self.nodes@.len(),
                    np == self.parameters@.len(),
                    nd == self.derived_metrics@.len(),
                    i < nn,
                    self.nodes@ == old(self).nodes@,
                    self.edges@ == old(self).edges@,
                    self.parameters@ == old(self).parameters@,
                    self.virtual_storages@ == old(self).virtual_storages@,
                    self.derived_metrics@ == old(self).derived_metrics@,
                    !self.ready,
                    checks@.len() == 3,
                    checks@[0] == self.nodes@[i as int].min_flow,
                    checks@[1] == self.nodes@[i as int].max_flow,
                    checks@[2] == self.nodes@[i as int].cost,
                    0 <= c <= 3,
                    forall|u: int| 0 <= u < c && (#[trigger] checks@[u]) is Some
                        ==> metric_in_range(checks@[u]->0, nn as int, np as int, nd as int),
                decreases 3 - c,
            {
                if let Some(m) = checks[c] {
                    if !matches!(m.check_range(nn, np, nd), DanglingRef::NoneDangling) {
                        proof {
                            let bad = self.nodes@[i as int];
                            if c == 0 {
                                assert(bad.min_flow is Some && !metric_in_range(
                                    bad.min_flow->0, nn as int, np as int, nd as int));
                            } else if c == 1 {
                                assert(bad.max_flow is Some && !metric_in_range(
                                    bad.max_flow->0, nn as int, np as int, nd as int));
                            } else {
                                assert(bad.cost is Some && !metric_in_range(bad.cost->0,
                                    nn as int, np as int, nd as int));
                            }
                            assert(!self.all_references_resolve());
                        }
                        return Err(LoadError::NodeNotFound(node.name.clone()));
                    }
                }
                c = c + 1;
            }
            i = i + 1;
        }
        // Derived metrics read an existing node and resolvable inputs.
        let mut d: usize = 0;
        while d < nd
            invariant
                np == self.parameters@.len(),
                nn == self.nodes@.len(),
                nd == self.derived_metrics@.len(),
                0 <= d <= nd,
                self.nodes@ == old(self).nodes@,
                self.edges@ == old(self).edges@,
                self.parameters@ == old(self).parameters@,
                self.virtual_storages@ == old(self).virtual_storages@,
                self.derived_metrics@ == old(self).derived_metrics@,
                !self.ready,
                forall|t: int| 0 <= t < d ==> {
                    match #[trigger] self.derived_metrics@[t] {
                        DerivedMetricDef::PowerFromNodeFlow { node, turbine } => node
                            < nn as int && (turbine.water_elevation is Some
                            ==> metric_in_range(turbine.water_elevation->0, nn as int,
                                np as int, nd as int)),
                    }
                },
            decreases nd - d,
        {
            match &self.derived_metrics[d] {
                DerivedMetricDef::PowerFromNodeFlow { node, turbine } => {
                    if *node >= nn {
                        proof {
                            let dm = self.derived_metrics@[d as int];
                            assert(match dm {
                                DerivedMetricDef::PowerFromNodeFlow { node: n2, turbine: _ }
                                    => n2 >= nn,
                            });
                            assert(!self.all_references_resolve());
                        }
                        return Err(LoadError::NodeNotFound("derived metric".to_owned()));
                    }
                    if let Some(m) = turbine.water_elevation {
                        if !matches!(m.check_range(nn, np, nd), DanglingRef::NoneDangling) {
                            proof {
                                assert(!self.all_references_resolve());
                            }
                            return Err(
                                LoadError::ParameterNotFound("derived metric".to_owned()),
                            );
                        }
                    }
                },
            }
            d = d + 1;
        }
        // Every parameter reference must name a registered parameter.
        let n = self.parameters.len();
        let mut p: usize = 0;
        while p < n
            invariant
                n == self.parameters@.len(),
                n == np,
                nn == self.nodes@.len(),
                nd == self.derived_metrics@.len(),
                forall|q: int, k: int| 0 <= q < np
                    && 0 <= k < spec_metrics(self.parameters@[q]).len()
                    ==> metric_in_range(#[trigger] spec_metrics(self.parameters@[q])[k],
                        nn as int, np as int, nd as int),
                0 <= p <= n,
                self.nodes@ == old(self).nodes@,
                self.edges@ == old(self).edges@,
                self.parameters@ == old(self).parameters@,
                self.virtual_storages@ == old(self).virtual_storages@,
                self.derived_metrics@ == old(self).derived_metrics@,
                !self.ready,
                forall|q: int, d: usize| 0 <= q < p && #[trigger] is_dep(self.parameters@[q],
                    d) ==> d < n,
            decreases n - p,
        {
            let ds = self.parameters[p].dependencies();
            let mut t: usize = 0;
            while t < ds.len()
                invariant
                    n == self.parameters@.len(),
                    n == np,
                    nn == self.nodes@.len(),
                    nd == self.derived_metrics@.len(),
                    forall|q: int, k: int| 0 <= q < np
                        && 0 <= k < spec_metrics(self.parameters@[q]).len()
                        ==> metric_in_range(#[trigger] spec_metrics(self.parameters@[q])[k],
                            nn as int, np as int, nd as int),
                    p < n,
                    self.nodes@ == old(self).nodes@,
                    self.edges@ == old(self).edges@,
                    self.parameters@ == old(self).parameters@,
                    self.virtual_storages@ == old(self).virtual_storages@,
                    self.derived_metrics@ == old(self).derived_metrics@,
                    !self.ready,
                    forall|d: usize| ds@.contains(d) <==> #[trigger] is_dep(
                        self.parameters@[p as int], d),
                    0 <= t <= ds@.len(),
                    forall|u: int| 0 <= u < t ==> (#[trigger] ds@[u]) < n,
                decreases ds@.len() - t,
            {
                if ds[t] >= n {
                    // Unreachable: every parameter reference was just
                    // checked against the registered count.
                    proof {
                        assert(ds@.contains(ds@[t as int]));
                        assert(is_dep(self.parameters@[p as int], ds@[t as int]));
                        lemma_dep_has_metric(self.parameters@[p as int], ds@[t as int]);
                        let k = choose|k: int| 0 <= k
                            < spec_metrics(self.parameters@[p as int]).len()
                            && metric_param_dep(#[trigger] spec_metrics(
                            self.parameters@[p as int])[k]) == Some(ds@[t as int]);
                        assert(metric_in_range(spec_metrics(self.parameters@[p as int])[k],
                            nn as int, np as int, nd as int));
                        assert(false);
                    }
                    return Err(
                        LoadError::ParameterNotFound(self.parameters[p].name().clone()),
                    );
                }
                t = t + 1;
            }
            proof {
                assert forall|d: usize| #[trigger] is_dep(self.parameters@[p as int], d)
                    implies d < n by {
                    assert(ds@.contains(d));
                    let u = choose|u: int| 0 <= u < ds@.len() && ds@[u] == d;
                }
            }
            p = p + 1;
        }
        proof {
            assert(deps_in_range(self.parameters@));
        }
        let order = match compute_evaluation_order(&self.parameters) {
            Ok(o) => o,
            Err(e) => {
                return Err(e);
            },
        };
        self.eval_order = order;
        self.ready = true;
        Ok(())
    }
}

impl Node {
    /// An explicit copy of the node's configuration.
    fn clone_node(&self) -> (r: Node)
        ensures
            r == *self,
    {
        let r = Node {
            name: clone_string(&self.name),
            sub_name: match &self.sub_name {
                Some(s) => Some(clone_string(s)),
                None => None,
            },
            kind: self.kind,
            min_flow: self.min_flow,
            max_flow: self.max_flow,
            cost: self.cost,
            initial_volume: self.initial_volume,
            min_volume: self.min_volume,
            max_volume: self.max_volume,
        };
        proof {
            assert(r.name == self.name);
            assert(r.sub_name == self.sub_name);
        }
        r
    }
}

fn clone_string(s: &String) -> (r: String)
    ensures
        r == *s,
{
    s.clone()
}

/// Whether a node carries the given name and sub-name.
pub open spec fn node_name_matches(node: Node, name: Seq<char>, sub: Option<Seq<char>>) -> bool {
    &&& node.name@ == name
    &&& (match (node.sub_name, sub) {
        (None, None) => true,
        (Some(a), Some(b)) => a@ == b,
        _ => false,
    })
}

/// The view of an optional borrowed name.
pub open spec fn spec_sub(sub: Option<&str>) -> Option<Seq<char>> {
    match sub {
        Some(s) => Some(s@),
        None => None,
    }
}

/// A bound update succeeded on the first matching node and left every
/// other part of the network alone.
pub open spec fn set_bound_post(
    pre: Network,
    post: Network,
    r: Result<(), LoadError>,
    name: Seq<char>,
    sub: Option<Seq<char>>,
) -> bool {
    &&& post.edges@ == pre.edges@
    &&& post.parameters@ == pre.parameters@
    &&& post.virtual_storages@ == pre.virtual_storages@
    &&& post.derived_metrics@ == pre.derived_metrics@
    &&& post.nodes@.len() == pre.nodes@.len()
    &&& (match r {
        Ok(()) => exists|i: int| #![auto] 0 <= i < pre.nodes@.len()
            && node_name_matches(pre.nodes@[i], name, sub)
            && (forall|j: int| 0 <= j < pre.nodes@.len() && j != i
                ==> post.nodes@[j] == pre.nodes@[j])
            && post.nodes@[i].name@ == pre.nodes@[i].name@
            && post.nodes@[i].sub_name == pre.nodes@[i].sub_name
            && post.nodes@[i].kind == pre.nodes@[i].kind,
        Err(e) => post == pre && (e matches LoadError::NodeNotFound(n) && n@ == name)
            && forall|j: int| 0 <= j < pre.nodes@.len()
                ==> !node_name_matches(pre.nodes@[j], name, sub),
    })
}

/// Only node `i` changed, and only in its bound fields.
pub open spec fn set_bound_frame(pre: Network, post: Network, i: int) -> bool {
    &&& post.nodes@.len() == pre.nodes@.len()
    &&& forall|j: int| 0 <= j < pre.nodes@.len() && j != i
        ==> post.nodes@[j] == pre.nodes@[j]
}

} // verus!
