//! Per-scenario mutable state: solved flows, storage volumes, parameter
//! values for the current timestep and persisted parameter memory.
//!
//! A `State` is owned exclusively by one scenario; nothing in it is shared
//! across scenarios.

use vstd::prelude::*;
use crate::timestep::Date;

verus! {

/// The persisted ring buffer of a delay parameter: the values observed in
/// the most recent `buffer.len()` timesteps, with `pos` the slot holding
/// the oldest one.
#[derive(Clone, Debug)]
pub struct DelayMemory {
    pub buffer: Vec<i64>,
    pub pos: usize,
}

/// Private internal memory of one parameter for one scenario, created on
/// first use and persisted across timesteps.
#[derive(Clone, Debug)]
pub enum ParameterMemory {
    Empty,
    Delay(DelayMemory),
}

/// State of one scenario: current network flows and volumes, this
/// timestep's parameter values, and per-parameter persisted memory.
#[derive(Clone, Debug)]
pub struct State {
    pub node_in_flow: Vec<i64>,
    pub node_out_flow: Vec<i64>,
    pub edge_flow: Vec<i64>,
    pub storage_volume: Vec<i64>,
    pub virtual_storage_volume: Vec<i64>,
    pub virtual_storage_next_reset: Vec<Option<Date>>,
    pub parameter_values: Vec<Option<i64>>,
    pub parameter_memory: Vec<ParameterMemory>,
    pub derived_values: Vec<Option<i64>>,
}

impl State {
    /// Dimensions match the network the state was allocated for.
    pub open spec fn shape(
        &self,
        n_nodes: int,
        n_edges: int,
        n_virtual: int,
        n_params: int,
        n_derived: int,
    ) -> bool {
        &&& self.node_in_flow@.len() == n_nodes
        &&& self.node_out_flow@.len() == n_nodes
        &&& self.storage_volume@.len() == n_nodes
        &&& self.edge_flow@.len() == n_edges
        &&& self.virtual_storage_volume@.len() == n_virtual
        &&& self.virtual_storage_next_reset@.len() == n_virtual
        &&& self.parameter_values@.len() == n_params
        &&& self.parameter_memory@.len() == n_params
        &&& self.derived_values@.len() == n_derived
    }

    /// A fresh state with zero flows and volumes, no parameter computed
    /// and no parameter memory.
    pub fn new(
        n_nodes: usize,
        n_edges: usize,
        n_virtual: usize,
        n_params: usize,
        n_derived: usize,
    ) -> (r: State)
        ensures
            r.shape(n_nodes as int, n_edges as int, n_virtual as int, n_params as int,
                n_derived as int),
            forall|i: int| 0 <= i < n_nodes ==> r.node_in_flow@[i] == 0,
            forall|i: int| 0 <= i < n_nodes ==> r.node_out_flow@[i] == 0,
            forall|i: int| 0 <= i < n_nodes ==> r.storage_volume@[i] == 0,
            forall|i: int| 0 <= i < n_edges ==> r.edge_flow@[i] == 0,
            forall|i: int| 0 <= i < n_virtual ==> r.virtual_storage_volume@[i] == 0,
            forall|i: int| 0 <= i < n_virtual
                ==> r.virtual_storage_next_reset@[i] is None,
            forall|i: int| 0 <= i < n_params ==> r.parameter_values@[i] is None,
            forall|i: int| 0 <= i < n_params
                ==> r.parameter_memory@[i] is Empty,
            forall|i: int| 0 <= i < n_derived ==> r.derived_values@[i] is None,
    {
        State {
            node_in_flow: zero_vec(n_nodes),
            node_out_flow: zero_vec(n_nodes),
            edge_flow: zero_vec(n_edges),
            storage_volume: zero_vec(n_nodes),
            virtual_storage_volume: zero_vec(n_virtual),
            virtual_storage_next_reset: fill_none_date(n_virtual),
            parameter_values: fill_none_i64(n_params),
            parameter_memory: fill_empty_memory(n_params),
            derived_values: fill_none_i64(n_derived),
        }
    }

    /// Forget this timestep's parameter and derived-metric values; flows,
    /// volumes and parameter memory are kept.
    pub fn clear_timestep_values(&mut self)
        ensures
            final(self).parameter_values@.len() == old(self).parameter_values@.len(),
            forall|i: int| 0 <= i < final(self).parameter_values@.len()
                ==> final(self).parameter_values@[i] is None,
            final(self).derived_values@.len() == old(self).derived_values@.len(),
            forall|i: int| 0 <= i < final(self).derived_values@.len()
                ==> final(self).derived_values@[i] is None,
            final(self).node_in_flow@ == old(self).node_in_flow@,
            final(self).node_out_flow@ == old(self).node_out_flow@,
            final(self).edge_flow@ == old(self).edge_flow@,
            final(self).storage_volume@ == old(self).storage_volume@,
            final(self).virtual_storage_volume@ == old(self).virtual_storage_volume@,
            final(self).virtual_storage_next_reset@
                == old(self).virtual_storage_next_reset@,
            final(self).parameter_memory@ == old(self).parameter_memory@,
    {
        let n_params = self.parameter_values.len();
        self.parameter_values = fill_none_i64(n_params);
        let n_derived = self.derived_values.len();
        self.derived_values = fill_none_i64(n_derived);
    }
}

fn zero_vec(n: usize) -> (r: Vec<i64>)
    ensures
        r@.len() == n,
        forall|i: int| 0 <= i < n ==> r@[i] == 0,
{
    let mut v: Vec<i64> = Vec::new();
    let mut i: usize = 0;
    while i < n
        invariant
            0 <= i <= n,
            v@.len() == i,
            forall|t: int| 0 <= t < i ==> v@[t] == 0,
        decreases n - i,
    {
        v.push(0);
        i = i + 1;
    }
    v
}

fn fill_none_i64(n: usize) -> (r: Vec<Option<i64>>)
    ensures
        r@.len() == n,
        forall|i: int| 0 <= i < n ==> r@[i] is None,
{
    let mut v: Vec<Option<i64>> = Vec::new();
    let mut i: usize = 0;
    while i < n
        invariant
            0 <= i <= n,
            v@.len() == i,
            forall|t: int| 0 <= t < i ==> v@[t] is None,
        decreases n - i,
    {
        v.push(None);
        i = i + 1;
    }
    v
}

fn fill_none_date(n: usize) -> (r: Vec<Option<Date>>)
    ensures
        r@.len() == n,
        forall|i: int| 0 <= i < n ==> r@[i] is None,
{
    let mut v: Vec<Option<Date>> = Vec::new();
    let mut i: usize = 0;
    while i < n
        invariant
            0 <= i <= n,
            v@.len() == i,
            forall|t: int| 0 <= t < i ==> v@[t] is None,
        decreases n - i,
    {
        v.push(None);
        i = i + 1;
    }
    v
}

fn fill_empty_memory(n: usize) -> (r: Vec<ParameterMemory>)
    ensures
        r@.len() == n,
        forall|i: int| 0 <= i < n ==> r@[i] is Empty,
{
    let mut v: Vec<ParameterMemory> = Vec::new();
    let mut i: usize = 0;
    while i < n
        invariant
            0 <= i <= n,
            v@.len() == i,
            forall|t: int| 0 <= t < i ==> v@[t] is Empty,
        decreases n - i,
    {
        v.push(ParameterMemory::Empty);
        i = i + 1;
    }
    v
}

} // verus!
