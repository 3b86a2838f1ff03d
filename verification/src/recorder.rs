//! An in-memory tabular recorder: per timestep and scenario it reads a
//! fixed list of metrics from the committed state and stores them, to be
//! taken out when the run finalises.

use vstd::prelude::*;
use crate::errors::RecorderError;
use crate::metric::{Metric, metric_ok, metric_value};
use crate::state::State;

verus! {

/// Records a fixed list of named metrics over a whole run. Values are
/// laid out flat: timestep-major, then metric, then scenario.
pub struct MemoryRecorder {
    pub name: String,
    pub metrics: Vec<(Metric, (String, Option<String>))>,
    pub n_scenarios: usize,
    pub n_timesteps: usize,
    pub data: Vec<i64>,
    pub initialised: bool,
}

impl MemoryRecorder {
    /// The flat index of one cell.
    pub open spec fn cell(&self, t: int, m: int, s: int) -> int {
        t * (self.metrics@.len() * self.n_scenarios) + m * self.n_scenarios + s
    }

    /// The recorder's storage matches its configured dimensions.
    pub open spec fn allocated(&self) -> bool {
        &&& self.initialised
        &&& self.data@.len() == self.n_timesteps * self.metrics@.len() * self.n_scenarios
    }

    /// The allocation size the configured dimensions call for, when it
    /// is representable.
    fn expected_len(&self) -> (r: Option<usize>)
        ensures
            match r {
                Some(v) => v == self.n_timesteps * self.metrics@.len() * self.n_scenarios,
                None => self.n_timesteps * self.metrics@.len() * self.n_scenarios
                    > usize::MAX,
            },
    {
        let nt = self.n_timesteps;
        let nm = self.metrics.len();
        let ns = self.n_scenarios;
        if nt == 0 {
            proof {
                vstd::arithmetic::mul::lemma_mul_basics(nm as int);
                assert(0int * (nm as int) == 0);
                vstd::arithmetic::mul::lemma_mul_basics(ns as int);
            }
            return Some(0);
        }
        let nmns = match nm.checked_mul(ns) {
            Some(v) => v,
            None => {
                proof {
                    vstd::arithmetic::mul::lemma_mul_inequality(1, nt as int,
                        (nm as int) * (ns as int));
                    vstd::arithmetic::mul::lemma_mul_is_commutative(nt as int,
                        (nm as int) * (ns as int));
                    vstd::arithmetic::mul::lemma_mul_is_associative(nt as int, nm as int,
                        ns as int);
                    vstd::arithmetic::mul::lemma_mul_nonnegative(nm as int, ns as int);
                }
                return None;
            },
        };
        proof {
            vstd::arithmetic::mul::lemma_mul_is_associative(nt as int, nm as int, ns as int);
        }
        match nt.checked_mul(nmns) {
            Some(v) => Some(v),
            None => None,
        }
    }

    pub fn new(name: &str, metrics: Vec<(Metric, (String, Option<String>))>) -> (r: Self)
        ensures
            r.name@ == name@,
            r.metrics@ == metrics@,
            !r.initialised,
    {
        MemoryRecorder {
            name: name.to_owned(),
            metrics,
            n_scenarios: 0,
            n_timesteps: 0,
            data: Vec::new(),
            initialised: false,
        }
    }

    /// Allocate storage for a run over the given numbers of timesteps and
    /// scenarios; every cell starts at zero.
    pub fn setup(&mut self, n_timesteps: usize, n_scenarios: usize)
        requires
            n_timesteps * old(self).metrics@.len() * n_scenarios <= usize::MAX,
        ensures
            final(self).allocated(),
            final(self).metrics@ == old(self).metrics@,
            final(self).name@ == old(self).name@,
            final(self).n_timesteps == n_timesteps,
            final(self).n_scenarios == n_scenarios,
            forall|i: int| 0 <= i < final(self).data@.len()
                ==> (#[trigger] final(self).data@[i]) == 0,
    {
        self.n_timesteps = n_timesteps;
        self.n_scenarios = n_scenarios;
        let total = match self.expected_len() {
            Some(v) => v,
            None => {
                proof {
                    assert(false);
                }
                0
            },
        };
        let mut data: Vec<i64> = Vec::new();
        let mut i: usize = 0;
        while i < total
            invariant
                0 <= i <= total,
                data@.len() == i,
                forall|t: int| 0 <= t < i ==> (#[trigger] data@[t]) == 0,
            decreases total - i,
        {
            data.push(0);
            i = i + 1;
        }
        self.data = data;
        self.initialised = true;
    }

    /// Record every metric for one timestep and scenario from the current
    /// state. Fails without effect when not set up or when a metric
    /// cannot be resolved.
    pub fn save(&mut self, timestep_index: usize, scenario_index: usize, state: &State) -> (r:
        Result<(), RecorderError>)
        requires
            timestep_index < old(self).n_timesteps,
            scenario_index < old(self).n_scenarios,
        ensures
            final(self).metrics@ == old(self).metrics@,
            final(self).name@ == old(self).name@,
            final(self).n_timesteps == old(self).n_timesteps,
            final(self).n_scenarios == old(self).n_scenarios,
            final(self).initialised == old(self).initialised,
            match r {
                Ok(()) => old(self).allocated() && (forall|m: int|
                    0 <= m < old(self).metrics@.len()
                    ==> metric_ok((#[trigger] old(self).metrics@[m]).0, *state))
                    && final(self).data@.len() == old(self).data@.len()
                    && (forall|m: int| 0 <= m < old(self).metrics@.len()
                    ==> final(self).data@[old(self).cell(timestep_index as int, m,
                        scenario_index as int)] == metric_value(
                        (#[trigger] old(self).metrics@[m]).0,
                        *state,
                    ))
                    && (forall|i: int| 0 <= i < old(self).data@.len()
                    && !(exists|m: int| 0 <= m < old(self).metrics@.len()
                        && i == old(self).cell(timestep_index as int, m,
                            scenario_index as int))
                    ==> (#[trigger] final(self).data@[i]) == old(self).data@[i]),
                Err(RecorderError::NotInitialised) => !old(self).allocated()
                    && *final(self) == *old(self),
                Err(RecorderError::MetricNotAvailable) => old(self).allocated()
                    && (exists|m: int| 0 <= m < old(self).metrics@.len()
                        && !metric_ok((#[trigger] old(self).metrics@[m]).0, *state)),
            },
    {
        let dlen = self.data.len();
        let expected = self.expected_len();
        let alloc_ok = match expected {
            Some(v) => self.initialised && dlen == v,
            None => false,
        };
        if !alloc_ok {
            proof {
                assert(!old(self).allocated());
            }
            return Err(RecorderError::NotInitialised);
        }
        let nm = self.metrics.len();
        let ghost pre = *self;
        let mut m: usize = 0;
        while m < nm
            invariant
                nm == self.metrics@.len(),
                self.metrics@ == pre.metrics@,
                self.name@ == pre.name@,
                self.n_timesteps == pre.n_timesteps,
                self.n_scenarios == pre.n_scenarios,
                self.initialised == pre.initialised,
                pre == *old(self),
                pre.allocated(),
                pre.data@.len() <= usize::MAX,
                self.data@.len() == pre.data@.len(),
                timestep_index < self.n_timesteps,
                scenario_index < self.n_scenarios,
                0 <= m <= nm,
                forall|u: int| 0 <= u < m
                    ==> metric_ok((#[trigger] pre.metrics@[u]).0, *state)
                        && self.data@[pre.cell(timestep_index as int, u,
                        scenario_index as int)] == metric_value(pre.metrics@[u].0, *state),
                forall|i: int| 0 <= i < pre.data@.len()
                    && !(exists|u: int| 0 <= u < m
                        && i == pre.cell(timestep_index as int, u, scenario_index as int))
                    ==> (#[trigger] self.data@[i]) == pre.data@[i],
            decreases nm - m,
        {
            let v = match self.metrics[m].0.get_value(state) {
                Ok(v) => v,
                Err(_) => {
                    proof {
                        assert(!metric_ok(pre.metrics@[m as int].0, *state));
                    }
                    return Err(RecorderError::MetricNotAvailable);
                },
            };
            proof {
                lemma_cell_in_range(pre.n_timesteps as int, nm as int,
                    pre.n_scenarios as int, timestep_index as int, m as int,
                    scenario_index as int);
                assert(pre.cell(timestep_index as int, m as int, scenario_index as int)
                    < self.data@.len());
            }
            proof {
                // Every partial of the flat index stays within the
                // allocation.
                let nti = pre.n_timesteps as int;
                let nmi = nm as int;
                let nsi = pre.n_scenarios as int;
                vstd::arithmetic::mul::lemma_mul_nonnegative(nmi, nsi);
                vstd::arithmetic::mul::lemma_mul_nonnegative(timestep_index as int,
                    nmi * nsi);
                vstd::arithmetic::mul::lemma_mul_nonnegative(m as int, nsi);
                vstd::arithmetic::mul::lemma_mul_is_associative(nti, nmi, nsi);
                vstd::arithmetic::mul::lemma_mul_inequality(1, nti, nmi * nsi);
                vstd::arithmetic::mul::lemma_mul_is_commutative(nti, nmi * nsi);
                assert(nmi * nsi <= pre.data@.len());
            }
            let idx = timestep_index * (nm * self.n_scenarios) + m * self.n_scenarios
                + scenario_index;
            let ghost prev_data = self.data@;
            self.data.set(idx, v);
            proof {
                assert forall|i: int| 0 <= i < pre.data@.len()
                    && !(exists|u: int| 0 <= u < m + 1
                        && i == pre.cell(timestep_index as int, u, scenario_index as int))
                    implies (#[trigger] self.data@[i]) == pre.data@[i] by {
                    assert(i != pre.cell(timestep_index as int, m as int,
                        scenario_index as int));
                    assert(self.data@[i] == prev_data[i]);
                }
                assert forall|u: int| 0 <= u < m + 1
                    implies metric_ok((#[trigger] pre.metrics@[u]).0, *state)
                        && self.data@[pre.cell(timestep_index as int, u,
                        scenario_index as int)] == metric_value(pre.metrics@[u].0, *state)
                    by {
                    if u < m {
                        lemma_cell_in_range(pre.n_timesteps as int, nm as int,
                            pre.n_scenarios as int, timestep_index as int, u,
                            scenario_index as int);
                        lemma_cell_injective(pre.n_timesteps as int, nm as int,
                            pre.n_scenarios as int, timestep_index as int, u, m as int,
                            scenario_index as int);
                        assert(self.data@[pre.cell(timestep_index as int, u,
                            scenario_index as int)] == prev_data[pre.cell(
                            timestep_index as int, u, scenario_index as int)]);
                    }
                }
            }
            m = m + 1;
        }
        Ok(())
    }

    /// Hand the recorded table out and release the recorder; it must be
    /// set up again before further use.
    pub fn finalise(&mut self) -> (r: Result<Vec<i64>, RecorderError>)
        ensures
            match r {
                Ok(data) => old(self).allocated() && data@ == old(self).data@
                    && !final(self).initialised,
                Err(_) => !old(self).allocated() && *final(self) == *old(self),
            },
    {
        let dlen = self.data.len();
        let expected = self.expected_len();
        let alloc_ok = match expected {
            Some(v) => self.initialised && dlen == v,
            None => false,
        };
        if !alloc_ok {
            proof {
                assert(!old(self).allocated());
            }
            return Err(RecorderError::NotInitialised);
        }
        let mut out: Vec<i64> = Vec::new();
        core::mem::swap(&mut self.data, &mut out);
        self.initialised = false;
        Ok(out)
    }
}

/// A cell index stays within the allocation.
pub proof fn lemma_cell_in_range(nt: int, nm: int, ns: int, t: int, m: int, s: int)
    requires
        0 <= t < nt,
        0 <= m < nm,
        0 <= s < ns,
    ensures
        0 <= t * (nm * ns) + m * ns + s < nt * nm * ns,
{
    vstd::arithmetic::mul::lemma_mul_nonnegative(t, nm * ns);
    vstd::arithmetic::mul::lemma_mul_nonnegative(m, ns);
    vstd::arithmetic::mul::lemma_mul_inequality(t, nt - 1, nm * ns);
    vstd::arithmetic::mul::lemma_mul_inequality(m, nm - 1, ns);
    vstd::arithmetic::mul::lemma_mul_is_distributive_sub_other_way(nm * ns, nt, 1);
    vstd::arithmetic::mul::lemma_mul_is_distributive_sub_other_way(ns, nm, 1);
    vstd::arithmetic::mul::lemma_mul_is_associative(nt, nm, ns);
    vstd::arithmetic::mul::lemma_mul_nonnegative(nm, ns);
    vstd::arithmetic::mul::lemma_mul_strictly_positive(nm, ns);
}

/// Distinct timestep/metric/scenario triples use distinct cells.
pub proof fn lemma_cell_triple_injective(
    nt: int,
    nm: int,
    ns: int,
    t1: int,
    m1: int,
    s1: int,
    t2: int,
    m2: int,
    s2: int,
)
    requires
        0 <= t1 < nt,
        0 <= m1 < nm,
        0 <= s1 < ns,
        0 <= t2 < nt,
        0 <= m2 < nm,
        0 <= s2 < ns,
        !(t1 == t2 && m1 == m2 && s1 == s2),
    ensures
        t1 * (nm * ns) + m1 * ns + s1 != t2 * (nm * ns) + m2 * ns + s2,
{
    let a1 = t1 * nm + m1;
    let a2 = t2 * nm + m2;
    // Regroup each cell as a quotient/remainder pair by the scenario
    // count, then the quotient again by the metric count: both digits
    // are unique, so equal cells force equal triples.
    assert(t1 * (nm * ns) + m1 * ns + s1 == a1 * ns + s1) by {
        vstd::arithmetic::mul::lemma_mul_is_associative(t1, nm, ns);
        vstd::arithmetic::mul::lemma_mul_is_distributive_add_other_way(ns, t1 * nm, m1);
    }
    assert(t2 * (nm * ns) + m2 * ns + s2 == a2 * ns + s2) by {
        vstd::arithmetic::mul::lemma_mul_is_associative(t2, nm, ns);
        vstd::arithmetic::mul::lemma_mul_is_distributive_add_other_way(ns, t2 * nm, m2);
    }
    if a1 * ns + s1 == a2 * ns + s2 {
        vstd::arithmetic::div_mod::lemma_fundamental_div_mod_converse(a1 * ns + s1, ns, a1,
            s1);
        vstd::arithmetic::div_mod::lemma_fundamental_div_mod_converse(a2 * ns + s2, ns, a2,
            s2);
        assert(a1 == a2 && s1 == s2);
        vstd::arithmetic::div_mod::lemma_fundamental_div_mod_converse(a1, nm, t1, m1);
        vstd::arithmetic::div_mod::lemma_fundamental_div_mod_converse(a2, nm, t2, m2);
        assert(t1 == t2 && m1 == m2);
    }
}

/// Distinct metrics of the same cell row write distinct cells.
proof fn lemma_cell_injective(nt: int, nm: int, ns: int, t: int, m1: int, m2: int, s: int)
    requires
        0 <= t < nt,
        0 <= m1 < nm,
        0 <= m2 < nm,
        m1 != m2,
        0 <= s < ns,
    ensures
        t * (nm * ns) + m1 * ns + s != t * (nm * ns) + m2 * ns + s,
{
    if m1 < m2 {
        vstd::arithmetic::mul::lemma_mul_inequality(m1 + 1, m2, ns);
        vstd::arithmetic::mul::lemma_mul_is_distributive_add_other_way(ns, m1, 1);
    } else {
        vstd::arithmetic::mul::lemma_mul_inequality(m2 + 1, m1, ns);
        vstd::arithmetic::mul::lemma_mul_is_distributive_add_other_way(ns, m2, 1);
    }
}

} // verus!
