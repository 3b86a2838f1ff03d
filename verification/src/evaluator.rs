//! Ordering and execution of the parameter graph: a dependency-respecting
//! evaluation order is computed once per load, iteratively and with
//! deterministic cycle detection, and parameters are then computed exactly
//! once per timestep and scenario in that order.

use vstd::prelude::*;
use crate::control_curves::{cc_selected_band, control_curve_result_spec, piecewise_result_spec};
use crate::errors::{EvalError, LoadError};
use crate::hydropower::{hydropower_result_spec, working_head_spec};
use crate::interpolated::{interp_segment_spec, interpolated_result_spec};
use crate::metric::{Metric, metric_ok, metric_param_dep, metric_value};
use crate::parameter::{
    Parameter, compute_result_spec, is_dep, memory_post_spec, opt_has_dep, seq_has_dep,
    spec_name,
};
use crate::parameters::{
    agg_max_spec, agg_min_spec, agg_product_spec, agg_sum_spec, aggregated_result_spec,
    delay_memory_post, delay_result_spec, division_result_spec, max_result_spec,
    min_result_spec, negative_max_result_spec, negative_min_result_spec, negative_result_spec,
};
use crate::state::{ParameterMemory, State};

verus! {

/// A dependency-respecting order: a permutation of all parameter indices
/// in which every parameter comes after everything it reads.
pub open spec fn valid_evaluation_order(params: Seq<Parameter>, order: Seq<usize>) -> bool {
    &&& order.len() == params.len()
    &&& forall|k: int| 0 <= k < order.len() ==> (#[trigger] order[k]) < params.len()
    &&& order.no_duplicates()
    &&& forall|k: int, d: usize| 0 <= k < order.len() && is_dep(params[order[k] as int], d)
        ==> exists|j: int| 0 <= j < k && order[j] == d
}

/// A set of parameters none of which can ever be evaluated: each depends
/// on another member of the set. A non-empty stuck set exists exactly
/// when the graph has a cycle.
pub open spec fn stuck_set(params: Seq<Parameter>, stuck: Seq<usize>) -> bool {
    &&& stuck.len() > 0
    &&& forall|k: int| 0 <= k < stuck.len() ==> (#[trigger] stuck[k]) < params.len()
    &&& forall|k: int| 0 <= k < stuck.len() ==> #[trigger] stuck_member_blocked(params,
        stuck, k)
}

/// Member `k` of the set depends on some member of the set.
pub open spec fn stuck_member_blocked(params: Seq<Parameter>, stuck: Seq<usize>, k: int) -> bool {
    exists|j: int| 0 <= j < stuck.len()
        && is_dep(params[stuck[k] as int], #[trigger] stuck[j])
}

/// Every reference of every parameter resolves to a registered parameter:
/// dangling references are rejected before ordering.
pub open spec fn deps_in_range(params: Seq<Parameter>) -> bool {
    forall|p: int, d: usize| 0 <= p < params.len() && #[trigger] is_dep(params[p], d)
        ==> d < params.len()
}

/// A duplicate-free sequence of indices below `n` has at most `n`
/// entries.
proof fn lemma_distinct_bounded_len(order: Seq<usize>, n: int)
    requires
        order.no_duplicates(),
        forall|k: int| 0 <= k < order.len() ==> (#[trigger] order[k]) < n,
        n >= 0,
    ensures
        order.len() <= n,
{
    let ints = order.map_values(|v: usize| v as int);
    assert(ints.no_duplicates()) by {
        order.lemma_no_duplicates_injective(|v: usize| v as int);
    }
    ints.unique_seq_to_set();
    vstd::set_lib::lemma_int_range(0, n);
    assert(ints.to_set().subset_of(vstd::set_lib::set_int_range(0, n))) by {
        assert forall|v: int| ints.to_set().contains(v)
            implies vstd::set_lib::set_int_range(0, n).contains(v) by {
            let k = choose|k: int| 0 <= k < ints.len() && ints[k] == v;
            assert(order[k] < n);
        }
    }
    vstd::set_lib::lemma_len_subset(ints.to_set(), vstd::set_lib::set_int_range(0, n));
}

/// The position of a value in a duplicate-free sequence.
pub open spec fn position_of(order: Seq<usize>, x: usize) -> int {
    choose|j: int| 0 <= j < order.len() && order[j] == x
}

proof fn lemma_position_of(order: Seq<usize>, x: usize)
    requires
        order.contains(x),
        order.no_duplicates(),
    ensures
        0 <= position_of(order, x) < order.len(),
        order[position_of(order, x)] == x,
        forall|j: int| 0 <= j < order.len() && order[j] == x ==> j == position_of(order, x),
{
    let j0 = choose|j: int| 0 <= j < order.len() && order[j] == x;
    assert(0 <= j0 < order.len() && order[j0] == x);
}

/// A duplicate-free sequence of `n` indices below `n` covers every index.
proof fn lemma_permutation_onto(order: Seq<usize>, n: int, x: usize)
    requires
        order.no_duplicates(),
        order.len() == n,
        forall|k: int| 0 <= k < order.len() ==> (#[trigger] order[k]) < n,
        x < n,
    ensures
        order.contains(x),
{
    if !order.contains(x) {
        // Squeeze the value range: everything except `x` fits below
        // n - 1 after closing the gap, so n distinct entries cannot fit.
        let squeezed = Seq::new(order.len(), |k: int| if order[k] < x {
            order[k]
        } else {
            (order[k] - 1) as usize
        });
        assert forall|k1: int, k2: int| 0 <= k1 < k2 < squeezed.len()
            implies squeezed[k1] != squeezed[k2] by {
            assert(order[k1] != order[k2]);
            assert(order[k1] != x && order[k2] != x);
        }
        assert(squeezed.no_duplicates());
        assert forall|k: int| 0 <= k < squeezed.len()
            implies (#[trigger] squeezed[k]) < n - 1 by {
            assert(order[k] != x);
        }
        lemma_distinct_bounded_len(squeezed, n - 1);
    }
}

/// A dependency-respecting order excludes every stuck set: the parameter
/// of the set placed earliest would need a member of the set placed
/// before it. Together with the certificates of
/// [`compute_evaluation_order`], ordering succeeds exactly on acyclic
/// graphs.
pub proof fn lemma_order_excludes_stuck_set(
    params: Seq<Parameter>,
    order: Seq<usize>,
    stuck: Seq<usize>,
)
    requires
        valid_evaluation_order(params, order),
    ensures
        !stuck_set(params, stuck),
{
    if !stuck_set(params, stuck) {
        return;
    }
    let n = params.len() as int;
    assert forall|k: int| 0 <= k < stuck.len() implies order.contains(#[trigger] stuck[k]) by {
        lemma_permutation_onto(order, n, stuck[k]);
    }
    let k = lemma_earliest_member(order, stuck);
    let m = stuck[k];
    lemma_position_of(order, m);
    let p = position_of(order, m);
    assert(stuck_member_blocked(params, stuck, k));
    let j = choose|j: int| 0 <= j < stuck.len() && is_dep(params[stuck[k] as int], stuck[j]);
    let d = stuck[j];
    assert(is_dep(params[order[p] as int], d));
    let jp = choose|jp: int| 0 <= jp < p && order[jp] == d;
    lemma_position_of(order, d);
    assert(position_of(order, d) == jp);
    assert(position_of(order, stuck[j]) < p);
    assert(false);
}

/// Some member of the set sits earliest in the order.
proof fn lemma_earliest_member(order: Seq<usize>, stuck: Seq<usize>) -> (k: int)
    requires
        order.no_duplicates(),
        stuck.len() > 0,
        forall|t: int| 0 <= t < stuck.len() ==> order.contains(#[trigger] stuck[t]),
    ensures
        0 <= k < stuck.len(),
        forall|t: int| 0 <= t < stuck.len()
            ==> position_of(order, #[trigger] stuck[t]) >= position_of(order, stuck[k]),
    decreases stuck.len(),
{
    if stuck.len() == 1 {
        0
    } else {
        let rest = stuck.skip(1);
        assert(forall|t: int| 0 <= t < rest.len()
            ==> rest[t] == stuck[t + 1] && order.contains(#[trigger] rest[t]));
        let kr = lemma_earliest_member(order, rest);
        if position_of(order, stuck[0]) <= position_of(order, rest[kr]) {
            assert forall|t: int| 0 <= t < stuck.len()
                implies position_of(order, #[trigger] stuck[t])
                    >= position_of(order, stuck[0]) by {
                if t > 0 {
                    assert(stuck[t] == rest[t - 1]);
                    assert(position_of(order, rest[t - 1]) >= position_of(order, rest[kr]));
                }
            }
            0
        } else {
            assert forall|t: int| 0 <= t < stuck.len()
                implies position_of(order, #[trigger] stuck[t])
                    >= position_of(order, stuck[kr + 1]) by {
                if t > 0 {
                    assert(stuck[t] == rest[t - 1]);
                    assert(position_of(order, rest[t - 1]) >= position_of(order, rest[kr]));
                }
                assert(stuck[kr + 1] == rest[kr]);
            }
            kr + 1
        }
    }
}

/// Compute the evaluation order of the parameter graph, or fail with the
/// names of every parameter in the unresolved set when the graph holds a
/// cycle. The algorithm is iterative and terminates on every input.
pub fn compute_evaluation_order(params: &Vec<Parameter>) -> (r: Result<Vec<usize>, LoadError>)
    requires
        deps_in_range(params@),
    ensures
        match r {
            Ok(order) => valid_evaluation_order(params@, order@),
            Err(e) => e matches LoadError::CircularParameterReference(names)
                && names@.len() > 0 && exists|stuck: Seq<usize>|
                    #[trigger] stuck_set(params@, stuck) && names@.len() == stuck.len()
                    && forall|k: int| 0 <= k < stuck.len()
                        ==> names@[k]@ == spec_name(params@[stuck[k] as int]),
        },
{
    let n = params.len();
    // Adjacency: the dependency list of each parameter.
    let mut deps: Vec<Vec<usize>> = Vec::new();
    let mut p: usize = 0;
    while p < n
        invariant
            n == params@.len(),
            deps_in_range(params@),
            0 <= p <= n,
            deps@.len() == p,
            forall|q: int, d: usize| 0 <= q < p
                ==> ((#[trigger] deps@[q]@.contains(d)) <==> is_dep(params@[q], d)),
        decreases n - p,
    {
        deps.push(params[p].dependencies());
        p = p + 1;
    }

    let mut placed: Vec<bool> = Vec::new();
    let mut i: usize = 0;
    while i < n
        invariant
            0 <= i <= n,
            placed@.len() == i,
            forall|t: int| 0 <= t < i ==> !(#[trigger] placed@[t]),
        decreases n - i,
    {
        placed.push(false);
        i = i + 1;
    }

    let mut order: Vec<usize> = Vec::new();
    loop
        invariant_except_break
            n == params@.len(),
            deps_in_range(params@),
            deps@.len() == n,
            forall|q: int, d: usize| 0 <= q < n
                ==> ((#[trigger] deps@[q]@.contains(d)) <==> is_dep(params@[q], d)),
            placed@.len() == n,
            order@.len() <= n,
            forall|k: int| 0 <= k < order@.len() ==> (#[trigger] order@[k]) < n,
            forall|x: usize| x < n ==> (placed@[x as int] <==> order@.contains(x)),
            order@.no_duplicates(),
            forall|k: int, d: usize| 0 <= k < order@.len()
                && is_dep(params@[order@[k] as int], d)
                ==> exists|j: int| 0 <= j < k && order@[j] == d,
        ensures
            n == params@.len(),
            deps@.len() == n,
            placed@.len() == n,
            order@.len() <= n,
            forall|k: int| 0 <= k < order@.len() ==> (#[trigger] order@[k]) < n,
            forall|x: usize| x < n ==> (placed@[x as int] <==> order@.contains(x)),
            order@.no_duplicates(),
            forall|k: int, d: usize| 0 <= k < order@.len()
                && is_dep(params@[order@[k] as int], d)
                ==> exists|j: int| 0 <= j < k && order@[j] == d,
            forall|x: usize| x < n && !placed@[x as int]
                ==> exists|d: usize| is_dep(params@[x as int], d) && d < n
                    && !placed@[d as int],
        decreases n + 1 - order@.len(),
    {
        let ghost order0 = order@;
        let mut progress = false;
        let mut q: usize = 0;
        while q < n
            invariant
                n == params@.len(),
                deps_in_range(params@),
                deps@.len() == n,
                forall|t: int, d: usize| 0 <= t < n
                    ==> ((#[trigger] deps@[t]@.contains(d)) <==> is_dep(params@[t], d)),
                placed@.len() == n,
                0 <= q <= n,
                order@.len() <= n,
                forall|k: int| 0 <= k < order@.len() ==> (#[trigger] order@[k]) < n,
                forall|x: usize| x < n ==> (placed@[x as int] <==> order@.contains(x)),
                order@.no_duplicates(),
                forall|k: int, d: usize| 0 <= k < order@.len()
                    && is_dep(params@[order@[k] as int], d)
                    ==> exists|j: int| 0 <= j < k && order@[j] == d,
                !progress ==> order@ == order0,
                !progress ==> forall|x: usize| x < q && !placed@[x as int]
                    ==> exists|d: usize| is_dep(params@[x as int], d) && d < n
                        && !placed@[d as int],
                progress ==> order@.len() > order0.len(),
            decreases n - q,
        {
            if !placed[q] {
                let dp_len = deps[q].len();
                let mut all = true;
                let mut t: usize = 0;
                while t < dp_len
                    invariant
                        n == params@.len(),
                        deps_in_range(params@),
                        deps@.len() == n,
                        q < n,
                        placed@.len() == n,
                        forall|u: int, d: usize| 0 <= u < n
                            ==> ((#[trigger] deps@[u]@.contains(d))
                                <==> is_dep(params@[u], d)),
                        dp_len == deps@[q as int]@.len(),
                        0 <= t <= dp_len,
                        all <==> (forall|u: int| 0 <= u < t
                            ==> placed@[deps@[q as int]@[u] as int]),
                    decreases dp_len - t,
                {
                    let d = deps[q][t];
                    proof {
                        assert(deps@[q as int]@.contains(d));
                    }
                    if !placed[d] {
                        all = false;
                    }
                    t = t + 1;
                }
                if all {
                    proof {
                        assert(!order@.contains(q));
                        assert(order@.push(q).no_duplicates()) by {
                            assert(forall|k1: int, k2: int|
                                0 <= k1 < k2 < order@.push(q).len()
                                ==> order@.push(q)[k1] != order@.push(q)[k2]);
                        }
                        assert forall|d: usize| is_dep(params@[q as int], d)
                            implies placed@[d as int] by {
                            assert(deps@[q as int]@.contains(d));
                            let u = choose|u: int| 0 <= u < deps@[q as int]@.len()
                                && deps@[q as int]@[u] == d;
                        }
                    }
                    let ghost pre_order = order@;
                    order.push(q);
                    placed.set(q, true);
                    progress = true;
                    proof {
                        assert forall|x: usize| x < n implies (placed@[x as int]
                            <==> order@.contains(x)) by {
                            if x == q {
                                assert(order@[order@.len() - 1] == q);
                            } else {
                                if pre_order.contains(x) {
                                    let k = choose|k: int| 0 <= k < pre_order.len()
                                        && pre_order[k] == x;
                                    assert(order@[k] == x);
                                }
                                if order@.contains(x) {
                                    let k = choose|k: int| 0 <= k < order@.len()
                                        && order@[k] == x;
                                    assert(k < pre_order.len());
                                    assert(pre_order[k] == x);
                                }
                            }
                        }
                        assert forall|k: int, d: usize| 0 <= k < order@.len()
                            && is_dep(params@[order@[k] as int], d)
                            implies exists|j: int| 0 <= j < k && order@[j] == d by {
                            if k < pre_order.len() {
                                assert(pre_order[k] == order@[k]);
                                let j = choose|j: int| 0 <= j < k && pre_order[j] == d;
                                assert(order@[j] == d);
                            } else {
                                assert(order@[k] == q);
                                // all dependencies of q were placed before
                                // the push, so each sits somewhere in the
                                // previous order
                                assert(d < n);
                                let ghost placed_pre = placed@.update(q as int, false);
                                assert(pre_order.contains(d));
                                let j = choose|j: int| 0 <= j < pre_order.len()
                                    && pre_order[j] == d;
                                assert(order@[j] == d);
                            }
                        }
                        lemma_distinct_bounded_len(order@, n as int);
                    }
                } else {
                    proof {
                        let u = choose|u: int| 0 <= u < dp_len
                            && !placed@[deps@[q as int]@[u] as int];
                        let d = deps@[q as int]@[u];
                        assert(deps@[q as int]@.contains(d));
                        assert(is_dep(params@[q as int], d) && d < n
                            && !placed@[d as int]);
                    }
                }
            }
            q = q + 1;
        }
        if !progress {
            break;
        }
    }

    if order.len() == n {
        return Ok(order);
    }

    // The leftover parameters form a stuck set: each has an unplaced
    // dependency, and every unplaced parameter is collected.
    let mut stuck: Vec<usize> = Vec::new();
    let mut names: Vec<String> = Vec::new();
    let mut x: usize = 0;
    while x < n
        invariant
            n == params@.len(),
            placed@.len() == n,
            0 <= x <= n,
            stuck@.len() == names@.len(),
            forall|k: int| 0 <= k < stuck@.len() ==> (#[trigger] stuck@[k]) < n,
            forall|k: int| 0 <= k < stuck@.len()
                ==> !placed@[(#[trigger] stuck@[k]) as int],
            forall|k: int| 0 <= k < stuck@.len()
                ==> (#[trigger] names@[k])@ == spec_name(params@[stuck@[k] as int]),
            forall|y: usize| y < x && !placed@[y as int] ==> stuck@.contains(y),
        decreases n - x,
    {
        if !placed[x] {
            let ghost pre = stuck@;
            stuck.push(x);
            names.push(params[x].name().clone());
            proof {
                assert(stuck@[stuck@.len() - 1] == x);
                assert(forall|y: usize| pre.contains(y) ==> stuck@.contains(y)) by {
                    assert(forall|k: int| 0 <= k < pre.len() ==> stuck@[k] == pre[k]);
                }
            }
        }
        x = x + 1;
    }

    if names.len() == 0 {
        // Impossible: fewer than `n` parameters are placed, yet none is
        // unplaced. The pigeonhole argument closes the branch.
        proof {
            assert(forall|y: usize| y < n ==> placed@[y as int]);
            let ints = order@.map_values(|v: usize| v as int);
            assert(ints.no_duplicates()) by {
                order@.lemma_no_duplicates_injective(|v: usize| v as int);
            }
            ints.unique_seq_to_set();
            vstd::set_lib::lemma_int_range(0, n as int);
            assert(vstd::set_lib::set_int_range(0, n as int).subset_of(ints.to_set())) by {
                assert forall|v: int| vstd::set_lib::set_int_range(0, n as int).contains(v)
                    implies ints.to_set().contains(v) by {
                    assert(0 <= v < n);
                    assert(placed@[v]);
                    assert(order@.contains(v as usize));
                    let k = choose|k: int| 0 <= k < order@.len() && order@[k] == v as usize;
                    assert(ints[k] == v);
                    assert(ints.contains(v));
                }
            }
            vstd::set_lib::lemma_len_subset(
                vstd::set_lib::set_int_range(0, n as int),
                ints.to_set(),
            );
            assert(false);
        }
        return Err(LoadError::CircularParameterReference(names));
    }

    proof {
        assert forall|k: int| 0 <= k < stuck@.len()
            implies #[trigger] stuck_member_blocked(params@, stuck@, k) by {
            let xk = stuck@[k];
            assert(xk < n);
            assert(!placed@[xk as int]);
            assert(exists|d: usize| is_dep(params@[xk as int], d) && d < n
                && !placed@[d as int]);
            let d = choose|d: usize| is_dep(params@[xk as int], d) && d < n
                && !placed@[d as int];
            assert(is_dep(params@[xk as int], d));
            assert(d < n && !placed@[d as int]);
            assert(stuck@.contains(d));
            let j = choose|j: int| 0 <= j < stuck@.len() && stuck@[j] == d;
            assert(stuck@[j] == d);
            assert(is_dep(params@[stuck@[k] as int], stuck@[j]));
        }
        assert(stuck@.len() > 0);
        assert(forall|k: int| 0 <= k < stuck@.len() ==> (#[trigger] stuck@[k]) < params@.len());
        assert(stuck_set(params@, stuck@));
    }
    Err(LoadError::CircularParameterReference(names))
}


/// Two states that a parameter cannot tell apart through any of its
/// reads: solved flows, derived metrics and the values of its own
/// dependencies coincide.
pub open spec fn reads_agree(s1: State, s2: State) -> bool {
    &&& s1.node_in_flow@ == s2.node_in_flow@
    &&& s1.node_out_flow@ == s2.node_out_flow@
    &&& s1.derived_values@ == s2.derived_values@
    &&& s1.parameter_values@.len() == s2.parameter_values@.len()
}

/// The values of every dependency of `p` coincide in the two states.
pub open spec fn dep_values_agree(p: Parameter, s1: State, s2: State) -> bool {
    forall|d: usize| #[trigger] is_dep(p, d) && d < s1.parameter_values@.len()
        ==> s1.parameter_values@[d as int] == s2.parameter_values@[d as int]
}

/// One metric resolves identically in two states that agree on its
/// source.
pub open spec fn metric_frame_ok(m: Metric, s1: State, s2: State) -> bool {
    &&& reads_agree(s1, s2)
    &&& (match metric_param_dep(m) {
        Some(d) => d < s1.parameter_values@.len()
            ==> s1.parameter_values@[d as int] == s2.parameter_values@[d as int],
        None => true,
    })
}

proof fn lemma_metric_frame(m: Metric, s1: State, s2: State)
    requires
        metric_frame_ok(m, s1, s2),
    ensures
        metric_ok(m, s1) == metric_ok(m, s2),
        metric_ok(m, s1) ==> metric_value(m, s1) == metric_value(m, s2),
{
}

proof fn lemma_agg_sum_frame(ms: Seq<Metric>, s1: State, s2: State, acc: i64)
    requires
        forall|i: int| 0 <= i < ms.len() ==> metric_frame_ok(#[trigger] ms[i], s1, s2),
    ensures
        agg_sum_spec(ms, s1, acc) == agg_sum_spec(ms, s2, acc),
    decreases ms.len(),
{
    if ms.len() > 0 {
        lemma_metric_frame(ms[0], s1, s2);
        if metric_ok(ms[0], s1) {
            assert(forall|i: int| 0 <= i < ms.skip(1).len()
                ==> metric_frame_ok(#[trigger] ms.skip(1)[i], s1, s2)) by {
                assert(forall|i: int| 0 <= i < ms.skip(1).len()
                    ==> ms.skip(1)[i] == ms[i + 1]);
            }
            let t = acc + metric_value(ms[0], s1);
            if !(t < i64::MIN || t > i64::MAX) {
                lemma_agg_sum_frame(ms.skip(1), s1, s2, t as i64);
            }
        }
    }
}

proof fn lemma_agg_product_frame(ms: Seq<Metric>, s1: State, s2: State, acc: i64)
    requires
        forall|i: int| 0 <= i < ms.len() ==> metric_frame_ok(#[trigger] ms[i], s1, s2),
    ensures
        agg_product_spec(ms, s1, acc) == agg_product_spec(ms, s2, acc),
    decreases ms.len(),
{
    if ms.len() > 0 {
        lemma_metric_frame(ms[0], s1, s2);
        if metric_ok(ms[0], s1) {
            assert(forall|i: int| 0 <= i < ms.skip(1).len()
                ==> metric_frame_ok(#[trigger] ms.skip(1)[i], s1, s2)) by {
                assert(forall|i: int| 0 <= i < ms.skip(1).len()
                    ==> ms.skip(1)[i] == ms[i + 1]);
            }
            let t = (acc as int) * (metric_value(ms[0], s1) as int);
            if !(t < i64::MIN || t > i64::MAX) {
                lemma_agg_product_frame(ms.skip(1), s1, s2, t as i64);
            }
        }
    }
}

proof fn lemma_agg_max_frame(ms: Seq<Metric>, s1: State, s2: State, acc: i64)
    requires
        forall|i: int| 0 <= i < ms.len() ==> metric_frame_ok(#[trigger] ms[i], s1, s2),
    ensures
        agg_max_spec(ms, s1, acc) == agg_max_spec(ms, s2, acc),
    decreases ms.len(),
{
    if ms.len() > 0 {
        lemma_metric_frame(ms[0], s1, s2);
        if metric_ok(ms[0], s1) {
            assert(forall|i: int| 0 <= i < ms.skip(1).len()
                ==> metric_frame_ok(#[trigger] ms.skip(1)[i], s1, s2)) by {
                assert(forall|i: int| 0 <= i < ms.skip(1).len()
                    ==> ms.skip(1)[i] == ms[i + 1]);
            }
            let v = metric_value(ms[0], s1);
            lemma_agg_max_frame(ms.skip(1), s1, s2, if v > acc { v } else { acc });
        }
    }
}

proof fn lemma_agg_min_frame(ms: Seq<Metric>, s1: State, s2: State, acc: i64)
    requires
        forall|i: int| 0 <= i < ms.len() ==> metric_frame_ok(#[trigger] ms[i], s1, s2),
    ensures
        agg_min_spec(ms, s1, acc) == agg_min_spec(ms, s2, acc),
    decreases ms.len(),
{
    if ms.len() > 0 {
        lemma_metric_frame(ms[0], s1, s2);
        if metric_ok(ms[0], s1) {
            assert(forall|i: int| 0 <= i < ms.skip(1).len()
                ==> metric_frame_ok(#[trigger] ms.skip(1)[i], s1, s2)) by {
                assert(forall|i: int| 0 <= i < ms.skip(1).len()
                    ==> ms.skip(1)[i] == ms[i + 1]);
            }
            let v = metric_value(ms[0], s1);
            lemma_agg_min_frame(ms.skip(1), s1, s2, if v < acc { v } else { acc });
        }
    }
}

proof fn lemma_cc_band_frame(x: i64, curves: Seq<Metric>, s1: State, s2: State, strict: bool)
    requires
        forall|i: int| 0 <= i < curves.len() ==> metric_frame_ok(#[trigger] curves[i], s1, s2),
    ensures
        cc_selected_band(x, curves, s1, strict) == cc_selected_band(x, curves, s2, strict),
    decreases curves.len(),
{
    if curves.len() > 0 {
        lemma_metric_frame(curves[0], s1, s2);
        if metric_ok(curves[0], s1) {
            assert(forall|i: int| 0 <= i < curves.skip(1).len()
                ==> metric_frame_ok(#[trigger] curves.skip(1)[i], s1, s2)) by {
                assert(forall|i: int| 0 <= i < curves.skip(1).len()
                    ==> curves.skip(1)[i] == curves[i + 1]);
            }
            lemma_cc_band_frame(x, curves.skip(1), s1, s2, strict);
        }
    }
}

proof fn lemma_cc_band_range(x: i64, curves: Seq<Metric>, s: State, strict: bool)
    ensures
        (match cc_selected_band(x, curves, s, strict) {
            Ok(sel) => 0 <= sel <= curves.len() && forall|j: int|
                0 <= j <= sel && j < curves.len() ==> metric_ok(#[trigger] curves[j], s),
            Err(_) => true,
        }),
    decreases curves.len(),
{
    if curves.len() > 0 && metric_ok(curves[0], s) {
        lemma_cc_band_range(x, curves.skip(1), s, strict);
        match cc_selected_band(x, curves.skip(1), s, strict) {
            Ok(sub) => {
                assert forall|j: int| 0 <= j <= sub + 1 && j < curves.len()
                    implies metric_ok(#[trigger] curves[j], s) by {
                    if j > 0 {
                        assert(curves.skip(1)[j - 1] == curves[j]);
                        assert(metric_ok(curves.skip(1)[j - 1], s));
                    }
                }
            },
            Err(_) => {},
        }
    }
}

proof fn lemma_interp_segment_frame(
    x: i64,
    xp: Seq<Metric>,
    fp: Seq<Metric>,
    error_on_bounds: bool,
    s1: State,
    s2: State,
    from: int,
)
    requires
        forall|i: int| 0 <= i < xp.len() ==> metric_frame_ok(#[trigger] xp[i], s1, s2),
        forall|i: int| 0 <= i < fp.len() ==> metric_frame_ok(#[trigger] fp[i], s1, s2),
        (0 <= from < xp.len() && xp.len() == fp.len()) ==> metric_ok(xp[from], s1),
    ensures
        interp_segment_spec(x, xp, fp, error_on_bounds, s1, from) == interp_segment_spec(x,
            xp, fp, error_on_bounds, s2, from),
    decreases xp.len() - from,
{
    if 0 <= from < xp.len() && xp.len() == fp.len() {
        lemma_metric_frame(xp[from], s1, s2);
        lemma_metric_frame(fp[from], s1, s2);
        if from < xp.len() - 1 {
            lemma_metric_frame(xp[from + 1], s1, s2);
            lemma_metric_frame(fp[from + 1], s1, s2);
            if metric_ok(xp[from + 1], s1) && x > metric_value(xp[from + 1], s1) {
                lemma_interp_segment_frame(x, xp, fp, error_on_bounds, s1, s2, from + 1);
            }
        }
    }
}

/// A parameter's result, and the way its memory advances, depend only on
/// what it reads: two states agreeing on flows, derived metrics and the
/// parameter's dependencies give identical outcomes.
proof fn lemma_compute_frame(
    p: Parameter,
    s1: State,
    s2: State,
    mem: ParameterMemory,
    idx: usize,
)
    requires
        reads_agree(s1, s2),
        dep_values_agree(p, s1, s2),
    ensures
        compute_result_spec(p, s1, mem, idx) == compute_result_spec(p, s2, mem, idx),
        forall|post: ParameterMemory| memory_post_spec(p, s1, mem, post)
            == memory_post_spec(p, s2, mem, post),
{
    match p {
        Parameter::Constant(_) => {},
        Parameter::Aggregated(a) => {
            assert forall|i: int| 0 <= i < a.values@.len()
                implies metric_frame_ok(#[trigger] a.values@[i], s1, s2) by {
                lemma_constituent_frame(p, a.values@[i], s1, s2);
            }
            lemma_agg_sum_frame(a.values@, s1, s2, 0);
            lemma_agg_product_frame(a.values@, s1, s2, 1);
            lemma_agg_max_frame(a.values@, s1, s2, i64::MIN);
            lemma_agg_min_frame(a.values@, s1, s2, i64::MAX);
        },
        Parameter::Max(m) => {
            lemma_constituent_frame(p, m.metric, s1, s2);
            lemma_metric_frame(m.metric, s1, s2);
        },
        Parameter::Min(m) => {
            lemma_constituent_frame(p, m.metric, s1, s2);
            lemma_metric_frame(m.metric, s1, s2);
        },
        Parameter::Negative(m) => {
            lemma_constituent_frame(p, m.metric, s1, s2);
            lemma_metric_frame(m.metric, s1, s2);
        },
        Parameter::NegativeMax(m) => {
            lemma_constituent_frame(p, m.metric, s1, s2);
            lemma_metric_frame(m.metric, s1, s2);
        },
        Parameter::NegativeMin(m) => {
            lemma_constituent_frame(p, m.metric, s1, s2);
            lemma_metric_frame(m.metric, s1, s2);
        },
        Parameter::Division(d) => {
            lemma_constituent_frame(p, d.numerator, s1, s2);
            lemma_constituent_frame(p, d.denominator, s1, s2);
            lemma_metric_frame(d.numerator, s1, s2);
            lemma_metric_frame(d.denominator, s1, s2);
        },
        Parameter::ControlCurve(c) => {
            lemma_constituent_frame(p, c.metric, s1, s2);
            lemma_metric_frame(c.metric, s1, s2);
            assert forall|i: int| 0 <= i < c.control_curves@.len()
                implies metric_frame_ok(#[trigger] c.control_curves@[i], s1, s2) by {
                lemma_constituent_frame(p, c.control_curves@[i], s1, s2);
            }
            assert forall|i: int| 0 <= i < c.values@.len()
                implies metric_frame_ok(#[trigger] c.values@[i], s1, s2) by {
                lemma_constituent_frame(p, c.values@[i], s1, s2);
            }
            lemma_cc_band_frame(metric_value(c.metric, s1), c.control_curves@, s1, s2, false);
            if metric_ok(c.metric, s1) {
                let x = metric_value(c.metric, s1);
                lemma_cc_band_range(x, c.control_curves@, s1, false);
                match cc_selected_band(x, c.control_curves@, s1, false) {
                    Ok(sel) => {
                        if sel < c.control_curves@.len() {
                            if sel < c.values@.len() {
                                lemma_metric_frame(c.values@[sel], s1, s2);
                            }
                        } else {
                            if c.values@.len() > 0 {
                                lemma_metric_frame(c.values@.last(), s1, s2);
                            }
                        }
                    },
                    Err(_) => {},
                }
            }
        },
        Parameter::PiecewiseInterpolated(c) => {
            lemma_constituent_frame(p, c.metric, s1, s2);
            lemma_metric_frame(c.metric, s1, s2);
            assert forall|i: int| 0 <= i < c.control_curves@.len()
                implies metric_frame_ok(#[trigger] c.control_curves@[i], s1, s2) by {
                lemma_constituent_frame(p, c.control_curves@[i], s1, s2);
            }
            lemma_cc_band_frame(metric_value(c.metric, s1), c.control_curves@, s1, s2, true);
            if metric_ok(c.metric, s1) {
                let x = metric_value(c.metric, s1);
                lemma_cc_band_range(x, c.control_curves@, s1, true);
                match cc_selected_band(x, c.control_curves@, s1, true) {
                    Ok(sel) => {
                        if sel < c.control_curves@.len() {
                            lemma_metric_frame(c.control_curves@[sel], s1, s2);
                            if sel > 0 {
                                lemma_metric_frame(c.control_curves@[sel - 1], s1, s2);
                            }
                        } else {
                            if c.control_curves@.len() > 0 {
                                lemma_metric_frame(
                                    c.control_curves@[c.control_curves@.len() - 1],
                                    s1,
                                    s2,
                                );
                            }
                        }
                    },
                    Err(_) => {},
                }
            }
        },
        Parameter::Interpolated(ip) => {
            lemma_constituent_frame(p, ip.x, s1, s2);
            lemma_metric_frame(ip.x, s1, s2);
            assert forall|i: int| 0 <= i < ip.xp@.len()
                implies metric_frame_ok(#[trigger] ip.xp@[i], s1, s2) by {
                lemma_constituent_frame(p, ip.xp@[i], s1, s2);
            }
            assert forall|i: int| 0 <= i < ip.fp@.len()
                implies metric_frame_ok(#[trigger] ip.fp@[i], s1, s2) by {
                lemma_constituent_frame(p, ip.fp@[i], s1, s2);
            }
            if ip.xp@.len() > 0 {
                lemma_metric_frame(ip.xp@[0], s1, s2);
                if ip.xp@.len() == ip.fp@.len() {
                    lemma_metric_frame(ip.fp@[0], s1, s2);
                }
                if metric_ok(ip.x, s1) && metric_ok(ip.xp@[0], s1) {
                    lemma_interp_segment_frame(metric_value(ip.x, s1), ip.xp@, ip.fp@,
                        ip.error_on_bounds, s1, s2, 0);
                }
            }
        },
        Parameter::Delay(d) => {
            lemma_constituent_frame(p, d.metric, s1, s2);
            lemma_metric_frame(d.metric, s1, s2);
        },
        Parameter::HydropowerTarget(h) => {
            lemma_constituent_frame(p, h.target, s1, s2);
            lemma_metric_frame(h.target, s1, s2);
            match h.water_elevation {
                Some(we) => {
                    lemma_opt_constituent_frame(p, h.water_elevation, s1, s2);
                    lemma_metric_frame(we, s1, s2);
                },
                None => {},
            }
            match h.max_flow {
                Some(mf) => {
                    lemma_opt_constituent_frame(p, h.max_flow, s1, s2);
                    lemma_metric_frame(mf, s1, s2);
                },
                None => {},
            }
            match h.min_flow {
                Some(mf) => {
                    lemma_opt_constituent_frame(p, h.min_flow, s1, s2);
                    lemma_metric_frame(mf, s1, s2);
                },
                None => {},
            }
        },
    }
}

/// Any metric that appears inside `p` is framed by `p`'s dependency
/// agreement.
proof fn lemma_constituent_frame(p: Parameter, m: Metric, s1: State, s2: State)
    requires
        reads_agree(s1, s2),
        dep_values_agree(p, s1, s2),
        (match metric_param_dep(m) {
            Some(d) => is_dep(p, d),
            None => true,
        }),
    ensures
        metric_frame_ok(m, s1, s2),
{
}

proof fn lemma_opt_constituent_frame(p: Parameter, m: Option<Metric>, s1: State, s2: State)
    requires
        reads_agree(s1, s2),
        dep_values_agree(p, s1, s2),
        m is Some,
        (match metric_param_dep(m->0) {
            Some(d) => is_dep(p, d),
            None => true,
        }),
    ensures
        metric_frame_ok(m->0, s1, s2),
{
}


/// One parameter of the order was computed successfully against the
/// resulting state: its slot holds exactly the value its computation
/// yields, and its memory advanced accordingly from the memory it held
/// when evaluation started.
pub open spec fn param_computed(
    params: Seq<Parameter>,
    order: Seq<usize>,
    pre: State,
    post: State,
    k: int,
) -> bool {
    let p = order[k] as int;
    &&& post.parameter_values@[p] is Some
    &&& compute_result_spec(params[p], post, pre.parameter_memory@[p], order[k])
        == Ok::<i64, EvalError>(post.parameter_values@[p]->0)
    &&& memory_post_spec(params[p], post, pre.parameter_memory@[p],
        post.parameter_memory@[p])
}

/// The whole effect of a successful evaluation pass: flows and volumes
/// untouched, derived metrics forgotten, and every parameter's slot
/// holding exactly the value of its computation.
pub open spec fn evaluated(params: Seq<Parameter>, order: Seq<usize>, s0: State, s1: State)
    -> bool {
    &&& s1.node_in_flow@ == s0.node_in_flow@
    &&& s1.node_out_flow@ == s0.node_out_flow@
    &&& s1.edge_flow@ == s0.edge_flow@
    &&& s1.storage_volume@ == s0.storage_volume@
    &&& s1.virtual_storage_volume@ == s0.virtual_storage_volume@
    &&& s1.virtual_storage_next_reset@ == s0.virtual_storage_next_reset@
    &&& s1.parameter_values@.len() == params.len()
    &&& s1.parameter_memory@.len() == params.len()
    &&& s1.derived_values@.len() == s0.derived_values@.len()
    &&& forall|i: int| 0 <= i < s1.derived_values@.len() ==> s1.derived_values@[i] is None
    &&& forall|k: int| 0 <= k < order.len()
        ==> #[trigger] param_computed(params, order, s0, s1, k)
}

/// The whole effect of a failed evaluation pass: some parameter of the
/// order computes to exactly the reported error, everything before it is
/// computed, and flows and volumes are untouched.
pub open spec fn evaluation_failed(
    params: Seq<Parameter>,
    order: Seq<usize>,
    s0: State,
    s1: State,
    e: EvalError,
) -> bool {
    &&& s1.node_in_flow@ == s0.node_in_flow@
    &&& s1.node_out_flow@ == s0.node_out_flow@
    &&& s1.edge_flow@ == s0.edge_flow@
    &&& s1.storage_volume@ == s0.storage_volume@
    &&& s1.virtual_storage_volume@ == s0.virtual_storage_volume@
    &&& s1.virtual_storage_next_reset@ == s0.virtual_storage_next_reset@
    &&& exists|k: int| 0 <= k < order.len()
        && (forall|t: int| 0 <= t < k
            ==> #[trigger] param_computed(params, order, s0, s1, t))
        && compute_result_spec(params[order[k] as int], s1,
            s0.parameter_memory@[order[k] as int], order[k]) == Err::<i64, EvalError>(e)
        && s1.parameter_values@[order[k] as int] is None
}

/// Evaluate every parameter once, in the given dependency-respecting
/// order, against the state of the current timestep. Flows, volumes and
/// derived metrics are read, never written; previously computed values
/// and derived metrics are forgotten first.
///
/// On success every parameter's slot holds the value of its computation;
/// on failure the parameters before the failing one in the order are
/// computed, the failing one's computation yields exactly the reported
/// error against the resulting state, and the rest remain uncomputed.
pub fn evaluate_all(params: &Vec<Parameter>, order: &Vec<usize>, state: &mut State) -> (r:
    Result<(), EvalError>)
    requires
        valid_evaluation_order(params@, order@),
        old(state).parameter_values@.len() == params@.len(),
        old(state).parameter_memory@.len() == params@.len(),
    ensures
        final(state).node_in_flow@ == old(state).node_in_flow@,
        final(state).node_out_flow@ == old(state).node_out_flow@,
        final(state).edge_flow@ == old(state).edge_flow@,
        final(state).storage_volume@ == old(state).storage_volume@,
        final(state).virtual_storage_volume@ == old(state).virtual_storage_volume@,
        final(state).virtual_storage_next_reset@ == old(state).virtual_storage_next_reset@,
        final(state).parameter_values@.len() == params@.len(),
        final(state).parameter_memory@.len() == params@.len(),
        final(state).derived_values@.len() == old(state).derived_values@.len(),
        forall|i: int| 0 <= i < final(state).derived_values@.len()
            ==> final(state).derived_values@[i] is None,
        match r {
            Ok(()) => evaluated(params@, order@, *old(state), *final(state)),
            Err(e) => evaluation_failed(params@, order@, *old(state), *final(state), e),
        },
        match r {
            Ok(()) => forall|k: int| 0 <= k < order@.len()
                ==> #[trigger] param_computed(params@, order@, *old(state), *final(state), k),
            Err(e) => exists|k: int| 0 <= k < order@.len()
                && (forall|t: int| 0 <= t < k
                    ==> #[trigger] param_computed(params@, order@, *old(state),
                        *final(state), t))
                && compute_result_spec(params@[order@[k] as int], *final(state),
                    old(state).parameter_memory@[order@[k] as int], order@[k]) == Err::<
                    i64,
                    EvalError,
                >(e)
                && final(state).parameter_values@[order@[k] as int] is None,
        },
{
    let n = params.len();
    state.clear_timestep_values();
    let mut k: usize = 0;
    while k < order.len()
        invariant
            n == params@.len(),
            valid_evaluation_order(params@, order@),
            old(state).parameter_values@.len() == n,
            old(state).parameter_memory@.len() == n,
            0 <= k <= order@.len(),
            state.node_in_flow@ == old(state).node_in_flow@,
            state.node_out_flow@ == old(state).node_out_flow@,
            state.edge_flow@ == old(state).edge_flow@,
            state.storage_volume@ == old(state).storage_volume@,
            state.virtual_storage_volume@ == old(state).virtual_storage_volume@,
            state.virtual_storage_next_reset@ == old(state).virtual_storage_next_reset@,
            state.parameter_values@.len() == n,
            state.parameter_memory@.len() == n,
            state.derived_values@.len() == old(state).derived_values@.len(),
            forall|i: int| 0 <= i < state.derived_values@.len()
                ==> state.derived_values@[i] is None,
            forall|t: int| 0 <= t < k
                ==> #[trigger] param_computed(params@, order@, *old(state), *state, t),
            forall|x: int| #![trigger state.parameter_values@[x]]
                0 <= x < n && !order@.take(k as int).contains(x as usize)
                ==> state.parameter_values@[x] is None
                    && state.parameter_memory@[x] == old(state).parameter_memory@[x],
        decreases order@.len() - k,
    {
        let p = order[k];
        let ghost s_pre = *state;
        proof {
            assert(p < n);
            assert(!order@.take(k as int).contains(p)) by {
                if order@.take(k as int).contains(p) {
                    let j = choose|j: int| 0 <= j < k && order@.take(k as int)[j] == p;
                    assert(order@[j] == order@[k as int]);
                }
            }
            assert(s_pre.parameter_values@[p as int] is None);
            assert(s_pre.parameter_memory@[p as int]
                == old(state).parameter_memory@[p as int]);
        }
        let mut mem = state.parameter_memory.remove(p);
        let ghost s_call = *state;
        let r = params[p].compute(state, &mut mem, p);
        state.parameter_memory.insert(p, mem);
        let ghost s_now = *state;
        proof {
            assert(s_now.parameter_memory@
                =~= s_pre.parameter_memory@.update(p as int, mem));
            assert(reads_agree(s_call, s_now));
            assert(dep_values_agree(params@[p as int], s_call, s_now));
            // The state handed to the computation differs from the loop
            // state only in the memory column, which no computation
            // reads.
            lemma_compute_frame(params@[p as int], s_call, s_now,
                old(state).parameter_memory@[p as int], p);
        }
        match r {
            Ok(v) => {
                state.parameter_values.set(p, Some(v));
                proof {
                    let s_set = *state;
                    assert(s_set.parameter_values@
                        == s_now.parameter_values@.update(p as int, Some(v)));
                    assert(s_set.parameter_memory@ == s_now.parameter_memory@);
                    // A freshly written slot is no dependency of anything
                    // computed up to now: it would have to precede itself
                    // in the order.
                    assert forall|t: int| 0 <= t < k + 1
                        implies #[trigger] param_computed(params@, order@, *old(state),
                            s_set, t) by {
                        let pt = order@[t] as int;
                        assert(reads_agree(s_pre, s_set));
                        assert(dep_values_agree(params@[pt], s_pre, s_set)) by {
                            assert forall|d: usize| #[trigger] is_dep(params@[pt], d)
                                && d < s_pre.parameter_values@.len()
                                implies s_pre.parameter_values@[d as int]
                                    == s_set.parameter_values@[d as int] by {
                                if d == p {
                                    let j = choose|j: int| 0 <= j < t && order@[j] == d;
                                    assert(order@[j] == order@[k as int]);
                                    assert(false);
                                }
                            }
                        }
                        if t < k {
                            assert(param_computed(params@, order@, *old(state), s_pre, t));
                            assert(pt != p) by {
                                if pt == p {
                                    assert(order@[t] == order@[k as int]);
                                }
                            }
                            lemma_compute_frame(params@[pt], s_pre, s_set,
                                old(state).parameter_memory@[pt], order@[t]);
                            assert(s_set.parameter_values@[pt]
                                == s_pre.parameter_values@[pt]);
                            assert(s_set.parameter_memory@[pt]
                                == s_pre.parameter_memory@[pt]);
                        } else {
                            // The parameter just computed: the value in
                            // its slot is exactly its computation against
                            // the updated state.
                            assert(dep_values_agree(params@[p as int], s_call, s_set)) by {
                                assert forall|d: usize| #[trigger] is_dep(
                                    params@[p as int], d)
                                    && d < s_call.parameter_values@.len()
                                    implies s_call.parameter_values@[d as int]
                                        == s_set.parameter_values@[d as int] by {
                                    if d == p {
                                        let j = choose|j: int| 0 <= j < k
                                            && order@[j] == d;
                                        assert(order@[j] == order@[k as int]);
                                        assert(false);
                                    }
                                }
                            }
                            lemma_compute_frame(params@[p as int], s_call, s_set,
                                old(state).parameter_memory@[p as int], p);
                            assert(s_set.parameter_values@[p as int] == Some(v));
                            assert(s_set.parameter_memory@[p as int] == mem);
                        }
                    }
                    assert forall|x: int| #![trigger state.parameter_values@[x]]
                        0 <= x < n
                        && !order@.take(k as int + 1).contains(x as usize)
                        implies state.parameter_values@[x] is None
                            && state.parameter_memory@[x]
                                == old(state).parameter_memory@[x] by {
                        assert(!order@.take(k as int).contains(x as usize)) by {
                            if order@.take(k as int).contains(x as usize) {
                                let j = choose|j: int| 0 <= j < k
                                    && order@.take(k as int)[j] == x as usize;
                                assert(order@.take(k as int + 1)[j] == x as usize);
                            }
                        }
                        assert(x != p) by {
                            if x == p {
                                assert(order@.take(k as int + 1)[k as int] == p);
                            }
                        }
                        assert(state.parameter_values@[x] == s_pre.parameter_values@[x]);
                        assert(state.parameter_memory@[x] == s_pre.parameter_memory@[x]);
                    }
                }
            },
            Err(e) => {
                proof {
                    assert(compute_result_spec(params@[p as int], s_now,
                        old(state).parameter_memory@[p as int], p)
                        == Err::<i64, EvalError>(e));
                    assert(state.parameter_values@[p as int] is None);
                    assert forall|t: int| 0 <= t < k
                        implies #[trigger] param_computed(params@, order@, *old(state),
                            *state, t) by {
                        let pt = order@[t] as int;
                        assert(param_computed(params@, order@, *old(state), s_pre, t));
                        assert(pt != p) by {
                            if pt == p {
                                assert(order@[t] == order@[k as int]);
                            }
                        }
                        assert(reads_agree(s_pre, s_now));
                        assert(dep_values_agree(params@[pt], s_pre, s_now));
                        lemma_compute_frame(params@[pt], s_pre, s_now,
                            old(state).parameter_memory@[pt], order@[t]);
                        assert(s_now.parameter_values@[pt] == s_pre.parameter_values@[pt]);
                        assert(s_now.parameter_memory@[pt] == s_pre.parameter_memory@[pt]);
                    }
                }
                return Err(e);
            },
        }
        k = k + 1;
    }
    Ok(())
}

} // verus!
