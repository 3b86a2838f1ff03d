//! Scenario groups and the combinatorial scenario index set.
//!
//! Each scenario group is one independent dimension; a run covers the full
//! cross-product of all group sizes. A [`ScenarioIndex`] pairs the flattened
//! ordinal of one combination with its decoded coordinate vector.

use vstd::prelude::*;
use crate::errors::LoadError;

verus! {

/// One named scenario dimension with its cardinality.
#[derive(Clone, Debug)]
pub struct ScenarioGroup {
    pub name: String,
    pub size: usize,
}

impl ScenarioGroup {
    pub fn new(name: &str, size: usize) -> (r: Self)
        ensures
            r.name@ == name@,
            r.size == size,
    {
        Self { name: name.to_owned(), size }
    }

    pub fn size(&self) -> (r: usize)
        ensures
            r == self.size,
    {
        self.size
    }
}

/// One coordinate in the cross-product of all scenario groups, together
/// with its flattened ordinal.
#[derive(Clone, Debug)]
pub struct ScenarioIndex {
    pub index: usize,
    pub indices: Vec<usize>,
}

impl ScenarioIndex {
    pub fn new(index: usize, indices: Vec<usize>) -> (r: Self)
        ensures
            r.index == index,
            r.indices@ == indices@,
    {
        Self { index, indices }
    }
}

/// The product of all group sizes: how many scenario combinations exist.
pub open spec fn sizes_product(sizes: Seq<usize>) -> int
    decreases sizes.len(),
{
    if sizes.len() == 0 {
        1
    } else {
        sizes_product(sizes.drop_last()) * sizes.last()
    }
}

/// The flattened ordinal of a coordinate vector in mixed radix, with the
/// last group varying fastest.
pub open spec fn mixed_radix_value(sizes: Seq<usize>, coords: Seq<usize>) -> int
    decreases coords.len(),
{
    if coords.len() == 0 {
        0
    } else {
        mixed_radix_value(sizes.drop_last(), coords.drop_last()) * sizes.last() + coords.last()
    }
}

/// A coordinate vector that is elementwise within its group sizes.
pub open spec fn coords_in_range(sizes: Seq<usize>, coords: Seq<usize>) -> bool {
    &&& coords.len() == sizes.len()
    &&& forall|g: int| 0 <= g < coords.len() ==> coords[g] < sizes[g]
}

/// A sequence read back to front.
pub open spec fn reversed(s: Seq<usize>) -> Seq<usize> {
    Seq::new(s.len(), |j: int| s[s.len() - 1 - j])
}

proof fn lemma_sizes_product_nonneg(sizes: Seq<usize>)
    ensures
        sizes_product(sizes) >= 0,
    decreases sizes.len(),
{
    if sizes.len() > 0 {
        lemma_sizes_product_nonneg(sizes.drop_last());
        vstd::arithmetic::mul::lemma_mul_nonnegative(
            sizes_product(sizes.drop_last()),
            sizes.last() as int,
        );
    }
}

proof fn lemma_sizes_product_pos_factors(sizes: Seq<usize>)
    requires
        sizes_product(sizes) > 0,
    ensures
        forall|g: int| 0 <= g < sizes.len() ==> sizes[g] >= 1,
    decreases sizes.len(),
{
    if sizes.len() > 0 {
        let dl = sizes.drop_last();
        lemma_sizes_product_nonneg(dl);
        assert(sizes_product(sizes) == sizes_product(dl) * (sizes.last() as int));
        assert(sizes.last() != 0 && sizes_product(dl) > 0) by {
            vstd::arithmetic::mul::lemma_mul_basics(sizes_product(dl));
            vstd::arithmetic::mul::lemma_mul_basics(sizes.last() as int);
            if sizes.last() == 0 {
                assert(sizes_product(dl) * (sizes.last() as int) == 0);
            }
            if sizes_product(dl) == 0 {
                assert(sizes_product(dl) * (sizes.last() as int) == 0);
            }
        }
        lemma_sizes_product_pos_factors(dl);
        assert forall|g: int| 0 <= g < sizes.len() implies sizes[g] >= 1 by {
            if g < sizes.len() - 1 {
                assert(sizes[g] == dl[g]);
            }
        }
    }
}

/// The mixed-radix value of an in-range coordinate vector is at least zero
/// and lies below the product of the sizes.
proof fn lemma_mixed_radix_value_bounds(sizes: Seq<usize>, coords: Seq<usize>)
    requires
        coords_in_range(sizes, coords),
    ensures
        0 <= mixed_radix_value(sizes, coords),
        sizes.len() > 0 ==> mixed_radix_value(sizes, coords) < sizes_product(sizes),
    decreases coords.len(),
{
    if coords.len() > 0 {
        let ps = sizes.drop_last();
        let pc = coords.drop_last();
        assert(coords_in_range(ps, pc)) by {
            assert(forall|g: int| 0 <= g < pc.len()
                ==> pc[g] == coords[g] && ps[g] == sizes[g]);
        }
        lemma_mixed_radix_value_bounds(ps, pc);
        let v = mixed_radix_value(ps, pc);
        let s = sizes.last() as int;
        let c = coords.last() as int;
        vstd::arithmetic::mul::lemma_mul_nonnegative(v, s);
        vstd::arithmetic::mul::lemma_mul_basics(s);
        assert(sizes_product(sizes) == sizes_product(ps) * s);
        assert(mixed_radix_value(sizes, coords) == v * s + c);
        if sizes.len() == 1 {
            assert(v == 0);
            assert(sizes_product(ps) == 1);
            assert(sizes_product(ps) * s == s);
        } else {
            // v <= prod(ps) - 1, so v*s + c <= (prod(ps) - 1)*s + (s - 1)
            // which is below prod(ps)*s.
            assert(v <= sizes_product(ps) - 1);
            vstd::arithmetic::mul::lemma_mul_inequality(v, sizes_product(ps) - 1, s);
            vstd::arithmetic::mul::lemma_mul_is_distributive_sub_other_way(
                s,
                sizes_product(ps),
                1,
            );
            assert((sizes_product(ps) - 1) * s == sizes_product(ps) * s - 1 * s);
        }
    }
}

/// Two different in-range coordinate vectors have different ordinals:
/// encoding is injective, so the decoded coordinates of distinct ordinals
/// are unique and decoding round-trips with encoding.
pub proof fn lemma_mixed_radix_value_injective(sizes: Seq<usize>, a: Seq<usize>, b: Seq<usize>)
    requires
        coords_in_range(sizes, a),
        coords_in_range(sizes, b),
        mixed_radix_value(sizes, a) == mixed_radix_value(sizes, b),
    ensures
        a == b,
    decreases sizes.len(),
{
    if sizes.len() == 0 {
        assert(a =~= b);
    } else {
        let ps = sizes.drop_last();
        let pa = a.drop_last();
        let pb = b.drop_last();
        assert(coords_in_range(ps, pa) && coords_in_range(ps, pb)) by {
            assert(forall|g: int| 0 <= g < ps.len()
                ==> pa[g] == a[g] && pb[g] == b[g] && ps[g] == sizes[g]);
        }
        let s = sizes.last() as int;
        let va = mixed_radix_value(ps, pa);
        let vb = mixed_radix_value(ps, pb);
        let ca = a.last() as int;
        let cb = b.last() as int;
        // va*s + ca == vb*s + cb with 0 <= ca, cb < s forces ca == cb and
        // va == vb, by uniqueness of quotient and remainder.
        vstd::arithmetic::div_mod::lemma_fundamental_div_mod_converse(va * s + ca, s, va, ca);
        vstd::arithmetic::div_mod::lemma_fundamental_div_mod_converse(vb * s + cb, s, vb, cb);
        lemma_mixed_radix_value_injective(ps, pa, pb);
        assert(a =~= pa.push(a.last()));
        assert(b =~= pb.push(b.last()));
    }
}

proof fn lemma_sizes_product_split_one(sizes: Seq<usize>, g: int)
    requires
        0 <= g < sizes.len(),
        sizes_product(sizes.take(g)) * sizes_product(sizes.skip(g)) == sizes_product(sizes),
    ensures
        sizes_product(sizes.take(g + 1)) == sizes_product(sizes.take(g)) * sizes[g],
        sizes_product(sizes.take(g + 1)) * sizes_product(sizes.skip(g + 1))
            == sizes_product(sizes),
{
    let sfx = sizes.skip(g);
    assert(sfx.len() > 0);
    lemma_sizes_product_cons(sfx);
    assert(sfx[0] == sizes[g]);
    assert(sfx.skip(1) =~= sizes.skip(g + 1));
    assert(sizes.take(g + 1).drop_last() =~= sizes.take(g));
    assert(sizes.take(g + 1).last() == sizes[g]);
    vstd::arithmetic::mul::lemma_mul_is_associative(
        sizes_product(sizes.take(g)),
        sizes[g] as int,
        sizes_product(sizes.skip(g + 1)),
    );
}

proof fn lemma_sizes_product_cons(sizes: Seq<usize>)
    requires
        sizes.len() > 0,
    ensures
        sizes_product(sizes) == sizes[0] * sizes_product(sizes.skip(1)),
    decreases sizes.len(),
{
    if sizes.len() == 1 {
        assert(sizes.drop_last().len() == 0);
        assert(sizes.skip(1).len() == 0);
        vstd::arithmetic::mul::lemma_mul_basics(sizes[0] as int);
        assert(sizes_product(sizes) == sizes_product(sizes.drop_last()) * (sizes.last() as int));
        assert(sizes[0] == sizes.last());
    } else {
        let dl = sizes.drop_last();
        lemma_sizes_product_cons(dl);
        assert(dl[0] == sizes[0]);
        assert(dl.skip(1) =~= sizes.skip(1).drop_last());
        let s = sizes.last() as int;
        let taildl = sizes_product(sizes.skip(1).drop_last());
        assert(sizes_product(sizes) == (sizes[0] * taildl) * s);
        vstd::arithmetic::mul::lemma_mul_is_associative(sizes[0] as int, taildl, s);
        assert(sizes.skip(1).last() == sizes.last());
        assert(sizes_product(sizes.skip(1)) == taildl * s);
    }
}

/// Prepending a digit to a mixed-radix number shifts it by the product of
/// the remaining radices.
proof fn lemma_mixed_radix_value_cons(sizes: Seq<usize>, digit: usize, coords: Seq<usize>)
    requires
        sizes.len() == coords.len() + 1,
    ensures
        mixed_radix_value(sizes, seq![digit].add(coords))
            == digit * sizes_product(sizes.skip(1))
                + mixed_radix_value(sizes.skip(1), coords),
    decreases coords.len(),
{
    let full = seq![digit].add(coords);
    if coords.len() == 0 {
        assert(full.len() == 1);
        assert(full.last() == digit);
        assert(full.drop_last().len() == 0);
        assert(sizes.skip(1).len() == 0);
        vstd::arithmetic::mul::lemma_mul_basics(sizes.last() as int);
        vstd::arithmetic::mul::lemma_mul_basics(digit as int);
        assert(mixed_radix_value(sizes, full)
            == mixed_radix_value(sizes.drop_last(), full.drop_last()) * (sizes.last() as int)
                + digit);
    } else {
        let sfx = sizes.skip(1);
        let s = sizes.last() as int;
        let c = coords.last() as int;
        assert(full.drop_last() =~= seq![digit].add(coords.drop_last()));
        assert(sizes.drop_last().len() == coords.drop_last().len() + 1);
        lemma_mixed_radix_value_cons(sizes.drop_last(), digit, coords.drop_last());
        assert(sizes.drop_last().skip(1) =~= sfx.drop_last());
        assert(full.last() == coords.last());
        assert(sfx.last() == sizes.last());
        let pdl = sizes_product(sfx.drop_last());
        let mdl = mixed_radix_value(sfx.drop_last(), coords.drop_last());
        assert(mixed_radix_value(sizes, full)
            == (digit * pdl + mdl) * s + c);
        vstd::arithmetic::mul::lemma_mul_is_distributive_add_other_way(
            s,
            digit * pdl,
            mdl,
        );
        vstd::arithmetic::mul::lemma_mul_is_associative(digit as int, pdl, s);
        lemma_sizes_product_last(sfx);
        assert(sizes_product(sfx) == pdl * s);
        assert(mixed_radix_value(sfx, coords) == mdl * s + c);
        assert(mixed_radix_value(sizes, full)
            == digit * sizes_product(sfx) + mixed_radix_value(sfx, coords));
    }
}

proof fn lemma_sizes_product_last(sizes: Seq<usize>)
    requires
        sizes.len() > 0,
    ensures
        sizes_product(sizes) == sizes_product(sizes.drop_last()) * sizes.last(),
{
}

/// A collection of scenario groups defining the scenario space of a run.
#[derive(Clone, Debug)]
pub struct ScenarioGroupCollection {
    pub groups: Vec<ScenarioGroup>,
}

impl ScenarioGroupCollection {
    /// An empty collection: its scenario space is the single empty
    /// coordinate.
    pub fn new() -> (r: Self)
        ensures
            r.groups@.len() == 0,
    {
        Self { groups: Vec::new() }
    }

    /// The sizes of all groups, in order.
    pub open spec fn sizes(&self) -> Seq<usize> {
        self.groups@.map_values(|g: ScenarioGroup| g.size)
    }

    /// Find a group's index in the collection by name.
    pub fn get_group_index_by_name(&self, name: &str) -> (r: Result<usize, LoadError>)
        ensures
            match r {
                Ok(i) => 0 <= i < self.groups@.len() && self.groups@[i as int].name@ == name@
                    && forall|j: int| 0 <= j < i ==> self.groups@[j].name@ != name@,
                Err(e) => (e matches LoadError::ScenarioNotFound(n) && n@ == name@)
                    && forall|j: int| 0 <= j < self.groups@.len()
                        ==> self.groups@[j].name@ != name@,
            },
    {
        let key: String = name.to_owned();
        let n = self.groups.len();
        let mut i: usize = 0;
        while i < n
            invariant
                n == self.groups@.len(),
                key@ == name@,
                0 <= i <= n,
                forall|j: int| 0 <= j < i ==> self.groups@[j].name@ != name@,
            decreases n - i,
        {
            if self.groups[i].name == key {
                return Ok(i);
            }
            i = i + 1;
        }
        Err(LoadError::ScenarioNotFound(key))
    }

    /// Find a group in the collection by name: the first one carrying it.
    pub fn get_group_by_name(&self, name: &str) -> (r: Result<&ScenarioGroup, LoadError>)
        ensures
            match r {
                Ok(g) => exists|i: int| #![auto] 0 <= i < self.groups@.len()
                    && g == self.groups@[i] && g.name@ == name@
                    && forall|j: int| 0 <= j < i ==> self.groups@[j].name@ != name@,
                Err(e) => (e matches LoadError::ScenarioNotFound(n) && n@ == name@)
                    && forall|j: int| 0 <= j < self.groups@.len()
                        ==> self.groups@[j].name@ != name@,
            },
    {
        match self.get_group_index_by_name(name) {
            Ok(i) => Ok(&self.groups[i]),
            Err(e) => Err(e),
        }
    }

    /// Add a group to the collection.
    pub fn add_group(&mut self, name: &str, size: usize)
        ensures
            final(self).groups@.len() == old(self).groups@.len() + 1,
            final(self).groups@.last().name@ == name@,
            final(self).groups@.last().size == size,
            final(self).groups@.drop_last() == old(self).groups@,
    {
        self.groups.push(ScenarioGroup::new(name, size));
        proof {
            assert(self.groups@.drop_last() =~= old(self).groups@);
        }
    }

    /// Generate a [`ScenarioIndex`] for every combination of the groups.
    ///
    /// Entry `i` carries ordinal `i` and the unique coordinate vector whose
    /// mixed-radix value (last group fastest) is `i`.
    pub fn scenario_indices(&self) -> (r: Vec<ScenarioIndex>)
        requires
            sizes_product(self.sizes()) <= usize::MAX,
        ensures
            r@.len() == sizes_product(self.sizes()),
            forall|i: int| 0 <= i < r@.len() ==> (#[trigger] r@[i]).index == i,
            forall|i: int| 0 <= i < r@.len()
                ==> coords_in_range(self.sizes(), (#[trigger] r@[i]).indices@),
            forall|i: int| 0 <= i < r@.len()
                ==> mixed_radix_value(self.sizes(), (#[trigger] r@[i]).indices@) == i,
    {
        let ghost sizes = self.sizes();
        proof {
            lemma_sizes_product_nonneg(sizes);
            assert(sizes.take(0).len() == 0);
            assert(sizes.skip(0) =~= sizes);
        }
        let ngroups = self.groups.len();
        let mut num: usize = 1;
        let mut g: usize = 0;
        while g < ngroups
            invariant
                ngroups == self.groups@.len(),
                sizes == self.sizes(),
                sizes_product(sizes) <= usize::MAX,
                0 <= g <= ngroups,
                num == sizes_product(sizes.take(g as int)),
                sizes_product(sizes.take(g as int)) * sizes_product(sizes.skip(g as int))
                    == sizes_product(sizes),
            decreases ngroups - g,
        {
            let size = self.groups[g].size;
            proof {
                lemma_sizes_product_split_one(sizes, g as int);
            }
            num = match num.checked_mul(size) {
                Some(v) => v,
                None => {
                    proof {
                        // The prefix product exceeds usize::MAX, so the
                        // suffix product, and with it the whole product,
                        // must be zero.
                        let pt = sizes_product(sizes.take(g as int + 1));
                        let ps = sizes_product(sizes.skip(g as int + 1));
                        lemma_sizes_product_nonneg(sizes.skip(g as int + 1));
                        lemma_sizes_product_nonneg(sizes.take(g as int + 1));
                        if ps >= 1 {
                            vstd::arithmetic::mul::lemma_mul_inequality(1, ps, pt);
                            vstd::arithmetic::mul::lemma_mul_is_commutative(pt, ps);
                        }
                        assert(ps == 0);
                        assert(pt * 0 == 0);
                    }
                    return Vec::new();
                },
            };
            g = g + 1;
        }
        proof {
            assert(sizes.take(ngroups as int) =~= sizes);
        }

        let mut scenario_indices: Vec<ScenarioIndex> = Vec::new();
        let mut scenario_id: usize = 0;
        while scenario_id < num
            invariant
                ngroups == self.groups@.len(),
                sizes == self.sizes(),
                num == sizes_product(sizes),
                0 <= scenario_id <= num,
                scenario_indices@.len() == scenario_id,
                forall|i: int| 0 <= i < scenario_id
                    ==> (#[trigger] scenario_indices@[i]).index == i,
                forall|i: int| 0 <= i < scenario_id
                    ==> coords_in_range(sizes, (#[trigger] scenario_indices@[i]).indices@),
                forall|i: int| 0 <= i < scenario_id
                    ==> mixed_radix_value(sizes, (#[trigger] scenario_indices@[i]).indices@)
                        == i,
            decreases num - scenario_id,
        {
            proof {
                lemma_sizes_product_pos_factors(sizes);
            }
            let mut remaining = scenario_id;
            // Digits are produced for the last group first.
            let mut rev_digits: Vec<usize> = Vec::new();
            let mut k: usize = 0;
            proof {
                assert(sizes.skip(ngroups as int).len() == 0);
                assert(reversed(rev_digits@).len() == 0);
            }
            while k < ngroups
                invariant
                    ngroups == self.groups@.len(),
                    sizes == self.sizes(),
                    num == sizes_product(sizes),
                    scenario_id < num,
                    0 <= k <= ngroups,
                    forall|t: int| 0 <= t < sizes.len() ==> sizes[t] >= 1,
                    rev_digits@.len() == k,
                    coords_in_range(
                        sizes.skip(ngroups as int - k as int),
                        reversed(rev_digits@),
                    ),
                    remaining * sizes_product(sizes.skip(ngroups as int - k as int))
                        + mixed_radix_value(
                            sizes.skip(ngroups as int - k as int),
                            reversed(rev_digits@),
                        ) == scenario_id,
                decreases ngroups - k,
            {
                let gi = ngroups - 1 - k;
                let size = self.groups[gi].size;
                proof {
                    assert(size == sizes[gi as int]);
                    assert(size >= 1);
                }
                let digit = remaining % size;
                let new_remaining = remaining / size;
                proof {
                    let sfx_old = sizes.skip(ngroups as int - k as int);
                    let sfx_new = sizes.skip(gi as int);
                    let coords_old = reversed(rev_digits@);
                    let coords_new = reversed(rev_digits@.push(digit));
                    assert(size == sizes[gi as int]);
                    assert(sfx_new.len() == k + 1);
                    assert(sfx_new[0] == sizes[gi as int]);
                    assert(sfx_new.skip(1) =~= sfx_old);
                    assert(coords_new =~= seq![digit].add(coords_old));
                    assert(coords_in_range(sfx_new, coords_new));
                    lemma_mixed_radix_value_cons(sfx_new, digit, coords_old);
                    lemma_sizes_product_cons(sfx_new);
                    lemma_sizes_product_nonneg(sfx_old);
                    vstd::arithmetic::div_mod::lemma_fundamental_div_mod(
                        remaining as int,
                        size as int,
                    );
                    // remaining == size*new_remaining + digit; regrouping
                    // keeps the invariant sum equal to the ordinal.
                    assert(remaining * sizes_product(sfx_old)
                        == (size * (new_remaining as int) + digit)
                            * sizes_product(sfx_old));
                    vstd::arithmetic::mul::lemma_mul_is_distributive_add_other_way(
                        sizes_product(sfx_old),
                        size * (new_remaining as int),
                        digit as int,
                    );
                    vstd::arithmetic::mul::lemma_mul_is_associative(
                        size as int,
                        new_remaining as int,
                        sizes_product(sfx_old),
                    );
                    vstd::arithmetic::mul::lemma_mul_is_associative(
                        new_remaining as int,
                        size as int,
                        sizes_product(sfx_old),
                    );
                    vstd::arithmetic::mul::lemma_mul_is_commutative(
                        new_remaining as int,
                        size as int,
                    );
                    assert(new_remaining * sizes_product(sfx_new)
                        + mixed_radix_value(sfx_new, coords_new) == scenario_id);
                }
                rev_digits.push(digit);
                remaining = new_remaining;
                k = k + 1;
            }
            proof {
                assert(sizes.skip(0) =~= sizes);
                let coords = reversed(rev_digits@);
                lemma_mixed_radix_value_bounds(sizes, coords);
                // remaining*num + value == ordinal < num forces the final
                // quotient to zero.
                if remaining >= 1 {
                    vstd::arithmetic::mul::lemma_mul_inequality(
                        1,
                        remaining as int,
                        num as int,
                    );
                    vstd::arithmetic::mul::lemma_mul_is_commutative(
                        remaining as int,
                        num as int,
                    );
                }
                assert(remaining == 0);
                assert(mixed_radix_value(sizes, coords) == scenario_id);
            }
            // Reverse into forward group order.
            let mut indices: Vec<usize> = Vec::new();
            let mut j: usize = 0;
            while j < ngroups
                invariant
                    0 <= j <= ngroups,
                    rev_digits@.len() == ngroups,
                    indices@.len() == j,
                    forall|t: int| 0 <= t < j
                        ==> indices@[t] == rev_digits@[ngroups - 1 - t],
                decreases ngroups - j,
            {
                indices.push(rev_digits[ngroups - 1 - j]);
                j = j + 1;
            }
            proof {
                assert(indices@ =~= reversed(rev_digits@));
            }
            scenario_indices.push(ScenarioIndex::new(scenario_id, indices));
            scenario_id = scenario_id + 1;
        }
        scenario_indices
    }
}

} // verus!
