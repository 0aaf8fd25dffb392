//! The damage of a replay, by source, and the rounding of exact figures.

use std::collections::HashMap;
use vstd::arithmetic::div_mod::lemma_fundamental_div_mod_converse;
use vstd::prelude::*;

verus! {

/// The whole number nearest to `n / d`, the greater one where two are equally
/// near; for `n` not below zero and `d` above it.
pub open spec fn round_div(n: int, d: int) -> int {
    (2 * n + d) / (2 * d)
}

/// The nearest whole number lies one above the quotient where the remainder
/// is at least half the divisor, and is the quotient otherwise.
pub proof fn lemma_round_div(n: int, d: int)
    requires
        n >= 0,
        d > 0,
    ensures
        round_div(n, d) == n / d + if 2 * (n % d) >= d {
            1int
        } else {
            0int
        },
        n / d <= round_div(n, d) <= n / d + 1,
        0 <= n / d <= n,
{
    let q = n / d;
    let r = n % d;
    assert(n == d * q + r && 0 <= r < d) by {
        vstd::arithmetic::div_mod::lemma_fundamental_div_mod(n, d);
        vstd::arithmetic::div_mod::lemma_mod_bound(n, d);
    }
    assert(0 <= q <= n) by (nonlinear_arith)
        requires
            n == d * q + r,
            0 <= r < d,
            n >= 0,
            d > 0,
    ;
    if 2 * r >= d {
        assert(2 * n + d == (q + 1) * (2 * d) + (2 * r - d)) by (nonlinear_arith)
            requires
                n == d * q + r,
        ;
        lemma_fundamental_div_mod_converse(2 * n + d, 2 * d, q + 1, 2 * r - d);
    } else {
        assert(2 * n + d == q * (2 * d) + (2 * r + d)) by (nonlinear_arith)
            requires
                n == d * q + r,
        ;
        lemma_fundamental_div_mod_converse(2 * n + d, 2 * d, q, 2 * r + d);
    }
}

/// The whole number nearest to `n / d`, the greater one where two are equally
/// near.
pub fn rounded_quotient(n: u128, d: u128) -> (r: u128)
    requires
        d > 0,
    ensures
        r == round_div(n as int, d as int),
{
    proof {
        lemma_round_div(n as int, d as int);
    }
    let q = n / d;
    let rest = n % d;
    if rest >= d - rest {
        proof {
            vstd::arithmetic::div_mod::lemma_fundamental_div_mod(n as int, d as int);
            assert(q < n) by (nonlinear_arith)
                requires
                    n == d * q + rest,
                    rest >= d - rest,
                    d > 0,
                    q >= 0,
            ;
        }
        q + 1
    } else {
        q
    }
}

/// The value that `m` gives to `skill_id`, and zero where it gives none.
pub open spec fn dealt_by(m: Map<u32, u64>, skill_id: u32) -> u64 {
    if m.contains_key(skill_id) {
        m[skill_id]
    } else {
        0
    }
}

/// The sum of what `m` gives to the skill ids below `bound`.
pub open spec fn sum_below(m: Map<u32, u64>, bound: nat) -> nat
    decreases bound,
{
    if bound == 0 {
        0
    } else {
        sum_below(m, (bound - 1) as nat) + dealt_by(m, (bound - 1) as u32) as nat
    }
}

/// The sum of all that `m` gives.
pub open spec fn sum_of(m: Map<u32, u64>) -> nat {
    sum_below(m, 0x1_0000_0000)
}

/// The sum of nothing is nothing.
pub proof fn lemma_sum_of_nothing(bound: nat)
    ensures
        sum_below(Map::<u32, u64>::empty(), bound) == 0,
    decreases bound,
{
    if bound > 0 {
        lemma_sum_of_nothing((bound - 1) as nat);
    }
}

/// Giving another value to one skill id changes the sum by the difference.
pub proof fn lemma_sum_after_insert(m: Map<u32, u64>, skill_id: u32, value: u64, bound: nat)
    requires
        bound <= 0x1_0000_0000,
    ensures
        sum_below(m.insert(skill_id, value), bound) == if skill_id < bound {
            sum_below(m, bound) - dealt_by(m, skill_id) + value
        } else {
            sum_below(m, bound) as int
        },
        skill_id < bound ==> dealt_by(m, skill_id) <= sum_below(m, bound),
    decreases bound,
{
    if bound > 0 {
        lemma_sum_after_insert(m, skill_id, value, (bound - 1) as nat);
    }
}

/// No source has dealt more than all together.
pub proof fn lemma_part_within_sum(m: Map<u32, u64>, skill_id: u32)
    ensures
        dealt_by(m, skill_id) <= sum_of(m),
{
    lemma_sum_after_insert(m, skill_id, 0, 0x1_0000_0000);
}

/// The mathematical content of a [`DamageDistribution`]: the damage that each
/// source has dealt, and the damage of all.
pub struct DamageView {
    pub by_skill: Map<u32, u64>,
    pub total: u64,
}

impl DamageView {
    /// No damage by anyone.
    pub open spec fn empty() -> DamageView {
        DamageView { by_skill: Map::empty(), total: 0 }
    }

    /// The damage that `skill_id` has dealt.
    pub open spec fn of(self, skill_id: u32) -> u64 {
        dealt_by(self.by_skill, skill_id)
    }

    /// The total is the sum of what the sources have dealt.
    pub open spec fn wf(self) -> bool {
        self.total == sum_of(self.by_skill)
    }

    /// The distribution after `skill_id` has dealt `damage` more.
    pub open spec fn added(self, skill_id: u32, damage: int) -> DamageView {
        DamageView {
            by_skill: self.by_skill.insert(skill_id, (self.of(skill_id) + damage) as u64),
            total: (self.total + damage) as u64,
        }
    }
}

/// The damage of a replay, source by source, and its total.
pub struct DamageDistribution {
    damage_by_skill: HashMap<u32, u64>,
    total_damage: u64,
}

impl View for DamageDistribution {
    type V = DamageView;

    closed spec fn view(&self) -> DamageView {
        DamageView { by_skill: self.damage_by_skill@, total: self.total_damage }
    }
}

impl DamageDistribution {
    /// A distribution without damage and without sources.
    pub fn new() -> (r: Self)
        ensures
            r@ == DamageView::empty(),
            r@.wf(),
    {
        proof {
            lemma_sum_of_nothing(0x1_0000_0000);
        }
        DamageDistribution { damage_by_skill: HashMap::new(), total_damage: 0 }
    }

    /// Adds `damage` to what `skill_id` has dealt and to the total.
    pub fn add_damage(&mut self, skill_id: u32, damage: u64)
        requires
            old(self)@.wf(),
            old(self)@.total + damage <= u64::MAX,
        ensures
            final(self)@ == old(self)@.added(skill_id, damage as int),
            final(self)@.wf(),
    {
        broadcast use vstd::std_specs::hash::group_hash_axioms;

        let so_far = self.damage_of(skill_id);
        proof {
            lemma_part_within_sum(self@.by_skill, skill_id);
            lemma_sum_after_insert(
                self@.by_skill,
                skill_id,
                (so_far + damage) as u64,
                0x1_0000_0000,
            );
        }
        self.damage_by_skill.insert(skill_id, so_far + damage);
        self.total_damage = self.total_damage + damage;
    }

    /// The damage of all sources together.
    pub fn total_damage(&self) -> (r: u64)
        ensures
            r == self@.total,
    {
        self.total_damage
    }

    /// The damage that `skill_id` has dealt; zero for one that has dealt
    /// none.
    pub fn damage_of(&self, skill_id: u32) -> (r: u64)
        ensures
            r == self@.of(skill_id),
    {
        broadcast use vstd::std_specs::hash::group_hash_axioms;

        match self.damage_by_skill.get(&skill_id) {
            Some(damage) => *damage,
            None => 0,
        }
    }

    /// Whether `skill_id` is among the sources.
    pub fn has_source(&self, skill_id: u32) -> (r: bool)
        ensures
            r == self@.by_skill.contains_key(skill_id),
    {
        broadcast use vstd::std_specs::hash::group_hash_axioms;

        self.damage_by_skill.contains_key(&skill_id)
    }

    /// The number of sources.
    pub fn source_count(&self) -> (r: usize)
        ensures
            r == self@.by_skill.len(),
    {
        broadcast use vstd::std_specs::hash::group_hash_axioms;

        self.damage_by_skill.len()
    }
}

} // verus!
