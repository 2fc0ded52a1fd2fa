//! One production entity: its record and the pure cost/production formulas.
//!
//! Conventions, fixed once for the whole crate:
//! - `level` starts at 0; the production rate at level `l` is
//!   `(l + 1) * base_gold_per_second` (a fresh entity already produces).
//! - the upgrade bought *at* level `l` moves the entity to level `l + 1`
//!   and costs `upgrade_cost(l)`, where `upgrade_cost(0)` is the base cost
//!   and each further cost is the previous one times the growth factor,
//!   rounded up to a whole milligold.
//! - executable results are capped at `u64::MAX` where the exact value
//!   would not fit; the spec functions speak of the exact value.

use vstd::prelude::*;

verus! {

/// A mutable per-type production record. Amounts are milligold; the
/// growth factor is a percentage (`115` means a factor of 1.15).
pub struct IdleEntity {
    pub name: String,
    pub level: u32,
    pub base_gold_per_second: u64,
    pub base_upgrade_cost: u64,
    pub upgrade_cost_factor_percent: u64,
}

/// A character that may stand in an entity name: printable ASCII without
/// the two JSON string delimiters, so a name passes through the persisted
/// form unchanged.
pub open spec fn valid_name_char(c: char) -> bool {
    ' ' <= c <= '~' && c != '"' && c != '\\'
}

pub open spec fn valid_name(s: Seq<char>) -> bool {
    forall|i: int| 0 <= i < s.len() ==> valid_name_char(#[trigger] s[i])
}

impl IdleEntity {
    /// Well-formedness: positive rate and cost, a growth factor strictly
    /// above one, and a name that survives persistence. The rate bound
    /// keeps `(level + 1) * base_gold_per_second` inside `u64` for every
    /// `u32` level.
    pub open spec fn wf(self) -> bool {
        &&& valid_name(self.name@)
        &&& 1 <= self.base_gold_per_second <= u32::MAX
        &&& 1 <= self.base_upgrade_cost
        &&& 101 <= self.upgrade_cost_factor_percent
    }

    /// Exact production rate at `level`: `(level + 1) * base`, in
    /// milligold per second.
    pub open spec fn production_rate(self, level: nat) -> nat {
        (level + 1) * (self.base_gold_per_second as nat)
    }

    /// Exact cost of the upgrade bought at `level`: the base cost grown
    /// by the factor once per level, each step rounded up.
    pub open spec fn upgrade_cost(self, level: nat) -> nat
        decreases level,
    {
        if level == 0 {
            self.base_upgrade_cost as nat
        } else {
            grow_cost(self.upgrade_cost((level - 1) as nat), self.upgrade_cost_factor_percent as nat)
        }
    }

    /// Exact total cost of the `count` upgrades bought at levels
    /// `level, level + 1, ..., level + count - 1`.
    pub open spec fn cumulative_cost(self, level: nat, count: nat) -> nat
        decreases count,
    {
        if count == 0 {
            0
        } else {
            self.cumulative_cost(level, (count - 1) as nat)
                + self.upgrade_cost((level + count - 1) as nat)
        }
    }
}

/// One growth step: `cost * percent / 100`, rounded up.
pub open spec fn grow_cost(cost: nat, percent: nat) -> nat {
    (cost * percent + 99) / 100
}

/// The exact value where it fits in `u64`, else `u64::MAX`. Executable
/// formula results are stated through this cap.
pub open spec fn capped(n: nat) -> u64 {
    if n <= u64::MAX {
        n as u64
    } else {
        u64::MAX
    }
}

/// Growing a positive cost by a factor strictly above one strictly
/// increases it, despite the rounding.
proof fn lemma_grow_cost_strict(cost: nat, percent: nat)
    requires
        1 <= cost,
        101 <= percent,
    ensures
        grow_cost(cost, percent) > cost,
{
    assert(cost * percent >= cost * 101 == cost * 100 + cost) by (nonlinear_arith)
        requires
            101 <= percent,
            1 <= cost,
    ;
    assert((cost * 100 + cost + 99) / 100 >= cost + 1) by (nonlinear_arith)
        requires
            1 <= cost,
    ;
    assert(grow_cost(cost, percent) >= (cost * 100 + cost + 99) / 100) by (nonlinear_arith)
        requires
            cost * percent >= cost * 100 + cost,
    ;
}

impl IdleEntity {
    /// Every upgrade cost is at least the base cost.
    pub proof fn lemma_upgrade_cost_pos(self, level: nat)
        requires
            1 <= self.base_upgrade_cost,
            101 <= self.upgrade_cost_factor_percent,
        ensures
            self.upgrade_cost(level) >= self.base_upgrade_cost,
        decreases level,
    {
        if level > 0 {
            self.lemma_upgrade_cost_pos((level - 1) as nat);
            lemma_grow_cost_strict(
                self.upgrade_cost((level - 1) as nat),
                self.upgrade_cost_factor_percent as nat,
            );
        }
    }

    /// The upgrade cost is strictly increasing in the level whenever the
    /// growth factor is strictly above one.
    pub proof fn lemma_upgrade_cost_strictly_increasing(self, l1: nat, l2: nat)
        requires
            1 <= self.base_upgrade_cost,
            101 <= self.upgrade_cost_factor_percent,
            l1 < l2,
        ensures
            self.upgrade_cost(l1) < self.upgrade_cost(l2),
        decreases l2,
    {
        self.lemma_upgrade_cost_pos((l2 - 1) as nat);
        lemma_grow_cost_strict(
            self.upgrade_cost((l2 - 1) as nat),
            self.upgrade_cost_factor_percent as nat,
        );
        if l1 < l2 - 1 {
            self.lemma_upgrade_cost_strictly_increasing(l1, (l2 - 1) as nat);
        }
    }

    /// The production rate never falls as the level rises, and rises
    /// strictly whenever the base rate is positive.
    pub proof fn lemma_production_rate_monotonic(self, l1: nat, l2: nat)
        requires
            l1 <= l2,
        ensures
            self.production_rate(l1) <= self.production_rate(l2),
            1 <= self.base_gold_per_second && l1 < l2 ==> self.production_rate(l1)
                < self.production_rate(l2),
    {
        assert((l1 + 1) * (self.base_gold_per_second as nat) <= (l2 + 1) * (
        self.base_gold_per_second as nat)) by (nonlinear_arith)
            requires
                l1 <= l2,
        ;
        if 1 <= self.base_gold_per_second && l1 < l2 {
            assert((l1 + 1) * (self.base_gold_per_second as nat) < (l2 + 1) * (
            self.base_gold_per_second as nat)) by (nonlinear_arith)
                requires
                    l1 < l2,
                    1 <= self.base_gold_per_second,
            ;
        }
    }

    /// Under `wf`, the exact production rate fits in `u64` at every level.
    pub proof fn lemma_production_rate_fits(self, level: nat)
        requires
            self.base_gold_per_second <= u32::MAX,
            level <= u32::MAX,
        ensures
            self.production_rate(level) <= u64::MAX,
    {
        lemma_rate_fits(level, self.base_gold_per_second as nat);
    }

    /// The total cost of a run of upgrades splits at any point: buying
    /// `m + n` levels costs what buying the first `m` and then the next
    /// `n` costs. This is exactly the statement that `cumulative_cost`
    /// is the sum of the per-level upgrade costs over the range.
    pub proof fn lemma_cumulative_cost_split(self, level: nat, m: nat, n: nat)
        ensures
            self.cumulative_cost(level, m + n) == self.cumulative_cost(level, m)
                + self.cumulative_cost(level + m, n),
        decreases n,
    {
        if n > 0 {
            self.lemma_cumulative_cost_split(level, m, (n - 1) as nat);
        }
    }

    /// Buying more levels never costs less.
    pub proof fn lemma_cumulative_cost_monotone(self, level: nat, n1: nat, n2: nat)
        requires
            n1 <= n2,
        ensures
            self.cumulative_cost(level, n1) <= self.cumulative_cost(level, n2),
        decreases n2,
    {
        if n1 < n2 {
            self.lemma_cumulative_cost_monotone(level, n1, (n2 - 1) as nat);
        }
    }
}

impl IdleEntity {
    pub fn build(
        name: String,
        base_gold_per_second: u64,
        base_upgrade_cost: u64,
        upgrade_cost_factor_percent: u64,
    ) -> (r: IdleEntity)
        requires
            valid_name(name@),
            1 <= base_gold_per_second <= u32::MAX,
            1 <= base_upgrade_cost,
            101 <= upgrade_cost_factor_percent,
        ensures
            r.wf(),
            r.name@ == name@,
            r.level == 0,
            r.base_gold_per_second == base_gold_per_second,
            r.base_upgrade_cost == base_upgrade_cost,
            r.upgrade_cost_factor_percent == upgrade_cost_factor_percent,
    {
        IdleEntity {
            name,
            level: 0,
            base_gold_per_second,
            base_upgrade_cost,
            upgrade_cost_factor_percent,
        }
    }

    pub fn get_name(&self) -> (r: &str)
        ensures
            r@ == self.name@,
    {
        self.name.as_str()
    }

    pub fn get_level(&self) -> (r: u32)
        ensures
            r == self.level,
    {
        self.level
    }

    pub fn add_level(&mut self, amount: u32)
        requires
            old(self).level + amount <= u32::MAX,
        ensures
            *final(self) == (IdleEntity { level: (old(self).level + amount) as u32, ..*old(self) }),
    {
        self.level = self.level + amount;
    }

    /// Production rate at the current level, milligold per second.
    pub fn gold_per_second(&self) -> (r: u64)
        requires
            self.wf(),
        ensures
            r == self.production_rate(self.level as nat),
    {
        proof {
            lemma_rate_fits(self.level as nat, self.base_gold_per_second as nat);
        }
        (self.level as u64 + 1) * self.base_gold_per_second
    }
}

impl IdleEntity {
    /// Gold accrued over `ms` milliseconds at the current level:
    /// `production_rate * ms / 1000`, in whole milligold.
    pub open spec fn accrued_gold(self, ms: nat) -> nat {
        self.production_rate(self.level as nat) * ms / 1000
    }

    /// Exact cost of the next upgrade where it fits in `u64`, `None`
    /// where it does not.
    fn cost_checked(&self) -> (r: Option<u64>)
        requires
            self.wf(),
        ensures
            match r {
                Some(c) => c == self.upgrade_cost(self.level as nat),
                None => self.upgrade_cost(self.level as nat) > u64::MAX,
            },
    {
        let mut c: u64 = self.base_upgrade_cost;
        let mut i: u32 = 0;
        while i < self.level
            invariant
                self.wf(),
                i <= self.level,
                c == self.upgrade_cost(i as nat),
            decreases self.level - i,
        {
            let next = grow_cost_exec(c, self.upgrade_cost_factor_percent);
            if next > u64::MAX as u128 {
                proof {
                    if i + 1 < self.level {
                        self.lemma_upgrade_cost_strictly_increasing(
                            (i + 1) as nat,
                            self.level as nat,
                        );
                    }
                }
                return None;
            }
            c = next as u64;
            i = i + 1;
        }
        Some(c)
    }

    /// Cost of the single upgrade at the current level, capped at
    /// `u64::MAX` where the exact cost does not fit.
    pub fn cost_for_next_upgrade(&self) -> (r: u64)
        requires
            self.wf(),
        ensures
            r == capped(self.upgrade_cost(self.level as nat)),
    {
        match self.cost_checked() {
            Some(c) => c,
            None => u64::MAX,
        }
    }

    /// Total cost of the next `levels_to_upgrade` upgrades, capped at
    /// `u64::MAX` where the exact total does not fit.
    pub fn cost_for_next_upgrades(&self, levels_to_upgrade: u32) -> (r: u64)
        requires
            self.wf(),
        ensures
            r == capped(self.cumulative_cost(self.level as nat, levels_to_upgrade as nat)),
    {
        self.cumulative_cost_capped(levels_to_upgrade as u64)
    }

    /// As `cost_for_next_upgrades`, for counts beyond `u32`.
    pub(crate) fn cumulative_cost_capped(&self, levels_to_upgrade: u64) -> (r: u64)
        requires
            self.wf(),
        ensures
            r == capped(self.cumulative_cost(self.level as nat, levels_to_upgrade as nat)),
    {
        let ghost lvl = self.level as nat;
        let ghost goal = levels_to_upgrade as nat;
        if levels_to_upgrade == 0 {
            return 0;
        }
        let mut c: u64;
        match self.cost_checked() {
            None => {
                proof {
                    self.lemma_cumulative_cost_monotone(lvl, 1, goal);
                }
                return u64::MAX;
            },
            Some(x) => {
                c = x;
            },
        }
        let mut sum: u64 = 0;
        let mut k: u64 = 0;
        while k < levels_to_upgrade
            invariant
                self.wf(),
                k < levels_to_upgrade,
                goal == levels_to_upgrade as nat,
                lvl == self.level as nat,
                sum == self.cumulative_cost(lvl, k as nat),
                c == self.upgrade_cost(lvl + k as nat),
            decreases levels_to_upgrade - k,
        {
            if c > u64::MAX - sum {
                proof {
                    self.lemma_cumulative_cost_monotone(lvl, k as nat + 1, goal);
                }
                return u64::MAX;
            }
            sum = sum + c;
            k = k + 1;
            if k == levels_to_upgrade {
                return sum;
            }
            let next = grow_cost_exec(c, self.upgrade_cost_factor_percent);
            if next > u64::MAX as u128 {
                proof {
                    self.lemma_cumulative_cost_monotone(lvl, k as nat + 1, goal);
                }
                return u64::MAX;
            }
            c = next as u64;
        }
        sum
    }

    /// The greatest number of upgrades, starting at the current level,
    /// whose total cost stays within `gold`: the returned `r` satisfies
    /// `cumulative_cost(level, r) <= gold < cumulative_cost(level, r + 1)`.
    pub fn quanity_of_possible_upgrades(&self, gold: u64) -> (r: u64)
        requires
            self.wf(),
        ensures
            self.cumulative_cost(self.level as nat, r as nat) <= gold,
            self.cumulative_cost(self.level as nat, r as nat + 1) > gold,
    {
        let ghost lvl = self.level as nat;
        let mut c: u64;
        match self.cost_checked() {
            None => {
                return 0;
            },
            Some(x) => {
                c = x;
            },
        }
        let mut n: u64 = 0;
        let mut cum: u64 = 0;
        while c <= gold - cum
            invariant
                self.wf(),
                lvl == self.level as nat,
                cum == self.cumulative_cost(lvl, n as nat),
                cum <= gold,
                n <= cum,
                c == self.upgrade_cost(lvl + n as nat),
            decreases gold - cum,
        {
            proof {
                self.lemma_upgrade_cost_pos(lvl + n as nat);
            }
            cum = cum + c;
            n = n + 1;
            let next = grow_cost_exec(c, self.upgrade_cost_factor_percent);
            if next > u64::MAX as u128 {
                return n;
            }
            c = next as u64;
        }
        n
    }

    /// Gold gained over `delta_time` milliseconds, capped at `u64::MAX`.
    pub fn get_gold(&self, delta_time: u64) -> (r: u64)
        requires
            self.wf(),
        ensures
            r == capped(self.accrued_gold(delta_time as nat)),
    {
        let rate = self.gold_per_second();
        proof {
            lemma_u64_mul_fits(rate as nat, delta_time as nat);
        }
        let accrued = (rate as u128) * (delta_time as u128) / 1000;
        if accrued > u64::MAX as u128 {
            u64::MAX
        } else {
            accrued as u64
        }
    }

    /// Buys one upgrade where the gold covers the cost and the level can
    /// still rise; deducts the cost and raises the level by one. Reports
    /// `Err` and changes nothing otherwise.
    pub fn upgrade(&mut self, gold: &mut u64) -> (r: Result<(), ()>)
        requires
            old(self).wf(),
        ensures
            r is Ok <==> old(self).level < u32::MAX && old(self).upgrade_cost(
                old(self).level as nat,
            ) <= *old(gold),
            r is Ok ==> *final(self) == (IdleEntity {
                level: (old(self).level + 1) as u32,
                ..*old(self)
            }) && *final(gold) == *old(gold) - old(self).upgrade_cost(old(self).level as nat),
            r is Err ==> *final(self) == *old(self) && *final(gold) == *old(gold),
    {
        if self.level == u32::MAX {
            return Err(());
        }
        match self.cost_checked() {
            None => Err(()),
            Some(c) => {
                if *gold >= c {
                    *gold = *gold - c;
                    self.add_level(1);
                    Ok(())
                } else {
                    Err(())
                }
            },
        }
    }
}

/// One exact growth step, wide enough that it cannot overflow.
fn grow_cost_exec(cost: u64, percent: u64) -> (r: u128)
    ensures
        r == grow_cost(cost as nat, percent as nat),
{
    proof {
        lemma_u64_mul_fits(cost as nat, percent as nat);
    }
    ((cost as u128) * (percent as u128) + 99) / 100
}

/// The product of two `u64` values fits in `u128`.
proof fn lemma_u64_mul_fits(a: nat, b: nat)
    requires
        a <= u64::MAX,
        b <= u64::MAX,
    ensures
        a * b + 99 <= u128::MAX,
{
    assert(a * b <= (u64::MAX as nat) * (u64::MAX as nat)) by (nonlinear_arith)
        requires
            a <= u64::MAX,
            b <= u64::MAX,
    ;
}

/// `(level + 1) * base` fits in `u64` whenever `level` fits in `u32` and
/// `base` is at most `u32::MAX`.
proof fn lemma_rate_fits(level: nat, base: nat)
    requires
        level <= u32::MAX,
        base <= u32::MAX,
    ensures
        (level + 1) * base <= u64::MAX,
{
    assert((level + 1) * base <= (u32::MAX + 1) * (u32::MAX as nat)) by (nonlinear_arith)
        requires
            level <= u32::MAX,
            base <= u32::MAX,
    ;
}

} // verus!
