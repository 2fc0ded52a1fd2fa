//! The game itself: the entity roster, the shared gold pool, and the
//! accrual and upgrade engines.

use vstd::prelude::*;

use crate::entity::{capped, valid_name, IdleEntity};
use crate::game_state::{GameInformation, GameState, IdleEntityInformation};

verus! {

/// The fixed roster, one variant per production entity, in display order.
#[derive(Clone, Copy, PartialEq, Eq, Structural, Debug)]
pub enum IdleEntityType {
    Lumberjack,
    Stonemason,
    Bowmaker,
    Weaponsmith,
    Academic,
    Catapult,
    King,
}

/// How many entities the roster holds.
pub const ROSTER_SIZE: usize = 7;

impl IdleEntityType {
    /// Position of this entity type in the roster.
    pub open spec fn spec_index(self) -> int {
        match self {
            IdleEntityType::Lumberjack => 0,
            IdleEntityType::Stonemason => 1,
            IdleEntityType::Bowmaker => 2,
            IdleEntityType::Weaponsmith => 3,
            IdleEntityType::Academic => 4,
            IdleEntityType::Catapult => 5,
            IdleEntityType::King => 6,
        }
    }

    pub fn index(self) -> (r: usize)
        ensures
            r == self.spec_index(),
    {
        match self {
            IdleEntityType::Lumberjack => 0,
            IdleEntityType::Stonemason => 1,
            IdleEntityType::Bowmaker => 2,
            IdleEntityType::Weaponsmith => 3,
            IdleEntityType::Academic => 4,
            IdleEntityType::Catapult => 5,
            IdleEntityType::King => 6,
        }
    }

    pub open spec fn spec_name(self) -> Seq<char> {
        match self {
            IdleEntityType::Lumberjack => "Lumberjack"@,
            IdleEntityType::Stonemason => "Stonemason"@,
            IdleEntityType::Bowmaker => "Bowmaker"@,
            IdleEntityType::Weaponsmith => "Weaponsmith"@,
            IdleEntityType::Academic => "Academic"@,
            IdleEntityType::Catapult => "Catapult"@,
            IdleEntityType::King => "King"@,
        }
    }

    /// The display name of this entity type.
    pub fn name(self) -> (r: &'static str)
        ensures
            r@ == self.spec_name(),
    {
        match self {
            IdleEntityType::Lumberjack => "Lumberjack",
            IdleEntityType::Stonemason => "Stonemason",
            IdleEntityType::Bowmaker => "Bowmaker",
            IdleEntityType::Weaponsmith => "Weaponsmith",
            IdleEntityType::Academic => "Academic",
            IdleEntityType::Catapult => "Catapult",
            IdleEntityType::King => "King",
        }
    }
}

/// The summed production rate of a roster, exact.
pub open spec fn total_rate(s: Seq<IdleEntity>) -> nat
    decreases s.len(),
{
    if s.len() == 0 {
        0
    } else {
        total_rate(s.drop_last()) + s.last().production_rate(s.last().level as nat)
    }
}

/// The summed gold accrued by a roster over `ms` milliseconds, exact.
pub open spec fn total_accrued(s: Seq<IdleEntity>, ms: nat) -> nat
    decreases s.len(),
{
    if s.len() == 0 {
        0
    } else {
        total_accrued(s.drop_last(), ms) + s.last().accrued_gold(ms)
    }
}

/// The elapsed time from `last` to `now`, clamped to zero when the clock
/// moved backward: accrual never fails, a backward jump simply adds
/// nothing.
pub open spec fn spec_elapsed(last: u64, now: u64) -> u64 {
    if now >= last {
        (now - last) as u64
    } else {
        0
    }
}

/// A game: the timestamps, the shared gold pool (milligold) and the
/// entity roster. Timestamps are milliseconds on the caller's clock.
pub struct Game {
    pub init_time_stamp_ms: u64,
    pub last_time_stamp_ms: u64,
    pub current_delta_time_ms: u64,
    pub current_gold: u64,
    pub idle_entities: Vec<IdleEntity>,
}

impl Game {
    /// Well-formedness: a full roster of well-formed entities.
    pub open spec fn wf(self) -> bool {
        &&& self.idle_entities@.len() == ROSTER_SIZE
        &&& forall|i: int|
            0 <= i < self.idle_entities@.len() ==> (#[trigger] self.idle_entities@[i]).wf()
    }
}

/// The default starting roster: names, base rates, base costs and growth
/// factors of the seven entities (milligold and percent).
pub open spec fn default_roster(s: Seq<IdleEntity>) -> bool {
    &&& s.len() == ROSTER_SIZE
    &&& forall|i: int| 0 <= i < s.len() ==> (#[trigger] s[i]).level == 0
    &&& s[0].name@ == IdleEntityType::Lumberjack.spec_name()
    &&& s[0].base_gold_per_second == 100 && s[0].base_upgrade_cost == 1000
        && s[0].upgrade_cost_factor_percent == 115
    &&& s[1].name@ == IdleEntityType::Stonemason.spec_name()
    &&& s[1].base_gold_per_second == 1000 && s[1].base_upgrade_cost == 10_000
        && s[1].upgrade_cost_factor_percent == 135
    &&& s[2].name@ == IdleEntityType::Bowmaker.spec_name()
    &&& s[2].base_gold_per_second == 20_000 && s[2].base_upgrade_cost == 1_000_000
        && s[2].upgrade_cost_factor_percent == 155
    &&& s[3].name@ == IdleEntityType::Weaponsmith.spec_name()
    &&& s[3].base_gold_per_second == 350_000 && s[3].base_upgrade_cost == 100_000_000
        && s[3].upgrade_cost_factor_percent == 180
    &&& s[4].name@ == IdleEntityType::Academic.spec_name()
    &&& s[4].base_gold_per_second == 1_350_000 && s[4].base_upgrade_cost == 10_000_000_000
        && s[4].upgrade_cost_factor_percent == 215
    &&& s[5].name@ == IdleEntityType::Catapult.spec_name()
    &&& s[5].base_gold_per_second == 5_000_000 && s[5].base_upgrade_cost == 1_000_000_000_000
        && s[5].upgrade_cost_factor_percent == 315
    &&& s[6].name@ == IdleEntityType::King.spec_name()
    &&& s[6].base_gold_per_second == 20_000_000 && s[6].base_upgrade_cost
        == 1_000_000_000_000_000 && s[6].upgrade_cost_factor_percent == 400
}

impl Game {
    /// A fresh game: the default roster, an empty gold pool, and both
    /// timestamps set to the caller's `now`.
    pub fn new(now_ms: u64) -> (r: Game)
        ensures
            r.wf(),
            default_roster(r.idle_entities@),
            r.current_gold == 0,
            r.init_time_stamp_ms == now_ms,
            r.last_time_stamp_ms == now_ms,
            r.current_delta_time_ms == 0,
    {
        let mut idle_entities: Vec<IdleEntity> = Vec::new();
        proof {
            reveal_strlit("Lumberjack");
            reveal_strlit("Stonemason");
            reveal_strlit("Bowmaker");
            reveal_strlit("Weaponsmith");
            reveal_strlit("Academic");
            reveal_strlit("Catapult");
            reveal_strlit("King");
        }
        idle_entities.push(
            IdleEntity::build(IdleEntityType::Lumberjack.name().to_owned(), 100, 1000, 115),
        );
        idle_entities.push(
            IdleEntity::build(IdleEntityType::Stonemason.name().to_owned(), 1000, 10_000, 135),
        );
        idle_entities.push(
            IdleEntity::build(IdleEntityType::Bowmaker.name().to_owned(), 20_000, 1_000_000, 155),
        );
        idle_entities.push(
            IdleEntity::build(
                IdleEntityType::Weaponsmith.name().to_owned(),
                350_000,
                100_000_000,
                180,
            ),
        );
        idle_entities.push(
            IdleEntity::build(
                IdleEntityType::Academic.name().to_owned(),
                1_350_000,
                10_000_000_000,
                215,
            ),
        );
        idle_entities.push(
            IdleEntity::build(
                IdleEntityType::Catapult.name().to_owned(),
                5_000_000,
                1_000_000_000_000,
                315,
            ),
        );
        idle_entities.push(
            IdleEntity::build(
                IdleEntityType::King.name().to_owned(),
                20_000_000,
                1_000_000_000_000_000,
                400,
            ),
        );
        Game {
            init_time_stamp_ms: now_ms,
            last_time_stamp_ms: now_ms,
            current_delta_time_ms: 0,
            current_gold: 0,
            idle_entities,
        }
    }

    /// The elapsed time the last `update` call consumed, in milliseconds.
    pub fn get_delta_time(&self) -> (r: u64)
        ensures
            r == self.current_delta_time_ms,
    {
        self.current_delta_time_ms
    }
}

/// Saturating addition: the exact sum, capped at `u64::MAX`.
fn sat_add(a: u64, b: u64) -> (r: u64)
    ensures
        r == capped(a as nat + b as nat),
{
    if a > u64::MAX - b {
        u64::MAX
    } else {
        a + b
    }
}

/// No time, no gold: an update repeated at the same instant consumes a
/// zero interval and adds nothing.
pub proof fn lemma_no_elapsed_time_accrues_nothing(s: Seq<IdleEntity>)
    ensures
        total_accrued(s, 0) == 0,
    decreases s.len(),
{
    if s.len() > 0 {
        lemma_no_elapsed_time_accrues_nothing(s.drop_last());
    }
}

/// No entity produces more than the whole roster together.
proof fn lemma_total_rate_elem(s: Seq<IdleEntity>, i: int)
    requires
        0 <= i < s.len(),
    ensures
        s[i].production_rate(s[i].level as nat) <= total_rate(s),
    decreases s.len(),
{
    if i < s.len() - 1 {
        lemma_total_rate_elem(s.drop_last(), i);
    }
}

/// `rate` entities' share of a total rate, in hundredths of a percent;
/// 0 where the total is 0 (rather than an undefined ratio).
pub open spec fn rate_share_permyriad(rate: nat, total: nat) -> nat {
    if total == 0 {
        0
    } else {
        rate * 10000 / total
    }
}

/// What one entity's row of the report states about the game it was
/// derived from: the entity's stats, its share of `total`, and the
/// greatest upgrade count `gold` covers, with that count's total cost.
pub open spec fn entity_info_ok(
    e: IdleEntity,
    total: u64,
    gold: u64,
    info: IdleEntityInformation,
) -> bool {
    &&& info.name@ == e.name@
    &&& info.level == e.level
    &&& info.gold_per_second == capped(e.production_rate(e.level as nat))
    &&& info.gold_per_second_permyriad == rate_share_permyriad(
        e.production_rate(e.level as nat),
        total as nat,
    )
    &&& e.cumulative_cost(e.level as nat, info.maximum_upgrade_quantity as nat) <= gold
    &&& e.cumulative_cost(e.level as nat, info.maximum_upgrade_quantity as nat + 1) > gold
    &&& info.upgrade_cost_next == capped(e.upgrade_cost(e.level as nat))
    &&& info.upgrade_cost_max == capped(
        e.cumulative_cost(e.level as nat, info.maximum_upgrade_quantity as nat),
    )
}

/// What a whole report states about the game it was derived from.
pub open spec fn game_state_ok(g: Game, r: GameState) -> bool {
    &&& r.game_info.gold == g.current_gold
    &&& r.game_info.gold_per_second == capped(total_rate(g.idle_entities@))
    &&& entity_info_ok(
        g.idle_entities@[0],
        r.game_info.gold_per_second,
        g.current_gold,
        r.lumberjack_info,
    )
    &&& entity_info_ok(
        g.idle_entities@[1],
        r.game_info.gold_per_second,
        g.current_gold,
        r.stonemason_info,
    )
    &&& entity_info_ok(
        g.idle_entities@[2],
        r.game_info.gold_per_second,
        g.current_gold,
        r.bowmaker_info,
    )
    &&& entity_info_ok(
        g.idle_entities@[3],
        r.game_info.gold_per_second,
        g.current_gold,
        r.weaponsmith_info,
    )
    &&& entity_info_ok(
        g.idle_entities@[4],
        r.game_info.gold_per_second,
        g.current_gold,
        r.academic_info,
    )
    &&& entity_info_ok(
        g.idle_entities@[5],
        r.game_info.gold_per_second,
        g.current_gold,
        r.catapult_info,
    )
    &&& entity_info_ok(
        g.idle_entities@[6],
        r.game_info.gold_per_second,
        g.current_gold,
        r.king_info,
    )
}

impl Game {
    /// The summed production rate of the roster, capped at `u64::MAX`.
    fn total_gold_per_second(&self) -> (r: u64)
        requires
            self.wf(),
        ensures
            r == capped(total_rate(self.idle_entities@)),
    {
        let ghost s = self.idle_entities@;
        let mut total: u64 = 0;
        let mut i: usize = 0;
        while i < self.idle_entities.len()
            invariant
                self.wf(),
                s == self.idle_entities@,
                i <= s.len(),
                total == capped(total_rate(s.subrange(0, i as int))),
            decreases s.len() - i,
        {
            let rate = self.idle_entities[i].gold_per_second();
            total = sat_add(total, rate);
            proof {
                assert(s.subrange(0, i + 1).drop_last() =~= s.subrange(0, i as int));
                assert(s.subrange(0, i + 1).last() == s[i as int]);
            }
            i = i + 1;
        }
        proof {
            assert(s.subrange(0, s.len() as int) =~= s);
        }
        total
    }

    /// One row of the report, for the entity at `idx`, against the given
    /// total production rate.
    fn create_idle_entity_info(&self, idx: usize, total_gold_per_second: u64) -> (r:
        IdleEntityInformation)
        requires
            self.wf(),
            idx < ROSTER_SIZE,
            self.idle_entities@[idx as int].production_rate(
                self.idle_entities@[idx as int].level as nat,
            ) <= total_gold_per_second,
        ensures
            entity_info_ok(
                self.idle_entities@[idx as int],
                total_gold_per_second,
                self.current_gold,
                r,
            ),
    {
        let e = &self.idle_entities[idx];
        let rate = e.gold_per_second();
        let share: u64 = if total_gold_per_second == 0 {
            0
        } else {
            proof {
                assert((rate as nat) * 10000 / (total_gold_per_second as nat) <= 10000)
                    by (nonlinear_arith)
                    requires
                        1 <= total_gold_per_second,
                        rate <= total_gold_per_second,
                ;
            }
            ((rate as u128) * 10000 / (total_gold_per_second as u128)) as u64
        };
        let quantity = e.quanity_of_possible_upgrades(self.current_gold);
        IdleEntityInformation {
            name: e.get_name().to_owned(),
            level: e.get_level(),
            gold_per_second: rate,
            gold_per_second_permyriad: share,
            maximum_upgrade_quantity: quantity,
            upgrade_cost_next: e.cost_for_next_upgrade(),
            upgrade_cost_max: e.cumulative_cost_capped(quantity),
        }
    }

    /// The read-only report of the current state: the totals and one row
    /// per entity. Derives; mutates nothing.
    pub fn create_game_state(&self) -> (r: GameState)
        requires
            self.wf(),
        ensures
            game_state_ok(*self, r),
    {
        let total = self.total_gold_per_second();
        proof {
            let s = self.idle_entities@;
            assert forall|i: int| 0 <= i < s.len() implies (#[trigger] s[i]).production_rate(
                s[i].level as nat,
            ) <= total by {
                lemma_total_rate_elem(s, i);
                s[i].lemma_production_rate_fits(s[i].level as nat);
            }
        }
        GameState {
            game_info: GameInformation { gold: self.current_gold, gold_per_second: total },
            lumberjack_info: self.create_idle_entity_info(0, total),
            stonemason_info: self.create_idle_entity_info(1, total),
            bowmaker_info: self.create_idle_entity_info(2, total),
            weaponsmith_info: self.create_idle_entity_info(3, total),
            academic_info: self.create_idle_entity_info(4, total),
            catapult_info: self.create_idle_entity_info(5, total),
            king_info: self.create_idle_entity_info(6, total),
        }
    }

    /// Adds to the gold pool what the whole roster produced over the
    /// elapsed interval recorded in `current_delta_time_ms`.
    fn update_gold(&mut self)
        requires
            old(self).wf(),
        ensures
            *final(self) == (Game {
                current_gold: capped(
                    old(self).current_gold as nat + total_accrued(
                        old(self).idle_entities@,
                        old(self).current_delta_time_ms as nat,
                    ),
                ),
                ..*old(self)
            }),
    {
        self.current_gold = accrue_over(
            &self.idle_entities,
            self.current_delta_time_ms,
            self.current_gold,
        );
    }

    /// Consumes the interval from the last update to `now_ms` (clamped to
    /// zero if the clock moved backward), adds the accrued gold, resets
    /// the clock, and reports the new state. Repeating the call with the
    /// same `now_ms` adds nothing further.
    pub fn update(&mut self, now_ms: u64) -> (r: GameState)
        requires
            old(self).wf(),
        ensures
            final(self).wf(),
            final(self).idle_entities@ == old(self).idle_entities@,
            final(self).init_time_stamp_ms == old(self).init_time_stamp_ms,
            final(self).last_time_stamp_ms == now_ms,
            final(self).current_delta_time_ms == spec_elapsed(old(self).last_time_stamp_ms, now_ms),
            final(self).current_gold == capped(
                old(self).current_gold as nat + total_accrued(
                    old(self).idle_entities@,
                    spec_elapsed(old(self).last_time_stamp_ms, now_ms) as nat,
                ),
            ),
            game_state_ok(*final(self), r),
    {
        let delta = if now_ms >= self.last_time_stamp_ms {
            now_ms - self.last_time_stamp_ms
        } else {
            0
        };
        self.current_delta_time_ms = delta;
        self.update_gold();
        self.last_time_stamp_ms = now_ms;
        self.create_game_state()
    }

    /// Buys up to `amount` upgrades of one entity: as many as the gold
    /// pool covers and the level can still hold, deducting their total
    /// cost. Reports how many were actually bought; falling short of
    /// `amount` is the normal outcome of running out of gold, not an
    /// error. The pool never goes below the cost of what was bought.
    pub fn upgrade(&mut self, entity_type: IdleEntityType, amount: u32) -> (r: u32)
        requires
            old(self).wf(),
        ensures
            final(self).wf(),
            final(self).init_time_stamp_ms == old(self).init_time_stamp_ms,
            final(self).last_time_stamp_ms == old(self).last_time_stamp_ms,
            final(self).current_delta_time_ms == old(self).current_delta_time_ms,
            ({
                let e = old(self).idle_entities@[entity_type.spec_index()];
                let spent = e.cumulative_cost(e.level as nat, r as nat);
                &&& r <= amount
                &&& e.level + r <= u32::MAX
                &&& spent <= old(self).current_gold
                &&& final(self).current_gold == old(self).current_gold - spent
                &&& final(self).idle_entities@ == old(self).idle_entities@.update(
                    entity_type.spec_index(),
                    IdleEntity { level: (e.level + r) as u32, ..e },
                )
                &&& r < amount ==> e.level + r == u32::MAX || e.cumulative_cost(
                    e.level as nat,
                    r as nat + 1,
                ) > old(self).current_gold
            }),
    {
        let i = entity_type.index();
        let ghost e = self.idle_entities@[i as int];
        let lvl = self.idle_entities[i].get_level();
        let n64 = self.idle_entities[i].quanity_of_possible_upgrades(self.current_gold);
        let room = u32::MAX - lvl;
        let n_aff: u32 = if n64 > room as u64 {
            room
        } else {
            n64 as u32
        };
        let n: u32 = if amount < n_aff {
            amount
        } else {
            n_aff
        };
        proof {
            e.lemma_cumulative_cost_monotone(e.level as nat, n as nat, n64 as nat);
        }
        let cost = self.idle_entities[i].cost_for_next_upgrades(n);
        self.current_gold = self.current_gold - cost;
        self.idle_entities[i].add_level(n);
        proof {
            if n < amount && n == n64 {
                e.lemma_cumulative_cost_monotone(e.level as nat, n as nat + 1, n64 as nat + 1);
            }
        }
        n
    }
}

/// The gold pool `start` plus everything `entities` produce over
/// `delta_ms` milliseconds, capped at `u64::MAX`.
fn accrue_over(entities: &Vec<IdleEntity>, delta_ms: u64, start: u64) -> (r: u64)
    requires
        forall|i: int| 0 <= i < entities@.len() ==> (#[trigger] entities@[i]).wf(),
    ensures
        r == capped(start as nat + total_accrued(entities@, delta_ms as nat)),
{
    let ghost s = entities@;
    let mut gold = start;
    let mut i: usize = 0;
    while i < entities.len()
        invariant
            forall|j: int| 0 <= j < s.len() ==> (#[trigger] s[j]).wf(),
            s == entities@,
            i <= s.len(),
            gold == capped(start as nat + total_accrued(s.subrange(0, i as int), delta_ms as nat)),
        decreases s.len() - i,
    {
        let gain = entities[i].get_gold(delta_ms);
        gold = sat_add(gold, gain);
        proof {
            assert(s.subrange(0, i + 1).drop_last() =~= s.subrange(0, i as int));
            assert(s.subrange(0, i + 1).last() == s[i as int]);
        }
        i = i + 1;
    }
    proof {
        assert(s.subrange(0, s.len() as int) =~= s);
    }
    gold
}

} // verus!
