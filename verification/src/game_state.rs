//! Read-only report of a game: per-entity stats and the shared totals,
//! derived for display without mutating the game.

use vstd::prelude::*;

verus! {

/// Snapshot of one whole game, one entry per roster entity.
pub struct GameState {
    pub game_info: GameInformation,
    pub lumberjack_info: IdleEntityInformation,
    pub stonemason_info: IdleEntityInformation,
    pub bowmaker_info: IdleEntityInformation,
    pub weaponsmith_info: IdleEntityInformation,
    pub academic_info: IdleEntityInformation,
    pub catapult_info: IdleEntityInformation,
    pub king_info: IdleEntityInformation,
}

/// The shared totals: the gold pool and the summed production rate,
/// both in milligold.
pub struct GameInformation {
    pub gold_per_second: u64,
    pub gold: u64,
}

/// Stats of one entity. `gold_per_second_permyriad` is this entity's
/// share of the total production rate in hundredths of a percent
/// (10000 means all of it); it is 0 when the total rate is 0.
pub struct IdleEntityInformation {
    pub name: String,
    pub level: u32,
    pub gold_per_second: u64,
    pub gold_per_second_permyriad: u64,
    pub maximum_upgrade_quantity: u64,
    pub upgrade_cost_next: u64,
    pub upgrade_cost_max: u64,
}

} // verus!
