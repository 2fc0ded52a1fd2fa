//! The game as a whole: the default roster, time-based accrual, the
//! upgrade engine and the derived report.

use caru::{Game, IdleEntity, IdleEntityType};

/// A game of seven equal entities, for easy arithmetic.
fn uniform_game(gold: u64) -> Game {
    let mut idle_entities: Vec<IdleEntity> = Vec::new();
    for name in ["A", "B", "C", "D", "E", "F", "G"] {
        idle_entities.push(IdleEntity::build(name.to_string(), 100, 1000, 200));
    }
    Game {
        init_time_stamp_ms: 0,
        last_time_stamp_ms: 0,
        current_delta_time_ms: 0,
        current_gold: gold,
        idle_entities,
    }
}

#[test]
fn new_game_has_default_roster() {
    let game = Game::new(5);
    assert_eq!(5, game.init_time_stamp_ms);
    assert_eq!(5, game.last_time_stamp_ms);
    assert_eq!(0, game.current_delta_time_ms);
    assert_eq!(0, game.current_gold);
    assert_eq!(7, game.idle_entities.len());
    let expected: [(&str, u64, u64, u64); 7] = [
        ("Lumberjack", 100, 1000, 115),
        ("Stonemason", 1000, 10_000, 135),
        ("Bowmaker", 20_000, 1_000_000, 155),
        ("Weaponsmith", 350_000, 100_000_000, 180),
        ("Academic", 1_350_000, 10_000_000_000, 215),
        ("Catapult", 5_000_000, 1_000_000_000_000, 315),
        ("King", 20_000_000, 1_000_000_000_000_000, 400),
    ];
    for (k, (name, rate, cost, percent)) in expected.iter().enumerate() {
        let e = &game.idle_entities[k];
        assert_eq!(*name, e.get_name());
        assert_eq!(0, e.get_level());
        assert_eq!(*rate, e.base_gold_per_second);
        assert_eq!(*cost, e.base_upgrade_cost);
        assert_eq!(*percent, e.upgrade_cost_factor_percent);
    }
}

#[test]
fn update_accrues_total_production_over_one_second() {
    let mut game = Game::new(0);
    let state = game.update(1000);
    // 100 + 1000 + 20000 + 350000 + 1350000 + 5000000 + 20000000
    let total_rate: u64 = 26_721_100;
    assert_eq!(total_rate, game.current_gold);
    assert_eq!(1000, game.current_delta_time_ms);
    assert_eq!(1000, game.get_delta_time());
    assert_eq!(1000, game.last_time_stamp_ms);
    assert_eq!(total_rate, state.game_info.gold);
    assert_eq!(total_rate, state.game_info.gold_per_second);
}

#[test]
fn update_with_same_now_adds_nothing() {
    let mut game = Game::new(0);
    game.update(1000);
    let gold_after_first = game.current_gold;
    game.update(1000);
    assert_eq!(gold_after_first, game.current_gold);
    assert_eq!(0, game.current_delta_time_ms);
}

#[test]
fn update_clamps_backward_clock_to_zero() {
    let mut game = Game::new(10_000);
    let state = game.update(4000);
    assert_eq!(0, game.current_delta_time_ms);
    assert_eq!(0, game.current_gold);
    assert_eq!(4000, game.last_time_stamp_ms);
    assert_eq!(0, state.game_info.gold);
}

#[test]
fn upgrade_one_with_enough_gold() {
    let mut game = uniform_game(2000);
    let bought = game.upgrade(IdleEntityType::Lumberjack, 1);
    assert_eq!(1, bought);
    assert_eq!(1000, game.current_gold);
    assert_eq!(1, game.idle_entities[0].get_level());
}

#[test]
fn upgrade_one_without_enough_gold() {
    let mut game = uniform_game(500);
    let bought = game.upgrade(IdleEntityType::Lumberjack, 1);
    assert_eq!(0, bought);
    assert_eq!(500, game.current_gold);
    assert_eq!(0, game.idle_entities[0].get_level());
}

#[test]
fn upgrade_all_buys_the_maximum_affordable() {
    // costs 1000, 2000, 4000: 15000 covers exactly four upgrades
    let mut game = uniform_game(15_000);
    let bought = game.upgrade(IdleEntityType::Catapult, u32::MAX);
    assert_eq!(4, bought);
    assert_eq!(0, game.current_gold);
    assert_eq!(4, game.idle_entities[5].get_level());
}

#[test]
fn upgrade_stops_at_the_requested_amount() {
    let mut game = uniform_game(15_000);
    let bought = game.upgrade(IdleEntityType::King, 2);
    assert_eq!(2, bought);
    assert_eq!(15_000 - 3000, game.current_gold);
    assert_eq!(2, game.idle_entities[6].get_level());
}

#[test]
fn upgrade_touches_only_the_addressed_entity() {
    let mut game = uniform_game(10_000);
    game.upgrade(IdleEntityType::Stonemason, 1);
    for k in 0..7 {
        let want: u32 = if k == 1 { 1 } else { 0 };
        assert_eq!(want, game.idle_entities[k].get_level());
    }
}

#[test]
fn report_shares_and_costs() {
    let game = uniform_game(15_000);
    let state = game.create_game_state();
    assert_eq!(700, state.game_info.gold_per_second);
    assert_eq!(15_000, state.game_info.gold);
    // each of seven equal entities holds one seventh of the rate
    assert_eq!(1428, state.lumberjack_info.gold_per_second_permyriad);
    assert_eq!(1428, state.king_info.gold_per_second_permyriad);
    assert_eq!("A", state.lumberjack_info.name);
    assert_eq!("G", state.king_info.name);
    assert_eq!(100, state.stonemason_info.gold_per_second);
    assert_eq!(1000, state.bowmaker_info.upgrade_cost_next);
    assert_eq!(4, state.weaponsmith_info.maximum_upgrade_quantity);
    assert_eq!(15_000, state.academic_info.upgrade_cost_max);
    assert_eq!(0, state.catapult_info.level);
}

#[test]
fn report_with_no_gold_shows_no_affordable_upgrades() {
    let game = uniform_game(0);
    let state = game.create_game_state();
    assert_eq!(0, state.game_info.gold);
    assert_eq!(0, state.lumberjack_info.maximum_upgrade_quantity);
    assert_eq!(0, state.lumberjack_info.upgrade_cost_max);
}

#[test]
fn entity_type_names_and_indices() {
    let types = [
        IdleEntityType::Lumberjack,
        IdleEntityType::Stonemason,
        IdleEntityType::Bowmaker,
        IdleEntityType::Weaponsmith,
        IdleEntityType::Academic,
        IdleEntityType::Catapult,
        IdleEntityType::King,
    ];
    let names = [
        "Lumberjack",
        "Stonemason",
        "Bowmaker",
        "Weaponsmith",
        "Academic",
        "Catapult",
        "King",
    ];
    for (k, ty) in types.iter().enumerate() {
        assert_eq!(k, ty.index());
        assert_eq!(names[k], ty.name());
    }
}
