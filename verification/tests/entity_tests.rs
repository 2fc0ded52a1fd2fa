//! The entity formulas on concrete values. Amounts are milligold
//! (1 gold = 1000 milligold) and the growth factor is a percentage,
//! so 0.1 gold per second is 100 and a factor of 2.0 is 200.

use caru::IdleEntity;

fn create_entity() -> IdleEntity {
    IdleEntity::build("Entity".to_string(), 100, 1000, 200)
}

#[test]
fn gold_gain_after_1_seconds() {
    let entity = create_entity();
    let delta_time: u64 = 1000 * 1;

    let gold_gain = entity.get_gold(delta_time);

    assert_eq!(entity.gold_per_second() * 1, gold_gain);
}

#[test]
fn gold_gain_after_3_seconds() {
    let entity = create_entity();
    let delta_time: u64 = 1000 * 3;

    let gold_gain = entity.get_gold(delta_time);

    assert_eq!(entity.gold_per_second() * 3, gold_gain);
}

#[test]
fn gold_per_second_of_level_3_entity() {
    let mut entity = create_entity();
    entity.add_level(2);

    let gold_per_second = entity.base_gold_per_second * (entity.get_level() + 1) as u64;
    assert_eq!(gold_per_second, entity.gold_per_second());
}

#[test]
fn upgrade_cost_of_level_3_entity() {
    let mut entity = create_entity();
    entity.add_level(2);

    assert_eq!(
        entity.base_upgrade_cost * (entity.upgrade_cost_factor_percent / 100)
            * (entity.upgrade_cost_factor_percent / 100),
        entity.cost_for_next_upgrade()
    );
}

#[test]
fn cummulative_upgrade_cost_for_first_10_upgrades() {
    let entity = create_entity();
    let total_upgrade_cost = entity.cost_for_next_upgrades(10);
    let mut total_cost: u64 = 0;
    let mut cost: u64 = entity.base_upgrade_cost;
    for _ in 0..10 {
        total_cost += cost;
        cost = cost * entity.upgrade_cost_factor_percent / 100;
    }

    assert_eq!(total_cost, 1000 * 1023);
    assert_eq!(total_cost, total_upgrade_cost);
}

#[test]
fn upgrade_entity_once() {
    let mut entity = create_entity();
    let start_gold: u64 = 2000;
    let mut gold: u64 = start_gold.clone();

    let _ = entity.upgrade(&mut gold);
    let total_cost: u64 = entity.base_upgrade_cost;

    assert_eq!(1, entity.get_level());
    assert_eq!(start_gold - total_cost, gold);
}

#[test]
fn upgrade_entity_three_times() {
    let mut entity = create_entity();
    let start_gold: u64 = 100_000;
    let mut gold: u64 = start_gold.clone();

    let _ = entity.upgrade(&mut gold);
    let _ = entity.upgrade(&mut gold);
    let _ = entity.upgrade(&mut gold);

    assert_eq!(3, entity.get_level());
    let total_cost: u64 = 1000 + 2000 + 4000;
    assert_eq!(start_gold - total_cost, gold);
}

#[test]
fn quanity_of_possible_upgrades_from_level_0() {
    let entity = create_entity();
    let gold: u64 = 15_000;

    let quantity = entity.quanity_of_possible_upgrades(gold);

    let total_cost_of_possible_upgrades: u64 = 1000 + 2000 + 4000 + 8000;

    assert_eq!(4, quantity);
    assert_eq!(total_cost_of_possible_upgrades, gold);
}

#[test]
fn quanity_of_possible_upgrades_from_level_3() {
    let mut entity = create_entity();
    entity.add_level(3);
    let gold: u64 = 56_000;

    let quantity = entity.quanity_of_possible_upgrades(gold);
    let total_cost_of_possible_upgrades: u64 = 8000 + 16_000 + 32_000;

    assert_eq!(3, quantity);
    assert_eq!(total_cost_of_possible_upgrades, gold);
}

#[test]
fn idle_entity_gold_gain_after_1_seconds() {
    let entity = create_entity();
    let delta_time: u64 = 1000 * 1;

    let gold_gain = entity.get_gold(delta_time);

    assert_eq!(entity.gold_per_second() * 1, gold_gain);
}

#[test]
fn idle_entity_gold_gain_after_3_seconds() {
    let entity = create_entity();
    let delta_time: u64 = 1000 * 3;

    let gold_gain = entity.get_gold(delta_time);

    assert_eq!(entity.gold_per_second() * 3, gold_gain);
}

#[test]
fn idle_entity_gold_per_second_of_level_3_entity() {
    let mut entity = create_entity();
    entity.add_level(2);

    let gold_per_second = entity.base_gold_per_second * (entity.get_level() + 1) as u64;
    assert_eq!(gold_per_second, entity.gold_per_second());
}

#[test]
fn idle_entity_upgrade_cost_of_level_3_entity() {
    let mut entity = create_entity();
    entity.add_level(2);

    assert_eq!(
        entity.base_upgrade_cost * (entity.upgrade_cost_factor_percent / 100)
            * (entity.upgrade_cost_factor_percent / 100),
        entity.cost_for_next_upgrade()
    );
}

#[test]
fn idle_entity_upgrade_entity_once() {
    let mut entity = create_entity();
    let start_gold: u64 = 2000;
    let mut gold: u64 = start_gold.clone();

    let _ = entity.upgrade(&mut gold);
    let total_cost: u64 = entity.base_upgrade_cost;

    assert_eq!(1, entity.get_level());
    assert_eq!(start_gold - total_cost, gold);
}

#[test]
fn idle_entity_upgrade_entity_three_times() {
    let mut entity = create_entity();
    let start_gold: u64 = 100_000;
    let mut gold: u64 = start_gold.clone();

    let _ = entity.upgrade(&mut gold);
    let _ = entity.upgrade(&mut gold);
    let _ = entity.upgrade(&mut gold);

    assert_eq!(3, entity.get_level());
    let total_cost: u64 = 1000 + 2000 + 4000;
    assert_eq!(start_gold - total_cost, gold);
}

#[test]
fn rounded_up_growth_with_uneven_factor() {
    // factor 1.15 on 1000 milligold: 1150, then 1322.5 rounded up to 1323
    let mut entity = IdleEntity::build("Entity".to_string(), 100, 1000, 115);
    assert_eq!(1000, entity.cost_for_next_upgrade());
    entity.add_level(1);
    assert_eq!(1150, entity.cost_for_next_upgrade());
    entity.add_level(1);
    assert_eq!(1323, entity.cost_for_next_upgrade());
}

#[test]
fn quantity_is_zero_without_gold() {
    let entity = create_entity();
    assert_eq!(0, entity.quanity_of_possible_upgrades(0));
    assert_eq!(0, entity.quanity_of_possible_upgrades(999));
    assert_eq!(1, entity.quanity_of_possible_upgrades(1000));
}

#[test]
fn upgrade_fails_without_gold() {
    let mut entity = create_entity();
    let mut gold: u64 = 999;
    assert!(entity.upgrade(&mut gold).is_err());
    assert_eq!(999, gold);
    assert_eq!(0, entity.get_level());
}

#[test]
fn accrual_rounds_down_to_whole_milligold() {
    // 100 milligold per second over 15 ms is 1.5 milligold, kept as 1
    let entity = create_entity();
    assert_eq!(1, entity.get_gold(15));
    assert_eq!(0, entity.get_gold(9));
}
