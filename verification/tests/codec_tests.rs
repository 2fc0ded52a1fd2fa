//! The persisted form: the exact save text, the save/load round trip,
//! and rejected malformed texts.

use caru::{parse_game, save_game, save_load_round_trip, Game, IdleEntity};

fn small_game() -> Game {
    let mut idle_entities: Vec<IdleEntity> = Vec::new();
    for (k, name) in ["A", "B", "C", "D", "E", "F", "G"].iter().enumerate() {
        idle_entities.push(IdleEntity::build(name.to_string(), 1 + k as u64, 10, 101));
    }
    Game {
        init_time_stamp_ms: 1,
        last_time_stamp_ms: 2,
        current_delta_time_ms: 0,
        current_gold: 30,
        idle_entities,
    }
}

fn entity_text(name: &str, rate: u64) -> String {
    format!(
        "{{\"name\":\"{}\",\"level\":0,\"base_production_rate\":{},\"base_upgrade_cost\":10,\"upgrade_cost_growth_factor\":101}}",
        name, rate
    )
}

#[test]
fn save_writes_the_canonical_text() {
    let text = save_game(&small_game());
    let mut expected = String::new();
    expected += "{\"init_timestamp\":1,\"last_update_timestamp\":2,\"currency\":30,\"entities\":[";
    for (k, name) in ["A", "B", "C", "D", "E", "F", "G"].iter().enumerate() {
        if k > 0 {
            expected += ",";
        }
        expected += &entity_text(name, 1 + k as u64);
    }
    expected += "]}";
    assert_eq!(expected, text);
}

#[test]
fn save_then_load_reproduces_the_game() {
    let mut game = Game::new(77);
    game.current_gold = 123_456;
    game.upgrade(caru::IdleEntityType::Lumberjack, 3);
    let text = save_game(&game);
    let loaded = match parse_game(&text) {
        Ok(g) => g,
        Err(e) => panic!("a saved game must load: {:?}", e),
    };
    assert_eq!(game.init_time_stamp_ms, loaded.init_time_stamp_ms);
    assert_eq!(game.last_time_stamp_ms, loaded.last_time_stamp_ms);
    assert_eq!(game.current_gold, loaded.current_gold);
    assert_eq!(0, loaded.current_delta_time_ms);
    assert_eq!(7, loaded.idle_entities.len());
    for k in 0..7 {
        let a = &game.idle_entities[k];
        let b = &loaded.idle_entities[k];
        assert_eq!(a.get_name(), b.get_name());
        assert_eq!(a.get_level(), b.get_level());
        assert_eq!(a.base_gold_per_second, b.base_gold_per_second);
        assert_eq!(a.base_upgrade_cost, b.base_upgrade_cost);
        assert_eq!(a.upgrade_cost_factor_percent, b.upgrade_cost_factor_percent);
    }
}

#[test]
fn round_trip_helper_resets_only_the_interval() {
    let mut game = Game::new(9);
    game.current_delta_time_ms = 500;
    game.current_gold = 42;
    let reloaded = save_load_round_trip(&game);
    assert_eq!(0, reloaded.current_delta_time_ms);
    assert_eq!(42, reloaded.current_gold);
    assert_eq!(9, reloaded.init_time_stamp_ms);
    assert_eq!("King", reloaded.idle_entities[6].get_name());
}

#[test]
fn empty_text_is_malformed() {
    assert!(parse_game("").is_err());
}

#[test]
fn misspelled_key_is_malformed() {
    let text = save_game(&small_game()).replace("currency", "currencY");
    assert!(parse_game(&text).is_err());
}

#[test]
fn whitespace_is_not_canonical() {
    let text = save_game(&small_game()).replace(":1,", ": 1,");
    assert!(parse_game(&text).is_err());
}

#[test]
fn leading_zero_is_malformed() {
    let text = save_game(&small_game()).replace("\"currency\":30", "\"currency\":030");
    assert!(parse_game(&text).is_err());
}

#[test]
fn growth_factor_of_one_or_less_is_malformed() {
    let text = save_game(&small_game()).replace(
        "\"upgrade_cost_growth_factor\":101",
        "\"upgrade_cost_growth_factor\":100",
    );
    assert!(parse_game(&text).is_err());
}

#[test]
fn zero_production_rate_is_malformed() {
    let text = save_game(&small_game()).replace(
        "\"base_production_rate\":1,",
        "\"base_production_rate\":0,",
    );
    assert!(parse_game(&text).is_err());
}

#[test]
fn a_short_roster_is_malformed() {
    let full = save_game(&small_game());
    let tail = format!(",{}]}}", entity_text("G", 7));
    let text = full.replace(&tail, "]}");
    assert_ne!(full, text);
    assert!(parse_game(&text).is_err());
}

#[test]
fn trailing_text_is_malformed() {
    let mut text = save_game(&small_game());
    text.push(' ');
    assert!(parse_game(&text).is_err());
}

#[test]
fn currency_beyond_the_range_is_malformed() {
    let text = save_game(&small_game()).replace(
        "\"currency\":30",
        "\"currency\":18446744073709551616",
    );
    assert!(parse_game(&text).is_err());
}

#[test]
fn largest_currency_still_round_trips() {
    let mut game = small_game();
    game.current_gold = u64::MAX;
    let text = save_game(&game);
    let loaded = parse_game(&text).unwrap();
    assert_eq!(u64::MAX, loaded.current_gold);
}
