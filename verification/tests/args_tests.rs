//! The command surface: count selectors, the flag-decision rule, and the
//! storage paths.

use caru::{
    amendment_from_flags, get_amount_from_entity_count_arg, ArgError, Config, EntityCountArg,
};

#[test]
fn count_selectors_map_to_amounts() {
    assert_eq!(1, get_amount_from_entity_count_arg(&EntityCountArg::One));
    assert_eq!(
        u32::MAX,
        get_amount_from_entity_count_arg(&EntityCountArg::All)
    );
    assert_eq!(
        17,
        get_amount_from_entity_count_arg(&EntityCountArg::Amount(17))
    );
}

#[test]
fn info_flag_wins_over_every_count() {
    let a = amendment_from_flags(true, true, Some(5), true).unwrap();
    assert!(a.info);
    assert_eq!(None, a.count);
}

#[test]
fn one_flag_wins_over_all_and_amount() {
    let a = amendment_from_flags(true, true, Some(5), false).unwrap();
    assert!(!a.info);
    assert_eq!(Some(EntityCountArg::One), a.count);
}

#[test]
fn all_flag_wins_over_amount() {
    let a = amendment_from_flags(false, true, Some(5), false).unwrap();
    assert!(!a.info);
    assert_eq!(Some(EntityCountArg::All), a.count);
}

#[test]
fn amount_alone_is_kept() {
    let a = amendment_from_flags(false, false, Some(5), false).unwrap();
    assert!(!a.info);
    assert_eq!(Some(EntityCountArg::Amount(5)), a.count);
}

#[test]
fn no_selection_is_rejected() {
    let r = amendment_from_flags(false, false, None, false);
    assert_eq!(Err(ArgError::NoSelection), r.map(|a| a.info));
}

#[test]
fn config_paths_live_under_the_home_directory() {
    let config = Config::build("/home/someone");
    assert_eq!("/home/someone/.caru", config.game_directory);
    assert_eq!("/home/someone/.caru/game.json", config.game_file_path);
}
