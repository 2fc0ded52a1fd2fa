//! An idle-game economy library.
//!
//! A small roster of production entities generates gold continuously from
//! elapsed wall-clock time; gold is spent to raise entity levels, which
//! raises both the production rate and the cost of the next level.
//!
//! All quantities are exact integers:
//! - gold amounts and production rates are held in *milligold*
//!   (one gold = 1000 milligold);
//! - the per-level cost growth factor is held in *percent*
//!   (a factor of 1.15 is held as 115), and each upgrade cost is the
//!   previous cost times the factor, rounded up.
//!
//! The library itself performs no I/O: timestamps come in as milliseconds,
//! and the persisted form of a game is a JSON string produced and parsed
//! here ([`codec`]).

pub mod args;
pub mod codec;
pub mod config;
pub mod digits;
pub mod entity;
pub mod game;
pub mod game_state;

pub use args::{
    amendment_from_flags, get_amount_from_entity_count_arg, ArgError, BasicCommand, CaruArgs,
    EntityCountArg, IdleEntityAmendmentArg, IdleEntityArg, UpgradeEntityArgs,
};
pub use codec::{parse_game, save_game, save_load_round_trip, ParseError};
pub use config::Config;
pub use entity::IdleEntity;
pub use game::{Game, IdleEntityType};
pub use game_state::{GameInformation, GameState, IdleEntityInformation};
