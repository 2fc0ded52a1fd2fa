//! The command surface: what a parsed command line means, and the
//! decision rules that turn raw flag values into an upgrade request.
//! Reading the actual command line stays outside the library; it hands
//! in plain flags and gets back these types.

use vstd::prelude::*;

verus! {

/// A whole parsed invocation: exactly one subcommand.
#[derive(Debug)]
pub struct CaruArgs {
    pub command: BasicCommand,
}

/// The four subcommands.
#[derive(Debug)]
pub enum BasicCommand {
    /// Start a fresh game.
    Init,
    /// Remove every trace of the current game.
    Delete,
    /// Accrue, show the report, save.
    Status,
    /// Accrue, upgrade one entity, save.
    Upgrade(UpgradeEntityArgs),
}

#[derive(Debug)]
pub struct UpgradeEntityArgs {
    pub entity: IdleEntityArg,
}

/// Which entity an upgrade command addresses.
#[derive(Debug)]
pub enum IdleEntityArg {
    All,
    Lumberjack(IdleEntityAmendmentArg),
    Stonemason(IdleEntityAmendmentArg),
    Bowmaker(IdleEntityAmendmentArg),
    Weaponsmith(IdleEntityAmendmentArg),
    Academic(IdleEntityAmendmentArg),
    Catapult(IdleEntityAmendmentArg),
    King(IdleEntityAmendmentArg),
}

/// What to do with the addressed entity: buy `count` levels, or only
/// show the upgrade information.
#[derive(Debug)]
pub struct IdleEntityAmendmentArg {
    pub count: Option<EntityCountArg>,
    pub info: bool,
}

/// How many levels an upgrade command asks for.
#[derive(Debug, PartialEq, Eq, Clone, Copy)]
pub enum EntityCountArg {
    One,
    All,
    Amount(u32),
}

/// An upgrade command that selects none of the count and info flags.
#[derive(Debug, PartialEq, Eq)]
pub enum ArgError {
    NoSelection,
}

/// The count a selector stands for; "all" is represented by the largest
/// expressible count, which the upgrade engine cuts down to what the
/// gold covers.
pub fn get_amount_from_entity_count_arg(arg: &EntityCountArg) -> (r: u32)
    ensures
        r == match *arg {
            EntityCountArg::One => 1u32,
            EntityCountArg::All => u32::MAX,
            EntityCountArg::Amount(n) => n,
        },
{
    match arg {
        EntityCountArg::One => 1,
        EntityCountArg::All => u32::MAX,
        EntityCountArg::Amount(n) => *n,
    }
}

/// Decides an upgrade amendment from the four raw command-line flags,
/// in the fixed priority info, one, all, amount; with none of them set
/// the command is rejected before any state is touched.
pub fn amendment_from_flags(one: bool, all: bool, amount: Option<u32>, info: bool) -> (r: Result<
    IdleEntityAmendmentArg,
    ArgError,
>)
    ensures
        info ==> r == Ok::<IdleEntityAmendmentArg, ArgError>(
            IdleEntityAmendmentArg { count: None, info: true },
        ),
        !info && one ==> r == Ok::<IdleEntityAmendmentArg, ArgError>(
            IdleEntityAmendmentArg { count: Some(EntityCountArg::One), info: false },
        ),
        !info && !one && all ==> r == Ok::<IdleEntityAmendmentArg, ArgError>(
            IdleEntityAmendmentArg { count: Some(EntityCountArg::All), info: false },
        ),
        !info && !one && !all ==> r == match amount {
            Some(n) => Ok::<IdleEntityAmendmentArg, ArgError>(
                IdleEntityAmendmentArg { count: Some(EntityCountArg::Amount(n)), info: false },
            ),
            None => Err::<IdleEntityAmendmentArg, ArgError>(ArgError::NoSelection),
        },
{
    if info {
        return Ok(IdleEntityAmendmentArg { count: None, info: true });
    }
    if one {
        return Ok(IdleEntityAmendmentArg { count: Some(EntityCountArg::One), info: false });
    }
    if all {
        return Ok(IdleEntityAmendmentArg { count: Some(EntityCountArg::All), info: false });
    }
    match amount {
        Some(n) => Ok(IdleEntityAmendmentArg { count: Some(EntityCountArg::Amount(n)), info: false }),
        None => Err(ArgError::NoSelection),
    }
}

} // verus!
