//! The rules of the bot's commands that do not depend on a game: which role
//! may use which night command, and the random-number command.
use vstd::prelude::*;

use crate::rng::{gen_range_inclusive, thread_rng};
use crate::roles::{LupusAction, LupusRole};

verus! {

/// The night commands that name one target.
#[derive(Debug, Clone, Copy, PartialEq, Eq, Structural)]
pub enum ActionCommand {
    /// The owl frames a player.
    Frame,
    /// The doctor heals a player, once a game.
    Heal,
    /// The serial killer kills a player.
    Kill,
    /// The bodyguard protects a player.
    Protect,
    /// The vigilante shoots a player, if they have not shot yet.
    Shoot,
    /// The leader of the wolves chooses the wolves' victim.
    WolfVote,
    /// The sex worker blocks a player's role.
    RoleBlock,
    /// The seer looks at a player.
    TrueSight,
}

/// The role (as currently played) may use the command.
pub open spec fn command_allows(cmd: ActionCommand, role: LupusRole) -> bool {
    match cmd {
        ActionCommand::Frame => role matches LupusRole::GUFO { .. },
        ActionCommand::Heal => role == LupusRole::DOTTORE { has_healed: false },
        ActionCommand::Kill => role == LupusRole::SERIALKILLER,
        ActionCommand::Protect => role matches LupusRole::BODYGUARD { .. },
        ActionCommand::Shoot => role == LupusRole::VIGILANTE { has_shot: false },
        ActionCommand::WolfVote => role == LupusRole::WOLF { is_leader: true },
        ActionCommand::RoleBlock => role == LupusRole::SEXWORKER,
        ActionCommand::TrueSight => role == LupusRole::VEGGENTE,
    }
}

/// The night action the command chooses against `target`.
pub open spec fn command_action(cmd: ActionCommand, target: u64) -> LupusAction {
    match cmd {
        ActionCommand::Frame => LupusAction::Frame(target),
        ActionCommand::Heal => LupusAction::Heal(target),
        ActionCommand::Kill => LupusAction::Kill(target),
        ActionCommand::Protect => LupusAction::Protect(target),
        ActionCommand::Shoot => LupusAction::GuardShot(target),
        ActionCommand::WolfVote => LupusAction::WolfVote(target),
        ActionCommand::RoleBlock => LupusAction::RoleBlock(target),
        ActionCommand::TrueSight => LupusAction::TrueSight(target),
    }
}

impl ActionCommand {
    /// Whether a player currently playing `role` may use this command.
    pub fn allows(&self, role: &LupusRole) -> (r: bool)
        ensures
            r == command_allows(*self, *role),
    {
        match self {
            ActionCommand::Frame => matches!(role, LupusRole::GUFO { .. }),
            ActionCommand::Heal => matches!(role, LupusRole::DOTTORE { has_healed: false }),
            ActionCommand::Kill => matches!(role, LupusRole::SERIALKILLER),
            ActionCommand::Protect => matches!(role, LupusRole::BODYGUARD { .. }),
            ActionCommand::Shoot => matches!(role, LupusRole::VIGILANTE { has_shot: false }),
            ActionCommand::WolfVote => matches!(role, LupusRole::WOLF { is_leader: true }),
            ActionCommand::RoleBlock => matches!(role, LupusRole::SEXWORKER),
            ActionCommand::TrueSight => matches!(role, LupusRole::VEGGENTE),
        }
    }

    /// The night action this command chooses against `target`.
    pub fn action(&self, target: u64) -> (r: LupusAction)
        ensures
            r == command_action(*self, target),
    {
        match self {
            ActionCommand::Frame => LupusAction::Frame(target),
            ActionCommand::Heal => LupusAction::Heal(target),
            ActionCommand::Kill => LupusAction::Kill(target),
            ActionCommand::Protect => LupusAction::Protect(target),
            ActionCommand::Shoot => LupusAction::GuardShot(target),
            ActionCommand::WolfVote => LupusAction::WolfVote(target),
            ActionCommand::RoleBlock => LupusAction::RoleBlock(target),
            ActionCommand::TrueSight => LupusAction::TrueSight(target),
        }
    }
}

/// The owl's combined command is for the owl who leads the pack.
pub open spec fn frame_and_kill_allowed(role: LupusRole) -> bool {
    role == LupusRole::GUFO { is_leader: true }
}

/// A random number between `bottom_limit` and `top_limit`, both included;
/// `None` when the limits are the wrong way round.
pub fn random(bottom_limit: u32, top_limit: u32) -> (r: Option<u32>)
    ensures
        r is None <==> top_limit < bottom_limit,
        r matches Some(n) ==> bottom_limit <= n <= top_limit,
{
    if top_limit < bottom_limit {
        return None;
    }
    let mut rng = thread_rng();
    let n = gen_range_inclusive(&mut rng, bottom_limit as usize, top_limit as usize);
    Some(n as u32)
}

} // verus!
