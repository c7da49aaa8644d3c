//! The roles of the game, how the seer sees them, and the night actions.
//!
//! Roles, as the game describes them:
//! - WOLF: kills a player each night (the leader decides); seen evil.
//! - VEGGENTE (seer): each night learns whether a chosen player is good or evil.
//! - CRICETO (hamster): seen good; does not die at night except by the vigilante.
//! - BODYGUARD: protects a player each night; may be protected only once a game.
//! - VIGILANTE: may shoot a player at night; seen good.
//! - MEDIUM: learns the nature of the player voted out during the day; seen good.
//! - GUFO (owl): plays with the wolves; frames a player so that the seer sees
//!   them evil; seen evil.
//! - DORIANGREY: seen good; gives the picture to a player; when Dorian Grey
//!   would die, the holder of the picture dies instead, and the picture is lost.
//! - VILLICO_MANNARO: seen evil.
//! - SEXWORKER: seen good; blocks the role of a player for the night.
//! - SERIALKILLER: seen evil; kills each night and does not die at night.
//! - DOTTORE (doctor): seen good; brings a player back to life once a game.
//! - INDEMONIATO: a villager seen good who wins with the wolves.
//! - STREGA (witch): takes the role of another player; plays alone.
//! - ANGELO, AMNESIA, VILLICO: no night action.
use vstd::prelude::*;

use crate::game::GamePhase;

verus! {

/// A role of the game.  Some roles carry the state that they need:
/// whether the bodyguard has been protected, whether the vigilante has shot,
/// whether a wolf or the owl leads the pack, Dorian Grey's picture, whether
/// the doctor has healed, and the role that the witch currently holds.
#[allow(non_camel_case_types)]
#[derive(Debug, PartialEq, Eq)]
pub enum LupusRole {
    VEGGENTE,
    CRICETO,
    BODYGUARD { self_protected: bool },
    VIGILANTE { has_shot: bool },
    MEDIUM,
    GUFO { is_leader: bool },
    DORIANGREY { has_quadro: bool, given_to: Option<u64> },
    VILLICO_MANNARO,
    SEXWORKER,
    SERIALKILLER,
    DOTTORE { has_healed: bool },
    INDEMONIATO,
    STREGA(Box<LupusRole>),
    ANGELO,
    AMNESIA,
    VILLICO,
    WOLF { is_leader: bool },
    NOTASSIGNED,
}

/// How the seer sees a player.
#[derive(Debug, Clone, Copy, PartialEq, Eq, Structural)]
pub enum Nature {
    GOOD,
    EVIL,
    UNKNOWN,
}

/// How the seer sees a role.  The amnesiac starts out seen good, and the
/// witch is seen as the role she has taken.
pub open spec fn role_nature(role: LupusRole) -> Nature
    decreases role,
{
    match role {
        LupusRole::VEGGENTE | LupusRole::ANGELO | LupusRole::CRICETO | LupusRole::BODYGUARD { .. }
        | LupusRole::VIGILANTE { .. } | LupusRole::MEDIUM | LupusRole::DORIANGREY { .. }
        | LupusRole::VILLICO | LupusRole::SEXWORKER | LupusRole::DOTTORE { .. }
        | LupusRole::INDEMONIATO | LupusRole::AMNESIA => Nature::GOOD,
        LupusRole::STREGA(inner) => role_nature(*inner),
        LupusRole::WOLF { .. } | LupusRole::SERIALKILLER | LupusRole::VILLICO_MANNARO
        | LupusRole::GUFO { .. } => Nature::EVIL,
        _ => Nature::UNKNOWN,
    }
}

/// The roles that play for the village: the game is over when none of them
/// is alive.
pub open spec fn role_is_actually_good(role: LupusRole) -> bool {
    match role {
        LupusRole::VEGGENTE | LupusRole::BODYGUARD { .. } | LupusRole::VIGILANTE { .. }
        | LupusRole::MEDIUM | LupusRole::DORIANGREY { .. } | LupusRole::SEXWORKER
        | LupusRole::DOTTORE { .. } | LupusRole::VILLICO => true,
        _ => false,
    }
}

/// The roles that must choose a night action before the night can end.
pub open spec fn role_can_action(role: LupusRole, phase: GamePhase) -> bool {
    (phase == GamePhase::NIGHT || phase == GamePhase::FIRSTNIGHT) && match role {
        LupusRole::VEGGENTE | LupusRole::BODYGUARD { .. } | LupusRole::SEXWORKER
        | LupusRole::SERIALKILLER | LupusRole::GUFO { .. } => true,
        LupusRole::WOLF { is_leader } => is_leader,
        LupusRole::VIGILANTE { has_shot } => !has_shot,
        LupusRole::DOTTORE { has_healed } => !has_healed,
        _ => false,
    }
}

impl Clone for LupusRole {
    fn clone(&self) -> (r: Self)
        ensures
            r == *self,
        decreases self,
    {
        match self {
            LupusRole::VEGGENTE => LupusRole::VEGGENTE,
            LupusRole::CRICETO => LupusRole::CRICETO,
            LupusRole::BODYGUARD { self_protected } => LupusRole::BODYGUARD {
                self_protected: *self_protected,
            },
            LupusRole::VIGILANTE { has_shot } => LupusRole::VIGILANTE { has_shot: *has_shot },
            LupusRole::MEDIUM => LupusRole::MEDIUM,
            LupusRole::GUFO { is_leader } => LupusRole::GUFO { is_leader: *is_leader },
            LupusRole::DORIANGREY { has_quadro, given_to } => LupusRole::DORIANGREY {
                has_quadro: *has_quadro,
                given_to: *given_to,
            },
            LupusRole::VILLICO_MANNARO => LupusRole::VILLICO_MANNARO,
            LupusRole::SEXWORKER => LupusRole::SEXWORKER,
            LupusRole::SERIALKILLER => LupusRole::SERIALKILLER,
            LupusRole::DOTTORE { has_healed } => LupusRole::DOTTORE { has_healed: *has_healed },
            LupusRole::INDEMONIATO => LupusRole::INDEMONIATO,
            LupusRole::STREGA(inner) => {
                let inner_role: &LupusRole = inner;
                LupusRole::STREGA(Box::new(inner_role.clone()))
            },
            LupusRole::ANGELO => LupusRole::ANGELO,
            LupusRole::AMNESIA => LupusRole::AMNESIA,
            LupusRole::VILLICO => LupusRole::VILLICO,
            LupusRole::WOLF { is_leader } => LupusRole::WOLF { is_leader: *is_leader },
            LupusRole::NOTASSIGNED => LupusRole::NOTASSIGNED,
        }
    }
}

impl LupusRole {
    /// How the seer sees this role.
    pub fn is_evil(self) -> (r: Nature)
        ensures
            r == role_nature(self),
        decreases self,
    {
        match self {
            Self::STREGA(inner) => (*inner).is_evil(),
            Self::VEGGENTE
            | Self::ANGELO
            | Self::CRICETO
            | Self::BODYGUARD { .. }
            | Self::VIGILANTE { .. }
            | Self::MEDIUM
            | Self::DORIANGREY { .. }
            | Self::VILLICO
            | Self::SEXWORKER
            | Self::DOTTORE { .. }
            | Self::INDEMONIATO
            | Self::AMNESIA => Nature::GOOD,
            Self::WOLF { .. } | Self::SERIALKILLER | Self::VILLICO_MANNARO | Self::GUFO { .. } => {
                Nature::EVIL
            },
            _ => Nature::UNKNOWN,
        }
    }

    /// Whether this role plays for the village.
    pub fn is_actually_good(&self) -> (r: bool)
        ensures
            r == role_is_actually_good(*self),
    {
        match self {
            Self::VEGGENTE
            | Self::BODYGUARD { .. }
            | Self::VIGILANTE { .. }
            | Self::MEDIUM
            | Self::DORIANGREY { .. }
            | Self::SEXWORKER
            | Self::DOTTORE { .. }
            | Self::VILLICO => true,
            _ => false,
        }
    }

    /// Whether this role has a night action to take in `phase`.
    pub fn can_action(&self, phase: &GamePhase) -> (r: bool)
        ensures
            r == role_can_action(*self, *phase),
    {
        let night = match phase {
            GamePhase::NIGHT | GamePhase::FIRSTNIGHT => true,
            _ => false,
        };
        if !night {
            return false;
        }
        match self {
            Self::VEGGENTE | Self::BODYGUARD { .. } | Self::SEXWORKER | Self::SERIALKILLER
            | Self::GUFO { .. } => true,
            Self::WOLF { is_leader } => *is_leader,
            Self::VIGILANTE { has_shot } => !*has_shot,
            Self::DOTTORE { has_healed } => !*has_healed,
            _ => false,
        }
    }
}

impl Default for LupusRole {
    fn default() -> (r: Self)
        ensures
            r == LupusRole::NOTASSIGNED,
    {
        LupusRole::NOTASSIGNED
    }
}

/// A night action chosen by a player; the ids are the targets.
/// Actions are resolved from the highest rank down (see `action_rank`):
/// role blocks first, then protections, the picture, frames, the kills, the
/// heals and last the seer's look.
#[derive(Debug, Clone, Copy, PartialEq, Eq, Structural)]
pub enum LupusAction {
    Pass,
    TrueSight(u64),
    Heal(u64),
    GuardShot(u64),
    WolfVote(u64),
    Kill(u64),
    FrameAndKill(u64, u64),
    Frame(u64),
    GiveQuadro(u64),
    Protect(u64),
    RoleBlock(u64),
}

/// The rank of an action: higher ranks are resolved first.
pub open spec fn action_rank(a: LupusAction) -> int {
    match a {
        LupusAction::Pass => 0,
        LupusAction::TrueSight(_) => 1,
        LupusAction::Heal(_) => 2,
        LupusAction::GuardShot(_) => 3,
        LupusAction::WolfVote(_) => 4,
        LupusAction::Kill(_) => 5,
        LupusAction::FrameAndKill(_, _) => 6,
        LupusAction::Frame(_) => 7,
        LupusAction::GiveQuadro(_) => 8,
        LupusAction::Protect(_) => 9,
        LupusAction::RoleBlock(_) => 10,
    }
}

/// The first target of an action (0 for `Pass`).
pub open spec fn action_first_target(a: LupusAction) -> int {
    match a {
        LupusAction::Pass => 0,
        LupusAction::TrueSight(t) | LupusAction::Heal(t) | LupusAction::GuardShot(t)
        | LupusAction::WolfVote(t) | LupusAction::Kill(t) | LupusAction::FrameAndKill(t, _)
        | LupusAction::Frame(t) | LupusAction::GiveQuadro(t) | LupusAction::Protect(t)
        | LupusAction::RoleBlock(t) => t as int,
    }
}

/// The second target of an action (0 unless it is `FrameAndKill`).
pub open spec fn action_second_target(a: LupusAction) -> int {
    match a {
        LupusAction::FrameAndKill(_, k) => k as int,
        _ => 0,
    }
}

} // verus!
