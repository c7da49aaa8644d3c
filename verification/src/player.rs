//! A player of a game and what the three kinds of killing do to one.
use vstd::prelude::*;

use crate::roles::{role_nature, LupusRole, Nature};

verus! {

/// A player: the role and the state that the night resets.
#[derive(Debug)]
pub struct LupusPlayer {
    pub role: LupusRole,
    pub alive: bool,
    pub framed: bool,
    pub role_blocked: bool,
    pub is_protected: bool,
}

/// Why a kill did not kill the player it hit.
#[derive(Debug, Clone, Copy, PartialEq, Eq, Structural)]
pub enum KillError {
    /// The player is Dorian Grey holding a picture given to `target`:
    /// `target` dies in their place.
    DorianGray { target: u64 },
    /// The player cannot be killed this way.
    UnkillableTarget,
    /// The player is protected by the bodyguard.
    IsProtected,
    /// The werewolf villager, killed at night, has become a wolf.
    TurnedWolf,
}

/// The three ways of killing a player: at night (wolves, serial killer),
/// by the vigilante's shot, and by the village's vote.
#[derive(Debug, Clone, Copy, PartialEq, Eq, Structural)]
pub enum KillKind {
    Night,
    Guard,
    Vote,
}

/// The role a player currently plays: the witch plays the role she holds.
pub open spec fn current_role_of(role: LupusRole) -> LupusRole {
    match role {
        LupusRole::STREGA(inner) => *inner,
        _ => role,
    }
}

/// The role after the currently played role becomes `new_role`: the witch
/// keeps being the witch and holds `new_role`.
pub open spec fn with_current_role(role: LupusRole, new_role: LupusRole) -> LupusRole {
    match role {
        LupusRole::STREGA(_) => LupusRole::STREGA(Box::new(new_role)),
        _ => new_role,
    }
}

/// The player currently plays Dorian Grey and has given the picture away.
pub open spec fn is_armed_dorian(role: LupusRole) -> bool {
    current_role_of(role) matches LupusRole::DORIANGREY { has_quadro: true, given_to: Some(_) }
}

/// The fresh player of a new game.
pub open spec fn fresh_player() -> LupusPlayer {
    LupusPlayer {
        role: LupusRole::NOTASSIGNED,
        alive: true,
        framed: false,
        role_blocked: false,
        is_protected: false,
    }
}

/// What a kill of `kind` does to `p`, and what it reports; `direct` says
/// that the kill was aimed at `p` and not sent on by Dorian Grey's picture.
/// - Night and vigilante kills do nothing to a protected player.
/// - A Dorian Grey who has given the picture away loses it and sends the
///   kill on to the holder.
/// - The hamster survives night kills; the serial killer survives night and
///   vigilante kills.
/// - The werewolf villager hit directly by a night kill stays alive and
///   becomes a wolf.
/// - Anyone else dies.
pub open spec fn kill_outcome(p: LupusPlayer, kind: KillKind, direct: bool) -> (LupusPlayer, Result<(), KillError>) {
    if kind != KillKind::Vote && p.is_protected {
        (p, Err(KillError::IsProtected))
    } else {
        match current_role_of(p.role) {
            LupusRole::DORIANGREY { has_quadro: true, given_to: Some(t) } => (
                LupusPlayer {
                    role: with_current_role(
                        p.role,
                        LupusRole::DORIANGREY { has_quadro: false, given_to: None },
                    ),
                    ..p
                },
                Err(KillError::DorianGray { target: t }),
            ),
            LupusRole::CRICETO => if kind == KillKind::Night {
                (p, Err(KillError::UnkillableTarget))
            } else {
                (LupusPlayer { alive: false, ..p }, Ok(()))
            },
            LupusRole::SERIALKILLER => if kind != KillKind::Vote {
                (p, Err(KillError::UnkillableTarget))
            } else {
                (LupusPlayer { alive: false, ..p }, Ok(()))
            },
            LupusRole::VILLICO_MANNARO => if kind == KillKind::Night && direct {
                (
                    LupusPlayer { role: with_current_role(p.role, LupusRole::WOLF { is_leader: false }), ..p },
                    Err(KillError::TurnedWolf),
                )
            } else {
                (LupusPlayer { alive: false, ..p }, Ok(()))
            },
            _ => (LupusPlayer { alive: false, ..p }, Ok(())),
        }
    }
}

/// The player after the night: no longer framed, protected or blocked, a
/// witch gives back the role she took, and Dorian Grey's picture is no
/// longer given to anyone.
pub open spec fn cleaned(p: LupusPlayer) -> LupusPlayer {
    LupusPlayer {
        framed: false,
        is_protected: false,
        role_blocked: false,
        role: match p.role {
            LupusRole::STREGA(_) => LupusRole::STREGA(Box::new(LupusRole::NOTASSIGNED)),
            LupusRole::DORIANGREY { has_quadro, .. } => LupusRole::DORIANGREY { has_quadro, given_to: None },
            _ => p.role,
        },
        ..p
    }
}

/// How the seer sees a player: a framed player is seen evil.
pub open spec fn player_nature(p: LupusPlayer) -> Nature {
    if p.framed {
        Nature::EVIL
    } else {
        role_nature(p.role)
    }
}

impl Clone for LupusPlayer {
    fn clone(&self) -> (r: Self)
        ensures
            r == *self,
    {
        LupusPlayer {
            role: self.role.clone(),
            alive: self.alive,
            framed: self.framed,
            role_blocked: self.role_blocked,
            is_protected: self.is_protected,
        }
    }
}

impl LupusPlayer {
    /// A player who has just joined: alive, with no role yet.
    pub fn new() -> (r: Self)
        ensures
            r == fresh_player(),
    {
        Self {
            alive: true,
            role: LupusRole::NOTASSIGNED,
            is_protected: false,
            framed: false,
            role_blocked: false,
        }
    }

    /// How the seer sees this player.
    pub fn get_nature(&self) -> (r: Nature)
        ensures
            r == player_nature(*self),
    {
        if self.framed {
            Nature::EVIL
        } else {
            self.role.clone().is_evil()
        }
    }

    pub fn role(&self) -> (r: &LupusRole)
        ensures
            *r == self.role,
    {
        &self.role
    }

    /// The role the player currently plays (for the witch, the role she holds).
    pub fn current_role(&self) -> (r: &LupusRole)
        ensures
            *r == current_role_of(self.role),
    {
        match &self.role {
            LupusRole::STREGA(inner) => inner,
            _ => &self.role,
        }
    }

    /// Changes the role the player currently plays.
    pub fn set_current_role(&mut self, new_role: LupusRole)
        ensures
            *final(self) == (LupusPlayer { role: with_current_role(old(self).role, new_role), ..*old(self) }),
    {
        match self.role {
            LupusRole::STREGA(..) => {
                self.role = LupusRole::STREGA(Box::new(new_role));
            },
            _ => self.role = new_role,
        }
    }

    /// A kill of the given kind aimed at this player.
    pub fn kill_of_kind(&mut self, kind: KillKind) -> (r: Result<(), KillError>)
        ensures
            (*final(self), r) == kill_outcome(*old(self), kind, true),
    {
        self.hit(kind, true)
    }

    /// A kill of the given kind; `direct` is false when Dorian Grey's
    /// picture sent it on to this player.
    pub fn hit(&mut self, kind: KillKind, direct: bool) -> (r: Result<(), KillError>)
        ensures
            (*final(self), r) == kill_outcome(*old(self), kind, direct),
    {
        if kind != KillKind::Vote && self.is_protected {
            return Err(KillError::IsProtected);
        }
        let role = self.current_role().clone();
        match role {
            LupusRole::DORIANGREY { given_to: Some(quadro_target), has_quadro: true } => {
                self.set_current_role(LupusRole::DORIANGREY { given_to: None, has_quadro: false });
                Err(KillError::DorianGray { target: quadro_target })
            },
            LupusRole::CRICETO if kind == KillKind::Night => Err(KillError::UnkillableTarget),
            LupusRole::SERIALKILLER if kind != KillKind::Vote => Err(KillError::UnkillableTarget),
            LupusRole::VILLICO_MANNARO if kind == KillKind::Night && direct => {
                self.set_current_role(LupusRole::WOLF { is_leader: false });
                Err(KillError::TurnedWolf)
            },
            _ => {
                self.alive = false;
                Ok(())
            },
        }
    }

    /// A night kill (wolves, serial killer).
    pub fn kill(&mut self) -> (r: Result<(), KillError>)
        ensures
            (*final(self), r) == kill_outcome(*old(self), KillKind::Night, true),
    {
        self.kill_of_kind(KillKind::Night)
    }

    /// The vigilante's shot.
    pub fn guard_kill(&mut self) -> (r: Result<(), KillError>)
        ensures
            (*final(self), r) == kill_outcome(*old(self), KillKind::Guard, true),
    {
        self.kill_of_kind(KillKind::Guard)
    }

    /// Death by the village's vote.
    pub fn vote_kill(&mut self) -> (r: Result<(), KillError>)
        ensures
            (*final(self), r) == kill_outcome(*old(self), KillKind::Vote, true),
    {
        self.kill_of_kind(KillKind::Vote)
    }

    pub fn alive(&self) -> (r: bool)
        ensures
            r == self.alive,
    {
        self.alive
    }

    /// Resets what lasts one night only.
    pub fn cleanup(&mut self)
        ensures
            *final(self) == cleaned(*old(self)),
    {
        self.framed = false;
        self.is_protected = false;
        self.role_blocked = false;
        match self.role {
            LupusRole::STREGA(_) => {
                self.role = LupusRole::STREGA(Box::new(LupusRole::NOTASSIGNED));
            },
            LupusRole::DORIANGREY { has_quadro, .. } => {
                self.role = LupusRole::DORIANGREY { has_quadro, given_to: None };
            },
            _ => (),
        }
    }
}

/// The laws of a single kill.
/// - A protected player survives night kills and the vigilante's shot,
///   untouched.
/// - Whatever the kind, a kill that reports success leaves the player dead.
/// - A kill that is sent on by Dorian Grey takes the picture away, so the
///   same player cannot send a second kill on.
/// - The hamster and the serial killer survive night kills.
/// - The werewolf villager hit directly by a night kill does not die: he
///   plays a wolf from then on.
pub proof fn lemma_kill_laws(p: LupusPlayer, kind: KillKind, direct: bool)
    ensures
        kind != KillKind::Vote && p.is_protected ==> kill_outcome(p, kind, direct) == (p, Err::<(), KillError>(KillError::IsProtected)),
        kill_outcome(p, kind, direct).1 is Ok ==> !kill_outcome(p, kind, direct).0.alive,
        kill_outcome(p, kind, direct).1 matches Err(KillError::DorianGray { .. }) ==> is_armed_dorian(p.role) && !is_armed_dorian(kill_outcome(p, kind, direct).0.role),
        !is_armed_dorian(p.role) ==> !is_armed_dorian(kill_outcome(p, kind, direct).0.role),
        kind == KillKind::Night && !p.is_protected && (current_role_of(p.role) == LupusRole::CRICETO || current_role_of(p.role) == LupusRole::SERIALKILLER)
            ==> kill_outcome(p, kind, direct) == (p, Err::<(), KillError>(KillError::UnkillableTarget)),
        kind == KillKind::Night && direct && !p.is_protected && current_role_of(p.role) == LupusRole::VILLICO_MANNARO
            ==> kill_outcome(p, kind, direct).0.alive == p.alive && current_role_of(kill_outcome(p, kind, direct).0.role) == (LupusRole::WOLF { is_leader: false }),
{
}

} // verus!
