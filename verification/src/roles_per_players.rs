//! The roles dealt in a game of a given size.
use vstd::prelude::*;

use crate::rng::{shuffle_roles, thread_rng};
use crate::roles::LupusRole;

verus! {

/// All the roles, in the order in which they join the game as it grows:
/// a game of `n` players plays the first `n`.
pub open spec fn complete_roles() -> Seq<LupusRole> {
    seq![
        LupusRole::GUFO { is_leader: false },
        LupusRole::WOLF { is_leader: true },
        LupusRole::VEGGENTE,
        LupusRole::BODYGUARD { self_protected: false },
        LupusRole::MEDIUM,
        LupusRole::VILLICO,
        LupusRole::VILLICO,
        LupusRole::STREGA(Box::new(LupusRole::NOTASSIGNED)),
        LupusRole::INDEMONIATO,
        LupusRole::VIGILANTE { has_shot: false },
        LupusRole::DORIANGREY { has_quadro: true, given_to: None },
        LupusRole::SERIALKILLER,
        LupusRole::SEXWORKER,
        LupusRole::DOTTORE { has_healed: false },
        LupusRole::WOLF { is_leader: false },
        LupusRole::CRICETO,
    ]
}

/// The roles of a game of `n` players (at most the sixteen roles there are).
pub open spec fn roles_for(n: nat) -> Seq<LupusRole> {
    if n < 16 {
        complete_roles().take(n as int)
    } else {
        complete_roles()
    }
}

/// The roles for a game of `player_number` players, in random order: each
/// of the first `player_number` roles (all sixteen for larger games)
/// exactly once.
pub fn get_roles(player_number: usize) -> (r: Vec<LupusRole>)
    ensures
        r@.len() == roles_for(player_number as nat).len(),
        r@.to_multiset() == roles_for(player_number as nat).to_multiset(),
{
    let mut rng = thread_rng();
    let mut filtered_roles = vec![
        LupusRole::GUFO { is_leader: false },
        LupusRole::WOLF { is_leader: true },
        LupusRole::VEGGENTE,
        LupusRole::BODYGUARD { self_protected: false },
        LupusRole::MEDIUM,
        LupusRole::VILLICO,
        LupusRole::VILLICO,
        LupusRole::STREGA(Box::new(LupusRole::NOTASSIGNED)),
        LupusRole::INDEMONIATO,
        LupusRole::VIGILANTE { has_shot: false },
        LupusRole::DORIANGREY { has_quadro: true, given_to: None },
        LupusRole::SERIALKILLER,
        LupusRole::SEXWORKER,
        LupusRole::DOTTORE { has_healed: false },
        LupusRole::WOLF { is_leader: false },
        LupusRole::CRICETO,
    ];
    assert(filtered_roles@ =~= complete_roles());
    filtered_roles.truncate(player_number);
    assert(filtered_roles@ =~= roles_for(player_number as nat));
    shuffle_roles(&mut filtered_roles, &mut rng);
    filtered_roles
}

} // verus!
