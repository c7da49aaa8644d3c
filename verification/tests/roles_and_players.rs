use maurobot::error::MyError;
use maurobot::game::GamePhase;
use maurobot::player::{KillError, KillKind, LupusPlayer};
use maurobot::roles::{LupusRole, Nature};
use maurobot::roles_per_players::get_roles;

fn player_with(role: LupusRole) -> LupusPlayer {
    let mut p = LupusPlayer::new();
    p.role = role;
    p
}

#[test]
fn seer_sees_roles() {
    assert_eq!(LupusRole::WOLF { is_leader: true }.is_evil(), Nature::EVIL);
    assert_eq!(LupusRole::GUFO { is_leader: false }.is_evil(), Nature::EVIL);
    assert_eq!(LupusRole::SERIALKILLER.is_evil(), Nature::EVIL);
    assert_eq!(LupusRole::VILLICO_MANNARO.is_evil(), Nature::EVIL);
    assert_eq!(LupusRole::VEGGENTE.is_evil(), Nature::GOOD);
    assert_eq!(LupusRole::INDEMONIATO.is_evil(), Nature::GOOD);
    assert_eq!(LupusRole::CRICETO.is_evil(), Nature::GOOD);
    assert_eq!(LupusRole::NOTASSIGNED.is_evil(), Nature::UNKNOWN);
    assert_eq!(LupusRole::ANGELO.is_evil(), Nature::GOOD);
}

#[test]
fn amnesiac_starts_out_seen_good() {
    assert_eq!(LupusRole::AMNESIA.is_evil(), Nature::GOOD);
    assert_eq!(player_with(LupusRole::AMNESIA).get_nature(), Nature::GOOD);
}

#[test]
fn witch_is_seen_as_the_role_she_took() {
    assert_eq!(LupusRole::STREGA(Box::new(LupusRole::WOLF { is_leader: false })).is_evil(), Nature::EVIL);
    assert_eq!(LupusRole::STREGA(Box::new(LupusRole::VEGGENTE)).is_evil(), Nature::GOOD);
    assert_eq!(LupusRole::STREGA(Box::new(LupusRole::NOTASSIGNED)).is_evil(), Nature::UNKNOWN);
}

#[test]
fn werewolf_villager_killed_at_night_becomes_a_wolf() {
    let mut p = player_with(LupusRole::VILLICO_MANNARO);
    assert_eq!(p.kill(), Err(KillError::TurnedWolf));
    assert!(p.alive());
    assert_eq!(p.role, LupusRole::WOLF { is_leader: false });
    // the vigilante's shot and the vote kill him
    let mut shot = player_with(LupusRole::VILLICO_MANNARO);
    assert_eq!(shot.guard_kill(), Ok(()));
    assert!(!shot.alive());
    let mut voted = player_with(LupusRole::VILLICO_MANNARO);
    assert_eq!(voted.vote_kill(), Ok(()));
    assert!(!voted.alive());
    // a night kill sent on by Dorian Grey's picture kills him
    let mut held = player_with(LupusRole::VILLICO_MANNARO);
    assert_eq!(held.hit(KillKind::Night, false), Ok(()));
    assert!(!held.alive());
    // a witch holding the role becomes a witch holding a wolf
    let mut witch = player_with(LupusRole::STREGA(Box::new(LupusRole::VILLICO_MANNARO)));
    assert_eq!(witch.kill(), Err(KillError::TurnedWolf));
    assert_eq!(witch.role, LupusRole::STREGA(Box::new(LupusRole::WOLF { is_leader: false })));
}

#[test]
fn dorian_grey_picture_is_cancelled_every_night() {
    let mut p = player_with(LupusRole::DORIANGREY { has_quadro: true, given_to: Some(9) });
    p.cleanup();
    assert_eq!(p.role, LupusRole::DORIANGREY { has_quadro: true, given_to: None });
    let mut lost = player_with(LupusRole::DORIANGREY { has_quadro: false, given_to: None });
    lost.cleanup();
    assert_eq!(lost.role, LupusRole::DORIANGREY { has_quadro: false, given_to: None });
    // with the picture cancelled, Dorian Grey dies himself
    assert_eq!(p.kill(), Ok(()));
    assert!(!p.alive());
}

#[test]
fn village_roles_and_night_actions() {
    assert!(LupusRole::VILLICO.is_actually_good());
    assert!(LupusRole::DOTTORE { has_healed: true }.is_actually_good());
    assert!(!LupusRole::INDEMONIATO.is_actually_good());
    assert!(!LupusRole::CRICETO.is_actually_good());
    assert!(!LupusRole::WOLF { is_leader: true }.is_actually_good());
    assert!(LupusRole::VEGGENTE.can_action(&GamePhase::NIGHT));
    assert!(LupusRole::VEGGENTE.can_action(&GamePhase::FIRSTNIGHT));
    assert!(!LupusRole::VEGGENTE.can_action(&GamePhase::DAY));
    assert!(LupusRole::WOLF { is_leader: true }.can_action(&GamePhase::NIGHT));
    assert!(!LupusRole::WOLF { is_leader: false }.can_action(&GamePhase::NIGHT));
    assert!(!LupusRole::DOTTORE { has_healed: true }.can_action(&GamePhase::NIGHT));
    assert!(!LupusRole::VILLICO.can_action(&GamePhase::NIGHT));
    let default_role: LupusRole = Default::default();
    assert_eq!(default_role, LupusRole::NOTASSIGNED);
    let witch = LupusRole::STREGA(Box::new(LupusRole::MEDIUM));
    assert_eq!(witch.clone(), witch);
}

#[test]
fn new_player_is_alive_without_role() {
    let p = LupusPlayer::new();
    assert!(p.alive());
    assert_eq!(p.role, LupusRole::NOTASSIGNED);
    assert!(!p.framed && !p.role_blocked && !p.is_protected);
}

#[test]
fn protected_player_survives_night_and_shot_but_not_vote() {
    let mut p = player_with(LupusRole::VILLICO);
    p.is_protected = true;
    assert_eq!(p.kill(), Err(KillError::IsProtected));
    assert_eq!(p.guard_kill(), Err(KillError::IsProtected));
    assert!(p.alive());
    assert_eq!(p.vote_kill(), Ok(()));
    assert!(!p.alive());
}

#[test]
fn hamster_and_serial_killer_resist() {
    let mut hamster = player_with(LupusRole::CRICETO);
    assert_eq!(hamster.kill(), Err(KillError::UnkillableTarget));
    assert!(hamster.alive());
    assert_eq!(hamster.guard_kill(), Ok(()));
    assert!(!hamster.alive());

    let mut killer = player_with(LupusRole::SERIALKILLER);
    assert_eq!(killer.kill(), Err(KillError::UnkillableTarget));
    assert_eq!(killer.guard_kill(), Err(KillError::UnkillableTarget));
    assert!(killer.alive());
    assert_eq!(killer.kill_of_kind(KillKind::Vote), Ok(()));
    assert!(!killer.alive());
}

#[test]
fn dorian_grey_sends_the_kill_on_once() {
    let mut dorian = player_with(LupusRole::DORIANGREY { has_quadro: true, given_to: Some(42) });
    assert_eq!(dorian.kill(), Err(KillError::DorianGray { target: 42 }));
    assert!(dorian.alive());
    assert_eq!(dorian.role, LupusRole::DORIANGREY { has_quadro: false, given_to: None });
    assert_eq!(dorian.kill(), Ok(()));
    assert!(!dorian.alive());

    let mut voted = player_with(LupusRole::DORIANGREY { has_quadro: true, given_to: Some(7) });
    assert_eq!(voted.vote_kill(), Err(KillError::DorianGray { target: 7 }));
    // a Dorian Grey who still holds the picture dies like anyone
    let mut holding = player_with(LupusRole::DORIANGREY { has_quadro: true, given_to: None });
    assert_eq!(holding.kill(), Ok(()));
}

#[test]
fn witch_plays_the_role_she_holds() {
    let mut witch = player_with(LupusRole::STREGA(Box::new(LupusRole::NOTASSIGNED)));
    witch.set_current_role(LupusRole::DORIANGREY { has_quadro: true, given_to: Some(3) });
    assert_eq!(*witch.current_role(), LupusRole::DORIANGREY { has_quadro: true, given_to: Some(3) });
    assert!(matches!(witch.role(), LupusRole::STREGA(_)));
    assert_eq!(witch.kill(), Err(KillError::DorianGray { target: 3 }));
    assert_eq!(
        witch.role,
        LupusRole::STREGA(Box::new(LupusRole::DORIANGREY { has_quadro: false, given_to: None }))
    );
    witch.framed = true;
    witch.is_protected = true;
    witch.role_blocked = true;
    witch.cleanup();
    assert_eq!(witch.role, LupusRole::STREGA(Box::new(LupusRole::NOTASSIGNED)));
    assert!(!witch.framed && !witch.is_protected && !witch.role_blocked);

    let mut other = player_with(LupusRole::MEDIUM);
    other.set_current_role(LupusRole::VILLICO);
    assert_eq!(other.role, LupusRole::VILLICO);
}

#[test]
fn framed_player_is_seen_evil() {
    let mut p = player_with(LupusRole::VEGGENTE);
    assert_eq!(p.get_nature(), Nature::GOOD);
    p.framed = true;
    assert_eq!(p.get_nature(), Nature::EVIL);
    p.cleanup();
    assert_eq!(p.get_nature(), Nature::GOOD);
}

fn count(roles: &Vec<LupusRole>, role: &LupusRole) -> usize {
    roles.iter().filter(|r| *r == role).count()
}

#[test]
fn roles_for_five_players() {
    let roles = get_roles(5);
    assert_eq!(roles.len(), 5);
    assert_eq!(count(&roles, &LupusRole::GUFO { is_leader: false }), 1);
    assert_eq!(count(&roles, &LupusRole::WOLF { is_leader: true }), 1);
    assert_eq!(count(&roles, &LupusRole::VEGGENTE), 1);
    assert_eq!(count(&roles, &LupusRole::BODYGUARD { self_protected: false }), 1);
    assert_eq!(count(&roles, &LupusRole::MEDIUM), 1);
}

#[test]
fn roles_for_large_games_are_all_sixteen() {
    let roles = get_roles(40);
    assert_eq!(roles.len(), 16);
    assert_eq!(count(&roles, &LupusRole::VILLICO), 2);
    assert_eq!(count(&roles, &LupusRole::WOLF { is_leader: false }), 1);
    assert_eq!(count(&roles, &LupusRole::CRICETO), 1);
    assert_eq!(get_roles(0).len(), 0);
}

#[test]
fn error_message() {
    assert_eq!(MyError.message(), "MyError");
}
