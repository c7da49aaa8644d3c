use maurobot::commands::ActionCommand;
use maurobot::context::GameMessage;
use maurobot::game::{ActionOutcome, GamePhase, LupusGame, Sighting, VoteExecution};
use maurobot::player::{KillError, LupusPlayer};
use maurobot::roles::{LupusAction, LupusRole, Nature};

fn game_with(players: &[(u64, LupusRole)]) -> LupusGame {
    let mut g = LupusGame::new();
    for (id, role) in players {
        let mut p = LupusPlayer::new();
        p.role = role.clone();
        g.insert_player(*id, p);
    }
    g
}

fn alive(g: &LupusGame, id: u64) -> bool {
    g.get_player(id).unwrap().alive()
}

#[test]
fn new_game_starts_on_the_first_night() {
    let g = LupusGame::new();
    assert_eq!(*g.get_phase(), GamePhase::FIRSTNIGHT);
    assert!(g.is_phase(GamePhase::FIRSTNIGHT));
    assert!(g.joined_players().is_empty());
}

#[test]
fn insert_replaces_and_remove_drops() {
    let mut g = game_with(&[(1, LupusRole::VILLICO), (2, LupusRole::MEDIUM)]);
    g.insert_player(1, LupusPlayer::new());
    assert_eq!(g.joined_players().len(), 2);
    assert_eq!(g.get_player(1).unwrap().role, LupusRole::NOTASSIGNED);
    g.remove_player(1);
    assert!(g.get_player(1).is_none());
    assert_eq!(g.joined_players().len(), 1);
    g.remove_player(99);
    assert_eq!(g.joined_players().len(), 1);
}

#[test]
fn leaving_undoes_joining() {
    let mut a = game_with(&[(1, LupusRole::VILLICO), (2, LupusRole::MEDIUM)]);
    let mut b = game_with(&[(1, LupusRole::VILLICO), (2, LupusRole::MEDIUM)]);
    a.insert_player(3, LupusPlayer::new());
    a.remove_player(3);
    b.remove_player(3);
    assert_eq!(a.get_alive_players(), b.get_alive_players());
    a.insert_player(2, LupusPlayer::new());
    a.remove_player(2);
    b.remove_player(2);
    assert_eq!(a.get_alive_players(), vec![1]);
    assert_eq!(b.get_alive_players(), vec![1]);
}

#[test]
fn kill_follows_dorian_grey_pictures() {
    let mut g = game_with(&[
        (1, LupusRole::DORIANGREY { has_quadro: true, given_to: Some(2) }),
        (2, LupusRole::DORIANGREY { has_quadro: true, given_to: Some(3) }),
        (3, LupusRole::VILLICO),
    ]);
    assert_eq!(g.kill_loop(1), Ok(3));
    assert!(alive(&g, 1) && alive(&g, 2) && !alive(&g, 3));
    assert_eq!(g.get_player(1).unwrap().role, LupusRole::DORIANGREY { has_quadro: false, given_to: None });
    // the pictures are spent: the next kill hits Dorian Grey
    assert_eq!(g.kill_loop(1), Ok(1));
    assert!(!alive(&g, 1));
}

#[test]
fn kill_chain_that_loops_ends_on_a_disarmed_dorian() {
    let mut g = game_with(&[
        (1, LupusRole::DORIANGREY { has_quadro: true, given_to: Some(2) }),
        (2, LupusRole::DORIANGREY { has_quadro: true, given_to: Some(1) }),
    ]);
    assert_eq!(g.kill_loop(1), Ok(1));
    assert!(!alive(&g, 1) && alive(&g, 2));
}

#[test]
fn kill_of_unknown_or_protected_player() {
    let mut g = game_with(&[(1, LupusRole::VILLICO), (2, LupusRole::SERIALKILLER)]);
    assert_eq!(g.kill_loop(77), Ok(77));
    g.get_player_mut(1).unwrap().is_protected = true;
    assert_eq!(g.kill_loop(1), Err(KillError::IsProtected));
    assert_eq!(g.guard_kill_loop(2), Err(KillError::UnkillableTarget));
    assert_eq!(g.vote_kill_loop(1), Ok(1));
    assert!(!alive(&g, 1));
    assert!(g.get_player_mut(5).is_none());
}

#[test]
fn a_blocked_player_acts_in_vain() {
    let mut g = game_with(&[(1, LupusRole::SERIALKILLER), (2, LupusRole::VILLICO)]);
    g.get_player_mut(1).unwrap().role_blocked = true;
    assert_eq!(g.process_action(1, LupusAction::Kill(2)), ActionOutcome::Nothing);
    assert!(alive(&g, 2));
}

#[test]
fn bodyguard_is_protected_only_once() {
    let mut g = game_with(&[(1, LupusRole::BODYGUARD { self_protected: false }), (2, LupusRole::VILLICO)]);
    g.process_action(1, LupusAction::Protect(1));
    let bg = g.get_player(1).unwrap();
    assert!(bg.is_protected);
    assert_eq!(bg.role, LupusRole::BODYGUARD { self_protected: true });
    g.cleanup();
    g.process_action(1, LupusAction::Protect(1));
    assert!(!g.get_player(1).unwrap().is_protected);
    g.process_action(1, LupusAction::Protect(2));
    assert!(g.get_player(2).unwrap().is_protected);
}

#[test]
fn heal_frame_picture_and_sight() {
    let mut g = game_with(&[
        (1, LupusRole::DOTTORE { has_healed: false }),
        (2, LupusRole::VILLICO),
        (3, LupusRole::DORIANGREY { has_quadro: true, given_to: None }),
        (4, LupusRole::VEGGENTE),
    ]);
    assert_eq!(g.process_action(9, LupusAction::Kill(2)), ActionOutcome::Killed(2));
    assert!(!alive(&g, 2));
    g.process_action(1, LupusAction::Heal(2));
    assert!(alive(&g, 2));
    assert_eq!(g.get_player(1).unwrap().role, LupusRole::DOTTORE { has_healed: true });
    assert!(!ActionCommand::Heal.allows(g.get_player(1).unwrap().current_role()));
    g.process_action(3, LupusAction::GiveQuadro(2));
    assert_eq!(g.get_player(3).unwrap().role, LupusRole::DORIANGREY { has_quadro: true, given_to: Some(2) });
    assert_eq!(
        g.process_action(4, LupusAction::TrueSight(2)),
        ActionOutcome::Seen { target: 2, nature: Nature::GOOD }
    );
    g.process_action(5, LupusAction::Frame(2));
    assert_eq!(
        g.process_action(4, LupusAction::TrueSight(2)),
        ActionOutcome::Seen { target: 2, nature: Nature::EVIL }
    );
    assert_eq!(g.process_action(4, LupusAction::TrueSight(50)), ActionOutcome::Nothing);
    g.process_action(6, LupusAction::RoleBlock(4));
    assert!(g.get_player(4).unwrap().role_blocked);
    assert_eq!(g.process_action(1, LupusAction::Pass), ActionOutcome::Nothing);
}

#[test]
fn frame_and_kill() {
    let mut g = game_with(&[(1, LupusRole::GUFO { is_leader: true }), (2, LupusRole::VILLICO), (3, LupusRole::MEDIUM)]);
    assert_eq!(g.process_action(1, LupusAction::FrameAndKill(2, 3)), ActionOutcome::Killed(3));
    assert!(g.get_player(2).unwrap().framed);
    assert!(!alive(&g, 3));
}

#[test]
fn night_resolves_blocks_and_protections_first() {
    let mut g = game_with(&[
        (1, LupusRole::SEXWORKER),
        (2, LupusRole::SERIALKILLER),
        (3, LupusRole::VILLICO),
        (4, LupusRole::BODYGUARD { self_protected: false }),
        (5, LupusRole::WOLF { is_leader: true }),
        (6, LupusRole::VEGGENTE),
        (7, LupusRole::GUFO { is_leader: false }),
    ]);
    g.set_phase(GamePhase::NIGHT);
    // chosen in an order that the resolution does not follow
    assert!(!g.push_night_action(6, LupusAction::TrueSight(3)));
    assert!(!g.push_night_action(2, LupusAction::Kill(3)));
    assert!(!g.push_night_action(5, LupusAction::WolfVote(4)));
    assert!(!g.push_night_action(4, LupusAction::Protect(4)));
    assert!(!g.push_night_action(7, LupusAction::Frame(3)));
    assert!(g.push_night_action(1, LupusAction::RoleBlock(2)));
    let report = g.process_actions();
    // the serial killer was blocked, the bodyguard protected himself
    assert!(alive(&g, 3));
    assert!(alive(&g, 4));
    assert!(report.killed.is_empty());
    assert_eq!(report.sightings, vec![Sighting { seer: 6, target: 3, nature: Nature::EVIL }]);
    // the actions are gone
    assert!(!g.push_night_action(6, LupusAction::Pass));
}

#[test]
fn night_waits_for_the_roles_that_act() {
    let mut g = game_with(&[(1, LupusRole::VILLICO), (2, LupusRole::VEGGENTE), (3, LupusRole::WOLF { is_leader: false })]);
    assert!(!g.push_night_action(1, LupusAction::Pass));
    assert!(g.push_night_action(2, LupusAction::TrueSight(1)));
    assert!(g.push_night_action(2, LupusAction::TrueSight(3)));
    g.set_phase(GamePhase::DAY);
    let mut day = game_with(&[(2, LupusRole::VEGGENTE)]);
    day.set_phase(GamePhase::DAY);
    assert!(day.push_night_action(9, LupusAction::Pass));
}

#[test]
fn game_end_rules() {
    let mut g = game_with(&[(1, LupusRole::VILLICO), (2, LupusRole::WOLF { is_leader: true }), (3, LupusRole::MEDIUM)]);
    assert!(!g.check_if_ended());
    assert_eq!(g.day_end(), GameMessage::HANDLEDAY);
    assert_eq!(g.get_alive_players(), vec![1, 2, 3]);
    assert_eq!(g.get_alive_players_count(), 3);
    g.vote_kill_loop(1).unwrap();
    assert!(!g.check_if_ended());
    g.vote_kill_loop(3).unwrap();
    assert!(g.check_if_ended());
    assert_eq!(g.day_end(), GameMessage::GAMEEND);
    assert_eq!(g.get_alive_players(), vec![2]);

    let only_evil = game_with(&[(1, LupusRole::INDEMONIATO), (2, LupusRole::WOLF { is_leader: true })]);
    assert!(only_evil.check_if_ended());
    assert!(LupusGame::new().check_if_ended());
}

#[test]
fn cleanup_resets_the_night() {
    let mut g = game_with(&[(1, LupusRole::STREGA(Box::new(LupusRole::VEGGENTE))), (2, LupusRole::VILLICO)]);
    {
        let p = g.get_player_mut(2).unwrap();
        p.framed = true;
        p.is_protected = true;
        p.role_blocked = true;
        p.alive = false;
    }
    g.cleanup();
    let p = g.get_player(2).unwrap();
    assert!(!p.framed && !p.is_protected && !p.role_blocked && !p.alive);
    assert_eq!(g.get_player(1).unwrap().role, LupusRole::STREGA(Box::new(LupusRole::NOTASSIGNED)));
}

#[test]
fn wolf_leadership_passes_on() {
    let mut g = game_with(&[
        (1, LupusRole::WOLF { is_leader: true }),
        (2, LupusRole::GUFO { is_leader: false }),
        (3, LupusRole::WOLF { is_leader: false }),
    ]);
    assert_eq!(g.reassign_wolf_if_master_is_dead(), None);
    g.vote_kill_loop(1).unwrap();
    assert_eq!(g.reassign_wolf_if_master_is_dead(), Some(3));
    assert_eq!(g.get_player(3).unwrap().role, LupusRole::WOLF { is_leader: true });
    g.vote_kill_loop(3).unwrap();
    assert_eq!(g.reassign_wolf_if_master_is_dead(), Some(2));
    assert_eq!(g.get_player(2).unwrap().role, LupusRole::GUFO { is_leader: true });
    assert_eq!(g.wolves(), vec![1, 2, 3]);
}

#[test]
fn roles_are_dealt_from_the_end() {
    let mut g = game_with(&[(1, LupusRole::NOTASSIGNED), (2, LupusRole::NOTASSIGNED), (3, LupusRole::NOTASSIGNED)]);
    g.assign_roles(vec![LupusRole::VILLICO, LupusRole::MEDIUM]);
    assert_eq!(g.get_player(1).unwrap().role, LupusRole::MEDIUM);
    assert_eq!(g.get_player(2).unwrap().role, LupusRole::VILLICO);
    assert_eq!(g.get_player(3).unwrap().role, LupusRole::NOTASSIGNED);
}

#[test]
fn vigilante_and_medium() {
    let mut g = game_with(&[
        (1, LupusRole::VILLICO),
        (2, LupusRole::VIGILANTE { has_shot: false }),
        (3, LupusRole::MEDIUM),
        (4, LupusRole::VIGILANTE { has_shot: true }),
    ]);
    assert_eq!(g.dying_vigilante(&vec![1, 4, 2]), Some(2));
    assert_eq!(g.dying_vigilante(&vec![1, 4, 8]), None);
    assert_eq!(g.alive_medium(), Some(3));
    g.get_player_mut(1).unwrap().framed = true;
    let exec = g.execute_vote(1).unwrap();
    assert_eq!(exec, VoteExecution { killed_id: 1, nature: Nature::EVIL, medium: Some(3) });
    g.vote_kill_loop(3).unwrap();
    assert_eq!(g.alive_medium(), None);
    assert!(g.execute_vote(55).is_err());
}

#[test]
fn vigilante_shoots_once_a_game() {
    let mut g = game_with(&[(1, LupusRole::VIGILANTE { has_shot: false }), (2, LupusRole::VILLICO), (3, LupusRole::VILLICO)]);
    assert_eq!(g.process_action(1, LupusAction::GuardShot(2)), ActionOutcome::Killed(2));
    assert_eq!(g.get_player(1).unwrap().role, LupusRole::VIGILANTE { has_shot: true });
    assert!(!alive(&g, 2));
    // a second shot does nothing
    assert_eq!(g.process_action(1, LupusAction::GuardShot(3)), ActionOutcome::Nothing);
    assert!(alive(&g, 3));
}

#[test]
fn lost_picture_is_never_had_again() {
    let mut g = game_with(&[(1, LupusRole::DORIANGREY { has_quadro: false, given_to: None }), (2, LupusRole::VILLICO)]);
    assert_eq!(g.process_action(1, LupusAction::GiveQuadro(2)), ActionOutcome::Nothing);
    assert_eq!(g.get_player(1).unwrap().role, LupusRole::DORIANGREY { has_quadro: false, given_to: None });
    let mut h = game_with(&[(1, LupusRole::DORIANGREY { has_quadro: true, given_to: None }), (2, LupusRole::VILLICO)]);
    assert_eq!(h.process_action(1, LupusAction::GiveQuadro(2)), ActionOutcome::Nothing);
    assert_eq!(h.get_player(1).unwrap().role, LupusRole::DORIANGREY { has_quadro: true, given_to: Some(2) });
    // the night's reset cancels the picture
    h.cleanup();
    assert_eq!(h.get_player(1).unwrap().role, LupusRole::DORIANGREY { has_quadro: true, given_to: None });
}

#[test]
fn werewolf_villager_turns_but_dies_through_a_picture() {
    let mut g = game_with(&[
        (1, LupusRole::VILLICO_MANNARO),
        (2, LupusRole::DORIANGREY { has_quadro: true, given_to: Some(1) }),
    ]);
    // killed through Dorian Grey's picture: he dies
    assert_eq!(g.kill_loop(2), Ok(1));
    assert!(!alive(&g, 1));
    let mut h = game_with(&[(1, LupusRole::VILLICO_MANNARO)]);
    assert_eq!(h.kill_loop(1), Err(KillError::TurnedWolf));
    assert!(alive(&h, 1));
    assert_eq!(h.get_player(1).unwrap().role, LupusRole::WOLF { is_leader: false });
}

#[test]
fn wolves_attack_the_most_voted() {
    let mut g = game_with(&[
        (1, LupusRole::WOLF { is_leader: true }),
        (2, LupusRole::WOLF { is_leader: false }),
        (3, LupusRole::WOLF { is_leader: false }),
        (4, LupusRole::VILLICO),
        (5, LupusRole::VILLICO),
    ]);
    g.push_night_action(1, LupusAction::WolfVote(4));
    g.push_night_action(2, LupusAction::WolfVote(5));
    g.push_night_action(3, LupusAction::WolfVote(5));
    assert_eq!(g.wolf_draw_size(), 2);
    let report = g.process_actions();
    assert_eq!(report.killed, vec![5]);
    assert!(alive(&g, 4));
    assert!(!alive(&g, 5));
}

#[test]
fn tied_wolf_votes_attack_the_drawn_player() {
    let tied = || {
        let mut g = game_with(&[
            (1, LupusRole::WOLF { is_leader: true }),
            (2, LupusRole::WOLF { is_leader: false }),
            (4, LupusRole::VILLICO),
            (5, LupusRole::VILLICO),
        ]);
        g.push_night_action(1, LupusAction::WolfVote(4));
        g.push_night_action(2, LupusAction::WolfVote(5));
        g
    };
    let mut a = tied();
    assert_eq!(a.wolf_draw_size(), 2);
    assert_eq!(a.process_counted_actions(0).killed, vec![4]);
    assert!(alive(&a, 5));
    let mut b = tied();
    assert_eq!(b.process_counted_actions(1).killed, vec![5]);
    assert!(alive(&b, 4));
    // drawn at random: exactly one of the two dies
    let mut c = tied();
    let report = c.process_actions();
    assert_eq!(report.killed.len(), 1);
    assert!(report.killed[0] == 4 || report.killed[0] == 5);
    assert!(alive(&c, 4) != alive(&c, 5));
    // no votes: nothing to draw
    assert_eq!(game_with(&[(4, LupusRole::VILLICO)]).wolf_draw_size(), 0);
}

#[test]
fn roles_dealt_start_the_game() {
    let mut g = game_with(&[(1, LupusRole::NOTASSIGNED), (2, LupusRole::NOTASSIGNED)]);
    assert!(!g.has_started());
    g.get_player_mut(2).unwrap().role = LupusRole::VILLICO;
    assert!(g.has_started());
    assert!(!LupusGame::new().has_started());
}
