use maurobot::commands::ActionCommand;
use maurobot::context::{ActionReply, CommandReply, GameInProgress, LupusManager, Tag, VotationReport};
use maurobot::game::{GamePhase, Sighting, VoteExecution};
use maurobot::roles::{LupusAction, LupusRole, Nature};
use maurobot::votes::VoteResult;

const GUILD: u64 = 100;

fn tag(s: &str) -> Tag {
    Tag(s.to_string())
}

/// A manager with a game in GUILD and the users (id, tag).
fn manager_with(users: &[(u64, &str)]) -> LupusManager {
    let mut m = LupusManager::new();
    m.create_game(GUILD).unwrap();
    for (id, t) in users {
        m.add_user(GUILD, *id, tag(t));
    }
    m
}

fn set_role(m: &mut LupusManager, id: u64, role: LupusRole) {
    m.get_game_mut(GUILD).unwrap().get_player_mut(id).unwrap().role = role;
}

#[test]
fn create_and_close_games() {
    let mut m = LupusManager::new();
    assert!(m.create_game(GUILD).is_ok());
    assert_eq!(m.create_game(GUILD), Err(GameInProgress { guild_id: GUILD }));
    assert!(m.create_game(GUILD + 1).is_ok());
    assert!(m.get_game(GUILD).is_some());
    let game = m.close_game(GUILD).unwrap();
    assert_eq!(*game.get_phase(), GamePhase::FIRSTNIGHT);
    assert!(m.get_game(GUILD).is_none());
    assert!(m.close_game(GUILD).is_none());
    assert!(m.create_game(GUILD).is_ok());
}

#[test]
fn join_is_read_back() {
    let mut m = manager_with(&[(1, "alice#0001"), (2, "bob#0002")]);
    assert_eq!(m.get_ids_from_tag(tag("alice#0001")), Some((1, GUILD)));
    assert_eq!(m.get_ids_from_tag(tag("carol#0003")), None);
    assert_eq!(m.user_id_to_guild_id(2), Some(GUILD));
    assert_eq!(m.get_tag_from_id(2).unwrap().0, "bob#0002");
    assert!(m.get_game(GUILD).unwrap().get_player(1).unwrap().alive());
    assert_eq!(m.remove_user(GUILD, 1), Ok(()));
    assert_eq!(m.user_id_to_guild_id(1), None);
    assert!(m.get_game(GUILD).unwrap().get_player(1).is_none());
    // the tag stays, but names no guild any more
    assert_eq!(m.get_tag_from_id(1).unwrap().0, "alice#0001");
    assert_eq!(m.get_ids_from_tag(tag("alice#0001")), None);
    // joining a guild without a game records the user only
    m.add_user(555, 3, tag("dan#0004"));
    assert_eq!(m.get_ids_from_tag(tag("dan#0004")), Some((3, 555)));
}

#[test]
fn starting_deals_every_role_once() {
    let mut m = manager_with(&[(1, "a"), (2, "b"), (3, "c"), (4, "d")]);
    assert!(m.start_game(GUILD));
    assert!(!m.start_game(GUILD + 7));
    let roles: Vec<LupusRole> = m.get_game(GUILD).unwrap().joined_players().iter().map(|(_, p)| p.role.clone()).collect();
    for expected in [
        LupusRole::GUFO { is_leader: false },
        LupusRole::WOLF { is_leader: true },
        LupusRole::VEGGENTE,
        LupusRole::BODYGUARD { self_protected: false },
    ] {
        assert_eq!(roles.iter().filter(|r| **r == expected).count(), 1);
    }
    let wolves = m.get_game(GUILD).unwrap().wolves();
    assert_eq!(wolves.len(), 2);
}

#[test]
fn night_commands_are_checked_against_the_role() {
    let mut m = manager_with(&[(1, "seer"), (2, "killer")]);
    // roles not dealt yet: nobody may act
    assert_eq!(
        m.generic_action(1, tag("killer"), ActionCommand::TrueSight),
        Ok(ActionReply::WrongRoleOrPhase)
    );
    assert!(m.generic_action(1, tag("nobody"), ActionCommand::TrueSight).is_err());
    assert!(m.generic_action(9, tag("killer"), ActionCommand::TrueSight).is_err());
    // deal: the first player takes the last role
    assert!(m.start_game(GUILD));
    let roles: Vec<LupusRole> = m.get_game(GUILD).unwrap().joined_players().iter().map(|(_, p)| p.role.clone()).collect();
    // with two players the roles are the owl and the leading wolf
    let owl = if roles[0] == (LupusRole::GUFO { is_leader: false }) { 1 } else { 2 };
    let wolf = 3 - owl;
    let wolf_tag = if wolf == 1 { "seer" } else { "killer" };
    let owl_tag = if owl == 1 { "seer" } else { "killer" };
    assert_eq!(
        m.generic_action(owl, tag(wolf_tag), ActionCommand::Kill),
        Ok(ActionReply::WrongRoleOrPhase)
    );
    assert_eq!(
        m.generic_action(owl, tag(wolf_tag), ActionCommand::Frame),
        Ok(ActionReply::Sent(CommandReply::Registered { night_over: false }))
    );
    // the owl does not lead, so it cannot frame and kill
    assert_eq!(m.frame_and_kill(owl, tag(wolf_tag), tag(wolf_tag)), Ok(ActionReply::WrongRoleOrPhase));
    assert_eq!(
        m.generic_action(wolf, tag(owl_tag), ActionCommand::WolfVote),
        Ok(ActionReply::Sent(CommandReply::Registered { night_over: true }))
    );
    assert!(m.frame_and_kill(owl, tag(wolf_tag), tag("nobody")).is_err());
    let night = m.handle_night(GUILD);
    assert_eq!(night.killed, vec![owl]);
    assert!(night.sightings.is_empty());
    assert_eq!(night.vigilante, None);
    assert!(m.get_game(GUILD).unwrap().get_player(wolf).unwrap().framed);
    // the dead owl can no longer act
    assert_eq!(m.send_lupus_command(owl, LupusAction::Pass), Ok(CommandReply::DeadPlayer));
    assert!(m.send_lupus_command(77, LupusAction::Pass).is_err());
    let end = m.end_night(GUILD, None, night.killed);
    assert_eq!(end.killed, vec![owl]);
    assert_eq!(end.new_leader, None);
    assert!(end.ended);
    let game = m.get_game(GUILD).unwrap();
    assert_eq!(*game.get_phase(), GamePhase::DAY);
    assert!(!game.get_player(wolf).unwrap().framed);
}

#[test]
fn commands_without_a_game() {
    let mut m = LupusManager::new();
    m.add_user(GUILD, 1, tag("a"));
    assert_eq!(m.send_lupus_command(1, LupusAction::Pass), Ok(CommandReply::GameNotFound));
    assert_eq!(m.send_lupus_command_in_guild(GUILD, 1, LupusAction::Pass), None);
    m.create_game(GUILD).unwrap();
    // any user may choose an action in the guild's game; nobody else has to act
    assert_eq!(m.send_lupus_command_in_guild(GUILD, 1, LupusAction::Pass), Some(true));
    m.close_game(GUILD);
    assert!(m.ls(1).is_err());
    assert!(m.ls(2).is_err());
    assert!(m.give_picture(GUILD, 1, tag("a")).is_err());
    assert!(m.possess(GUILD, 1, tag("a")).is_err());
    assert!(m.prepare_vote(GUILD, tag("a")).is_err());
}

#[test]
fn listing_the_living() {
    let mut m = manager_with(&[(1, "a"), (2, "b"), (3, "c")]);
    let names: Vec<String> = m.ls(2).unwrap().into_iter().map(|t| t.0).collect();
    assert_eq!(names, vec!["a", "b", "c"]);
    m.get_game_mut(GUILD).unwrap().vote_kill_loop(2).unwrap();
    let names: Vec<String> = m.ls(1).unwrap().into_iter().map(|t| t.0).collect();
    assert_eq!(names, vec!["a", "c"]);
}

#[test]
fn vigilante_answers() {
    let mut m = manager_with(&[(1, "NONE"), (2, "bob")]);
    assert_eq!(m.handle_vigilante_death(&"bob".to_string()), Some(2));
    assert_eq!(m.handle_vigilante_death(&"carl".to_string()), None);
    // "none" in any case shoots nobody, even when someone's tag reads so
    assert_eq!(m.handle_vigilante_death(&"NONE".to_string()), None);
    assert_eq!(m.handle_vigilante_death(&"NoNe".to_string()), None);
    m.add_user(GUILD, 3, tag("Nonex"));
    assert_eq!(m.handle_vigilante_death(&"Nonex".to_string()), Some(3));
}

#[test]
fn the_day_vote() {
    let mut m = manager_with(&[(1, "a"), (2, "b"), (3, "c")]);
    assert_eq!(m.vote_candidates(GUILD), vec![(1, 0), (2, 1), (3, 2)]);
    assert!(m.handle_votation(GUILD, &vec![]).is_err());
    assert!(matches!(m.handle_votation(GUILD, &vec![0, 1]), Ok(VotationReport::Tie)));
    assert!(m.handle_votation(GUILD, &vec![9, 9, 0]).is_err());
    match m.handle_votation(GUILD, &vec![1, 1, 0]) {
        Ok(VotationReport::Killed { tag, execution }) => {
            assert_eq!(tag.0, "b");
            assert_eq!(execution, VoteExecution { killed_id: 2, nature: Nature::UNKNOWN, medium: None });
        }
        _ => panic!("the vote should kill b"),
    }
    assert!(!m.get_game(GUILD).unwrap().get_player(2).unwrap().alive());
    let day = m.handle_day(GUILD);
    assert_eq!(day.new_leader, None);
    assert!(day.ended);
    assert_eq!(*m.get_game(GUILD).unwrap().get_phase(), GamePhase::NIGHT);
}

#[test]
fn opening_a_vote() {
    let mut m = manager_with(&[(1, "a"), (2, "b")]);
    m.add_user(GUILD + 1, 3, tag("far"));
    assert_eq!(m.prepare_vote(GUILD, tag("far")), Ok(None));
    assert!(m.prepare_vote(GUILD, tag("ghost")).is_err());
    let start = m.prepare_vote(GUILD, tag("b")).unwrap().unwrap();
    assert_eq!(start.target_id, 2);
    assert_eq!(start.phase, GamePhase::FIRSTNIGHT);
    assert_eq!(start.alive_count, 2);
    assert_eq!(*m.get_game(GUILD).unwrap().get_phase(), GamePhase::VOTAZIONE);
}

#[test]
fn picture_and_possession() {
    let mut m = manager_with(&[(1, "a"), (2, "b")]);
    // nobody plays Dorian Grey or the witch before the roles are dealt
    assert_eq!(m.give_picture(GUILD, 1, tag("b")), Ok(false));
    assert_eq!(m.possess(GUILD, 1, tag("b")), Ok(None));
    assert!(m.give_picture(GUILD, 9, tag("b")).is_err());
    set_role(&mut m, 1, LupusRole::DORIANGREY { has_quadro: true, given_to: None });
    assert_eq!(m.give_picture(GUILD, 1, tag("b")), Ok(true));
    assert_eq!(
        m.get_game(GUILD).unwrap().get_player(1).unwrap().role,
        LupusRole::DORIANGREY { has_quadro: true, given_to: Some(2) }
    );
    // only the witch steals roles: Dorian Grey targeting a witch gets nothing
    set_role(&mut m, 2, LupusRole::STREGA(Box::new(LupusRole::VEGGENTE)));
    assert_eq!(m.possess(GUILD, 1, tag("b")), Ok(None));
    assert_eq!(
        m.get_game(GUILD).unwrap().get_player(1).unwrap().role,
        LupusRole::DORIANGREY { has_quadro: true, given_to: Some(2) }
    );
    assert!(m.possess(GUILD, 1, tag("ghost")).is_err());
}

#[test]
fn the_witch_steals_the_role_of_her_target() {
    let mut m = manager_with(&[(1, "witch"), (2, "seer"), (3, "other")]);
    set_role(&mut m, 1, LupusRole::STREGA(Box::new(LupusRole::NOTASSIGNED)));
    set_role(&mut m, 2, LupusRole::VEGGENTE);
    set_role(&mut m, 3, LupusRole::STREGA(Box::new(LupusRole::SERIALKILLER)));
    assert_eq!(m.possess(GUILD, 1, tag("seer")), Ok(Some(LupusRole::VEGGENTE)));
    assert_eq!(m.get_game(GUILD).unwrap().get_player(1).unwrap().role, LupusRole::STREGA(Box::new(LupusRole::VEGGENTE)));
    assert_eq!(m.get_game(GUILD).unwrap().get_player(1).unwrap().current_role(), &LupusRole::VEGGENTE);
    // the target keeps their role
    assert_eq!(m.get_game(GUILD).unwrap().get_player(2).unwrap().role, LupusRole::VEGGENTE);
    // from another witch she takes the role that witch holds
    assert_eq!(m.possess(GUILD, 1, tag("other")), Ok(Some(LupusRole::SERIALKILLER)));
    assert_eq!(m.get_game(GUILD).unwrap().get_player(1).unwrap().role, LupusRole::STREGA(Box::new(LupusRole::SERIALKILLER)));
    // a player who is not the witch changes nothing
    assert_eq!(m.possess(GUILD, 2, tag("other")), Ok(None));
    assert_eq!(m.get_game(GUILD).unwrap().get_player(2).unwrap().role, LupusRole::VEGGENTE);
    // a caller who has not joined fails
    assert!(m.possess(GUILD, 42, tag("seer")).is_err());
}

#[test]
fn a_night_with_a_vigilante() {
    let mut m = manager_with(&[(1, "seer"), (2, "vigilante"), (3, "wolf"), (4, "villager")]);
    set_role(&mut m, 1, LupusRole::VEGGENTE);
    set_role(&mut m, 2, LupusRole::VIGILANTE { has_shot: false });
    set_role(&mut m, 3, LupusRole::WOLF { is_leader: true });
    set_role(&mut m, 4, LupusRole::VILLICO);
    m.get_game_mut(GUILD).unwrap().set_phase(GamePhase::NIGHT);
    assert_eq!(
        m.generic_action(1, tag("wolf"), ActionCommand::TrueSight),
        Ok(ActionReply::Sent(CommandReply::Registered { night_over: false }))
    );
    assert_eq!(
        m.generic_action(3, tag("vigilante"), ActionCommand::WolfVote),
        Ok(ActionReply::Sent(CommandReply::Registered { night_over: false }))
    );
    assert_eq!(
        m.send_lupus_command(2, LupusAction::Pass),
        Ok(CommandReply::Registered { night_over: true })
    );
    let night = m.handle_night(GUILD);
    assert_eq!(night.killed, vec![2]);
    assert_eq!(night.sightings, vec![Sighting { seer: 1, target: 3, nature: Nature::EVIL }]);
    assert_eq!(night.vigilante, Some(2));
    let shot = m.handle_vigilante_death(&"wolf".to_string());
    assert_eq!(shot, Some(3));
    let end = m.end_night(GUILD, shot, night.killed);
    assert_eq!(end.killed, vec![2, 3]);
    assert_eq!(end.new_leader, None);
    assert!(!end.ended);
    assert_eq!(*m.get_game(GUILD).unwrap().get_phase(), GamePhase::DAY);
}

#[test]
fn leaving_is_refused_once_started() {
    let mut m = manager_with(&[(1, "a"), (2, "b"), (3, "c")]);
    assert!(m.start_game(GUILD));
    assert_eq!(m.remove_user(GUILD, 1), Err(GameInProgress { guild_id: GUILD }));
    assert_eq!(m.user_id_to_guild_id(1), Some(GUILD));
    assert!(m.get_game(GUILD).unwrap().get_player(1).is_some());
    // a guild without a game still lets a user go
    m.add_user(555, 9, tag("z"));
    assert_eq!(m.remove_user(555, 9), Ok(()));
    assert_eq!(m.user_id_to_guild_id(9), None);
}

#[test]
fn a_yes_vote_kills_the_target() {
    let mut m = manager_with(&[(1, "a"), (2, "b"), (3, "c")]);
    set_role(&mut m, 1, LupusRole::VILLICO);
    set_role(&mut m, 2, LupusRole::WOLF { is_leader: true });
    set_role(&mut m, 3, LupusRole::MEDIUM);
    assert_eq!(m.conclude_vote(GUILD, 2, VoteResult::No), Ok(None));
    assert_eq!(m.conclude_vote(GUILD, 2, VoteResult::Abstain), Ok(None));
    assert!(m.get_game(GUILD).unwrap().get_player(2).unwrap().alive());
    assert_eq!(
        m.conclude_vote(GUILD, 2, VoteResult::Yes),
        Ok(Some(VoteExecution { killed_id: 2, nature: Nature::EVIL, medium: Some(3) }))
    );
    assert!(!m.get_game(GUILD).unwrap().get_player(2).unwrap().alive());
    assert!(m.conclude_vote(GUILD + 1, 2, VoteResult::Yes).is_err());
    assert!(m.conclude_vote(GUILD, 77, VoteResult::Yes).is_err());
}
