use maurobot::commands::{random, ActionCommand};
use maurobot::roles::{LupusAction, LupusRole};
use maurobot::votes::{count_reactions, plurality_of, vote_result, yes_no_result, Plurality, VoteResult};

#[test]
fn yes_no_vote() {
    assert_eq!(vote_result(3, 1), VoteResult::Yes);
    assert_eq!(vote_result(1, 3), VoteResult::No);
    assert_eq!(vote_result(2, 2), VoteResult::Abstain);
    assert_eq!(vote_result(0, 0), VoteResult::Abstain);
}

#[test]
fn counting_reactions() {
    let r = vec![1, 2, 1, 9, 1];
    assert_eq!(count_reactions(&r, 1), 3);
    assert_eq!(count_reactions(&r, 2), 1);
    assert_eq!(count_reactions(&r, 5), 0);
}

#[test]
fn plurality_outcomes() {
    assert_eq!(plurality_of(&vec![]), Plurality::NoVotes);
    assert_eq!(plurality_of(&vec![4]), Plurality::Winner(4));
    assert_eq!(plurality_of(&vec![1, 2, 1, 3, 2, 1]), Plurality::Winner(1));
    assert_eq!(plurality_of(&vec![1, 2, 2, 1]), Plurality::Tie);
    assert_eq!(plurality_of(&vec![5, 6, 7]), Plurality::Tie);
    assert_eq!(plurality_of(&vec![0, 3, 3, 0, 3]), Plurality::Winner(3));
}

#[test]
fn random_number_in_range() {
    for _ in 0..50 {
        let n = random(3, 7).unwrap();
        assert!(3 <= n && n <= 7);
    }
    assert_eq!(random(5, 5), Some(5));
    assert_eq!(random(8, 2), None);
}

#[test]
fn which_role_uses_which_command() {
    assert!(ActionCommand::Frame.allows(&LupusRole::GUFO { is_leader: false }));
    assert!(ActionCommand::Heal.allows(&LupusRole::DOTTORE { has_healed: false }));
    assert!(!ActionCommand::Heal.allows(&LupusRole::DOTTORE { has_healed: true }));
    assert!(ActionCommand::Kill.allows(&LupusRole::SERIALKILLER));
    assert!(ActionCommand::Protect.allows(&LupusRole::BODYGUARD { self_protected: true }));
    assert!(ActionCommand::Shoot.allows(&LupusRole::VIGILANTE { has_shot: false }));
    assert!(!ActionCommand::Shoot.allows(&LupusRole::VIGILANTE { has_shot: true }));
    assert!(ActionCommand::WolfVote.allows(&LupusRole::WOLF { is_leader: true }));
    assert!(!ActionCommand::WolfVote.allows(&LupusRole::WOLF { is_leader: false }));
    assert!(!ActionCommand::Kill.allows(&LupusRole::WOLF { is_leader: true }));
    assert_eq!(ActionCommand::Shoot.action(9), LupusAction::GuardShot(9));
    assert_eq!(ActionCommand::WolfVote.action(9), LupusAction::WolfVote(9));
    assert_eq!(ActionCommand::TrueSight.action(2), LupusAction::TrueSight(2));
}

#[test]
fn yes_no_tally_of_reactions() {
    let yes = 0;
    let no = 1;
    assert_eq!(yes_no_result(&vec![0, 0, 1, 2], yes, no), VoteResult::Yes);
    assert_eq!(yes_no_result(&vec![1, 0, 1, 2, 2, 2], yes, no), VoteResult::No);
    assert_eq!(yes_no_result(&vec![0, 1, 2], yes, no), VoteResult::Abstain);
    assert_eq!(yes_no_result(&vec![], yes, no), VoteResult::Abstain);
}
