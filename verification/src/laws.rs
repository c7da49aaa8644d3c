//! Laws of the game that span several functions.
use vstd::prelude::*;

use crate::commands::{command_action, command_allows, ActionCommand};
use crate::context::{insert_tag, lemma_insert_tag, LupusManager, Tag};
use crate::game::{
    action_outcome, armed_count, cleaned_players, first_player_where, first_resolved, kill_chain, kill_from, kill_result, counted_actions, lemma_ballots_with,
    lemma_most_votes, lemma_top_ballots_nonempty, most_votes, other_actions, top_ballots,
    valid_draw, votes_for, wolf_ballots, alive_ids, game_is_over, good_alive_count,
    lemma_first_player_where_range, lemma_first_resolved_in_range, lemma_kill_chain_fuel, lemma_redirect_disarms,
    lemma_set_player_keys, reassigned, resolves_before, set_player, ActionOutcome, PlayerFilter,
};
use crate::keyed::{
    has_key, insert_key, key_index, keys_distinct, lemma_insert_key, lemma_key_index_unique, lemma_remove_key,
    lemma_update_value, lookup, remove_key,
};
use crate::player::{
    current_role_of, is_armed_dorian, kill_outcome, lemma_kill_laws, player_nature, with_current_role, KillError, KillKind,
    LupusPlayer,
};
use crate::roles::{action_rank, role_is_actually_good, role_nature, LupusAction, LupusRole, Nature};
use crate::roles_per_players::roles_for;

verus! {

proof fn lemma_kill_chain_victim_dead(s: Seq<(u64, LupusPlayer)>, target: u64, kind: KillKind, direct: bool, fuel: nat)
    requires
        keys_distinct(s),
        fuel >= armed_count(s),
    ensures
        keys_distinct(kill_chain(s, target, kind, direct, fuel).0),
        forall|k: u64| #[trigger] has_key(kill_chain(s, target, kind, direct, fuel).0, k) == has_key(s, k),
        forall|id: u64|
            kill_chain(s, target, kind, direct, fuel).1 == Ok::<u64, KillError>(id) && #[trigger] has_key(kill_chain(s, target, kind, direct, fuel).0, id)
                ==> !lookup(kill_chain(s, target, kind, direct, fuel).0, id).unwrap().alive,
    decreases fuel,
{
    if has_key(s, target) {
        let i = key_index(s, target);
        let (p, r) = kill_outcome(s[i].1, kind, direct);
        let s2 = s.update(i, (target, p));
        lemma_update_value(s, i, p);
        lemma_kill_laws(s[i].1, kind, direct);
        match r {
            Err(KillError::DorianGray { target: next }) => {
                lemma_redirect_disarms(s, i, kind, direct);
                lemma_kill_chain_victim_dead(s2, next, kind, false, (fuel - 1) as nat);
            },
            Ok(()) => {
                assert(key_index(s2, target) == i);
            },
            _ => {},
        }
    }
}

/// Whoever a kill ends on is dead afterwards (when they have joined), and a
/// kill neither adds nor removes players.
pub proof fn lemma_kill_victim_is_dead(s: Seq<(u64, LupusPlayer)>, target: u64, kind: KillKind)
    requires
        keys_distinct(s),
    ensures
        keys_distinct(kill_result(s, target, kind).0),
        forall|k: u64| #[trigger] has_key(kill_result(s, target, kind).0, k) == has_key(s, k),
        forall|id: u64|
            kill_result(s, target, kind).1 == Ok::<u64, KillError>(id) && #[trigger] has_key(kill_result(s, target, kind).0, id)
                ==> !lookup(kill_result(s, target, kind).0, id).unwrap().alive,
{
    lemma_kill_chain_victim_dead(s, target, kind, true, armed_count(s));
}

/// A night kill or the vigilante's shot aimed at a protected player fails
/// and changes nothing.
pub proof fn lemma_protected_target_untouched(s: Seq<(u64, LupusPlayer)>, target: u64, kind: KillKind)
    requires
        has_key(s, target),
        kind != KillKind::Vote,
        lookup(s, target).unwrap().is_protected,
    ensures
        kill_result(s, target, kind) == (s, Err::<u64, KillError>(KillError::IsProtected)),
{
    let i = key_index(s, target);
    assert(s.update(i, (target, s[i].1)) =~= s);
}

/// A kill aimed at Dorian Grey holding a picture given to `holder` takes the
/// picture away and goes on to `holder`, as a kill that was not aimed at
/// them (unless Dorian Grey is protected against a night kill or shot).
pub proof fn lemma_dorian_passes_kill(s: Seq<(u64, LupusPlayer)>, target: u64, kind: KillKind, holder: u64)
    requires
        keys_distinct(s),
        has_key(s, target),
        kind == KillKind::Vote || !lookup(s, target).unwrap().is_protected,
        current_role_of(lookup(s, target).unwrap().role) == (LupusRole::DORIANGREY { has_quadro: true, given_to: Some(holder) }),
    ensures
        kill_result(s, target, kind) == kill_from(
            set_player(s, target, LupusPlayer {
                role: with_current_role(lookup(s, target).unwrap().role, LupusRole::DORIANGREY { has_quadro: false, given_to: None }),
                ..lookup(s, target).unwrap()
            }),
            holder,
            kind,
            false,
        ),
{
    let i = key_index(s, target);
    lemma_redirect_disarms(s, i, kind, true);
    let s2 = s.update(i, (target, kill_outcome(s[i].1, kind, true).0));
    lemma_kill_chain_fuel(s2, holder, kind, false, (armed_count(s) - 1) as nat);
}

/// The action of a player whose role is blocked does nothing.
pub proof fn lemma_blocked_actor_does_nothing(s: Seq<(u64, LupusPlayer)>, actor: u64, action: LupusAction)
    requires
        has_key(s, actor),
        lookup(s, actor).unwrap().role_blocked,
    ensures
        action_outcome(s, actor, action) == (s, ActionOutcome::Nothing),
{
}

/// The bodyguard is protected once a game: protecting a bodyguard who has
/// been protected does nothing, and protecting one who has not marks them.
pub proof fn lemma_bodyguard_protected_once(s: Seq<(u64, LupusPlayer)>, actor: u64, target: u64)
    requires
        keys_distinct(s),
        has_key(s, target),
        !(has_key(s, actor) && lookup(s, actor).unwrap().role_blocked),
        lookup(s, target).unwrap().role matches LupusRole::BODYGUARD { .. },
    ensures
        lookup(s, target).unwrap().role == (LupusRole::BODYGUARD { self_protected: true })
            ==> action_outcome(s, actor, LupusAction::Protect(target)) == (s, ActionOutcome::Nothing),
        lookup(s, target).unwrap().role == (LupusRole::BODYGUARD { self_protected: false }) ==> {
            let after = action_outcome(s, actor, LupusAction::Protect(target)).0;
            &&& lookup(after, target).unwrap().is_protected
            &&& lookup(after, target).unwrap().role == (LupusRole::BODYGUARD { self_protected: true })
        },
{
    let p = lookup(s, target).unwrap();
    lemma_set_player_keys(s, target, LupusPlayer { role: LupusRole::BODYGUARD { self_protected: true }, is_protected: true, ..p });
}

/// The doctor heals once a game: after healing, the doctor's role no longer
/// allows the heal command.
pub proof fn lemma_doctor_heals_once(s: Seq<(u64, LupusPlayer)>, doctor: u64, target: u64)
    requires
        keys_distinct(s),
        has_key(s, doctor),
        !lookup(s, doctor).unwrap().role_blocked,
    ensures
        ({
            let after = action_outcome(s, doctor, LupusAction::Heal(target)).0;
            &&& has_key(after, doctor)
            &&& !command_allows(ActionCommand::Heal, current_role_of(lookup(after, doctor).unwrap().role))
        }),
{
    let p = lookup(s, doctor).unwrap();
    let healed = LupusPlayer { role: LupusRole::DOTTORE { has_healed: true }, ..p };
    lemma_set_player_keys(s, doctor, healed);
    let s1 = set_player(s, doctor, healed);
    if has_key(s1, target) {
        lemma_set_player_keys(s1, target, LupusPlayer { alive: true, ..lookup(s1, target).unwrap() });
    }
}

/// The seer sees a framed player as evil.
pub proof fn lemma_seer_sees_framed_evil(s: Seq<(u64, LupusPlayer)>, seer: u64, target: u64)
    requires
        has_key(s, target),
        lookup(s, target).unwrap().framed,
        !(has_key(s, seer) && lookup(s, seer).unwrap().role_blocked),
    ensures
        action_outcome(s, seer, LupusAction::TrueSight(target)).1 == (ActionOutcome::Seen { target, nature: Nature::EVIL }),
{
}

/// After the night's reset nobody is framed, protected or blocked, Dorian
/// Grey's picture is no longer given to anyone (a Dorian Grey keeps whether
/// they still have it), and everyone keeps their id and whether they are
/// alive.
pub proof fn lemma_cleanup_resets(s: Seq<(u64, LupusPlayer)>)
    ensures
        cleaned_players(s).len() == s.len(),
        forall|i: int| 0 <= i < s.len() ==> {
            let p = #[trigger] cleaned_players(s)[i];
            &&& p.0 == s[i].0
            &&& p.1.alive == s[i].1.alive
            &&& !p.1.framed && !p.1.is_protected && !p.1.role_blocked
            &&& !is_armed_dorian(p.1.role)
            &&& (s[i].1.role matches LupusRole::DORIANGREY { has_quadro, .. }
                ==> p.1.role == (LupusRole::DORIANGREY { has_quadro, given_to: None }))
        },
{
}

/// The action resolved first has the highest rank: role blocks are
/// resolved before anything else, then protections, and so on.
pub proof fn lemma_first_resolved_has_top_rank(b: Seq<(u64, LupusAction)>)
    requires
        b.len() > 0,
    ensures
        forall|j: int| 0 <= j < b.len() ==> action_rank(#[trigger] b[j].1) <= action_rank(b[first_resolved(b)].1),
    decreases b.len(),
{
    lemma_first_resolved_in_range(b);
    if b.len() > 1 {
        let d = b.drop_last();
        lemma_first_resolved_has_top_rank(d);
        lemma_first_resolved_in_range(d);
        let m = first_resolved(d);
        assert(d[m] == b[m]);
        if resolves_before(b.last(), b[m]) {
            assert(action_rank(b[m].1) <= action_rank(b.last().1));
        } else {
            assert(action_rank(b.last().1) <= action_rank(b[m].1));
        }
        assert forall|j: int| 0 <= j < b.len() implies action_rank(#[trigger] b[j].1) <= action_rank(b[first_resolved(b)].1) by {
            if j < b.len() - 1 {
                assert(d[j] == b[j]);
            }
        }
    }
}

/// While a wolf or an owl is alive, the pack has a living leader after the
/// reassignment.
pub proof fn lemma_pack_keeps_a_leader(s: Seq<(u64, LupusPlayer)>, w: int)
    requires
        0 <= w < s.len(),
        s[w].1.alive,
        (s[w].1.role matches LupusRole::WOLF { .. }) || (s[w].1.role matches LupusRole::GUFO { .. }),
    ensures
        first_player_where(reassigned(s).0, PlayerFilter::AliveLeader) >= 0,
{
    let s2 = reassigned(s).0;
    lemma_first_player_where_range(s, PlayerFilter::AliveLeader);
    lemma_first_player_where_range(s, PlayerFilter::AliveWolf);
    lemma_first_player_where_range(s, PlayerFilter::AliveOwl);
    lemma_first_player_where_range(s2, PlayerFilter::AliveLeader);
    let l = first_player_where(s, PlayerFilter::AliveLeader);
    let wf = first_player_where(s, PlayerFilter::AliveWolf);
    let g = first_player_where(s, PlayerFilter::AliveOwl);
    if l >= 0 {
        assert(s2 == s);
    } else {
        assert(s[w].1.role == (LupusRole::WOLF { is_leader: false }) || s[w].1.role == (LupusRole::GUFO { is_leader: false }));
        if wf >= 0 {
            assert(s2[wf].1.alive && s2[wf].1.role == (LupusRole::WOLF { is_leader: true }));
        } else {
            assert(s[w].1.role == (LupusRole::GUFO { is_leader: false }));
            assert(s2[g].1.alive && s2[g].1.role == (LupusRole::GUFO { is_leader: true }));
        }
    }
}

/// Joining a game is read back: after `user` joins in `guild` with `tag`,
/// the tag names `user` in `guild`.  Leaving is read back too: a user who
/// left plays in no guild.
pub proof fn lemma_join_then_lookup(before: LupusManager, after: LupusManager, guild: u64, user: u64, tag: Tag)
    requires
        before.wf(),
        after.guilds() == insert_key(before.guilds(), user, guild),
        after.tags() == insert_tag(before.tags(), tag, user),
    ensures
        after.ids_of_tag(tag.0@) == Some((user, guild)),
        !has_key(remove_key(after.guilds(), user), user),
{
    lemma_insert_key(before.guilds(), user, guild);
    lemma_insert_tag(before.tags(), tag, user);
    lemma_remove_key(after.guilds(), user);
}

/// Leaving undoes joining: the players after `user` joins and leaves are
/// the players after `user` leaves.
pub proof fn lemma_leave_undoes_join(s: Seq<(u64, LupusPlayer)>, user: u64, p: LupusPlayer)
    requires
        keys_distinct(s),
    ensures
        remove_key(insert_key(s, user, p), user) == remove_key(s, user),
{
    lemma_insert_key(s, user, p);
    let t = insert_key(s, user, p);
    if has_key(s, user) {
        let i = key_index(s, user);
        lemma_update_value(s, i, p);
        assert(key_index(t, user) == i);
        assert(t.remove(i) =~= s.remove(i));
    } else {
        lemma_key_index_unique(t, s.len() as int);
        assert(t.remove(s.len() as int) =~= s);
    }
}

/// A game created and then closed leaves the games as they were.
pub proof fn lemma_create_then_close(before: LupusManager, after: LupusManager, guild: u64)
    requires
        before.wf(),
        !has_key(before.games(), guild),
        after.games().len() == before.games().len() + 1,
        after.games().drop_last() == before.games(),
        after.games().last().0 == guild,
    ensures
        remove_key(after.games(), guild) == before.games(),
        has_key(after.games(), guild),
{
    let n = before.games().len() as int;
    assert(after.games()[n].0 == guild);
    assert forall|j: int| 0 <= j < n implies after.games()[j] == #[trigger] before.games()[j] by {
        assert(after.games().drop_last()[j] == after.games()[j]);
    }
    assert forall|a: int, b: int| 0 <= a < after.games().len() && 0 <= b < after.games().len() && a != b implies after.games()[a].0 != after.games()[b].0 by {
        if a == n {
            assert(after.games()[b] == before.games()[b]);
            assert(!(0 <= b < n && before.games()[b].0 == guild));
        } else if b == n {
            assert(after.games()[a] == before.games()[a]);
            assert(!(0 <= a < n && before.games()[a].0 == guild));
        } else {
            assert(after.games()[a] == before.games()[a]);
            assert(after.games()[b] == before.games()[b]);
            assert(keys_distinct(before.games()));
        }
    }
    lemma_key_index_unique(after.games(), n);
    assert(after.games().remove(n) =~= before.games());
}

/// A kill leaves the role of every player it does not turn or disarm as it
/// was: only an armed Dorian Grey and a werewolf villager change role.
proof fn lemma_kill_chain_keeps_role(
    s: Seq<(u64, LupusPlayer)>,
    target: u64,
    kind: KillKind,
    direct: bool,
    fuel: nat,
    k: u64,
)
    requires
        keys_distinct(s),
        has_key(s, k),
        !is_armed_dorian(lookup(s, k).unwrap().role),
        current_role_of(lookup(s, k).unwrap().role) != LupusRole::VILLICO_MANNARO,
    ensures
        has_key(kill_chain(s, target, kind, direct, fuel).0, k),
        lookup(kill_chain(s, target, kind, direct, fuel).0, k).unwrap().role == lookup(s, k).unwrap().role,
    decreases fuel,
{
    if has_key(s, target) {
        let i = key_index(s, target);
        let (p, r) = kill_outcome(s[i].1, kind, direct);
        let s2 = s.update(i, (target, p));
        lemma_update_value(s, i, p);
        assert(lookup(s2, k).unwrap().role == lookup(s, k).unwrap().role);
        match r {
            Err(KillError::DorianGray { target: next }) => {
                if fuel > 0 {
                    lemma_kill_chain_keeps_role(s2, next, kind, false, (fuel - 1) as nat, k);
                }
            },
            _ => {},
        }
    }
}

/// The vigilante shoots once a game: a vigilante who has not shot has shot
/// after shooting (whoever the shot ends on), and one who has shot does
/// nothing.
pub proof fn lemma_vigilante_shoots_once(s: Seq<(u64, LupusPlayer)>, actor: u64, target: u64)
    requires
        keys_distinct(s),
        has_key(s, actor),
        !lookup(s, actor).unwrap().role_blocked,
        current_role_of(lookup(s, actor).unwrap().role) matches LupusRole::VIGILANTE { .. },
    ensures
        current_role_of(lookup(s, actor).unwrap().role) == (LupusRole::VIGILANTE { has_shot: true })
            ==> action_outcome(s, actor, LupusAction::GuardShot(target)) == (s, ActionOutcome::Nothing),
        current_role_of(lookup(s, actor).unwrap().role) == (LupusRole::VIGILANTE { has_shot: false }) ==> {
            let after = action_outcome(s, actor, LupusAction::GuardShot(target)).0;
            &&& has_key(after, actor)
            &&& current_role_of(lookup(after, actor).unwrap().role) == (LupusRole::VIGILANTE { has_shot: true })
        },
{
    let p = lookup(s, actor).unwrap();
    if current_role_of(p.role) == (LupusRole::VIGILANTE { has_shot: false }) {
        let np = LupusPlayer { role: with_current_role(p.role, LupusRole::VIGILANTE { has_shot: true }), ..p };
        let s1 = set_player(s, actor, np);
        lemma_set_player_keys(s, actor, np);
        lemma_kill_chain_keeps_role(s1, target, KillKind::Guard, true, armed_count(s1), actor);
    }
}

/// A Dorian Grey who has lost the picture never has it again: giving it
/// does nothing.
pub proof fn lemma_lost_picture_stays_lost(s: Seq<(u64, LupusPlayer)>, actor: u64, target: u64)
    requires
        has_key(s, actor),
        current_role_of(lookup(s, actor).unwrap().role) matches LupusRole::DORIANGREY { has_quadro: false, .. },
    ensures
        action_outcome(s, actor, LupusAction::GiveQuadro(target)) == (s, ActionOutcome::Nothing),
{
}

proof fn lemma_votes_for_voted(bs: Seq<(u64, u64)>, t: u64)
    requires
        votes_for(bs, t) > 0,
    ensures
        exists|j: int| 0 <= j < bs.len() && #[trigger] bs[j].1 == t,
    decreases bs.len(),
{
    if bs.last().1 != t {
        lemma_votes_for_voted(bs.drop_last(), t);
        let j = choose|j: int| 0 <= j < bs.len() - 1 && #[trigger] bs.drop_last()[j].1 == t;
        assert(bs[j] == bs.drop_last()[j]);
    } else {
        assert(bs[bs.len() - 1].1 == t);
    }
}

/// The wolves attack only a player with the most votes: once the votes are
/// counted, the other actions stay as they were and the wolves' votes are
/// replaced by one wolf's vote for a player who got at least one vote and
/// no fewer votes than anyone else.
pub proof fn lemma_wolves_attack_most_voted(b: Seq<(u64, LupusAction)>, draw: int)
    requires
        wolf_ballots(b).len() > 0,
        valid_draw(b, draw),
    ensures
        ({
            let bs = wolf_ballots(b);
            let e = top_ballots(bs)[draw];
            &&& counted_actions(b, draw) == other_actions(b).push((e.0, LupusAction::WolfVote(e.1)))
            &&& bs.contains(e)
            &&& votes_for(bs, e.1) > 0
            &&& forall|t: u64| #[trigger] votes_for(bs, t) <= votes_for(bs, e.1)
        }),
{
    let bs = wolf_ballots(b);
    lemma_top_ballots_nonempty(bs);
    lemma_most_votes(bs, bs);
    lemma_ballots_with(bs, bs, most_votes(bs, bs));
    let e = top_ballots(bs)[draw];
    let j = choose|j: int| 0 <= j < bs.len() && bs[j] == e;
    assert(bs[j].1 == e.1);
    assert forall|t: u64| #[trigger] votes_for(bs, t) <= votes_for(bs, e.1) by {
        if votes_for(bs, t) > 0 {
            lemma_votes_for_voted(bs, t);
            let k = choose|k: int| 0 <= k < bs.len() && #[trigger] bs[k].1 == t;
            assert(votes_for(bs, bs[k].1) <= most_votes(bs, bs));
        }
    }
    lemma_votes_for_self(bs, j);
}

proof fn lemma_votes_for_self(bs: Seq<(u64, u64)>, j: int)
    requires
        0 <= j < bs.len(),
    ensures
        votes_for(bs, bs[j].1) > 0,
    decreases bs.len(),
{
    if j < bs.len() - 1 {
        lemma_votes_for_self(bs.drop_last(), j);
        assert(bs.drop_last()[j] == bs[j]);
    }
}

/// On a tie any of the tied players may be the one attacked: for each
/// player with the most wolves' votes there is a draw that picks them.
pub proof fn lemma_any_tied_player_can_be_attacked(b: Seq<(u64, LupusAction)>, t: u64)
    requires
        wolf_ballots(b).len() > 0,
        votes_for(wolf_ballots(b), t) > 0,
        forall|u: u64| #[trigger] votes_for(wolf_ballots(b), u) <= votes_for(wolf_ballots(b), t),
    ensures
        exists|draw: int| #[trigger] valid_draw(b, draw) && counted_actions(b, draw).last().1 == LupusAction::WolfVote(t),
{
    let bs = wolf_ballots(b);
    lemma_most_votes(bs, bs);
    lemma_ballots_with(bs, bs, most_votes(bs, bs));
    lemma_votes_for_voted(bs, t);
    let j = choose|j: int| 0 <= j < bs.len() && #[trigger] bs[j].1 == t;
    let m = choose|m: int| 0 <= m < bs.len() && votes_for(bs, #[trigger] bs[m].1) == most_votes(bs, bs);
    assert(votes_for(bs, bs[m].1) <= votes_for(bs, t));
    assert(votes_for(bs, bs[j].1) <= most_votes(bs, bs));
    assert(top_ballots(bs).contains(bs[j]));
    let d = choose|d: int| 0 <= d < top_ballots(bs).len() && top_ballots(bs)[d] == bs[j];
    assert(valid_draw(b, d));
}

/// The kills of the night (the serial killer's and the wolves') are night
/// kills: aimed at an unprotected hamster or serial killer they change
/// nothing and kill nobody, an unprotected werewolf villager they hit
/// stays as alive as he was and plays a wolf from then on, and an
/// unprotected villager dies.
pub proof fn lemma_night_kills_spare_the_resistant(s: Seq<(u64, LupusPlayer)>, actor: u64, target: u64)
    requires
        keys_distinct(s),
        has_key(s, target),
        !lookup(s, target).unwrap().is_protected,
        !(has_key(s, actor) && lookup(s, actor).unwrap().role_blocked),
    ensures
        current_role_of(lookup(s, target).unwrap().role) == LupusRole::CRICETO
            || current_role_of(lookup(s, target).unwrap().role) == LupusRole::SERIALKILLER ==> {
            &&& action_outcome(s, actor, LupusAction::Kill(target)) == (s, ActionOutcome::Nothing)
            &&& action_outcome(s, actor, LupusAction::WolfVote(target)) == (s, ActionOutcome::Nothing)
        },
        current_role_of(lookup(s, target).unwrap().role) == LupusRole::VILLICO_MANNARO ==> {
            let (after, out) = action_outcome(s, actor, LupusAction::Kill(target));
            &&& out == ActionOutcome::Nothing
            &&& has_key(after, target)
            &&& lookup(after, target).unwrap().alive == lookup(s, target).unwrap().alive
            &&& current_role_of(lookup(after, target).unwrap().role) == (LupusRole::WOLF { is_leader: false })
        },
        current_role_of(lookup(s, target).unwrap().role) == LupusRole::VILLICO ==> {
            &&& action_outcome(s, actor, LupusAction::Kill(target)).1 == ActionOutcome::Killed(target)
            &&& !lookup(action_outcome(s, actor, LupusAction::Kill(target)).0, target).unwrap().alive
            &&& action_outcome(s, actor, LupusAction::WolfVote(target)).1 == ActionOutcome::Killed(target)
            &&& !lookup(action_outcome(s, actor, LupusAction::WolfVote(target)).0, target).unwrap().alive
        },
{
    let i = key_index(s, target);
    let p = s[i].1;
    lemma_key_index_unique(s, i);
    let (p2, _) = kill_outcome(p, KillKind::Night, true);
    lemma_update_value(s, i, p2);
    if current_role_of(p.role) == LupusRole::CRICETO || current_role_of(p.role) == LupusRole::SERIALKILLER {
        assert(s.update(i, (target, p)) =~= s);
    }
}

/// Each night command chooses the action of the same name against its
/// target, whatever the target.
pub proof fn lemma_commands_choose_their_action(t: u64)
    ensures
        command_action(ActionCommand::Frame, t) == LupusAction::Frame(t),
        command_action(ActionCommand::Heal, t) == LupusAction::Heal(t),
        command_action(ActionCommand::Kill, t) == LupusAction::Kill(t),
        command_action(ActionCommand::Protect, t) == LupusAction::Protect(t),
        command_action(ActionCommand::Shoot, t) == LupusAction::GuardShot(t),
        command_action(ActionCommand::WolfVote, t) == LupusAction::WolfVote(t),
        command_action(ActionCommand::RoleBlock, t) == LupusAction::RoleBlock(t),
        command_action(ActionCommand::TrueSight, t) == LupusAction::TrueSight(t),
{
}

proof fn lemma_good_alive_count_zero(s: Seq<(u64, LupusPlayer)>)
    ensures
        good_alive_count(s) == 0 <==> forall|j: int|
            0 <= j < s.len() && role_is_actually_good(#[trigger] s[j].1.role) ==> !s[j].1.alive,
    decreases s.len(),
{
    if s.len() > 0 {
        let d = s.drop_last();
        lemma_good_alive_count_zero(d);
        let all_dead = forall|j: int| 0 <= j < s.len() && role_is_actually_good(#[trigger] s[j].1.role) ==> !s[j].1.alive;
        if all_dead {
            assert forall|j: int| 0 <= j < d.len() && role_is_actually_good(#[trigger] d[j].1.role) implies !d[j].1.alive by {
                assert(d[j] == s[j]);
            }
            assert(s[s.len() - 1] == s.last());
        }
        if good_alive_count(s) == 0 {
            assert forall|j: int| 0 <= j < s.len() && role_is_actually_good(#[trigger] s[j].1.role) implies !s[j].1.alive by {
                if j < d.len() {
                    assert(d[j] == s[j]);
                }
            }
        }
    }
}

proof fn lemma_alive_ids_one(s: Seq<(u64, LupusPlayer)>, a: int)
    requires
        0 <= a < s.len(),
        s[a].1.alive,
    ensures
        alive_ids(s).len() >= 1,
    decreases s.len(),
{
    if a < s.len() - 1 && !s.last().1.alive {
        assert(s.drop_last()[a] == s[a]);
        lemma_alive_ids_one(s.drop_last(), a);
    }
}

proof fn lemma_alive_ids_two(s: Seq<(u64, LupusPlayer)>, a: int, b: int)
    requires
        0 <= a < b < s.len(),
        s[a].1.alive,
        s[b].1.alive,
    ensures
        alive_ids(s).len() >= 2,
    decreases s.len(),
{
    let d = s.drop_last();
    assert(d[a] == s[a]);
    if b == s.len() - 1 {
        lemma_alive_ids_one(d, a);
    } else {
        assert(d[b] == s[b]);
        lemma_alive_ids_two(d, a, b);
    }
}

/// When the game is over: once no player who plays for the village is
/// alive (dead villagers do not count) the game is over; while two players
/// are alive and one of the living plays for the village, it goes on.
pub proof fn lemma_game_end_rule(s: Seq<(u64, LupusPlayer)>)
    ensures
        (forall|j: int| 0 <= j < s.len() && role_is_actually_good(#[trigger] s[j].1.role) ==> !s[j].1.alive)
            ==> game_is_over(s),
        (exists|a: int, b: int| 0 <= a < b < s.len() && #[trigger] s[a].1.alive && #[trigger] s[b].1.alive)
            && (exists|g: int| 0 <= g < s.len() && #[trigger] s[g].1.alive && role_is_actually_good(s[g].1.role))
            ==> !game_is_over(s),
{
    lemma_good_alive_count_zero(s);
    if exists|a: int, b: int| 0 <= a < b < s.len() && #[trigger] s[a].1.alive && #[trigger] s[b].1.alive {
        let (a, b) = choose|a: int, b: int| 0 <= a < b < s.len() && #[trigger] s[a].1.alive && #[trigger] s[b].1.alive;
        lemma_alive_ids_two(s, a, b);
    }
}

/// The roles of a game of `n` players are the first `n` of this list (all
/// sixteen for larger games).
pub proof fn lemma_roles_dealt_by_size(n: nat)
    ensures
        roles_for(n) == seq![
            LupusRole::GUFO { is_leader: false },
            LupusRole::WOLF { is_leader: true },
            LupusRole::VEGGENTE,
            LupusRole::BODYGUARD { self_protected: false },
            LupusRole::MEDIUM,
            LupusRole::VILLICO,
            LupusRole::VILLICO,
            LupusRole::STREGA(Box::new(LupusRole::NOTASSIGNED)),
            LupusRole::INDEMONIATO,
            LupusRole::VIGILANTE { has_shot: false },
            LupusRole::DORIANGREY { has_quadro: true, given_to: None },
            LupusRole::SERIALKILLER,
            LupusRole::SEXWORKER,
            LupusRole::DOTTORE { has_healed: false },
            LupusRole::WOLF { is_leader: false },
            LupusRole::CRICETO,
        ].take(if n < 16 { n as int } else { 16 }),
        roles_for(n).len() == if n < 16 { n } else { 16 },
        n >= 6 ==> roles_for(n).contains(LupusRole::VILLICO),
        roles_for(n).contains(LupusRole::SERIALKILLER) <==> n >= 12,
{
    let l = seq![
        LupusRole::GUFO { is_leader: false },
        LupusRole::WOLF { is_leader: true },
        LupusRole::VEGGENTE,
        LupusRole::BODYGUARD { self_protected: false },
        LupusRole::MEDIUM,
        LupusRole::VILLICO,
        LupusRole::VILLICO,
        LupusRole::STREGA(Box::new(LupusRole::NOTASSIGNED)),
        LupusRole::INDEMONIATO,
        LupusRole::VIGILANTE { has_shot: false },
        LupusRole::DORIANGREY { has_quadro: true, given_to: None },
        LupusRole::SERIALKILLER,
        LupusRole::SEXWORKER,
        LupusRole::DOTTORE { has_healed: false },
        LupusRole::WOLF { is_leader: false },
        LupusRole::CRICETO,
    ];
    let k: int = if n < 16 { n as int } else { 16 };
    assert(roles_for(n) =~= l.take(k));
    if n >= 6 {
        assert(roles_for(n)[5] == LupusRole::VILLICO);
    }
    if n >= 12 {
        assert(roles_for(n)[11] == LupusRole::SERIALKILLER);
    }
    if roles_for(n).contains(LupusRole::SERIALKILLER) {
        let j = choose|j: int| 0 <= j < roles_for(n).len() && roles_for(n)[j] == LupusRole::SERIALKILLER;
        assert(l[j] == LupusRole::SERIALKILLER);
    }
}

/// How the seer sees each role: the village roles and the neutral ones are
/// seen good, the wolves, the owl, the serial killer and the werewolf
/// villager evil, whatever their state.
pub proof fn lemma_seer_sees_each_role(b: bool, g: Option<u64>)
    ensures
        role_nature(LupusRole::VEGGENTE) == Nature::GOOD,
        role_nature(LupusRole::ANGELO) == Nature::GOOD,
        role_nature(LupusRole::CRICETO) == Nature::GOOD,
        role_nature(LupusRole::BODYGUARD { self_protected: b }) == Nature::GOOD,
        role_nature(LupusRole::VIGILANTE { has_shot: b }) == Nature::GOOD,
        role_nature(LupusRole::MEDIUM) == Nature::GOOD,
        role_nature(LupusRole::DORIANGREY { has_quadro: b, given_to: g }) == Nature::GOOD,
        role_nature(LupusRole::VILLICO) == Nature::GOOD,
        role_nature(LupusRole::SEXWORKER) == Nature::GOOD,
        role_nature(LupusRole::DOTTORE { has_healed: b }) == Nature::GOOD,
        role_nature(LupusRole::INDEMONIATO) == Nature::GOOD,
        role_nature(LupusRole::AMNESIA) == Nature::GOOD,
        role_nature(LupusRole::WOLF { is_leader: b }) == Nature::EVIL,
        role_nature(LupusRole::SERIALKILLER) == Nature::EVIL,
        role_nature(LupusRole::VILLICO_MANNARO) == Nature::EVIL,
        role_nature(LupusRole::GUFO { is_leader: b }) == Nature::EVIL,
        role_nature(LupusRole::NOTASSIGNED) == Nature::UNKNOWN,
{
}

} // verus!
