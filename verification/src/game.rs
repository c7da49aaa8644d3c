//! One game: the joined players, the night actions chosen so far, and the
//! phase.  Players and actions are kept in association lists keyed by the
//! user id, in the order in which they joined or chose.
use vstd::prelude::*;

use crate::context::GameMessage;
use crate::error::MyError;
use crate::keyed::{
    find_key, has_key, insert_key, key_index, keys_distinct, lemma_insert_key, lemma_key_index_unique,
    lemma_remove_key, lemma_update_value, lookup, remove_key,
};
use crate::rng::{gen_range_inclusive, thread_rng};
use crate::player::{
    cleaned, current_role_of, is_armed_dorian, kill_outcome, lemma_kill_laws, player_nature,
    with_current_role, KillError, KillKind, LupusPlayer,
};
use crate::roles::{
    action_first_target, action_rank, action_second_target, role_can_action, role_is_actually_good,
    LupusAction, LupusRole, Nature,
};

verus! {

/// The phase a game is in.
#[derive(Debug, PartialEq, Eq, Clone, Copy, Structural)]
pub enum GamePhase {
    FIRSTNIGHT,
    NIGHT,
    DAY,
    VOTAZIONE,
}

/// One game of lupus.
#[derive(Debug)]
pub struct LupusGame {
    action_buffer: Vec<(u64, LupusAction)>,
    joined_players: Vec<(u64, LupusPlayer)>,
    game_phase: GamePhase,
}

/// The players that are set to `p`, when `k` has joined.
pub open spec fn set_player(s: Seq<(u64, LupusPlayer)>, k: u64, p: LupusPlayer) -> Seq<(u64, LupusPlayer)> {
    if has_key(s, k) {
        s.update(key_index(s, k), (k, p))
    } else {
        s
    }
}

/// How many players currently play Dorian Grey with the picture given away.
pub open spec fn armed_count(s: Seq<(u64, LupusPlayer)>) -> nat
    decreases s.len(),
{
    if s.len() == 0 {
        0
    } else {
        armed_count(s.drop_last()) + if is_armed_dorian(s.last().1.role) {
            1nat
        } else {
            0nat
        }
    }
}

/// A kill of `kind` aimed at `target`, followed along Dorian Grey's pictures:
/// the final players and either the id of the player the kill ends on, or
/// the reason it failed.  `direct` says that `target` is the player the kill
/// was aimed at; a kill sent on by a picture is not direct.  A kill aimed at
/// someone who has not joined ends on that id and changes nothing.  `fuel`
/// bounds the number of pictures followed; `armed_count` of the players is
/// always enough.
pub open spec fn kill_chain(s: Seq<(u64, LupusPlayer)>, target: u64, kind: KillKind, direct: bool, fuel: nat) -> (Seq<(u64, LupusPlayer)>, Result<u64, KillError>)
    decreases fuel,
{
    if !has_key(s, target) {
        (s, Ok(target))
    } else {
        let i = key_index(s, target);
        let (p, r) = kill_outcome(s[i].1, kind, direct);
        let s2 = s.update(i, (target, p));
        match r {
            Ok(()) => (s2, Ok(target)),
            Err(KillError::DorianGray { target: next }) => if fuel == 0 {
                (s2, Ok(next))
            } else {
                kill_chain(s2, next, kind, false, (fuel - 1) as nat)
            },
            Err(e) => (s2, Err(e)),
        }
    }
}

/// A kill followed along every picture there is.
pub open spec fn kill_from(s: Seq<(u64, LupusPlayer)>, target: u64, kind: KillKind, direct: bool) -> (Seq<(u64, LupusPlayer)>, Result<u64, KillError>) {
    kill_chain(s, target, kind, direct, armed_count(s))
}

/// The result of a full kill aimed at `target`.
pub open spec fn kill_result(s: Seq<(u64, LupusPlayer)>, target: u64, kind: KillKind) -> (Seq<(u64, LupusPlayer)>, Result<u64, KillError>) {
    kill_from(s, target, kind, true)
}

/// Replacing one player changes the number of armed Dorian Greys by what
/// the old and the new player contribute.
pub proof fn lemma_armed_count_update(s: Seq<(u64, LupusPlayer)>, i: int, e: (u64, LupusPlayer))
    requires
        0 <= i < s.len(),
    ensures
        armed_count(s.update(i, e)) + (if is_armed_dorian(s[i].1.role) { 1int } else { 0int })
            == armed_count(s) + (if is_armed_dorian(e.1.role) { 1int } else { 0int }),
    decreases s.len(),
{
    let t = s.update(i, e);
    if i == s.len() - 1 {
        assert(t.drop_last() =~= s.drop_last());
    } else {
        lemma_armed_count_update(s.drop_last(), i, e);
        assert(t.drop_last() =~= s.drop_last().update(i, e));
    }
}

/// Following a picture takes it away: the number of armed Dorian Greys drops by one.
pub proof fn lemma_redirect_disarms(s: Seq<(u64, LupusPlayer)>, i: int, kind: KillKind, direct: bool)
    requires
        0 <= i < s.len(),
        kill_outcome(s[i].1, kind, direct).1 matches Err(KillError::DorianGray { .. }),
    ensures
        armed_count(s) >= 1,
        armed_count(s.update(i, (s[i].0, kill_outcome(s[i].1, kind, direct).0))) == armed_count(s) - 1,
{
    lemma_kill_laws(s[i].1, kind, direct);
    lemma_armed_count_update(s, i, (s[i].0, kill_outcome(s[i].1, kind, direct).0));
}

/// Any fuel at least the number of armed Dorian Greys gives the same result.
pub proof fn lemma_kill_chain_fuel(s: Seq<(u64, LupusPlayer)>, target: u64, kind: KillKind, direct: bool, fuel: nat)
    requires
        fuel >= armed_count(s),
    ensures
        kill_chain(s, target, kind, direct, fuel) == kill_from(s, target, kind, direct),
    decreases armed_count(s),
{
    if has_key(s, target) {
        let i = key_index(s, target);
        let (p, r) = kill_outcome(s[i].1, kind, direct);
        match r {
            Err(KillError::DorianGray { target: next }) => {
                lemma_redirect_disarms(s, i, kind, direct);
                let s2 = s.update(i, (target, p));
                lemma_kill_chain_fuel(s2, next, kind, false, (fuel - 1) as nat);
                lemma_kill_chain_fuel(s2, next, kind, false, (armed_count(s) - 1) as nat);
            },
            _ => {},
        }
    }
}

/// Changing one player keeps the players' ids distinct and unchanged.
pub proof fn lemma_set_player_keys(s: Seq<(u64, LupusPlayer)>, k: u64, p: LupusPlayer)
    requires
        keys_distinct(s),
    ensures
        keys_distinct(set_player(s, k, p)),
        forall|k2: u64| has_key(set_player(s, k, p), k2) == has_key(s, k2),
        has_key(s, k) ==> lookup(set_player(s, k, p), k) == Some(p),
        forall|k2: u64| k2 != k ==> lookup(set_player(s, k, p), k2) == lookup(s, k2),
{
    if has_key(s, k) {
        lemma_update_value(s, key_index(s, k), p);
        lemma_insert_key(s, k, p);
    }
}

/// The players after the night's reset of every player.
pub open spec fn cleaned_players(s: Seq<(u64, LupusPlayer)>) -> Seq<(u64, LupusPlayer)> {
    s.map_values(|e: (u64, LupusPlayer)| (e.0, cleaned(e.1)))
}

/// The ids of the living players, in order.
pub open spec fn alive_ids(s: Seq<(u64, LupusPlayer)>) -> Seq<u64>
    decreases s.len(),
{
    if s.len() == 0 {
        Seq::empty()
    } else if s.last().1.alive {
        alive_ids(s.drop_last()).push(s.last().0)
    } else {
        alive_ids(s.drop_last())
    }
}

/// How many living players play for the village.
pub open spec fn good_alive_count(s: Seq<(u64, LupusPlayer)>) -> nat
    decreases s.len(),
{
    if s.len() == 0 {
        0
    } else {
        good_alive_count(s.drop_last()) + if s.last().1.alive && role_is_actually_good(
            s.last().1.role,
        ) {
            1nat
        } else {
            0nat
        }
    }
}

/// The roles have been dealt: some joined player has a role.
pub open spec fn roles_dealt(s: Seq<(u64, LupusPlayer)>) -> bool {
    exists|j: int| 0 <= j < s.len() && #[trigger] s[j].1.role != LupusRole::NOTASSIGNED
}

/// The game is over when at most one player is alive or no living player
/// plays for the village.
pub open spec fn game_is_over(s: Seq<(u64, LupusPlayer)>) -> bool {
    alive_ids(s).len() <= 1 || good_alive_count(s) == 0
}

/// The night can end: every player whose role has a night action in `phase`
/// has chosen one.
pub open spec fn night_complete(s: Seq<(u64, LupusPlayer)>, b: Seq<(u64, LupusAction)>, phase: GamePhase) -> bool {
    forall|i: int| 0 <= i < s.len() && role_can_action(#[trigger] s[i].1.role, phase) ==> has_key(b, s[i].0)
}

proof fn lemma_alive_ids_len(s: Seq<(u64, LupusPlayer)>)
    ensures
        alive_ids(s).len() <= s.len(),
        good_alive_count(s) <= s.len(),
    decreases s.len(),
{
    if s.len() > 0 {
        lemma_alive_ids_len(s.drop_last());
    }
}

/// What one night action produced, besides its effect on the players.
#[derive(Debug, Clone, Copy, PartialEq, Eq, Structural)]
pub enum ActionOutcome {
    Nothing,
    /// A kill ended on this player.
    Killed(u64),
    /// The seer looked at `target` and saw `nature`.
    Seen { target: u64, nature: Nature },
}

/// The outcome of a kill, as the night reports it.
pub open spec fn kill_report(r: (Seq<(u64, LupusPlayer)>, Result<u64, KillError>)) -> (Seq<(u64, LupusPlayer)>, ActionOutcome) {
    (r.0, match r.1 {
        Ok(id) => ActionOutcome::Killed(id),
        Err(_) => ActionOutcome::Nothing,
    })
}

/// The players after `t`, if they joined, has been framed.
pub open spec fn framed_players(s: Seq<(u64, LupusPlayer)>, t: u64) -> Seq<(u64, LupusPlayer)> {
    set_player(s, t, LupusPlayer { framed: true, ..lookup(s, t).unwrap() })
}

/// What the action `action` chosen by `actor` does to the players.
/// - An action of a player whose role is blocked does nothing.
/// - Frame: the target is seen evil tonight.
/// - Heal: the doctor has healed, and the target is alive again.
/// - GiveQuadro: the actor plays Dorian Grey with the picture given to the
///   target; a Dorian Grey who has lost the picture does nothing.
/// - GuardShot: a vigilante who has shot does nothing; otherwise the shooter,
///   if a vigilante, has now shot, and a vigilante's kill is aimed at the target.
/// - Kill, WolfVote: a night kill aimed at the target.
/// - FrameAndKill: the first target is framed, then a night kill is aimed at the second.
/// - Protect: the target is protected; a bodyguard target only once a game.
/// - RoleBlock: the target's role is blocked.
/// - TrueSight: reports how the seer sees the target.
/// - Pass: nothing.
pub open spec fn action_outcome(s: Seq<(u64, LupusPlayer)>, actor: u64, action: LupusAction) -> (Seq<(u64, LupusPlayer)>, ActionOutcome) {
    if has_key(s, actor) && lookup(s, actor).unwrap().role_blocked {
        (s, ActionOutcome::Nothing)
    } else {
        match action {
            LupusAction::Frame(t) => (framed_players(s, t), ActionOutcome::Nothing),
            LupusAction::Heal(t) => {
                let s1 = set_player(
                    s,
                    actor,
                    LupusPlayer { role: LupusRole::DOTTORE { has_healed: true }, ..lookup(s, actor).unwrap() },
                );
                (set_player(s1, t, LupusPlayer { alive: true, ..lookup(s1, t).unwrap() }), ActionOutcome::Nothing)
            },
            LupusAction::GiveQuadro(t) => {
                let p = lookup(s, actor).unwrap();
                if has_key(s, actor) && current_role_of(p.role) matches LupusRole::DORIANGREY { has_quadro: false, .. } {
                    (s, ActionOutcome::Nothing)
                } else {
                    let given = with_current_role(p.role, LupusRole::DORIANGREY { has_quadro: true, given_to: Some(t) });
                    (set_player(s, actor, LupusPlayer { role: given, ..p }), ActionOutcome::Nothing)
                }
            },
            LupusAction::GuardShot(t) => {
                let p = lookup(s, actor).unwrap();
                if has_key(s, actor) && current_role_of(p.role) == (LupusRole::VIGILANTE { has_shot: true }) {
                    (s, ActionOutcome::Nothing)
                } else {
                    let s1 = if has_key(s, actor) && current_role_of(p.role) is VIGILANTE {
                        set_player(s, actor, LupusPlayer { role: with_current_role(p.role, LupusRole::VIGILANTE { has_shot: true }), ..p })
                    } else {
                        s
                    };
                    kill_report(kill_result(s1, t, KillKind::Guard))
                }
            },
            LupusAction::Kill(t) => kill_report(kill_result(s, t, KillKind::Night)),
            LupusAction::WolfVote(t) => kill_report(kill_result(s, t, KillKind::Night)),
            LupusAction::FrameAndKill(f, k) => kill_report(kill_result(framed_players(s, f), k, KillKind::Night)),
            LupusAction::Protect(t) => {
                let p = lookup(s, t).unwrap();
                match p.role {
                    LupusRole::BODYGUARD { self_protected: true } => (s, ActionOutcome::Nothing),
                    LupusRole::BODYGUARD { self_protected: false } => (
                        set_player(
                            s,
                            t,
                            LupusPlayer {
                                role: LupusRole::BODYGUARD { self_protected: true },
                                is_protected: true,
                                ..p
                            },
                        ),
                        ActionOutcome::Nothing,
                    ),
                    _ => (set_player(s, t, LupusPlayer { is_protected: true, ..p }), ActionOutcome::Nothing),
                }
            },
            LupusAction::RoleBlock(t) => (
                set_player(s, t, LupusPlayer { role_blocked: true, ..lookup(s, t).unwrap() }),
                ActionOutcome::Nothing,
            ),
            LupusAction::TrueSight(t) => (
                s,
                if has_key(s, t) {
                    ActionOutcome::Seen { target: t, nature: player_nature(lookup(s, t).unwrap()) }
                } else {
                    ActionOutcome::Nothing
                },
            ),
            LupusAction::Pass => (s, ActionOutcome::Nothing),
        }
    }
}

/// The seer looked at `target` and saw `nature`.
#[derive(Debug, Clone, Copy, PartialEq, Eq, Structural)]
pub struct Sighting {
    pub seer: u64,
    pub target: u64,
    pub nature: Nature,
}

/// What the night's actions produced: the ids the kills ended on, and the
/// seer's sightings, in the order the actions were resolved.
#[derive(Debug)]
pub struct NightReport {
    pub killed: Vec<u64>,
    pub sightings: Vec<Sighting>,
}

/// `x` is resolved before `y`: actions are ordered by rank, then by their
/// targets, then by the player who chose them, from the greatest down.
pub open spec fn resolves_before(x: (u64, LupusAction), y: (u64, LupusAction)) -> bool {
    let (rx, ry) = (action_rank(x.1), action_rank(y.1));
    let (fx, fy) = (action_first_target(x.1), action_first_target(y.1));
    let (sx, sy) = (action_second_target(x.1), action_second_target(y.1));
    rx > ry || (rx == ry && (fx > fy || (fx == fy && (sx > sy || (sx == sy && x.0 > y.0)))))
}

/// The position of the action resolved first (the first one among equals).
pub open spec fn first_resolved(b: Seq<(u64, LupusAction)>) -> int
    decreases b.len(),
{
    if b.len() <= 1 {
        0
    } else {
        let m = first_resolved(b.drop_last());
        if resolves_before(b.last(), b[m]) {
            b.len() - 1
        } else {
            m
        }
    }
}

pub proof fn lemma_first_resolved_in_range(b: Seq<(u64, LupusAction)>)
    requires
        b.len() > 0,
    ensures
        0 <= first_resolved(b) < b.len(),
    decreases b.len(),
{
    if b.len() > 1 {
        lemma_first_resolved_in_range(b.drop_last());
    }
}

pub open spec fn outcome_killed(o: ActionOutcome) -> Seq<u64> {
    match o {
        ActionOutcome::Killed(id) => seq![id],
        _ => Seq::empty(),
    }
}

pub open spec fn outcome_seen(actor: u64, o: ActionOutcome) -> Seq<Sighting> {
    match o {
        ActionOutcome::Seen { target, nature } => seq![Sighting { seer: actor, target, nature }],
        _ => Seq::empty(),
    }
}

/// The night: the chosen actions resolved one by one, always the one that
/// resolves first among those left.  The final players, the ids the kills
/// ended on, and the sightings.
pub open spec fn run_actions(s: Seq<(u64, LupusPlayer)>, b: Seq<(u64, LupusAction)>) -> (Seq<(u64, LupusPlayer)>, Seq<u64>, Seq<Sighting>)
    decreases b.len(),
{
    if b.len() == 0 {
        (s, Seq::empty(), Seq::empty())
    } else {
        let i = first_resolved(b);
        proof {
            lemma_first_resolved_in_range(b);
        }
        let e = b[i];
        let (s1, o) = action_outcome(s, e.0, e.1);
        let r = run_actions(s1, b.remove(i));
        (r.0, outcome_killed(o) + r.1, outcome_seen(e.0, o) + r.2)
    }
}

/// The wolves' votes among the actions, in order: who voted, and for whom.
pub open spec fn wolf_ballots(b: Seq<(u64, LupusAction)>) -> Seq<(u64, u64)>
    decreases b.len(),
{
    if b.len() == 0 {
        Seq::empty()
    } else {
        let r = wolf_ballots(b.drop_last());
        match b.last().1 {
            LupusAction::WolfVote(t) => r.push((b.last().0, t)),
            _ => r,
        }
    }
}

/// The actions other than the wolves' votes, in order.
pub open spec fn other_actions(b: Seq<(u64, LupusAction)>) -> Seq<(u64, LupusAction)>
    decreases b.len(),
{
    if b.len() == 0 {
        Seq::empty()
    } else {
        let r = other_actions(b.drop_last());
        match b.last().1 {
            LupusAction::WolfVote(_) => r,
            _ => r.push(b.last()),
        }
    }
}

/// How many of the ballots `bs` vote for `t`.
pub open spec fn votes_for(bs: Seq<(u64, u64)>, t: u64) -> nat
    decreases bs.len(),
{
    if bs.len() == 0 {
        0
    } else {
        votes_for(bs.drop_last(), t) + if bs.last().1 == t {
            1nat
        } else {
            0nat
        }
    }
}

/// The most votes in `bs` that a target of the ballots `ws` received.
pub open spec fn most_votes(bs: Seq<(u64, u64)>, ws: Seq<(u64, u64)>) -> nat
    decreases ws.len(),
{
    if ws.len() == 0 {
        0
    } else {
        let m = most_votes(bs, ws.drop_last());
        let c = votes_for(bs, ws.last().1);
        if c > m {
            c
        } else {
            m
        }
    }
}

/// The ballots of `ws` whose target received `m` votes in `bs`, in order.
pub open spec fn ballots_with(bs: Seq<(u64, u64)>, ws: Seq<(u64, u64)>, m: nat) -> Seq<(u64, u64)>
    decreases ws.len(),
{
    if ws.len() == 0 {
        Seq::empty()
    } else {
        let r = ballots_with(bs, ws.drop_last(), m);
        if votes_for(bs, ws.last().1) == m {
            r.push(ws.last())
        } else {
            r
        }
    }
}

/// The ballots for the targets with the most votes.  Each such target has
/// as many ballots here as any other, so a ballot drawn at random names one
/// of the tied targets, each with the same chance.
pub open spec fn top_ballots(bs: Seq<(u64, u64)>) -> Seq<(u64, u64)> {
    ballots_with(bs, bs, most_votes(bs, bs))
}

/// `draw` is a possible draw among the top ballots of the actions `b`
/// (zero when the wolves did not vote).
pub open spec fn valid_draw(b: Seq<(u64, LupusAction)>, draw: int) -> bool {
    let n = top_ballots(wolf_ballots(b)).len();
    if n == 0 {
        draw == 0
    } else {
        0 <= draw < n
    }
}

/// The night's actions once the wolves' votes are counted: the votes are
/// replaced by the single ballot `draw` among the top ballots, so that the
/// wolves attack only a player with the most votes.
pub open spec fn counted_actions(b: Seq<(u64, LupusAction)>, draw: int) -> Seq<(u64, LupusAction)> {
    let bs = wolf_ballots(b);
    if bs.len() == 0 {
        b
    } else {
        let e = top_ballots(bs)[draw];
        other_actions(b).push((e.0, LupusAction::WolfVote(e.1)))
    }
}

/// Some ballot always has the most votes: the top ballots of a non-empty
/// vote are not empty.
pub proof fn lemma_top_ballots_nonempty(bs: Seq<(u64, u64)>)
    requires
        bs.len() > 0,
    ensures
        top_ballots(bs).len() > 0,
{
    lemma_most_votes(bs, bs);
    lemma_ballots_with(bs, bs, most_votes(bs, bs));
    let j = choose|j: int| 0 <= j < bs.len() && votes_for(bs, #[trigger] bs[j].1) == most_votes(bs, bs);
    assert(top_ballots(bs).contains(bs[j]));
}

pub proof fn lemma_votes_for_bound(bs: Seq<(u64, u64)>, t: u64)
    ensures
        votes_for(bs, t) <= bs.len(),
    decreases bs.len(),
{
    if bs.len() > 0 {
        lemma_votes_for_bound(bs.drop_last(), t);
    }
}

/// No target of `ws` got more than `most_votes`, and some target of a
/// non-empty `ws` got exactly that many.
pub proof fn lemma_most_votes(bs: Seq<(u64, u64)>, ws: Seq<(u64, u64)>)
    ensures
        forall|j: int| 0 <= j < ws.len() ==> votes_for(bs, #[trigger] ws[j].1) <= most_votes(bs, ws),
        ws.len() > 0 ==> exists|j: int| 0 <= j < ws.len() && votes_for(bs, #[trigger] ws[j].1) == most_votes(bs, ws),
    decreases ws.len(),
{
    if ws.len() > 0 {
        let w0 = ws.drop_last();
        lemma_most_votes(bs, w0);
        assert forall|j: int| 0 <= j < ws.len() implies votes_for(bs, #[trigger] ws[j].1) <= most_votes(bs, ws) by {
            if j < ws.len() - 1 {
                assert(ws[j] == w0[j]);
            }
        }
        if votes_for(bs, ws.last().1) > most_votes(bs, w0) || w0.len() == 0 {
            assert(votes_for(bs, ws[ws.len() - 1].1) == most_votes(bs, ws));
        } else {
            let j = choose|j: int| 0 <= j < w0.len() && votes_for(bs, #[trigger] w0[j].1) == most_votes(bs, w0);
            assert(ws[j] == w0[j]);
        }
    }
}

/// The ballots kept are exactly those of `ws` whose target got `m` votes.
pub proof fn lemma_ballots_with(bs: Seq<(u64, u64)>, ws: Seq<(u64, u64)>, m: nat)
    ensures
        forall|k: int| 0 <= k < ballots_with(bs, ws, m).len() ==> votes_for(bs, #[trigger] ballots_with(bs, ws, m)[k].1) == m,
        forall|k: int| 0 <= k < ballots_with(bs, ws, m).len() ==> ws.contains(#[trigger] ballots_with(bs, ws, m)[k]),
        forall|j: int| 0 <= j < ws.len() && votes_for(bs, #[trigger] ws[j].1) == m ==> ballots_with(bs, ws, m).contains(ws[j]),
    decreases ws.len(),
{
    if ws.len() > 0 {
        let w0 = ws.drop_last();
        lemma_ballots_with(bs, w0, m);
        let r0 = ballots_with(bs, w0, m);
        let r = ballots_with(bs, ws, m);
        assert forall|k: int| 0 <= k < r.len() implies votes_for(bs, #[trigger] r[k].1) == m && ws.contains(r[k]) by {
            if k < r0.len() {
                assert(r[k] == r0[k]);
                let j = choose|j: int| 0 <= j < w0.len() && w0[j] == r0[k];
                assert(ws[j] == w0[j]);
            } else {
                assert(r[k] == ws[ws.len() - 1]);
            }
        }
        assert forall|j: int| 0 <= j < ws.len() && votes_for(bs, #[trigger] ws[j].1) == m implies r.contains(ws[j]) by {
            if j < ws.len() - 1 {
                assert(ws[j] == w0[j]);
                let k = choose|k: int| 0 <= k < r0.len() && r0[k] == w0[j];
                assert(r[k] == r0[k]);
            } else {
                assert(r[r.len() - 1] == ws[j]);
            }
        }
    }
}

/// The position of the first player for whom the filter `f` holds, or -1.
pub open spec fn first_player_where(s: Seq<(u64, LupusPlayer)>, f: PlayerFilter) -> int
    decreases s.len(),
{
    if s.len() == 0 {
        -1
    } else {
        let i = first_player_where(s.drop_last(), f);
        if i >= 0 {
            i
        } else if filter_holds(f, s.last().1) {
            s.len() - 1
        } else {
            -1
        }
    }
}

/// The players that some searches of a game look for.
#[derive(Debug, Clone, Copy, PartialEq, Eq, Structural)]
pub enum PlayerFilter {
    /// A living wolf or owl that leads the pack.
    AliveLeader,
    /// A living wolf that does not lead.
    AliveWolf,
    /// A living owl that does not lead.
    AliveOwl,
    /// A living medium.
    AliveMedium,
}

pub open spec fn filter_holds(f: PlayerFilter, p: LupusPlayer) -> bool {
    p.alive && match f {
        PlayerFilter::AliveLeader => p.role == LupusRole::WOLF { is_leader: true } || p.role
            == LupusRole::GUFO { is_leader: true },
        PlayerFilter::AliveWolf => p.role == LupusRole::WOLF { is_leader: false },
        PlayerFilter::AliveOwl => p.role == LupusRole::GUFO { is_leader: false },
        PlayerFilter::AliveMedium => p.role == LupusRole::MEDIUM,
    }
}

/// When no living player leads the pack, the first living wolf takes the
/// lead, or else the first living owl; the new leader, if any.
pub open spec fn reassigned(s: Seq<(u64, LupusPlayer)>) -> (Seq<(u64, LupusPlayer)>, Option<u64>) {
    let w = first_player_where(s, PlayerFilter::AliveWolf);
    let g = first_player_where(s, PlayerFilter::AliveOwl);
    if first_player_where(s, PlayerFilter::AliveLeader) >= 0 {
        (s, None)
    } else if w >= 0 {
        (s.update(w, (s[w].0, LupusPlayer { role: LupusRole::WOLF { is_leader: true }, ..s[w].1 })), Some(s[w].0))
    } else if g >= 0 {
        (s.update(g, (s[g].0, LupusPlayer { role: LupusRole::GUFO { is_leader: true }, ..s[g].1 })), Some(s[g].0))
    } else {
        (s, None)
    }
}

pub proof fn lemma_first_player_where_range(s: Seq<(u64, LupusPlayer)>, f: PlayerFilter)
    ensures
        -1 <= first_player_where(s, f) < s.len(),
        first_player_where(s, f) >= 0 ==> filter_holds(f, s[first_player_where(s, f)].1),
        first_player_where(s, f) >= 0 ==> forall|j: int| 0 <= j < first_player_where(s, f) ==> !filter_holds(f, #[trigger] s[j].1),
        first_player_where(s, f) < 0 ==> forall|j: int| 0 <= j < s.len() ==> !filter_holds(f, #[trigger] s[j].1),
    decreases s.len(),
{
    if s.len() > 0 {
        lemma_first_player_where_range(s.drop_last(), f);
        assert forall|j: int| 0 <= j < s.len() - 1 implies s.drop_last()[j] == #[trigger] s[j] by {}
    }
}

/// The ids of the wolves and owls, in order.
pub open spec fn pack_ids(s: Seq<(u64, LupusPlayer)>) -> Seq<u64>
    decreases s.len(),
{
    if s.len() == 0 {
        Seq::empty()
    } else if (s.last().1.role matches LupusRole::WOLF { .. }) || (s.last().1.role matches LupusRole::GUFO { .. }) {
        pack_ids(s.drop_last()).push(s.last().0)
    } else {
        pack_ids(s.drop_last())
    }
}

/// The players after the roles are dealt: the roles are taken from the end
/// of `roles`, the first player gets the last role, and players left when
/// the roles run out keep theirs.
pub open spec fn dealt(s: Seq<(u64, LupusPlayer)>, roles: Seq<LupusRole>) -> Seq<(u64, LupusPlayer)> {
    Seq::new(
        s.len(),
        |i: int|
            if i < roles.len() {
                (s[i].0, LupusPlayer { role: roles[roles.len() - 1 - i], ..s[i].1 })
            } else {
                s[i]
            },
    )
}

/// `k` has joined and is a vigilante who has not shot.
pub open spec fn is_ready_vigilante(s: Seq<(u64, LupusPlayer)>, k: u64) -> bool {
    match lookup(s, k) {
        Some(p) => p.role == LupusRole::VIGILANTE { has_shot: false },
        None => false,
    }
}

/// The first of `killed` who has joined and is a vigilante who has not shot.
pub open spec fn first_dying_vigilante(s: Seq<(u64, LupusPlayer)>, killed: Seq<u64>) -> Option<u64>
    decreases killed.len(),
{
    if killed.len() == 0 {
        None
    } else {
        match first_dying_vigilante(s, killed.drop_last()) {
            Some(v) => Some(v),
            None => if is_ready_vigilante(s, killed.last()) {
                Some(killed.last())
            } else {
                None
            },
        }
    }
}

/// The first living medium.
pub open spec fn medium_of(s: Seq<(u64, LupusPlayer)>) -> Option<u64> {
    if first_player_where(s, PlayerFilter::AliveMedium) >= 0 {
        Some(s[first_player_where(s, PlayerFilter::AliveMedium)].0)
    } else {
        None
    }
}

/// The id a vote kill ends on (a vote kill always ends on someone).
pub open spec fn vote_victim(s: Seq<(u64, LupusPlayer)>, target: u64) -> u64 {
    kill_result(s, target, KillKind::Vote).1->Ok_0
}

/// The village's vote never fails: it ends on a player, or on an id that
/// has not joined.
pub proof fn lemma_vote_kill_ends(s: Seq<(u64, LupusPlayer)>, target: u64, direct: bool, fuel: nat)
    ensures
        kill_chain(s, target, KillKind::Vote, direct, fuel).1 is Ok,
    decreases fuel,
{
    if has_key(s, target) {
        let i = key_index(s, target);
        let (p, r) = kill_outcome(s[i].1, KillKind::Vote, direct);
        match r {
            Err(KillError::DorianGray { target: next }) => {
                if fuel > 0 {
                    lemma_vote_kill_ends(s.update(i, (target, p)), next, false, (fuel - 1) as nat);
                }
            },
            _ => {},
        }
    }
}

/// What the village's vote did: the id the kill ended on, how the seer sees
/// that player now, and the first living medium, who learns it.
#[derive(Debug, Clone, Copy, PartialEq, Eq, Structural)]
pub struct VoteExecution {
    pub killed_id: u64,
    pub nature: Nature,
    pub medium: Option<u64>,
}

/// Splits the actions into the other actions and the wolves' ballots.
fn split_wolf_ballots(b: &Vec<(u64, LupusAction)>) -> (r: (Vec<(u64, LupusAction)>, Vec<(u64, u64)>))
    ensures
        r.0@ == other_actions(b@),
        r.1@ == wolf_ballots(b@),
{
    let mut others: Vec<(u64, LupusAction)> = Vec::new();
    let mut ballots: Vec<(u64, u64)> = Vec::new();
    let mut i: usize = 0;
    while i < b.len()
        invariant
            i <= b@.len(),
            others@ == other_actions(b@.take(i as int)),
            ballots@ == wolf_ballots(b@.take(i as int)),
        decreases b@.len() - i,
    {
        proof {
            assert(b@.take(i + 1).drop_last() =~= b@.take(i as int));
        }
        let (actor, action) = b[i];
        match action {
            LupusAction::WolfVote(t) => ballots.push((actor, t)),
            _ => others.push((actor, action)),
        }
        i = i + 1;
    }
    proof {
        assert(b@.take(i as int) =~= b@);
    }
    (others, ballots)
}

/// How many of the ballots vote for `t`.
fn count_votes_for(bs: &Vec<(u64, u64)>, t: u64) -> (r: u64)
    ensures
        r == votes_for(bs@, t),
{
    let mut n: u64 = 0;
    let mut i: usize = 0;
    while i < bs.len()
        invariant
            i <= bs@.len(),
            n == votes_for(bs@.take(i as int), t),
        decreases bs@.len() - i,
    {
        proof {
            assert(bs@.take(i + 1).drop_last() =~= bs@.take(i as int));
            lemma_votes_for_bound(bs@.take(i as int), t);
        }
        if bs[i].1 == t {
            n = n + 1;
        }
        i = i + 1;
    }
    proof {
        assert(bs@.take(i as int) =~= bs@);
    }
    n
}

/// The ballots for the targets with the most votes, in order.
fn top_ballots_of(bs: &Vec<(u64, u64)>) -> (r: Vec<(u64, u64)>)
    ensures
        r@ == top_ballots(bs@),
{
    let mut m: u64 = 0;
    let mut i: usize = 0;
    while i < bs.len()
        invariant
            i <= bs@.len(),
            m == most_votes(bs@, bs@.take(i as int)),
        decreases bs@.len() - i,
    {
        proof {
            assert(bs@.take(i + 1).drop_last() =~= bs@.take(i as int));
        }
        let c = count_votes_for(bs, bs[i].1);
        if c > m {
            m = c;
        }
        i = i + 1;
    }
    proof {
        assert(bs@.take(i as int) =~= bs@);
    }
    let mut r: Vec<(u64, u64)> = Vec::new();
    let mut j: usize = 0;
    while j < bs.len()
        invariant
            j <= bs@.len(),
            m == most_votes(bs@, bs@),
            r@ == ballots_with(bs@, bs@.take(j as int), m as nat),
        decreases bs@.len() - j,
    {
        proof {
            assert(bs@.take(j + 1).drop_last() =~= bs@.take(j as int));
        }
        if count_votes_for(bs, bs[j].1) == m {
            r.push(bs[j]);
        }
        j = j + 1;
    }
    proof {
        assert(bs@.take(j as int) =~= bs@);
    }
    r
}

/// The action of `b` that resolves first.
fn first_resolved_index(b: &Vec<(u64, LupusAction)>) -> (r: usize)
    requires
        b@.len() > 0,
    ensures
        r == first_resolved(b@),
        r < b@.len(),
{
    let mut m: usize = 0;
    let mut j: usize = 1;
    while j < b.len()
        invariant
            1 <= j <= b@.len(),
            m < j,
            m == first_resolved(b@.take(j as int)),
        decreases b@.len() - j,
    {
        proof {
            assert(b@.take(j + 1).drop_last() =~= b@.take(j as int));
        }
        if resolves_before_exec(&b[j], &b[m]) {
            m = j;
        }
        j = j + 1;
    }
    proof {
        assert(b@.take(j as int) =~= b@);
    }
    m
}

/// The rank and targets of an action.
fn action_key(a: &LupusAction) -> (r: (u64, u64, u64))
    ensures
        r.0 == action_rank(*a),
        r.1 == action_first_target(*a),
        r.2 == action_second_target(*a),
{
    match *a {
        LupusAction::Pass => (0, 0, 0),
        LupusAction::TrueSight(t) => (1, t, 0),
        LupusAction::Heal(t) => (2, t, 0),
        LupusAction::GuardShot(t) => (3, t, 0),
        LupusAction::WolfVote(t) => (4, t, 0),
        LupusAction::Kill(t) => (5, t, 0),
        LupusAction::FrameAndKill(f, k) => (6, f, k),
        LupusAction::Frame(t) => (7, t, 0),
        LupusAction::GiveQuadro(t) => (8, t, 0),
        LupusAction::Protect(t) => (9, t, 0),
        LupusAction::RoleBlock(t) => (10, t, 0),
    }
}

fn resolves_before_exec(x: &(u64, LupusAction), y: &(u64, LupusAction)) -> (r: bool)
    ensures
        r == resolves_before(*x, *y),
{
    let kx = action_key(&x.1);
    let ky = action_key(&y.1);
    kx.0 > ky.0 || (kx.0 == ky.0 && (kx.1 > ky.1 || (kx.1 == ky.1 && (kx.2 > ky.2 || (kx.2 == ky.2 && x.0 > y.0)))))
}

/// In a prefix that holds no match, a match at position `i` is the first.
proof fn lemma_first_player_where_prefix(s: Seq<(u64, LupusPlayer)>, f: PlayerFilter, i: int)
    requires
        0 <= i < s.len(),
        first_player_where(s.take(i), f) < 0,
        filter_holds(f, s[i].1),
    ensures
        first_player_where(s, f) == i,
    decreases s.len(),
{
    if i == s.len() - 1 {
        assert(s.drop_last() =~= s.take(i));
    } else {
        assert(s.drop_last().take(i) =~= s.take(i));
        lemma_first_player_where_prefix(s.drop_last(), f, i);
    }
}

proof fn lemma_first_dying_vigilante_prefix(s: Seq<(u64, LupusPlayer)>, killed: Seq<u64>, k: int)
    requires
        0 <= k < killed.len(),
        first_dying_vigilante(s, killed.take(k)) is None,
        is_ready_vigilante(s, killed[k]),
    ensures
        first_dying_vigilante(s, killed) == Some(killed[k]),
    decreases killed.len(),
{
    if k == killed.len() - 1 {
        assert(killed.drop_last() =~= killed.take(k));
    } else {
        assert(killed.drop_last().take(k) =~= killed.take(k));
        lemma_first_dying_vigilante_prefix(s, killed.drop_last(), k);
    }
}

impl LupusGame {
    /// The joined players, in the order they joined.
    pub closed spec fn players(&self) -> Seq<(u64, LupusPlayer)> {
        self.joined_players@
    }

    /// The night actions chosen so far, keyed by the player who chose them.
    pub closed spec fn actions(&self) -> Seq<(u64, LupusAction)> {
        self.action_buffer@
    }

    pub closed spec fn phase(&self) -> GamePhase {
        self.game_phase
    }

    /// No player joined twice and no player chose two actions.
    pub open spec fn wf(&self) -> bool {
        keys_distinct(self.players()) && keys_distinct(self.actions())
    }

    /// A new game: no players, no actions, the first night.
    pub fn new() -> (r: Self)
        ensures
            r.wf(),
            r.players() == Seq::<(u64, LupusPlayer)>::empty(),
            r.actions() == Seq::<(u64, LupusAction)>::empty(),
            r.phase() == GamePhase::FIRSTNIGHT,
    {
        Self { action_buffer: Vec::new(), joined_players: Vec::new(), game_phase: GamePhase::FIRSTNIGHT }
    }

    pub fn set_phase(&mut self, phase: GamePhase)
        ensures
            final(self).phase() == phase,
            final(self).players() == old(self).players(),
            final(self).actions() == old(self).actions(),
    {
        self.game_phase = phase
    }

    pub fn get_phase(&self) -> (r: &GamePhase)
        ensures
            *r == self.phase(),
    {
        &self.game_phase
    }

    pub fn is_phase(&self, phase: GamePhase) -> (r: bool)
        ensures
            r == (self.phase() == phase),
    {
        self.game_phase == phase
    }

    /// The joined players, in the order they joined.
    pub fn joined_players(&self) -> (r: &Vec<(u64, LupusPlayer)>)
        ensures
            r@ == self.players(),
    {
        &self.joined_players
    }

    pub fn get_player(&self, player_id: u64) -> (r: Option<&LupusPlayer>)
        requires
            self.wf(),
        ensures
            r is Some <==> has_key(self.players(), player_id),
            r matches Some(p) ==> *p == lookup(self.players(), player_id).unwrap(),
    {
        match find_key(&self.joined_players, player_id) {
            Some(i) => Some(&self.joined_players[i].1),
            None => None,
        }
    }

    /// The player `player_id`, to be changed in place.
    pub fn get_player_mut(&mut self, player_id: u64) -> (r: Option<&mut LupusPlayer>)
        requires
            old(self).wf(),
        ensures
            r is Some <==> has_key(old(self).players(), player_id),
            r matches Some(p) ==> *p == lookup(old(self).players(), player_id).unwrap()
                && final(self).players() == set_player(old(self).players(), player_id, *final(p)),
            r is None ==> final(self).players() == old(self).players(),
            final(self).actions() == old(self).actions(),
            final(self).phase() == old(self).phase(),
    {
        match find_key(&self.joined_players, player_id) {
            Some(i) => Some(&mut self.joined_players[i].1),
            None => None,
        }
    }

    /// Binds `player_id` to `player`: a player who has joined is replaced,
    /// a new one is added at the end.
    pub fn insert_player(&mut self, player_id: u64, player: LupusPlayer)
        requires
            old(self).wf(),
        ensures
            final(self).wf(),
            final(self).players() == insert_key(old(self).players(), player_id, player),
            final(self).actions() == old(self).actions(),
            final(self).phase() == old(self).phase(),
    {
        proof {
            lemma_insert_key(self.joined_players@, player_id, player);
        }
        match find_key(&self.joined_players, player_id) {
            Some(i) => self.joined_players.set(i, (player_id, player)),
            None => self.joined_players.push((player_id, player)),
        }
    }

    /// Removes `player_id` from the game, if they joined.
    pub fn remove_player(&mut self, player_id: u64)
        requires
            old(self).wf(),
        ensures
            final(self).wf(),
            final(self).players() == remove_key(old(self).players(), player_id),
            final(self).actions() == old(self).actions(),
            final(self).phase() == old(self).phase(),
    {
        proof {
            lemma_remove_key(self.joined_players@, player_id);
        }
        match find_key(&self.joined_players, player_id) {
            Some(i) => {
                self.joined_players.remove(i);
            },
            None => {},
        }
    }

    /// Replaces the player at position `i`, keeping the id.
    fn replace_at(&mut self, i: usize, p: LupusPlayer)
        requires
            old(self).wf(),
            i < old(self).players().len(),
        ensures
            final(self).wf(),
            final(self).players() == old(self).players().update(i as int, (old(self).players()[i as int].0, p)),
            final(self).actions() == old(self).actions(),
            final(self).phase() == old(self).phase(),
    {
        proof {
            lemma_update_value(self.joined_players@, i as int, p);
        }
        let id = self.joined_players[i].0;
        self.joined_players.set(i, (id, p));
    }

    /// A kill of `kind` aimed at `uid`, followed along Dorian Grey's pictures.
    pub fn generic_kill_loop(&mut self, uid: u64, kind: KillKind) -> (r: Result<u64, KillError>)
        requires
            old(self).wf(),
        ensures
            final(self).wf(),
            (final(self).players(), r) == kill_result(old(self).players(), uid, kind),
            final(self).actions() == old(self).actions(),
            final(self).phase() == old(self).phase(),
    {
        let mut target_id = uid;
        let mut direct = true;
        loop
            invariant
                self.wf(),
                kill_from(self.players(), target_id, kind, direct) == kill_result(old(self).players(), uid, kind),
                self.actions() == old(self).actions(),
                self.phase() == old(self).phase(),
            decreases armed_count(self.players()),
        {
            match find_key(&self.joined_players, target_id) {
                None => {
                    return Ok(target_id);
                },
                Some(i) => {
                    let mut player = self.joined_players[i].1.clone();
                    let res = player.hit(kind, direct);
                    let ghost before = self.players();
                    self.replace_at(i, player);
                    match res {
                        Err(KillError::DorianGray { target }) => {
                            proof {
                                lemma_redirect_disarms(before, i as int, kind, direct);
                                lemma_kill_chain_fuel(self.players(), target, kind, false, (armed_count(before) - 1) as nat);
                            }
                            target_id = target;
                            direct = false;
                        },
                        Err(e) => {
                            return Err(e);
                        },
                        Ok(()) => {
                            return Ok(target_id);
                        },
                    }
                },
            }
        }
    }

    /// A night kill aimed at `uid`.
    pub fn kill_loop(&mut self, uid: u64) -> (r: Result<u64, KillError>)
        requires
            old(self).wf(),
        ensures
            final(self).wf(),
            (final(self).players(), r) == kill_result(old(self).players(), uid, KillKind::Night),
            final(self).actions() == old(self).actions(),
            final(self).phase() == old(self).phase(),
    {
        self.generic_kill_loop(uid, KillKind::Night)
    }

    /// The vigilante's shot aimed at `uid`.
    pub fn guard_kill_loop(&mut self, uid: u64) -> (r: Result<u64, KillError>)
        requires
            old(self).wf(),
        ensures
            final(self).wf(),
            (final(self).players(), r) == kill_result(old(self).players(), uid, KillKind::Guard),
            final(self).actions() == old(self).actions(),
            final(self).phase() == old(self).phase(),
    {
        self.generic_kill_loop(uid, KillKind::Guard)
    }

    /// The village's vote against `uid`.
    pub fn vote_kill_loop(&mut self, uid: u64) -> (r: Result<u64, KillError>)
        requires
            old(self).wf(),
        ensures
            final(self).wf(),
            (final(self).players(), r) == kill_result(old(self).players(), uid, KillKind::Vote),
            final(self).actions() == old(self).actions(),
            final(self).phase() == old(self).phase(),
    {
        self.generic_kill_loop(uid, KillKind::Vote)
    }

    /// Frames `t`, if they joined.
    fn frame_player(&mut self, t: u64)
        requires
            old(self).wf(),
        ensures
            final(self).wf(),
            final(self).players() == framed_players(old(self).players(), t),
            final(self).actions() == old(self).actions(),
            final(self).phase() == old(self).phase(),
    {
        if let Some(i) = find_key(&self.joined_players, t) {
            let mut p = self.joined_players[i].1.clone();
            p.framed = true;
            self.replace_at(i, p);
        }
    }

    /// Resolves the night action `action` chosen by `actor`.
    pub fn process_action(&mut self, actor: u64, action: LupusAction) -> (r: ActionOutcome)
        requires
            old(self).wf(),
        ensures
            final(self).wf(),
            (final(self).players(), r) == action_outcome(old(self).players(), actor, action),
            final(self).actions() == old(self).actions(),
            final(self).phase() == old(self).phase(),
    {
        // An action of a player whose role is blocked does nothing.
        if let Some(i) = find_key(&self.joined_players, actor) {
            if self.joined_players[i].1.role_blocked {
                return ActionOutcome::Nothing;
            }
        }
        match action {
            LupusAction::Frame(user_id) => {
                self.frame_player(user_id);
                ActionOutcome::Nothing
            },
            LupusAction::Heal(user_id) => {
                if let Some(i) = find_key(&self.joined_players, actor) {
                    let mut p = self.joined_players[i].1.clone();
                    p.role = LupusRole::DOTTORE { has_healed: true };
                    self.replace_at(i, p);
                }
                if let Some(i) = find_key(&self.joined_players, user_id) {
                    let mut p = self.joined_players[i].1.clone();
                    p.alive = true;
                    self.replace_at(i, p);
                }
                ActionOutcome::Nothing
            },
            LupusAction::GiveQuadro(target_id) => {
                if let Some(i) = find_key(&self.joined_players, actor) {
                    let mut p = self.joined_players[i].1.clone();
                    if let LupusRole::DORIANGREY { has_quadro: false, .. } = p.current_role() {
                        return ActionOutcome::Nothing;
                    }
                    p.set_current_role(LupusRole::DORIANGREY { has_quadro: true, given_to: Some(target_id) });
                    self.replace_at(i, p);
                }
                ActionOutcome::Nothing
            },
            LupusAction::GuardShot(user_id) => {
                if let Some(i) = find_key(&self.joined_players, actor) {
                    let mut p = self.joined_players[i].1.clone();
                    match p.current_role() {
                        LupusRole::VIGILANTE { has_shot: true } => {
                            return ActionOutcome::Nothing;
                        },
                        LupusRole::VIGILANTE { has_shot: false } => {
                            p.set_current_role(LupusRole::VIGILANTE { has_shot: true });
                            self.replace_at(i, p);
                        },
                        _ => {},
                    }
                }
                match self.guard_kill_loop(user_id) {
                    Ok(id) => ActionOutcome::Killed(id),
                    Err(_) => ActionOutcome::Nothing,
                }
            },
            LupusAction::Kill(user_id) | LupusAction::WolfVote(user_id) => match self.kill_loop(user_id) {
                Ok(id) => ActionOutcome::Killed(id),
                Err(_) => ActionOutcome::Nothing,
            },
            LupusAction::FrameAndKill(frame_id, kill_id) => {
                self.frame_player(frame_id);
                match self.kill_loop(kill_id) {
                    Ok(id) => ActionOutcome::Killed(id),
                    Err(_) => ActionOutcome::Nothing,
                }
            },
            LupusAction::Protect(user_id) => {
                if let Some(i) = find_key(&self.joined_players, user_id) {
                    let mut p = self.joined_players[i].1.clone();
                    if let LupusRole::BODYGUARD { self_protected } = p.role {
                        if self_protected {
                            return ActionOutcome::Nothing;
                        }
                        p.role = LupusRole::BODYGUARD { self_protected: true };
                    }
                    p.is_protected = true;
                    self.replace_at(i, p);
                }
                ActionOutcome::Nothing
            },
            LupusAction::RoleBlock(user_id) => {
                if let Some(i) = find_key(&self.joined_players, user_id) {
                    let mut p = self.joined_players[i].1.clone();
                    p.role_blocked = true;
                    self.replace_at(i, p);
                }
                ActionOutcome::Nothing
            },
            LupusAction::TrueSight(user_id) => match find_key(&self.joined_players, user_id) {
                Some(i) => ActionOutcome::Seen { target: user_id, nature: self.joined_players[i].1.get_nature() },
                None => ActionOutcome::Nothing,
            },
            LupusAction::Pass => ActionOutcome::Nothing,
        }
    }
    /// The actions of `buffer` resolved one by one, in the order of
    /// `resolves_before`.
    fn resolve_actions(&mut self, buffer: Vec<(u64, LupusAction)>) -> (r: NightReport)
        requires
            old(self).wf(),
        ensures
            final(self).wf(),
            final(self).players() == run_actions(old(self).players(), buffer@).0,
            r.killed@ == run_actions(old(self).players(), buffer@).1,
            r.sightings@ == run_actions(old(self).players(), buffer@).2,
            final(self).actions() == old(self).actions(),
            final(self).phase() == old(self).phase(),
    {
        let mut buffer = buffer;
        let mut killed: Vec<u64> = Vec::new();
        let mut sightings: Vec<Sighting> = Vec::new();
        let ghost total = run_actions(old(self).players(), buffer@);
        while buffer.len() > 0
            invariant
                self.wf(),
                self.actions() == old(self).actions(),
                self.phase() == old(self).phase(),
                total.0 == run_actions(self.players(), buffer@).0,
                total.1 == killed@ + run_actions(self.players(), buffer@).1,
                total.2 == sightings@ + run_actions(self.players(), buffer@).2,
            decreases buffer.len(),
        {
            let ghost before_players = self.players();
            let ghost before_buffer = buffer@;
            let i = first_resolved_index(&buffer);
            let (actor, action) = buffer.remove(i);
            let out = self.process_action(actor, action);
            let ghost rest = run_actions(self.players(), buffer@);
            proof {
                assert(run_actions(before_players, before_buffer).1 == outcome_killed(out) + rest.1);
                assert(run_actions(before_players, before_buffer).2 == outcome_seen(actor, out) + rest.2);
            }
            match out {
                ActionOutcome::Killed(id) => {
                    killed.push(id);
                },
                ActionOutcome::Seen { target, nature } => {
                    sightings.push(Sighting { seer: actor, target, nature });
                },
                ActionOutcome::Nothing => {},
            }
            proof {
                assert(total.1 =~= killed@ + rest.1);
                assert(total.2 =~= sightings@ + rest.2);
            }
        }
        NightReport { killed, sightings }
    }

    /// How many ballots the wolves' victim is drawn from: the ballots for
    /// the players with the most wolves' votes (none when no wolf voted).
    pub fn wolf_draw_size(&self) -> (r: usize)
        ensures
            r == top_ballots(wolf_ballots(self.actions())).len(),
    {
        let (_, ballots) = split_wolf_ballots(&self.action_buffer);
        top_ballots_of(&ballots).len()
    }

    /// The night, with the wolves' votes counted and `draw` naming the ballot
    /// drawn among those for the most voted players: the counted actions are
    /// resolved in the order of `resolves_before`, and the actions are cleared.
    pub fn process_counted_actions(&mut self, draw: usize) -> (r: NightReport)
        requires
            old(self).wf(),
            valid_draw(old(self).actions(), draw as int),
        ensures
            final(self).wf(),
            ({
                let night = run_actions(old(self).players(), counted_actions(old(self).actions(), draw as int));
                &&& final(self).players() == night.0
                &&& r.killed@ == night.1
                &&& r.sightings@ == night.2
            }),
            final(self).actions() == Seq::<(u64, LupusAction)>::empty(),
            final(self).phase() == old(self).phase(),
    {
        let mut buffer: Vec<(u64, LupusAction)> = Vec::new();
        std::mem::swap(&mut buffer, &mut self.action_buffer);
        let (mut others, ballots) = split_wolf_ballots(&buffer);
        let counted = if ballots.len() == 0 {
            buffer
        } else {
            let top = top_ballots_of(&ballots);
            proof {
                lemma_top_ballots_nonempty(ballots@);
            }
            let (voter, target) = top[draw];
            others.push((voter, LupusAction::WolfVote(target)));
            others
        };
        self.resolve_actions(counted)
    }

    /// The night: the wolves' votes are counted and the wolves attack a
    /// player with the most votes (on a tie, one of the tied players at
    /// random); every action is then resolved in the order of
    /// `resolves_before`, and the actions are cleared.  Which tied player is
    /// attacked is left to chance.
    pub fn process_actions(&mut self) -> (r: NightReport)
        requires
            old(self).wf(),
        ensures
            final(self).wf(),
            exists|draw: int| #[trigger] valid_draw(old(self).actions(), draw) && {
                let night = run_actions(old(self).players(), counted_actions(old(self).actions(), draw));
                &&& final(self).players() == night.0
                &&& r.killed@ == night.1
                &&& r.sightings@ == night.2
            },
            final(self).actions() == Seq::<(u64, LupusAction)>::empty(),
            final(self).phase() == old(self).phase(),
    {
        let n = self.wolf_draw_size();
        let draw = if n > 1 {
            let mut rng = thread_rng();
            gen_range_inclusive(&mut rng, 0, n - 1)
        } else {
            0
        };
        assert(valid_draw(self.actions(), draw as int));
        self.process_counted_actions(draw)
    }

    /// Records the night action of `user_id` (replacing an earlier one);
    /// true when every player whose role has a night action in this phase
    /// has now chosen one.
    pub fn push_night_action(&mut self, user_id: u64, cmd: LupusAction) -> (night_over: bool)
        requires
            old(self).wf(),
        ensures
            final(self).wf(),
            final(self).actions() == insert_key(old(self).actions(), user_id, cmd),
            final(self).players() == old(self).players(),
            final(self).phase() == old(self).phase(),
            night_over == night_complete(final(self).players(), final(self).actions(), final(self).phase()),
    {
        proof {
            lemma_insert_key(self.action_buffer@, user_id, cmd);
        }
        match find_key(&self.action_buffer, user_id) {
            Some(i) => self.action_buffer.set(i, (user_id, cmd)),
            None => self.action_buffer.push((user_id, cmd)),
        }
        let mut i: usize = 0;
        while i < self.joined_players.len()
            invariant
                self.wf(),
                i <= self.players().len(),
                self.actions() == insert_key(old(self).actions(), user_id, cmd),
                self.players() == old(self).players(),
                self.phase() == old(self).phase(),
                forall|j: int| 0 <= j < i && role_can_action(#[trigger] self.players()[j].1.role, self.phase()) ==> has_key(self.actions(), self.players()[j].0),
            decreases self.players().len() - i,
        {
            if self.joined_players[i].1.role.can_action(&self.game_phase) {
                if find_key(&self.action_buffer, self.joined_players[i].0).is_none() {
                    return false;
                }
            }
            i = i + 1;
        }
        true
    }

    /// Whether the game is over: at most one player alive, or no living
    /// player who plays for the village.
    pub fn check_if_ended(&self) -> (r: bool)
        ensures
            r == game_is_over(self.players()),
    {
        let mut alive: usize = 0;
        let mut good: usize = 0;
        let mut i: usize = 0;
        while i < self.joined_players.len()
            invariant
                i <= self.players().len(),
                alive == alive_ids(self.players().take(i as int)).len(),
                good == good_alive_count(self.players().take(i as int)),
            decreases self.players().len() - i,
        {
            proof {
                assert(self.players().take(i + 1).drop_last() =~= self.players().take(i as int));
                lemma_alive_ids_len(self.players().take(i as int));
            }
            if self.joined_players[i].1.alive {
                alive = alive + 1;
                if self.joined_players[i].1.role.is_actually_good() {
                    good = good + 1;
                }
            }
            i = i + 1;
        }
        proof {
            assert(self.players().take(i as int) =~= self.players());
        }
        alive <= 1 || good == 0
    }

    /// What follows the village's vote: the end of the game, or the end of the day.
    pub fn day_end(&self) -> (r: GameMessage)
        ensures
            r == if game_is_over(self.players()) {
                GameMessage::GAMEEND
            } else {
                GameMessage::HANDLEDAY
            },
    {
        if self.check_if_ended() {
            GameMessage::GAMEEND
        } else {
            GameMessage::HANDLEDAY
        }
    }

    /// The ids of the living players, in order.
    pub fn get_alive_players(&self) -> (r: Vec<u64>)
        ensures
            r@ == alive_ids(self.players()),
    {
        let mut r: Vec<u64> = Vec::new();
        let mut i: usize = 0;
        while i < self.joined_players.len()
            invariant
                i <= self.players().len(),
                r@ == alive_ids(self.players().take(i as int)),
            decreases self.players().len() - i,
        {
            proof {
                assert(self.players().take(i + 1).drop_last() =~= self.players().take(i as int));
            }
            if self.joined_players[i].1.alive {
                r.push(self.joined_players[i].0);
            }
            i = i + 1;
        }
        proof {
            assert(self.players().take(i as int) =~= self.players());
        }
        r
    }

    /// How many players are alive.
    pub fn get_alive_players_count(&self) -> (r: u32)
        requires
            alive_ids(self.players()).len() <= u32::MAX,
        ensures
            r == alive_ids(self.players()).len(),
    {
        let alive = self.get_alive_players();
        alive.len() as u32
    }

    /// Resets what lasts one night only, for every player.
    pub fn cleanup(&mut self)
        requires
            old(self).wf(),
        ensures
            final(self).wf(),
            final(self).players() == cleaned_players(old(self).players()),
            final(self).actions() == old(self).actions(),
            final(self).phase() == old(self).phase(),
    {
        let mut i: usize = 0;
        while i < self.joined_players.len()
            invariant
                self.wf(),
                i <= self.players().len(),
                self.players().len() == old(self).players().len(),
                forall|j: int| 0 <= j < i ==> #[trigger] self.players()[j] == (old(self).players()[j].0, cleaned(old(self).players()[j].1)),
                forall|j: int| i <= j < self.players().len() ==> #[trigger] self.players()[j] == old(self).players()[j],
                self.actions() == old(self).actions(),
                self.phase() == old(self).phase(),
            decreases self.players().len() - i,
        {
            let mut p = self.joined_players[i].1.clone();
            p.cleanup();
            self.replace_at(i, p);
            i = i + 1;
        }
        proof {
            assert(self.players() =~= cleaned_players(old(self).players()));
        }
    }

    /// The position of the first player for whom `f` holds.
    fn find_player_where(&self, f: PlayerFilter) -> (r: Option<usize>)
        ensures
            r is Some <==> first_player_where(self.players(), f) >= 0,
            r matches Some(i) ==> i == first_player_where(self.players(), f) && i < self.players().len(),
    {
        let mut i: usize = 0;
        while i < self.joined_players.len()
            invariant
                i <= self.players().len(),
                first_player_where(self.players().take(i as int), f) < 0,
            decreases self.players().len() - i,
        {
            proof {
                assert(self.players().take(i + 1).drop_last() =~= self.players().take(i as int));
            }
            let p = &self.joined_players[i].1;
            let holds = p.alive && match f {
                PlayerFilter::AliveLeader => match p.role {
                    LupusRole::WOLF { is_leader: true } | LupusRole::GUFO { is_leader: true } => true,
                    _ => false,
                },
                PlayerFilter::AliveWolf => match p.role {
                    LupusRole::WOLF { is_leader: false } => true,
                    _ => false,
                },
                PlayerFilter::AliveOwl => match p.role {
                    LupusRole::GUFO { is_leader: false } => true,
                    _ => false,
                },
                PlayerFilter::AliveMedium => match p.role {
                    LupusRole::MEDIUM => true,
                    _ => false,
                },
            };
            if holds {
                proof {
                    lemma_first_player_where_prefix(self.players(), f, i as int);
                }
                return Some(i);
            }
            i = i + 1;
        }
        proof {
            assert(self.players().take(i as int) =~= self.players());
        }
        None
    }

    /// When no living player leads the pack, the first living wolf takes the
    /// lead, or else the first living owl; returns the new leader.
    pub fn reassign_wolf_if_master_is_dead(&mut self) -> (r: Option<u64>)
        requires
            old(self).wf(),
        ensures
            final(self).wf(),
            (final(self).players(), r) == reassigned(old(self).players()),
            final(self).actions() == old(self).actions(),
            final(self).phase() == old(self).phase(),
    {
        proof {
            lemma_first_player_where_range(self.players(), PlayerFilter::AliveWolf);
            lemma_first_player_where_range(self.players(), PlayerFilter::AliveOwl);
        }
        if self.find_player_where(PlayerFilter::AliveLeader).is_some() {
            return None;
        }
        if let Some(i) = self.find_player_where(PlayerFilter::AliveWolf) {
            let mut p = self.joined_players[i].1.clone();
            p.role = LupusRole::WOLF { is_leader: true };
            let id = self.joined_players[i].0;
            self.replace_at(i, p);
            return Some(id);
        }
        if let Some(i) = self.find_player_where(PlayerFilter::AliveOwl) {
            let mut p = self.joined_players[i].1.clone();
            p.role = LupusRole::GUFO { is_leader: true };
            let id = self.joined_players[i].0;
            self.replace_at(i, p);
            return Some(id);
        }
        None
    }

    /// The first living medium.
    pub fn alive_medium(&self) -> (r: Option<u64>)
        ensures
            r == medium_of(self.players()),
    {
        match self.find_player_where(PlayerFilter::AliveMedium) {
            Some(i) => Some(self.joined_players[i].0),
            None => None,
        }
    }
    /// The ids of the wolves and owls, in order.
    pub fn wolves(&self) -> (r: Vec<u64>)
        ensures
            r@ == pack_ids(self.players()),
    {
        let mut r: Vec<u64> = Vec::new();
        let mut i: usize = 0;
        while i < self.joined_players.len()
            invariant
                i <= self.players().len(),
                r@ == pack_ids(self.players().take(i as int)),
            decreases self.players().len() - i,
        {
            proof {
                assert(self.players().take(i + 1).drop_last() =~= self.players().take(i as int));
            }
            match self.joined_players[i].1.role {
                LupusRole::WOLF { .. } | LupusRole::GUFO { .. } => r.push(self.joined_players[i].0),
                _ => {},
            }
            i = i + 1;
        }
        proof {
            assert(self.players().take(i as int) =~= self.players());
        }
        r
    }

    /// Deals `roles`: each player in turn takes the last role left, until
    /// the roles run out.
    pub fn assign_roles(&mut self, roles: Vec<LupusRole>)
        requires
            old(self).wf(),
        ensures
            final(self).wf(),
            final(self).players() == dealt(old(self).players(), roles@),
            final(self).actions() == old(self).actions(),
            final(self).phase() == old(self).phase(),
    {
        let mut roles = roles;
        let ghost all = roles@;
        let mut i: usize = 0;
        while i < self.joined_players.len()
            invariant
                self.wf(),
                i <= self.players().len(),
                self.players().len() == old(self).players().len(),
                roles@.len() == if i <= all.len() { all.len() - i } else { 0 },
                roles@ == all.take(roles@.len() as int),
                forall|j: int| 0 <= j < i ==> #[trigger] self.players()[j] == dealt(old(self).players(), all)[j],
                forall|j: int| i <= j < self.players().len() ==> #[trigger] self.players()[j] == old(self).players()[j],
                self.actions() == old(self).actions(),
                self.phase() == old(self).phase(),
            decreases self.players().len() - i,
        {
            if let Some(role) = roles.pop() {
                let mut p = self.joined_players[i].1.clone();
                p.role = role;
                self.replace_at(i, p);
            }
            proof {
                assert(roles@ =~= all.take(roles@.len() as int));
            }
            i = i + 1;
        }
        proof {
            assert(self.players() =~= dealt(old(self).players(), all));
        }
    }

    /// Whether the game has started: the roles have been dealt.
    pub fn has_started(&self) -> (r: bool)
        ensures
            r == roles_dealt(self.players()),
    {
        let mut i: usize = 0;
        while i < self.joined_players.len()
            invariant
                i <= self.players().len(),
                forall|j: int| 0 <= j < i ==> #[trigger] self.players()[j].1.role == LupusRole::NOTASSIGNED,
            decreases self.players().len() - i,
        {
            if !matches!(self.joined_players[i].1.role, LupusRole::NOTASSIGNED) {
                assert(self.players()[i as int].1.role != LupusRole::NOTASSIGNED);
                return true;
            }
            i = i + 1;
        }
        false
    }

    /// The first of `killed` who is a vigilante who has not shot: they get
    /// to shoot before dying.
    pub fn dying_vigilante(&self, killed: &Vec<u64>) -> (r: Option<u64>)
        requires
            self.wf(),
        ensures
            r == first_dying_vigilante(self.players(), killed@),
    {
        let mut k: usize = 0;
        while k < killed.len()
            invariant
                self.wf(),
                k <= killed@.len(),
                first_dying_vigilante(self.players(), killed@.take(k as int)) is None,
            decreases killed@.len() - k,
        {
            proof {
                assert(killed@.take(k + 1).drop_last() =~= killed@.take(k as int));
            }
            if let Some(p) = self.get_player(killed[k]) {
                if let LupusRole::VIGILANTE { has_shot: false } = p.role {
                    proof {
                        lemma_first_dying_vigilante_prefix(self.players(), killed@, k as int);
                    }
                    return Some(killed[k]);
                }
            }
            k = k + 1;
        }
        proof {
            assert(killed@.take(k as int) =~= killed@);
        }
        None
    }

    /// The village's vote against `target`: the kill, how the seer sees the
    /// player it ended on, and the living medium who learns it.  Fails when
    /// the kill ends on an id that has not joined.
    pub fn execute_vote(&mut self, target: u64) -> (r: Result<VoteExecution, MyError>)
        requires
            old(self).wf(),
        ensures
            final(self).wf(),
            final(self).players() == kill_result(old(self).players(), target, KillKind::Vote).0,
            final(self).actions() == old(self).actions(),
            final(self).phase() == old(self).phase(),
            r is Err <==> !has_key(final(self).players(), vote_victim(old(self).players(), target)),
            r matches Ok(v) ==> v == (VoteExecution {
                killed_id: vote_victim(old(self).players(), target),
                nature: player_nature(lookup(final(self).players(), vote_victim(old(self).players(), target)).unwrap()),
                medium: medium_of(final(self).players()),
            }),
    {
        proof {
            lemma_vote_kill_ends(self.players(), target, true, armed_count(self.players()));
        }
        let killed_id = match self.vote_kill_loop(target) {
            Ok(id) => id,
            Err(_) => {
                return Err(MyError);
            },
        };
        let nature = match self.get_player(killed_id) {
            Some(p) => p.get_nature(),
            None => {
                return Err(MyError);
            },
        };
        let medium = self.alive_medium();
        Ok(VoteExecution { killed_id, nature, medium })
    }
}

} // verus!
