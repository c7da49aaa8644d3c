//! The manager of all games: which guild plays which game, which guild each
//! user plays in, and each user's tag.
use vstd::prelude::*;

use crate::commands::{command_action, command_allows, frame_and_kill_allowed, ActionCommand};
use crate::error::MyError;
use crate::game::{
    alive_ids, cleaned_players, counted_actions, dealt, roles_dealt, valid_draw, first_dying_vigilante, game_is_over, kill_result, lemma_set_player_keys,
    night_complete, reassigned, run_actions, set_player, GamePhase, LupusGame, Sighting, VoteExecution,
    vote_victim, medium_of,
};
use crate::player::{player_nature, KillKind};
use crate::roles_per_players::{get_roles, roles_for};
use crate::votes::{plurality, plurality_of, Plurality, VoteResult};
use crate::keyed::{
    find_key, has_key, insert_key, key_index, keys_distinct, lemma_insert_key, lemma_key_index_unique,
    lemma_remove_key, lemma_update_value, lookup, remove_key,
};
use crate::player::{current_role_of, fresh_player, with_current_role, LupusPlayer};
use crate::roles::{role_can_action, LupusAction, LupusRole};

verus! {

/// The messages a game sends to the loop that drives it.
#[derive(Debug, Clone, Copy, PartialEq, Eq, Structural)]
pub enum GameMessage {
    /// Every player with a night action has chosen: resolve the night.
    HANDLENIGHT,
    /// The village's vote is over: the day ends.
    HANDLEDAY,
    /// The night is over: the village votes.
    HANDLEVOTATION,
    /// The game is over.
    GAMEEND,
}

/// A user's tag (name and discriminator), by which players name each other.
#[derive(Debug)]
pub struct Tag(pub String);

impl Clone for Tag {
    fn clone(&self) -> (r: Self)
        ensures
            r == *self,
    {
        Tag(self.0.clone())
    }
}

/// No tag occurs twice.
pub open spec fn tags_distinct(s: Seq<(Tag, u64)>) -> bool {
    forall|i: int, j: int| 0 <= i < s.len() && 0 <= j < s.len() && i != j ==> s[i].0.0@ != s[j].0.0@
}

pub open spec fn has_tag(s: Seq<(Tag, u64)>, t: Seq<char>) -> bool {
    exists|i: int| 0 <= i < s.len() && s[i].0.0@ == t
}

pub open spec fn tag_index(s: Seq<(Tag, u64)>, t: Seq<char>) -> int {
    choose|i: int| 0 <= i < s.len() && s[i].0.0@ == t
}

/// The user who has the tag `t`.
pub open spec fn tag_owner(s: Seq<(Tag, u64)>, t: Seq<char>) -> Option<u64> {
    if has_tag(s, t) {
        Some(s[tag_index(s, t)].1)
    } else {
        None
    }
}

/// The tags after `tag` is given to `uid`: a known tag keeps its entry and
/// changes owner, a new tag is appended.
pub open spec fn insert_tag(s: Seq<(Tag, u64)>, tag: Tag, uid: u64) -> Seq<(Tag, u64)> {
    if has_tag(s, tag.0@) {
        s.update(tag_index(s, tag.0@), (s[tag_index(s, tag.0@)].0, uid))
    } else {
        s.push((tag, uid))
    }
}

/// The position of the first tag of `uid`, or -1.
pub open spec fn first_tag_of(s: Seq<(Tag, u64)>, uid: u64) -> int
    decreases s.len(),
{
    if s.len() == 0 {
        -1
    } else {
        let i = first_tag_of(s.drop_last(), uid);
        if i >= 0 {
            i
        } else if s.last().1 == uid {
            s.len() - 1
        } else {
            -1
        }
    }
}

/// The first tags of the users `ids`, in order, leaving out users without one.
pub open spec fn alive_tags(ids: Seq<u64>, tags: Seq<(Tag, u64)>) -> Seq<Tag>
    decreases ids.len(),
{
    if ids.len() == 0 {
        Seq::empty()
    } else if first_tag_of(tags, ids.last()) >= 0 {
        alive_tags(ids.drop_last(), tags).push(tags[first_tag_of(tags, ids.last())].0)
    } else {
        alive_tags(ids.drop_last(), tags)
    }
}

pub proof fn lemma_tag_index_unique(s: Seq<(Tag, u64)>, i: int)
    requires
        tags_distinct(s),
        0 <= i < s.len(),
    ensures
        has_tag(s, s[i].0.0@),
        tag_index(s, s[i].0.0@) == i,
{
    assert(0 <= i < s.len() && s[i].0.0@ == s[i].0.0@);
}

pub proof fn lemma_insert_tag(s: Seq<(Tag, u64)>, tag: Tag, uid: u64)
    requires
        tags_distinct(s),
    ensures
        tags_distinct(insert_tag(s, tag, uid)),
        tag_owner(insert_tag(s, tag, uid), tag.0@) == Some(uid),
        forall|t: Seq<char>| t != tag.0@ ==> tag_owner(insert_tag(s, tag, uid), t) == tag_owner(s, t),
{
    let r = insert_tag(s, tag, uid);
    if has_tag(s, tag.0@) {
        let i = tag_index(s, tag.0@);
        assert forall|a: int, b: int| 0 <= a < r.len() && 0 <= b < r.len() && a != b implies r[a].0.0@ != r[b].0.0@ by {
            assert(r[a].0 == s[a].0);
            assert(r[b].0 == s[b].0);
        }
        lemma_tag_index_unique(r, i);
        assert forall|t: Seq<char>| t != tag.0@ implies tag_owner(r, t) == tag_owner(s, t) by {
            if has_tag(s, t) {
                let j = tag_index(s, t);
                assert(r[j].0 == s[j].0);
                lemma_tag_index_unique(r, j);
            }
            if has_tag(r, t) {
                let j = tag_index(r, t);
                assert(r[j].0 == s[j].0);
            }
        }
    } else {
        assert forall|a: int, b: int| 0 <= a < r.len() && 0 <= b < r.len() && a != b implies r[a].0.0@ != r[b].0.0@ by {
            if a == s.len() {
                assert(!(0 <= b < s.len() && s[b].0.0@ == tag.0@));
            } else if b == s.len() {
                assert(!(0 <= a < s.len() && s[a].0.0@ == tag.0@));
            }
        }
        lemma_tag_index_unique(r, s.len() as int);
        assert forall|t: Seq<char>| t != tag.0@ implies tag_owner(r, t) == tag_owner(s, t) by {
            if has_tag(s, t) {
                let j = tag_index(s, t);
                lemma_tag_index_unique(r, j);
                assert(has_tag(r, t));
            }
            if has_tag(r, t) {
                let j = tag_index(r, t);
                assert(j < s.len());
                assert(s[j].0.0@ == t);
            }
        }
    }
}

/// The position of the tag `t`.
fn find_tag(v: &Vec<(Tag, u64)>, t: &String) -> (r: Option<usize>)
    requires
        tags_distinct(v@),
    ensures
        r is Some <==> has_tag(v@, t@),
        r matches Some(i) ==> i == tag_index(v@, t@) && i < v@.len(),
{
    let mut i: usize = 0;
    while i < v.len()
        invariant
            i <= v@.len(),
            tags_distinct(v@),
            forall|j: int| 0 <= j < i ==> v@[j].0.0@ != t@,
        decreases v@.len() - i,
    {
        if v[i].0.0 == *t {
            proof {
                lemma_tag_index_unique(v@, i as int);
            }
            return Some(i);
        }
        i = i + 1;
    }
    None
}

/// The games, by guild; the guild each user plays in; the tag of each user.
pub struct LupusManager {
    games: Vec<(u64, LupusGame)>,
    user_to_guild: Vec<(u64, u64)>,
    tag_to_user_id: Vec<(Tag, u64)>,
}

/// The games after the game of `guild`, if there is one, becomes `g`.
pub open spec fn set_game(s: Seq<(u64, LupusGame)>, guild: u64, g: LupusGame) -> Seq<(u64, LupusGame)> {
    if has_key(s, guild) {
        s.update(key_index(s, guild), (guild, g))
    } else {
        s
    }
}

pub open spec fn games_wf(s: Seq<(u64, LupusGame)>) -> bool {
    keys_distinct(s) && forall|i: int| 0 <= i < s.len() ==> (#[trigger] s[i]).1.wf()
}

proof fn lemma_set_game(s: Seq<(u64, LupusGame)>, guild: u64, g: LupusGame)
    requires
        games_wf(s),
        g.wf(),
    ensures
        games_wf(set_game(s, guild, g)),
        forall|k: u64| has_key(set_game(s, guild, g), k) == has_key(s, k),
        has_key(s, guild) ==> lookup(set_game(s, guild, g), guild) == Some(g),
        forall|k: u64| k != guild ==> lookup(set_game(s, guild, g), k) == lookup(s, k),
{
    if has_key(s, guild) {
        lemma_update_value(s, key_index(s, guild), g);
        lemma_insert_key(s, guild, g);
    }
}

impl LupusManager {
    pub closed spec fn games(&self) -> Seq<(u64, LupusGame)> {
        self.games@
    }

    pub closed spec fn guilds(&self) -> Seq<(u64, u64)> {
        self.user_to_guild@
    }

    pub closed spec fn tags(&self) -> Seq<(Tag, u64)> {
        self.tag_to_user_id@
    }

    /// One game per guild, one guild per user, one owner per tag, and every
    /// game well formed.
    pub open spec fn wf(&self) -> bool {
        games_wf(self.games()) && keys_distinct(self.guilds()) && tags_distinct(self.tags())
    }

    /// The game of `guild`.
    pub open spec fn game_of(&self, guild: u64) -> Option<LupusGame> {
        lookup(self.games(), guild)
    }

    /// The user and guild of the tag `t`.
    pub open spec fn ids_of_tag(&self, t: Seq<char>) -> Option<(u64, u64)> {
        match tag_owner(self.tags(), t) {
            Some(u) => match lookup(self.guilds(), u) {
                Some(g) => Some((u, g)),
                None => None,
            },
            None => None,
        }
    }

    /// A manager with no games, users or tags.
    pub fn new() -> (r: Self)
        ensures
            r.wf(),
            r.games() == Seq::<(u64, LupusGame)>::empty(),
            r.guilds() == Seq::<(u64, u64)>::empty(),
            r.tags() == Seq::<(Tag, u64)>::empty(),
    {
        Self { games: Vec::new(), user_to_guild: Vec::new(), tag_to_user_id: Vec::new() }
    }

    /// The user who has `tag`, and the guild they play in.
    pub fn get_ids_from_tag(&self, tag: Tag) -> (r: Option<(u64, u64)>)
        requires
            self.wf(),
        ensures
            r == self.ids_of_tag(tag.0@),
    {
        let i = find_tag(&self.tag_to_user_id, &tag.0)?;
        let user_id = self.tag_to_user_id[i].1;
        let j = find_key(&self.user_to_guild, user_id)?;
        Some((user_id, self.user_to_guild[j].1))
    }

    /// The guild `uid` plays in.
    pub fn user_id_to_guild_id(&self, uid: u64) -> (r: Option<u64>)
        requires
            self.wf(),
        ensures
            r == lookup(self.guilds(), uid),
    {
        match find_key(&self.user_to_guild, uid) {
            Some(i) => Some(self.user_to_guild[i].1),
            None => None,
        }
    }

    /// Takes the game of `guild` away.
    pub fn close_game(&mut self, guild_id: u64) -> (r: Option<LupusGame>)
        requires
            old(self).wf(),
        ensures
            final(self).wf(),
            r == old(self).game_of(guild_id),
            final(self).games() == remove_key(old(self).games(), guild_id),
            final(self).guilds() == old(self).guilds(),
            final(self).tags() == old(self).tags(),
    {
        proof {
            lemma_remove_key(self.games@, guild_id);
        }
        let i = find_key(&self.games, guild_id)?;
        let ghost before = self.games@;
        let (_, game) = self.games.remove(i);
        proof {
            assert forall|j: int| 0 <= j < self.games@.len() implies (#[trigger] self.games@[j]).1.wf() by {
                let j2 = if j < i { j } else { j + 1 };
                assert(self.games@[j] == before[j2]);
            }
        }
        Some(game)
    }

    /// The first tag of `user_id`.
    pub fn get_tag_from_id(&self, user_id: u64) -> (r: Option<&Tag>)
        ensures
            r is Some <==> first_tag_of(self.tags(), user_id) >= 0,
            r matches Some(t) ==> first_tag_of(self.tags(), user_id) < self.tags().len()
                && *t == self.tags()[first_tag_of(self.tags(), user_id)].0,
    {
        let mut i: usize = 0;
        while i < self.tag_to_user_id.len()
            invariant
                i <= self.tags().len(),
                first_tag_of(self.tags().take(i as int), user_id) < 0,
            decreases self.tags().len() - i,
        {
            proof {
                assert(self.tags().take(i + 1).drop_last() =~= self.tags().take(i as int));
            }
            if self.tag_to_user_id[i].1 == user_id {
                proof {
                    lemma_first_tag_prefix(self.tags(), user_id, i as int);
                }
                return Some(&self.tag_to_user_id[i].0);
            }
            i = i + 1;
        }
        proof {
            assert(self.tags().take(i as int) =~= self.tags());
        }
        None
    }

    /// Starts a game in `guild_id`, unless one is already in progress there.
    pub fn create_game(&mut self, guild_id: u64) -> (r: Result<(), GameInProgress>)
        requires
            old(self).wf(),
        ensures
            final(self).wf(),
            r is Err <==> has_key(old(self).games(), guild_id),
            r is Err ==> r == Err::<(), GameInProgress>(GameInProgress { guild_id }) && final(self).games() == old(self).games(),
            r is Ok ==> final(self).games().len() == old(self).games().len() + 1
                && final(self).games().drop_last() == old(self).games()
                && final(self).games().last().0 == guild_id
                && final(self).games().last().1.players() == Seq::<(u64, LupusPlayer)>::empty()
                && final(self).games().last().1.actions().len() == 0
                && final(self).games().last().1.phase() == GamePhase::FIRSTNIGHT,
            final(self).guilds() == old(self).guilds(),
            final(self).tags() == old(self).tags(),
    {
        if find_key(&self.games, guild_id).is_some() {
            Err(GameInProgress { guild_id })
        } else {
            let game = LupusGame::new();
            proof {
                lemma_insert_key(self.games@, guild_id, game);
            }
            let ghost before = self.games@;
            self.games.push((guild_id, game));
            proof {
                assert(self.games@.drop_last() =~= before);
                assert forall|j: int| 0 <= j < self.games@.len() implies (#[trigger] self.games@[j]).1.wf() by {
                    if j < before.len() {
                        assert(self.games@[j] == before[j]);
                    }
                }
            }
            Ok(())
        }
    }

    /// The game of `guild_id`.
    pub fn get_game(&self, guild_id: u64) -> (r: Option<&LupusGame>)
        requires
            self.wf(),
        ensures
            r is Some <==> has_key(self.games(), guild_id),
            r matches Some(g) ==> *g == self.game_of(guild_id).unwrap() && g.wf(),
    {
        match find_key(&self.games, guild_id) {
            Some(i) => Some(&self.games[i].1),
            None => None,
        }
    }

    /// The game of `guild_id`, to be changed in place.
    pub fn get_game_mut(&mut self, guild_id: u64) -> (r: Option<&mut LupusGame>)
        requires
            old(self).wf(),
        ensures
            r is Some <==> has_key(old(self).games(), guild_id),
            r matches Some(g) ==> *g == old(self).game_of(guild_id).unwrap() && g.wf()
                && final(self).games() == set_game(old(self).games(), guild_id, *final(g)),
            r is None ==> *final(self) == *old(self),
            final(self).guilds() == old(self).guilds(),
            final(self).tags() == old(self).tags(),
    {
        match find_key(&self.games, guild_id) {
            Some(i) => {
                proof {
                    lemma_key_index_unique(self.games@, i as int);
                }
                Some(&mut self.games[i].1)
            },
            None => None,
        }
    }

    /// `player` (with id `user_id` and `tag`) joins the game of `guild_id`:
    /// they now play in that guild and own that tag, and, if the guild has
    /// a game, they are a fresh player of it.
    pub fn add_user(&mut self, guild_id: u64, user_id: u64, tag: Tag)
        requires
            old(self).wf(),
        ensures
            final(self).wf(),
            final(self).guilds() == insert_key(old(self).guilds(), user_id, guild_id),
            final(self).tags() == insert_tag(old(self).tags(), tag, user_id),
            forall|k: u64| has_key(final(self).games(), k) == has_key(old(self).games(), k),
            forall|k: u64| k != guild_id ==> final(self).game_of(k) == old(self).game_of(k),
            has_key(old(self).games(), guild_id) ==> ({
                let (g0, g1) = (old(self).game_of(guild_id).unwrap(), final(self).game_of(guild_id).unwrap());
                &&& g1.players() == insert_key(g0.players(), user_id, fresh_player())
                &&& g1.actions() == g0.actions()
                &&& g1.phase() == g0.phase()
            }),
    {
        proof {
            lemma_insert_key(self.user_to_guild@, user_id, guild_id);
            lemma_insert_tag(self.tag_to_user_id@, tag, user_id);
        }
        match find_key(&self.user_to_guild, user_id) {
            Some(i) => self.user_to_guild.set(i, (user_id, guild_id)),
            None => self.user_to_guild.push((user_id, guild_id)),
        }
        match find_tag(&self.tag_to_user_id, &tag.0) {
            Some(i) => {
                let known = self.tag_to_user_id[i].0.clone();
                self.tag_to_user_id.set(i, (known, user_id));
            },
            None => self.tag_to_user_id.push((tag, user_id)),
        }
        if let Some(i) = find_key(&self.games, guild_id) {
            let ghost before = self.games@;
            self.games[i].1.insert_player(user_id, LupusPlayer::new());
            proof {
                lemma_set_game(before, guild_id, self.games@[i as int].1);
            }
        }
    }

    /// `other` is `self` but for the game of `guild`, which still exists.
    pub open spec fn same_except_game(&self, other: &LupusManager, guild: u64) -> bool {
        &&& self.guilds() == other.guilds()
        &&& self.tags() == other.tags()
        &&& forall|k: u64| #[trigger] has_key(self.games(), k) == has_key(other.games(), k)
        &&& forall|k: u64| k != guild ==> #[trigger] self.game_of(k) == other.game_of(k)
    }

    /// The outcome of a night action chosen by `author` in the game of
    /// `guild`, where `author` is the player `p`.
    pub open spec fn registered(&self, old_m: &LupusManager, guild: u64, author: u64, action: LupusAction, r: CommandReply) -> bool {
        let g = old_m.game_of(guild).unwrap();
        let p = lookup(g.players(), author).unwrap();
        if !p.alive {
            r == CommandReply::DeadPlayer && *self == *old_m
        } else {
            &&& self.same_except_game(old_m, guild)
            &&& self.game_of(guild).unwrap().players() == g.players()
            &&& self.game_of(guild).unwrap().actions() == insert_key(g.actions(), author, action)
            &&& self.game_of(guild).unwrap().phase() == g.phase()
            &&& r == CommandReply::Registered {
                night_over: night_complete(g.players(), insert_key(g.actions(), author, action), g.phase()),
            }
        }
    }

    /// `author` chooses the night action `action` in the game of the guild
    /// they play in.  Fails when `author` plays in no guild, or is not a
    /// player of the guild's game.
    pub fn send_lupus_command(&mut self, author: u64, action: LupusAction) -> (r: Result<CommandReply, MyError>)
        requires
            old(self).wf(),
        ensures
            final(self).wf(),
            match lookup(old(self).guilds(), author) {
                None => r == Err::<CommandReply, MyError>(MyError) && *final(self) == *old(self),
                Some(guild) => match old(self).game_of(guild) {
                    None => r == Ok::<CommandReply, MyError>(CommandReply::GameNotFound) && *final(self) == *old(self),
                    Some(g) => match lookup(g.players(), author) {
                        None => r == Err::<CommandReply, MyError>(MyError) && *final(self) == *old(self),
                        Some(_) => r matches Ok(reply) && final(self).registered(old(self), guild, author, action, reply),
                    },
                },
            },
    {
        let guild_id = match self.user_id_to_guild_id(author) {
            Some(g) => g,
            None => return Err(MyError),
        };
        self.push_action_in(guild_id, author, action)
    }

    /// `author` chooses `action` in the game of `guild_id`, whether or not
    /// they joined it: `None` when the guild has no game, otherwise whether
    /// the night can now end.
    pub fn send_lupus_command_in_guild(&mut self, guild_id: u64, author: u64, action: LupusAction) -> (r: Option<bool>)
        requires
            old(self).wf(),
        ensures
            final(self).wf(),
            match old(self).game_of(guild_id) {
                None => r is None && *final(self) == *old(self),
                Some(g) => {
                    &&& final(self).same_except_game(old(self), guild_id)
                    &&& final(self).game_of(guild_id).unwrap().players() == g.players()
                    &&& final(self).game_of(guild_id).unwrap().actions() == insert_key(g.actions(), author, action)
                    &&& final(self).game_of(guild_id).unwrap().phase() == g.phase()
                    &&& r == Some(night_complete(g.players(), insert_key(g.actions(), author, action), g.phase()))
                },
            },
    {
        let i = find_key(&self.games, guild_id)?;
        proof {
            lemma_key_index_unique(self.games@, i as int);
        }
        let ghost before = self.games@;
        let night_over = self.games[i].1.push_night_action(author, action);
        proof {
            lemma_set_game(before, guild_id, self.games@[i as int].1);
            assert(self.games@ == set_game(before, guild_id, self.games@[i as int].1));
        }
        Some(night_over)
    }

    /// `author` chooses `action` in the game of `guild_id`.
    fn push_action_in(&mut self, guild_id: u64, author: u64, action: LupusAction) -> (r: Result<CommandReply, MyError>)
        requires
            old(self).wf(),
        ensures
            final(self).wf(),
            match old(self).game_of(guild_id) {
                None => r == Ok::<CommandReply, MyError>(CommandReply::GameNotFound) && *final(self) == *old(self),
                Some(g) => match lookup(g.players(), author) {
                    None => r == Err::<CommandReply, MyError>(MyError) && *final(self) == *old(self),
                    Some(_) => r matches Ok(reply) && final(self).registered(old(self), guild_id, author, action, reply),
                },
            },
    {
        let i = match find_key(&self.games, guild_id) {
            Some(i) => i,
            None => return Ok(CommandReply::GameNotFound),
        };
        proof {
            lemma_key_index_unique(self.games@, i as int);
        }
        let alive = match self.games[i].1.get_player(author) {
            Some(p) => p.alive,
            None => return Err(MyError),
        };
        if !alive {
            return Ok(CommandReply::DeadPlayer);
        }
        let ghost before = self.games@;
        let night_over = self.games[i].1.push_night_action(author, action);
        proof {
            lemma_set_game(before, guild_id, self.games@[i as int].1);
            assert(self.games@ == set_game(before, guild_id, self.games@[i as int].1));
        }
        Ok(CommandReply::Registered { night_over })
    }

    /// The game and player behind a night command of `author` against the
    /// tag `target`: the guild, the target's id, and the player.
    pub open spec fn command_context(&self, author: u64, target: Seq<char>) -> Option<(u64, u64, LupusPlayer)> {
        match lookup(self.guilds(), author) {
            None => None,
            Some(guild) => match self.ids_of_tag(target) {
                None => None,
                Some((target_id, _)) => match self.game_of(guild) {
                    None => None,
                    Some(g) => match lookup(g.players(), author) {
                        None => None,
                        Some(p) => Some((guild, target_id, p)),
                    },
                },
            },
        }
    }

    /// A night command of `author` against the player tagged `target_tag`:
    /// when the role `author` currently plays may use it in this phase, the
    /// action is chosen as by `send_lupus_command`.  Fails when `author` plays in
    /// no guild, the tag is unknown, the guild has no game or `author` is not
    /// one of its players.
    pub fn generic_action(&mut self, author: u64, target_tag: Tag, cmd: ActionCommand) -> (r: Result<ActionReply, MyError>)
        requires
            old(self).wf(),
        ensures
            final(self).wf(),
            match old(self).command_context(author, target_tag.0@) {
                None => r == Err::<ActionReply, MyError>(MyError) && *final(self) == *old(self),
                Some((guild, target_id, p)) => {
                    let g = old(self).game_of(guild).unwrap();
                    if command_allows(cmd, current_role_of(p.role)) && role_can_action(current_role_of(p.role), g.phase()) {
                        r matches Ok(ActionReply::Sent(reply)) && final(self).registered(old(self), guild, author, command_action(cmd, target_id), reply)
                    } else {
                        r == Ok::<ActionReply, MyError>(ActionReply::WrongRoleOrPhase) && *final(self) == *old(self)
                    }
                },
            },
    {
        let (target_id, role, phase, guild_id) = match self.command_player(author, &target_tag) {
            Some(c) => c,
            None => return Err(MyError),
        };
        if cmd.allows(&role) && role.can_action(&phase) {
            let reply = self.push_action_in(guild_id, author, cmd.action(target_id))?;
            Ok(ActionReply::Sent(reply))
        } else {
            Ok(ActionReply::WrongRoleOrPhase)
        }
    }

    /// The owl who leads the pack frames the player tagged `frame_tag` and
    /// kills the one tagged `kill_tag`.  Fails as `generic_action` does, or
    /// when the second tag is unknown.
    pub fn frame_and_kill(&mut self, author: u64, frame_tag: Tag, kill_tag: Tag) -> (r: Result<ActionReply, MyError>)
        requires
            old(self).wf(),
        ensures
            final(self).wf(),
            match (old(self).command_context(author, frame_tag.0@), old(self).ids_of_tag(kill_tag.0@)) {
                (Some((guild, frame_id, p)), Some((kill_id, _))) => {
                    let g = old(self).game_of(guild).unwrap();
                    if frame_and_kill_allowed(current_role_of(p.role)) && role_can_action(current_role_of(p.role), g.phase()) {
                        r matches Ok(ActionReply::Sent(reply)) && final(self).registered(old(self), guild, author, LupusAction::FrameAndKill(frame_id, kill_id), reply)
                    } else {
                        r == Ok::<ActionReply, MyError>(ActionReply::WrongRoleOrPhase) && *final(self) == *old(self)
                    }
                },
                _ => r == Err::<ActionReply, MyError>(MyError) && *final(self) == *old(self),
            },
    {
        let (kill_id, _) = match self.get_ids_from_tag(kill_tag) {
            Some(ids) => ids,
            None => return Err(MyError),
        };
        let (frame_id, role, phase, guild_id) = match self.command_player(author, &frame_tag) {
            Some(c) => c,
            None => return Err(MyError),
        };
        let allowed = match role {
            LupusRole::GUFO { is_leader: true } => true,
            _ => false,
        };
        if allowed && role.can_action(&phase) {
            let reply = self.push_action_in(guild_id, author, LupusAction::FrameAndKill(frame_id, kill_id))?;
            Ok(ActionReply::Sent(reply))
        } else {
            Ok(ActionReply::WrongRoleOrPhase)
        }
    }

    /// The target's id, the role `author` currently plays, the phase and the
    /// guild, for a night command.
    fn command_player(&self, author: u64, target_tag: &Tag) -> (r: Option<(u64, LupusRole, GamePhase, u64)>)
        requires
            self.wf(),
        ensures
            match self.command_context(author, target_tag.0@) {
                None => r is None,
                Some((guild, target_id, p)) => r == Some((target_id, current_role_of(p.role), self.game_of(guild).unwrap().phase(), guild)),
            },
    {
        let guild_id = self.user_id_to_guild_id(author)?;
        let (target_id, _) = self.get_ids_from_tag(target_tag.clone())?;
        let game = self.get_game(guild_id)?;
        let player = game.get_player(author)?;
        Some((target_id, player.current_role().clone(), *game.get_phase(), guild_id))
    }

    /// Dorian Grey, holding the picture, gives it to the player tagged
    /// `target_tag`: true when done, false when `author` does not currently
    /// play Dorian Grey with the picture.  Fails when the tag is unknown, the
    /// guild has no game or `author` is not one of its players.
    pub fn give_picture(&mut self, guild_id: u64, author: u64, target_tag: Tag) -> (r: Result<bool, MyError>)
        requires
            old(self).wf(),
        ensures
            final(self).wf(),
            match (old(self).ids_of_tag(target_tag.0@), old(self).game_of(guild_id)) {
                (Some((target_id, _)), Some(g)) => match lookup(g.players(), author) {
                    None => r == Err::<bool, MyError>(MyError) && *final(self) == *old(self),
                    Some(p) => if current_role_of(p.role) matches LupusRole::DORIANGREY { has_quadro: true, .. } {
                        &&& r == Ok::<bool, MyError>(true)
                        &&& final(self).same_except_game(old(self), guild_id)
                        &&& final(self).game_of(guild_id).unwrap().players() == set_player(g.players(), author, LupusPlayer {
                            role: with_current_role(p.role, LupusRole::DORIANGREY { has_quadro: true, given_to: Some(target_id) }),
                            ..p
                        })
                        &&& final(self).game_of(guild_id).unwrap().actions() == g.actions()
                        &&& final(self).game_of(guild_id).unwrap().phase() == g.phase()
                    } else {
                        r == Ok::<bool, MyError>(false) && *final(self) == *old(self)
                    },
                },
                _ => r == Err::<bool, MyError>(MyError) && *final(self) == *old(self),
            },
    {
        let (target_id, _) = match self.get_ids_from_tag(target_tag) {
            Some(ids) => ids,
            None => return Err(MyError),
        };
        let i = match find_key(&self.games, guild_id) {
            Some(i) => i,
            None => return Err(MyError),
        };
        proof {
            lemma_key_index_unique(self.games@, i as int);
        }
        let holds = match self.games[i].1.get_player(author) {
            Some(p) => match p.current_role() {
                LupusRole::DORIANGREY { has_quadro: true, .. } => true,
                _ => false,
            },
            None => return Err(MyError),
        };
        if !holds {
            return Ok(false);
        }
        let ghost before = self.games@;
        let ghost g0 = self.games@[i as int].1;
        proof {
            lemma_set_player_keys(g0.players(), author, LupusPlayer {
                role: with_current_role(lookup(g0.players(), author).unwrap().role, LupusRole::DORIANGREY { has_quadro: true, given_to: Some(target_id) }),
                ..lookup(g0.players(), author).unwrap()
            });
        }
        if let Some(player) = self.games[i].1.get_player_mut(author) {
            player.set_current_role(LupusRole::DORIANGREY { has_quadro: true, given_to: Some(target_id) });
        }
        proof {
            lemma_set_game(before, guild_id, self.games@[i as int].1);
            assert(self.games@ == set_game(before, guild_id, self.games@[i as int].1));
        }
        Ok(true)
    }

    /// The witch's night power: when `author` is the witch, she steals the
    /// role that the player tagged `target_tag` currently plays; she plays it
    /// from then on (still as the witch) and it is returned.  When `author`
    /// is not the witch nothing changes.  Fails when the tag is unknown, the
    /// guild has no game, or the target or `author` is not one of its
    /// players.
    pub fn possess(&mut self, guild_id: u64, author: u64, target_tag: Tag) -> (r: Result<Option<LupusRole>, MyError>)
        requires
            old(self).wf(),
        ensures
            final(self).wf(),
            match (old(self).ids_of_tag(target_tag.0@), old(self).game_of(guild_id)) {
                (Some((target_id, _)), Some(g)) => match (lookup(g.players(), target_id), lookup(g.players(), author)) {
                    (Some(t), Some(p)) => if !(p.role matches LupusRole::STREGA(_)) {
                        r == Ok::<Option<LupusRole>, MyError>(None) && *final(self) == *old(self)
                    } else {
                        &&& r == Ok::<Option<LupusRole>, MyError>(Some(current_role_of(t.role)))
                        &&& final(self).same_except_game(old(self), guild_id)
                        &&& final(self).game_of(guild_id).unwrap().players() == set_player(g.players(), author, LupusPlayer {
                            role: with_current_role(p.role, current_role_of(t.role)),
                            ..p
                        })
                        &&& final(self).game_of(guild_id).unwrap().actions() == g.actions()
                        &&& final(self).game_of(guild_id).unwrap().phase() == g.phase()
                    },
                    _ => r == Err::<Option<LupusRole>, MyError>(MyError) && *final(self) == *old(self),
                },
                _ => r == Err::<Option<LupusRole>, MyError>(MyError) && *final(self) == *old(self),
            },
    {
        let (target_id, _) = match self.get_ids_from_tag(target_tag) {
            Some(ids) => ids,
            None => return Err(MyError),
        };
        let i = match find_key(&self.games, guild_id) {
            Some(i) => i,
            None => return Err(MyError),
        };
        proof {
            lemma_key_index_unique(self.games@, i as int);
        }
        let taken = match self.games[i].1.get_player(target_id) {
            Some(t) => t.current_role().clone(),
            None => return Err(MyError),
        };
        match self.games[i].1.get_player(author) {
            Some(p) => match p.role() {
                LupusRole::STREGA(..) => {},
                _ => return Ok(None),
            },
            None => return Err(MyError),
        }
        let ghost before = self.games@;
        let ghost g0 = self.games@[i as int].1;
        proof {
            lemma_set_player_keys(g0.players(), author, LupusPlayer {
                role: with_current_role(lookup(g0.players(), author).unwrap().role, taken),
                ..lookup(g0.players(), author).unwrap()
            });
        }
        if let Some(player) = self.games[i].1.get_player_mut(author) {
            player.set_current_role(taken.clone());
        }
        proof {
            lemma_set_game(before, guild_id, self.games@[i as int].1);
            assert(self.games@ == set_game(before, guild_id, self.games@[i as int].1));
        }
        Ok(Some(taken))
    }

    /// The tags of the living players of the game of the guild `author`
    /// plays in (players without a tag are left out).  Fails when `author`
    /// plays in no guild or the guild has no game.
    pub fn ls(&self, author: u64) -> (r: Result<Vec<Tag>, MyError>)
        requires
            self.wf(),
        ensures
            match lookup(self.guilds(), author) {
                None => r is Err,
                Some(guild) => match self.game_of(guild) {
                    None => r is Err,
                    Some(g) => r matches Ok(tags) && tags@ == alive_tags(alive_ids(g.players()), self.tags()),
                },
            },
    {
        let guild_id = match self.user_id_to_guild_id(author) {
            Some(g) => g,
            None => return Err(MyError),
        };
        let game = match self.get_game(guild_id) {
            Some(g) => g,
            None => return Err(MyError),
        };
        let alive = game.get_alive_players();
        let mut tags: Vec<Tag> = Vec::new();
        let mut i: usize = 0;
        while i < alive.len()
            invariant
                i <= alive@.len(),
                tags@ == alive_tags(alive@.take(i as int), self.tags()),
            decreases alive@.len() - i,
        {
            proof {
                assert(alive@.take(i + 1).drop_last() =~= alive@.take(i as int));
            }
            if let Some(t) = self.get_tag_from_id(alive[i]) {
                tags.push(t.clone());
            }
            i = i + 1;
        }
        proof {
            assert(alive@.take(i as int) =~= alive@);
        }
        Ok(tags)
    }

    /// Deals the roles of the game of `guild_id`: each player gets one of the
    /// roles for a game of that many players, each role dealt once, in an
    /// order left to chance.  False when the guild has no game.
    pub fn start_game(&mut self, guild_id: u64) -> (r: bool)
        requires
            old(self).wf(),
        ensures
            final(self).wf(),
            r == has_key(old(self).games(), guild_id),
            !r ==> *final(self) == *old(self),
            r ==> ({
                let g = old(self).game_of(guild_id).unwrap();
                let g2 = final(self).game_of(guild_id).unwrap();
                &&& final(self).same_except_game(old(self), guild_id)
                &&& exists|roles: Seq<LupusRole>| {
                    &&& roles.len() == roles_for(g.players().len()).len()
                    &&& #[trigger] roles.to_multiset() == roles_for(g.players().len()).to_multiset()
                    &&& g2.players() == dealt(g.players(), roles)
                }
                &&& g2.actions() == g.actions()
                &&& g2.phase() == g.phase()
            }),
    {
        let i = match find_key(&self.games, guild_id) {
            Some(i) => i,
            None => return false,
        };
        proof {
            lemma_key_index_unique(self.games@, i as int);
        }
        let player_num = self.games[i].1.joined_players().len();
        let roles = get_roles(player_num);
        let ghost dealt_roles = roles@;
        let ghost before = self.games@;
        self.games[i].1.assign_roles(roles);
        proof {
            lemma_set_game(before, guild_id, self.games@[i as int].1);
            assert(self.games@ == set_game(before, guild_id, self.games@[i as int].1));
            assert(dealt_roles.to_multiset() == roles_for(before[i as int].1.players().len()).to_multiset());
        }
        true
    }

    /// The night of the game of `guild_id`: the wolves' votes are counted,
    /// the chosen actions are resolved, and the vigilante among the dead, if
    /// any, is named.  Which of the players tied for the most wolves' votes
    /// is attacked is left to chance.
    pub fn handle_night(&mut self, guild_id: u64) -> (r: NightStart)
        requires
            old(self).wf(),
            has_key(old(self).games(), guild_id),
        ensures
            final(self).wf(),
            final(self).same_except_game(old(self), guild_id),
            ({
                let g = old(self).game_of(guild_id).unwrap();
                let g2 = final(self).game_of(guild_id).unwrap();
                &&& g2.actions() == Seq::<(u64, LupusAction)>::empty()
                &&& g2.phase() == g.phase()
                &&& exists|draw: int| #[trigger] valid_draw(g.actions(), draw) && {
                    let night = run_actions(g.players(), counted_actions(g.actions(), draw));
                    &&& g2.players() == night.0
                    &&& r.killed@ == night.1
                    &&& r.sightings@ == night.2
                    &&& r.vigilante == first_dying_vigilante(night.0, night.1)
                }
            }),
    {
        let i = find_key(&self.games, guild_id).unwrap();
        proof {
            lemma_key_index_unique(self.games@, i as int);
        }
        let ghost before = self.games@;
        let report = self.games[i].1.process_actions();
        proof {
            lemma_set_game(before, guild_id, self.games@[i as int].1);
            assert(self.games@ == set_game(before, guild_id, self.games@[i as int].1));
        }
        let vigilante = self.games[i].1.dying_vigilante(&report.killed);
        NightStart { killed: report.killed, sightings: report.sightings, vigilante }
    }

    /// The vigilante's answer: "none" (in any case) shoots nobody; otherwise
    /// the answer is the tag of the player to shoot.
    pub fn handle_vigilante_death(&self, answer: &String) -> (r: Option<u64>)
        requires
            self.wf(),
        ensures
            r == if lowercase_of(answer@) == seq!['n', 'o', 'n', 'e'] {
                None
            } else {
                match self.ids_of_tag(answer@) {
                    Some((uid, _)) => Some(uid),
                    None => None,
                }
            },
    {
        let lower = to_lowercase(answer.as_str());
        if is_none_word(lower.as_str()) {
            return None;
        }
        let (uid, _) = self.get_ids_from_tag(Tag(answer.clone()))?;
        Some(uid)
    }

    /// The end of the night of the game of `guild_id`: the vigilante's shot
    /// at `shot`, if any (a shot that ends on someone adds them to
    /// `killed`); the pack gets a new leader if it lost its own; the night's
    /// protections, frames and blocks are reset; the day begins; and whether
    /// the game is over.
    pub fn end_night(&mut self, guild_id: u64, shot: Option<u64>, killed: Vec<u64>) -> (r: NightEnd)
        requires
            old(self).wf(),
            has_key(old(self).games(), guild_id),
        ensures
            final(self).wf(),
            final(self).same_except_game(old(self), guild_id),
            ({
                let g = old(self).game_of(guild_id).unwrap();
                let g2 = final(self).game_of(guild_id).unwrap();
                let after_shot = match shot {
                    Some(t) => kill_result(g.players(), t, KillKind::Guard),
                    None => (g.players(), Err::<u64, crate::player::KillError>(crate::player::KillError::UnkillableTarget)),
                };
                let re = reassigned(after_shot.0);
                &&& r.killed@ == match after_shot.1 {
                    Ok(id) => killed@.push(id),
                    Err(_) => killed@,
                }
                &&& r.new_leader == re.1
                &&& g2.players() == cleaned_players(re.0)
                &&& g2.actions() == g.actions()
                &&& g2.phase() == GamePhase::DAY
                &&& r.ended == game_is_over(g2.players())
            }),
    {
        let i = find_key(&self.games, guild_id).unwrap();
        proof {
            lemma_key_index_unique(self.games@, i as int);
        }
        let ghost before = self.games@;
        let mut killed = killed;
        if let Some(target) = shot {
            if let Ok(uid) = self.games[i].1.guard_kill_loop(target) {
                killed.push(uid);
            }
        }
        let new_leader = self.games[i].1.reassign_wolf_if_master_is_dead();
        self.games[i].1.cleanup();
        self.games[i].1.set_phase(GamePhase::DAY);
        let ended = self.games[i].1.check_if_ended();
        proof {
            lemma_set_game(before, guild_id, self.games@[i as int].1);
            assert(self.games@ == set_game(before, guild_id, self.games@[i as int].1));
        }
        NightEnd { killed, new_leader, ended }
    }

    /// The end of the day of the game of `guild_id`: the pack gets a new
    /// leader if it lost its own, whether the game is over, and the night begins.
    pub fn handle_day(&mut self, guild_id: u64) -> (r: DayEnd)
        requires
            old(self).wf(),
            has_key(old(self).games(), guild_id),
        ensures
            final(self).wf(),
            final(self).same_except_game(old(self), guild_id),
            ({
                let g = old(self).game_of(guild_id).unwrap();
                let g2 = final(self).game_of(guild_id).unwrap();
                let re = reassigned(g.players());
                &&& r.new_leader == re.1
                &&& g2.players() == re.0
                &&& r.ended == game_is_over(re.0)
                &&& g2.actions() == g.actions()
                &&& g2.phase() == GamePhase::NIGHT
            }),
    {
        let i = find_key(&self.games, guild_id).unwrap();
        proof {
            lemma_key_index_unique(self.games@, i as int);
        }
        let ghost before = self.games@;
        let new_leader = self.games[i].1.reassign_wolf_if_master_is_dead();
        let ended = self.games[i].1.check_if_ended();
        self.games[i].1.set_phase(GamePhase::NIGHT);
        proof {
            lemma_set_game(before, guild_id, self.games@[i as int].1);
            assert(self.games@ == set_game(before, guild_id, self.games@[i as int].1));
        }
        DayEnd { new_leader, ended }
    }

    /// The players of the game of `guild_id` that can be voted against, with
    /// the number of their emoji.
    pub fn vote_candidates(&self, guild_id: u64) -> (r: Vec<(u64, u64)>)
        requires
            self.wf(),
            has_key(self.games(), guild_id),
        ensures
            r@ == candidates(self.game_of(guild_id).unwrap().players(), self.tags()),
    {
        let game = self.get_game(guild_id).unwrap();
        let players = game.joined_players();
        let mut r: Vec<(u64, u64)> = Vec::new();
        let mut i: usize = 0;
        while i < players.len()
            invariant
                i <= players@.len(),
                players@ == self.game_of(guild_id).unwrap().players(),
                r@ == candidates(players@.take(i as int), self.tags()),
            decreases players@.len() - i,
        {
            proof {
                assert(players@.take(i + 1).drop_last() =~= players@.take(i as int));
            }
            if i < 16 && self.get_tag_from_id(players[i].0).is_some() {
                r.push((players[i].0, i as u64));
            }
            i = i + 1;
        }
        proof {
            assert(players@.take(i as int) =~= players@);
        }
        r
    }

    /// The day's vote in the game of `guild_id`, from the emoji each vote
    /// chose.  Nobody voting, or the most voted emoji being no candidate's,
    /// fails; a tie kills nobody; otherwise the village's vote is carried
    /// out against the most voted candidate, and fails when it ends on
    /// someone who has not joined or has no tag.
    pub fn handle_votation(&mut self, guild_id: u64, reactions: &Vec<u64>) -> (r: Result<VotationReport, MyError>)
        requires
            old(self).wf(),
            has_key(old(self).games(), guild_id),
        ensures
            final(self).wf(),
            ({
                let g = old(self).game_of(guild_id).unwrap();
                let g2 = final(self).game_of(guild_id).unwrap();
                match plurality(reactions@) {
                    Plurality::NoVotes => r is Err && *final(self) == *old(self),
                    Plurality::Tie => r matches Ok(VotationReport::Tie) && *final(self) == *old(self),
                    Plurality::Winner(k) => match vote_target(g.players(), old(self).tags(), k) {
                        None => r is Err && *final(self) == *old(self),
                        Some(target) => {
                            let victim = vote_victim(g.players(), target);
                            &&& final(self).same_except_game(old(self), guild_id)
                            &&& g2.players() == kill_result(g.players(), target, KillKind::Vote).0
                            &&& g2.actions() == g.actions()
                            &&& g2.phase() == g.phase()
                            &&& if has_key(g2.players(), victim) && first_tag_of(old(self).tags(), victim) >= 0 {
                                r matches Ok(VotationReport::Killed { tag, execution }) && tag == old(self).tags()[first_tag_of(old(self).tags(), victim)].0
                                    && execution == (VoteExecution {
                                        killed_id: victim,
                                        nature: player_nature(lookup(g2.players(), victim).unwrap()),
                                        medium: medium_of(g2.players()),
                                    })
                            } else {
                                r is Err
                            }
                        },
                    },
                }
            }),
    {
        let key = match plurality_of(reactions) {
            Plurality::NoVotes => return Err(MyError),
            Plurality::Tie => return Ok(VotationReport::Tie),
            Plurality::Winner(k) => k,
        };
        let i = find_key(&self.games, guild_id).unwrap();
        proof {
            lemma_key_index_unique(self.games@, i as int);
        }
        let target = {
            let players = self.games[i].1.joined_players();
            if key < 16 && (key as usize) < players.len() && self.get_tag_from_id(players[key as usize].0).is_some() {
                players[key as usize].0
            } else {
                return Err(MyError);
            }
        };
        let ghost before = self.games@;
        let executed = self.games[i].1.execute_vote(target);
        proof {
            lemma_set_game(before, guild_id, self.games@[i as int].1);
            assert(self.games@ == set_game(before, guild_id, self.games@[i as int].1));
        }
        let execution = executed?;
        let tag = match self.get_tag_from_id(execution.killed_id) {
            Some(t) => t.clone(),
            None => return Err(MyError),
        };
        Ok(VotationReport::Killed { tag, execution })
    }

    /// Closes the vote against `target_id` in the game of `guild_id` with
    /// `result`: on a yes the village kills the target, and the kill is
    /// reported as `LupusGame::execute_vote` reports it; otherwise nothing
    /// happens.  Fails on a yes when the guild has no game or the kill ends
    /// on an id that has not joined.
    pub fn conclude_vote(&mut self, guild_id: u64, target_id: u64, result: VoteResult) -> (r: Result<Option<VoteExecution>, MyError>)
        requires
            old(self).wf(),
        ensures
            final(self).wf(),
            result != VoteResult::Yes ==> r == Ok::<Option<VoteExecution>, MyError>(None) && *final(self) == *old(self),
            result == VoteResult::Yes ==> match old(self).game_of(guild_id) {
                None => r == Err::<Option<VoteExecution>, MyError>(MyError) && *final(self) == *old(self),
                Some(g) => {
                    let g2 = final(self).game_of(guild_id).unwrap();
                    let victim = vote_victim(g.players(), target_id);
                    &&& final(self).same_except_game(old(self), guild_id)
                    &&& g2.players() == kill_result(g.players(), target_id, KillKind::Vote).0
                    &&& g2.actions() == g.actions()
                    &&& g2.phase() == g.phase()
                    &&& (r is Err <==> !has_key(g2.players(), victim))
                    &&& r matches Ok(v) ==> v == Some(VoteExecution {
                        killed_id: victim,
                        nature: player_nature(lookup(g2.players(), victim).unwrap()),
                        medium: medium_of(g2.players()),
                    })
                },
            },
    {
        if result != VoteResult::Yes {
            return Ok(None);
        }
        let i = match find_key(&self.games, guild_id) {
            Some(i) => i,
            None => return Err(MyError),
        };
        proof {
            lemma_key_index_unique(self.games@, i as int);
        }
        let ghost before = self.games@;
        let executed = self.games[i].1.execute_vote(target_id);
        proof {
            lemma_set_game(before, guild_id, self.games@[i as int].1);
            assert(self.games@ == set_game(before, guild_id, self.games@[i as int].1));
        }
        let execution = executed?;
        Ok(Some(execution))
    }

    /// Opens the vote against the player tagged `target_tag` in the game of
    /// `guild_id`: the game enters the voting phase.  Nothing happens when
    /// the target plays in another guild.  Fails when the tag is unknown or
    /// the guild has no game.
    pub fn prepare_vote(&mut self, guild_id: u64, target_tag: Tag) -> (r: Result<Option<VoteStart>, MyError>)
        requires
            old(self).wf(),
        ensures
            final(self).wf(),
            match (old(self).ids_of_tag(target_tag.0@), old(self).game_of(guild_id)) {
                (Some((target_id, target_guild)), Some(g)) => if target_guild != guild_id {
                    r == Ok::<Option<VoteStart>, MyError>(None) && *final(self) == *old(self)
                } else {
                    &&& r == Ok::<Option<VoteStart>, MyError>(Some(VoteStart {
                        target_id,
                        phase: g.phase(),
                        alive_count: alive_ids(g.players()).len() as u64,
                    }))
                    &&& final(self).same_except_game(old(self), guild_id)
                    &&& final(self).game_of(guild_id).unwrap().players() == g.players()
                    &&& final(self).game_of(guild_id).unwrap().actions() == g.actions()
                    &&& final(self).game_of(guild_id).unwrap().phase() == GamePhase::VOTAZIONE
                },
                _ => r == Err::<Option<VoteStart>, MyError>(MyError) && *final(self) == *old(self),
            },
    {
        let (target_id, target_guild_id) = match self.get_ids_from_tag(target_tag) {
            Some(ids) => ids,
            None => return Err(MyError),
        };
        let i = match find_key(&self.games, guild_id) {
            Some(i) => i,
            None => return Err(MyError),
        };
        proof {
            lemma_key_index_unique(self.games@, i as int);
        }
        if guild_id != target_guild_id {
            return Ok(None);
        }
        let phase = *self.games[i].1.get_phase();
        let alive = self.games[i].1.get_alive_players();
        let alive_count = alive.len() as u64;
        let ghost before = self.games@;
        self.games[i].1.set_phase(GamePhase::VOTAZIONE);
        proof {
            lemma_set_game(before, guild_id, self.games@[i as int].1);
            assert(self.games@ == set_game(before, guild_id, self.games@[i as int].1));
        }
        Ok(Some(VoteStart { target_id, phase, alive_count }))
    }

    /// `player_id` leaves: they no longer play in a guild, and they leave the
    /// game of `guild_id`, if there is one.  Their tag stays.  Leaving is
    /// only possible before the game starts: once its roles are dealt, the
    /// request is refused and nothing changes.
    pub fn remove_user(&mut self, guild_id: u64, player_id: u64) -> (r: Result<(), GameInProgress>)
        requires
            old(self).wf(),
        ensures
            final(self).wf(),
            r is Err <==> has_key(old(self).games(), guild_id) && roles_dealt(old(self).game_of(guild_id).unwrap().players()),
            r is Err ==> r == Err::<(), GameInProgress>(GameInProgress { guild_id }) && *final(self) == *old(self),
            r is Ok ==> {
                &&& final(self).guilds() == remove_key(old(self).guilds(), player_id)
                &&& final(self).tags() == old(self).tags()
                &&& forall|k: u64| has_key(final(self).games(), k) == has_key(old(self).games(), k)
                &&& forall|k: u64| k != guild_id ==> final(self).game_of(k) == old(self).game_of(k)
                &&& has_key(old(self).games(), guild_id) ==> ({
                    let (g0, g1) = (old(self).game_of(guild_id).unwrap(), final(self).game_of(guild_id).unwrap());
                    &&& g1.players() == remove_key(g0.players(), player_id)
                    &&& g1.actions() == g0.actions()
                    &&& g1.phase() == g0.phase()
                })
            },
    {
        let gi = find_key(&self.games, guild_id);
        if let Some(i) = gi {
            proof {
                lemma_key_index_unique(self.games@, i as int);
            }
            if self.games[i].1.has_started() {
                return Err(GameInProgress { guild_id });
            }
        }
        proof {
            lemma_remove_key(self.user_to_guild@, player_id);
        }
        if let Some(i) = find_key(&self.user_to_guild, player_id) {
            self.user_to_guild.remove(i);
        }
        if let Some(i) = gi {
            let ghost before = self.games@;
            self.games[i].1.remove_player(player_id);
            proof {
                lemma_set_game(before, guild_id, self.games@[i as int].1);
            }
        }
        Ok(())
    }
}

/// How a night command was answered.
#[derive(Debug, Clone, Copy, PartialEq, Eq, Structural)]
pub enum CommandReply {
    /// The guild has no game.
    GameNotFound,
    /// Dead players take no actions.
    DeadPlayer,
    /// The action is recorded; `night_over` when it was the last one the
    /// night waited for.
    Registered { night_over: bool },
}

/// How a role's night command was answered.
#[derive(Debug, Clone, Copy, PartialEq, Eq, Structural)]
pub enum ActionReply {
    /// The action was handed on.
    Sent(CommandReply),
    /// The player's role may not use the command, or not in this phase.
    WrongRoleOrPhase,
}

/// The night so far: the ids the kills ended on, the seer's sightings, and
/// the vigilante among the dead who gets to shoot.
#[derive(Debug)]
pub struct NightStart {
    pub killed: Vec<u64>,
    pub sightings: Vec<Sighting>,
    pub vigilante: Option<u64>,
}

/// The end of the night: everyone the night killed, the new leader of the
/// pack, and whether the game is over.
#[derive(Debug)]
pub struct NightEnd {
    pub killed: Vec<u64>,
    pub new_leader: Option<u64>,
    pub ended: bool,
}

/// The end of the day: the new leader of the pack, and whether the game is over.
#[derive(Debug, Clone, Copy, PartialEq, Eq, Structural)]
pub struct DayEnd {
    pub new_leader: Option<u64>,
    pub ended: bool,
}

/// The outcome of the day's vote among the players.
#[derive(Debug)]
pub enum VotationReport {
    /// Two or more players share the most votes: nobody dies.
    Tie,
    /// The vote killed a player: their tag and what the vote did.
    Killed { tag: Tag, execution: VoteExecution },
}

/// A vote against one player, opened.
#[derive(Debug, Clone, Copy, PartialEq, Eq, Structural)]
pub struct VoteStart {
    pub target_id: u64,
    /// The phase before the vote (the vote is meant for the day).
    pub phase: GamePhase,
    /// How many players are alive (the most votes to wait for).
    pub alive_count: u64,
}

/// The text `s` in lower case (`str::to_lowercase`).
pub uninterp spec fn lowercase_of(s: Seq<char>) -> Seq<char>;

/// Calls `str::to_lowercase`, whose result depends on the text alone; it is
/// named `lowercase_of` and not otherwise stated.
#[verifier::external_body]
fn to_lowercase(s: &str) -> (r: String)
    ensures
        r@ == lowercase_of(s@),
{
    s.to_lowercase()
}

/// The text is "none".
fn is_none_word(s: &str) -> (r: bool)
    ensures
        r == (s@ == seq!['n', 'o', 'n', 'e']),
{
    if s.unicode_len() != 4 {
        return false;
    }
    let r = s.get_char(0) == 'n' && s.get_char(1) == 'o' && s.get_char(2) == 'n' && s.get_char(3) == 'e';
    proof {
        if r {
            assert(s@ =~= seq!['n', 'o', 'n', 'e']);
        }
    }
    r
}

/// The players that can be voted against, with the number of their
/// emoji: the players at the first sixteen positions who have a tag.
pub open spec fn candidates(s: Seq<(u64, LupusPlayer)>, tags: Seq<(Tag, u64)>) -> Seq<(u64, u64)>
    decreases s.len(),
{
    if s.len() == 0 {
        Seq::empty()
    } else if s.len() - 1 < 16 && first_tag_of(tags, s.last().0) >= 0 {
        candidates(s.drop_last(), tags).push((s.last().0, (s.len() - 1) as u64))
    } else {
        candidates(s.drop_last(), tags)
    }
}

/// The player voted against by the emoji `k`, if `k` is the emoji of a candidate.
pub open spec fn vote_target(s: Seq<(u64, LupusPlayer)>, tags: Seq<(Tag, u64)>, k: u64) -> Option<u64> {
    if k < 16 && k < s.len() && first_tag_of(tags, s[k as int].0) >= 0 {
        Some(s[k as int].0)
    } else {
        None
    }
}

/// Refused because `guild_id` has a game in progress: a second game cannot
/// be created, and a started one cannot be left.
#[derive(Debug, Clone, Copy, PartialEq, Eq, Structural)]
pub struct GameInProgress {
    pub guild_id: u64,
}

proof fn lemma_first_tag_prefix(s: Seq<(Tag, u64)>, uid: u64, i: int)
    requires
        0 <= i < s.len(),
        first_tag_of(s.take(i), uid) < 0,
        s[i].1 == uid,
    ensures
        first_tag_of(s, uid) == i,
    decreases s.len(),
{
    if i == s.len() - 1 {
        assert(s.drop_last() =~= s.take(i));
    } else {
        assert(s.drop_last().take(i) =~= s.take(i));
        lemma_first_tag_prefix(s.drop_last(), uid, i);
    }
}

} // verus!
