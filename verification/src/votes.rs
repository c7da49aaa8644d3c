//! Counting votes.  A reaction to a vote message is identified by a number
//! (the position of a numbered emoji, or a code for any other emoji); a
//! list of reactions counts one vote for each entry.
use vstd::prelude::*;

use crate::keyed::{
    find_key, has_key, insert_key, key_index, keys_distinct, lemma_insert_key, lemma_key_index_unique, lookup,
};

verus! {

/// The outcome of a yes/no vote.
#[derive(Debug, Clone, Copy, PartialEq, Eq, Structural)]
pub enum VoteResult {
    Yes,
    No,
    /// As many yes as no.
    Abstain,
}

/// A yes/no vote: yes wins with more yes than no, no with more no than yes,
/// and a draw abstains.
pub fn vote_result(yes_count: u64, no_count: u64) -> (r: VoteResult)
    ensures
        r == if yes_count > no_count {
            VoteResult::Yes
        } else if yes_count < no_count {
            VoteResult::No
        } else {
            VoteResult::Abstain
        },
{
    if yes_count > no_count {
        VoteResult::Yes
    } else if yes_count < no_count {
        VoteResult::No
    } else {
        VoteResult::Abstain
    }
}

/// How many times `k` occurs in `s`.
pub open spec fn occurrences(s: Seq<u64>, k: u64) -> nat
    decreases s.len(),
{
    if s.len() == 0 {
        0
    } else {
        occurrences(s.drop_last(), k) + if s.last() == k {
            1nat
        } else {
            0nat
        }
    }
}

proof fn lemma_occurrences_bound(s: Seq<u64>, k: u64)
    ensures
        occurrences(s, k) <= s.len(),
    decreases s.len(),
{
    if s.len() > 0 {
        lemma_occurrences_bound(s.drop_last(), k);
    }
}

/// The votes for `key` among `reactions`.
pub fn count_reactions(reactions: &Vec<u64>, key: u64) -> (r: u64)
    ensures
        r == occurrences(reactions@, key),
{
    let mut n: u64 = 0;
    let mut i: usize = 0;
    while i < reactions.len()
        invariant
            i <= reactions@.len(),
            n == occurrences(reactions@.take(i as int), key),
        decreases reactions@.len() - i,
    {
        proof {
            assert(reactions@.take(i + 1).drop_last() =~= reactions@.take(i as int));
            lemma_occurrences_bound(reactions@.take(i as int), key);
        }
        if reactions[i] == key {
            n = n + 1;
        }
        i = i + 1;
    }
    proof {
        assert(reactions@.take(i as int) =~= reactions@);
    }
    n
}

/// The yes/no vote cast by `reactions`: each entry is one reaction,
/// `yes_key` and `no_key` identify the yes and the no; any other reaction
/// abstains.
pub fn yes_no_result(reactions: &Vec<u64>, yes_key: u64, no_key: u64) -> (r: VoteResult)
    ensures
        ({
            let (yes, no) = (occurrences(reactions@, yes_key), occurrences(reactions@, no_key));
            r == if yes > no {
                VoteResult::Yes
            } else if yes < no {
                VoteResult::No
            } else {
                VoteResult::Abstain
            }
        }),
{
    let yes = count_reactions(reactions, yes_key);
    let no = count_reactions(reactions, no_key);
    vote_result(yes, no)
}

/// The outcome of a vote among several options.
#[derive(Debug, Clone, Copy, PartialEq, Eq, Structural)]
pub enum Plurality {
    /// Nobody voted.
    NoVotes,
    /// Two or more options share the most votes.
    Tie,
    /// This option has more votes than any other.
    Winner(u64),
}

/// `k` has more votes than any other option, and at least one.
pub open spec fn is_unique_top(s: Seq<u64>, k: u64) -> bool {
    occurrences(s, k) > 0 && forall|j: u64| j != k ==> #[trigger] occurrences(s, j) < occurrences(s, k)
}

/// The outcome of the vote `s`.
pub open spec fn plurality(s: Seq<u64>) -> Plurality {
    if s.len() == 0 {
        Plurality::NoVotes
    } else if exists|k: u64| is_unique_top(s, k) {
        Plurality::Winner(choose|k: u64| is_unique_top(s, k))
    } else {
        Plurality::Tie
    }
}

/// The count of each option that received votes, in the order the options
/// first appeared.
fn tally(reactions: &Vec<u64>) -> (r: Vec<(u64, u64)>)
    ensures
        keys_distinct(r@),
        forall|k: u64| #[trigger] has_key(r@, k) <==> occurrences(reactions@, k) > 0,
        forall|k: u64| has_key(r@, k) ==> r@[key_index(r@, k)].1 == #[trigger] occurrences(reactions@, k),
        r@.len() > 0 <==> reactions@.len() > 0,
{
    let mut counts: Vec<(u64, u64)> = Vec::new();
    let mut i: usize = 0;
    while i < reactions.len()
        invariant
            i <= reactions@.len(),
            keys_distinct(counts@),
            forall|k: u64| #[trigger] has_key(counts@, k) <==> occurrences(reactions@.take(i as int), k) > 0,
            forall|k: u64| has_key(counts@, k) ==> counts@[key_index(counts@, k)].1 == #[trigger] occurrences(reactions@.take(i as int), k),
            counts@.len() > 0 <==> i > 0,
        decreases reactions@.len() - i,
    {
        let x = reactions[i];
        let ghost prev = reactions@.take(i as int);
        let ghost next = reactions@.take(i + 1);
        proof {
            assert(next.drop_last() =~= prev);
            assert(next.last() == x);
            lemma_occurrences_bound(prev, x);
        }
        let n = match find_key(&counts, x) {
            Some(j) => counts[j].1,
            None => 0,
        };
        assert(n == occurrences(prev, x));
        let ghost before = counts@;
        proof {
            lemma_insert_key(before, x, (n + 1) as u64);
        }
        match find_key(&counts, x) {
            Some(j) => counts.set(j, (x, n + 1)),
            None => counts.push((x, n + 1)),
        }
        assert(counts@ == insert_key(before, x, (n + 1) as u64));
        proof {
            assert forall|k: u64| #[trigger] has_key(counts@, k) <==> occurrences(next, k) > 0 by {
                if k != x {
                    assert(lookup(counts@, k) == lookup(before, k));
                } else {
                    assert(lookup(counts@, x) == Some((n + 1) as u64));
                }
            }
            assert forall|k: u64| has_key(counts@, k) implies counts@[key_index(counts@, k)].1 == #[trigger] occurrences(next, k) by {
                if k != x {
                    assert(lookup(counts@, k) == lookup(before, k));
                } else {
                    assert(lookup(counts@, x) == Some((n + 1) as u64));
                }
            }
            if before.len() == 0 {
                assert(lookup(counts@, x) == Some((n + 1) as u64));
            }
        }
        i = i + 1;
    }
    proof {
        assert(reactions@.take(i as int) =~= reactions@);
    }
    counts
}

/// The outcome of the vote `reactions`: nobody voted, a tie for the most
/// votes, or the one option with the most votes.
pub fn plurality_of(reactions: &Vec<u64>) -> (r: Plurality)
    ensures
        r == plurality(reactions@),
{
    let counts = tally(reactions);
    if counts.len() == 0 {
        return Plurality::NoVotes;
    }
    let mut best: usize = 0;
    let mut tie = false;
    let ghost mut rival: int = 0;
    let mut j: usize = 1;
    while j < counts.len()
        invariant
            1 <= j <= counts@.len(),
            best < j,
            forall|t: int| 0 <= t < j ==> counts@[t].1 <= counts@[best as int].1,
            !tie ==> forall|t: int| 0 <= t < j && t != best ==> counts@[t].1 < counts@[best as int].1,
            tie ==> 0 <= rival < j && rival != best && counts@[rival].1 == counts@[best as int].1,
        decreases counts@.len() - j,
    {
        if counts[j].1 > counts[best].1 {
            best = j;
            tie = false;
        } else if counts[j].1 == counts[best].1 {
            tie = true;
            proof {
                rival = j as int;
            }
        }
        j = j + 1;
    }
    let ghost s = reactions@;
    proof {
        lemma_key_index_unique(counts@, best as int);
        let kb = counts@[best as int].0;
        assert(occurrences(s, kb) == counts@[best as int].1);
        if !tie {
            assert forall|q: u64| q != kb implies #[trigger] occurrences(s, q) < occurrences(s, kb) by {
                if occurrences(s, q) > 0 {
                    assert(has_key(counts@, q));
                    let t = key_index(counts@, q);
                    assert(counts@[t].0 == q);
                    assert(t != best);
                    assert(occurrences(s, q) == counts@[t].1);
                }
            }
            assert(is_unique_top(s, kb));
        } else {
            lemma_key_index_unique(counts@, rival);
            let kr = counts@[rival].0;
            assert(occurrences(s, kr) == counts@[rival].1);
            assert forall|q: u64| !is_unique_top(s, q) by {
                if is_unique_top(s, q) {
                    assert(has_key(counts@, q));
                    let t = key_index(counts@, q);
                    assert(occurrences(s, q) == counts@[t].1);
                    assert(counts@[t].1 <= counts@[best as int].1);
                    if q == kb {
                        assert(occurrences(s, kr) < occurrences(s, q));
                    } else {
                        assert(occurrences(s, kb) < occurrences(s, q));
                    }
                }
            }
        }
    }
    if tie {
        Plurality::Tie
    } else {
        proof {
            let kb = counts@[best as int].0;
            assert forall|q: u64| is_unique_top(s, q) implies q == kb by {
                if q != kb {
                    assert(occurrences(s, q) < occurrences(s, kb));
                    assert(occurrences(s, kb) < occurrences(s, q));
                }
            }
        }
        Plurality::Winner(counts[best].0)
    }
}

} // verus!
