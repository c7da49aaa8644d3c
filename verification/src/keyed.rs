//! Association lists keyed by a `u64` identifier (a Discord user or guild id).
//! They stand in for the hash maps of a game: each key occurs at most once,
//! and entries keep the order in which they were first inserted.
use vstd::prelude::*;

verus! {

/// No key occurs twice.
pub open spec fn keys_distinct<T>(s: Seq<(u64, T)>) -> bool {
    forall|i: int, j: int| 0 <= i < s.len() && 0 <= j < s.len() && i != j ==> s[i].0 != s[j].0
}

/// The key `k` occurs in the list.
pub open spec fn has_key<T>(s: Seq<(u64, T)>, k: u64) -> bool {
    exists|i: int| 0 <= i < s.len() && s[i].0 == k
}

/// The position of key `k` (meaningful when `has_key(s, k)`).
pub open spec fn key_index<T>(s: Seq<(u64, T)>, k: u64) -> int {
    choose|i: int| 0 <= i < s.len() && s[i].0 == k
}

/// The value stored under `k`, if any.
pub open spec fn lookup<T>(s: Seq<(u64, T)>, k: u64) -> Option<T> {
    if has_key(s, k) {
        Some(s[key_index(s, k)].1)
    } else {
        None
    }
}

/// The list after `k` is bound to `v`: an existing entry is replaced in
/// place, a new key is appended.
pub open spec fn insert_key<T>(s: Seq<(u64, T)>, k: u64, v: T) -> Seq<(u64, T)> {
    if has_key(s, k) {
        s.update(key_index(s, k), (k, v))
    } else {
        s.push((k, v))
    }
}

/// The list without the entry for `k`.
pub open spec fn remove_key<T>(s: Seq<(u64, T)>, k: u64) -> Seq<(u64, T)> {
    if has_key(s, k) {
        s.remove(key_index(s, k))
    } else {
        s
    }
}

/// In a list without repeated keys, the position of a key is the one entry that holds it.
pub proof fn lemma_key_index_unique<T>(s: Seq<(u64, T)>, i: int)
    requires
        keys_distinct(s),
        0 <= i < s.len(),
    ensures
        has_key(s, s[i].0),
        key_index(s, s[i].0) == i,
{
    assert(0 <= i < s.len() && s[i].0 == s[i].0);
}

/// Replacing the value of an entry keeps the keys distinct and the key set.
pub proof fn lemma_update_value<T>(s: Seq<(u64, T)>, i: int, v: T)
    requires
        keys_distinct(s),
        0 <= i < s.len(),
    ensures
        keys_distinct(s.update(i, (s[i].0, v))),
        forall|k: u64| has_key(s.update(i, (s[i].0, v)), k) == has_key(s, k),
        forall|k: u64|
            #![trigger has_key(s, k)]
            has_key(s, k) ==> key_index(s.update(i, (s[i].0, v)), k) == key_index(s, k),
{
    let t = s.update(i, (s[i].0, v));
    assert forall|k: u64| has_key(t, k) == has_key(s, k) by {
        if has_key(s, k) {
            let j = key_index(s, k);
            assert(t[j].0 == k);
        }
        if has_key(t, k) {
            let j = key_index(t, k);
            assert(s[j].0 == k);
        }
    }
    assert forall|k: u64| #![trigger has_key(s, k)] has_key(s, k) implies key_index(t, k) == key_index(s, k) by {
        let j = key_index(s, k);
        lemma_key_index_unique(t, j);
    }
}

/// Inserting keeps the keys distinct; the inserted key now maps to the value
/// and every other key keeps its value.
pub proof fn lemma_insert_key<T>(s: Seq<(u64, T)>, k: u64, v: T)
    requires
        keys_distinct(s),
    ensures
        keys_distinct(insert_key(s, k, v)),
        lookup(insert_key(s, k, v), k) == Some(v),
        forall|k2: u64| k2 != k ==> lookup(insert_key(s, k, v), k2) == lookup(s, k2),
{
    let t = insert_key(s, k, v);
    if has_key(s, k) {
        let i = key_index(s, k);
        lemma_update_value(s, i, v);
        lemma_key_index_unique(t, i);
    } else {
        assert forall|i: int, j: int| 0 <= i < t.len() && 0 <= j < t.len() && i != j implies t[i].0 != t[j].0 by {
            if i == s.len() {
                assert(!(0 <= j < s.len() && s[j].0 == k));
            } else if j == s.len() {
                assert(!(0 <= i < s.len() && s[i].0 == k));
            }
        }
        lemma_key_index_unique(t, s.len() as int);
        assert forall|k2: u64| k2 != k implies lookup(t, k2) == lookup(s, k2) by {
            if has_key(s, k2) {
                let j = key_index(s, k2);
                lemma_key_index_unique(t, j);
                assert(has_key(t, k2));
            }
            if has_key(t, k2) {
                let j = key_index(t, k2);
                assert(j < s.len());
                assert(s[j].0 == k2);
            }
        }
    }
}

/// Removing keeps the keys distinct; the removed key is gone and every
/// other key keeps its value.
pub proof fn lemma_remove_key<T>(s: Seq<(u64, T)>, k: u64)
    requires
        keys_distinct(s),
    ensures
        keys_distinct(remove_key(s, k)),
        !has_key(remove_key(s, k), k),
        forall|k2: u64| k2 != k ==> lookup(remove_key(s, k), k2) == lookup(s, k2),
{
    let t = remove_key(s, k);
    if has_key(s, k) {
        let i = key_index(s, k);
        assert forall|a: int, b: int| 0 <= a < t.len() && 0 <= b < t.len() && a != b implies t[a].0 != t[b].0 by {
            let a2 = if a < i { a } else { a + 1 };
            let b2 = if b < i { b } else { b + 1 };
            assert(t[a] == s[a2]);
            assert(t[b] == s[b2]);
        }
        if has_key(t, k) {
            let j = key_index(t, k);
            let j2 = if j < i { j } else { j + 1 };
            assert(t[j] == s[j2]);
        }
        assert forall|k2: u64| k2 != k implies lookup(t, k2) == lookup(s, k2) by {
            if has_key(s, k2) {
                let j = key_index(s, k2);
                assert(j != i);
                let j2 = if j < i { j } else { j - 1 };
                assert(t[j2] == s[j]);
                lemma_key_index_unique(t, j2);
            }
            if has_key(t, k2) {
                let j = key_index(t, k2);
                let j2 = if j < i { j } else { j + 1 };
                assert(t[j] == s[j2]);
            }
        }
    }
}

/// The position of `k` in `v`, found by a scan from the front.
pub fn find_key<T>(v: &Vec<(u64, T)>, k: u64) -> (r: Option<usize>)
    requires
        keys_distinct(v@),
    ensures
        r is Some <==> has_key(v@, k),
        r matches Some(i) ==> i == key_index(v@, k) && i < v@.len() && v@[i as int].0 == k,
{
    let mut i: usize = 0;
    while i < v.len()
        invariant
            i <= v@.len(),
            keys_distinct(v@),
            forall|j: int| 0 <= j < i ==> v@[j].0 != k,
        decreases v@.len() - i,
    {
        if v[i].0 == k {
            proof {
                lemma_key_index_unique(v@, i as int);
            }
            return Some(i);
        }
        i = i + 1;
    }
    None
}

} // verus!
