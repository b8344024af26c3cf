//! Lists of entries keyed by text, each key at most once: finding a key,
//! and the facts about its index.
use vstd::prelude::*;
use crate::text::{owned, str_eq};

verus! {

/// The keys of a keyed list.
pub open spec fn keys_of<V>(s: Seq<(String, V)>) -> Seq<Seq<char>> {
    s.map_values(|e: (String, V)| e.0@)
}

/// Index of the entry under `key` (keys are distinct).
pub open spec fn key_index<V>(s: Seq<(String, V)>, key: Seq<char>) -> int {
    choose|i: int| 0 <= i < s.len() && (#[trigger] s[i]).0@ == key
}

pub proof fn lemma_key_index<V>(s: Seq<(String, V)>, i: int)
    requires
        keys_of(s).no_duplicates(),
        0 <= i < s.len(),
    ensures
        keys_of(s).contains(s[i].0@),
        key_index(s, s[i].0@) == i,
{
    assert(keys_of(s)[i] == s[i].0@);
    let k = key_index(s, s[i].0@);
    if k != i {
        assert(keys_of(s)[k] == keys_of(s)[i]);
    }
}

/// Index of the entry under `key`, if any.
pub fn find_key<V>(s: &Vec<(String, V)>, key: &str) -> (r: Option<usize>)
    requires
        keys_of(s@).no_duplicates(),
    ensures
        match r {
            Some(i) => i < s@.len() && s@[i as int].0@ == key@ && key_index(s@, key@) == i && keys_of(s@).contains(key@),
            None => !keys_of(s@).contains(key@),
        },
{
    let mut i: usize = 0;
    while i < s.len()
        invariant
            i <= s@.len(),
            keys_of(s@).no_duplicates(),
            forall|j: int| 0 <= j < i ==> (#[trigger] s@[j]).0@ != key@,
        decreases s@.len() - i,
    {
        if str_eq(s[i].0.as_str(), key) {
            proof {
                lemma_key_index(s@, i as int);
            }
            return Some(i);
        }
        i = i + 1;
    }
    proof {
        if keys_of(s@).contains(key@) {
            let j = choose|j: int| 0 <= j < keys_of(s@).len() && keys_of(s@)[j] == key@;
            assert(s@[j].0@ == key@);
        }
    }
    None
}

pub proof fn lemma_push_distinct<V>(s: Seq<(String, V)>, e: (String, V))
    requires
        keys_of(s).no_duplicates(),
        !keys_of(s).contains(e.0@),
    ensures
        keys_of(s.push(e)).no_duplicates(),
        keys_of(s.push(e)) == keys_of(s).push(e.0@),
{
    let ks = keys_of(s.push(e));
    assert(ks =~= keys_of(s).push(e.0@));
    assert forall|a: int, b: int| 0 <= a < ks.len() && 0 <= b < ks.len() && a != b implies ks[a] != ks[b] by {
        if a < s.len() && b < s.len() {
            assert(ks[a] == keys_of(s)[a] && ks[b] == keys_of(s)[b]);
        } else if a < s.len() {
            assert(ks[a] == keys_of(s)[a]);
        } else {
            assert(ks[b] == keys_of(s)[b]);
        }
    }
}

/// The map that a keyed list stands for.
pub open spec fn keyed_map<V>(s: Seq<(String, V)>) -> Map<Seq<char>, V> {
    Map::new(|a: Seq<char>| keys_of(s).contains(a), |a: Seq<char>| s[key_index(s, a)].1)
}

/// The value under `key`, if any.
pub fn keyed_get<V: Copy>(v: &Vec<(String, V)>, key: &str) -> (r: Option<V>)
    requires
        keys_of(v@).no_duplicates(),
    ensures
        match r {
            Some(x) => keyed_map(v@).contains_key(key@) && keyed_map(v@)[key@] == x,
            None => !keyed_map(v@).contains_key(key@),
        },
{
    match find_key(v, key) {
        Some(i) => Some(v[i].1),
        None => None,
    }
}

/// Set `key` to `val`, replacing any earlier value.
pub fn keyed_put<V>(v: &mut Vec<(String, V)>, key: &str, val: V)
    requires
        keys_of(old(v)@).no_duplicates(),
    ensures
        keys_of(final(v)@).no_duplicates(),
        keyed_map(final(v)@) == keyed_map(old(v)@).insert(key@, val),
{
    let ghost s = v@;
    match find_key(v, key) {
        None => {
            v.push((owned(key), val));
            proof {
                let u = v@;
                lemma_push_distinct(s, u.last());
                assert(u == s.push(u.last()));
                lemma_key_index(u, s.len() as int);
                assert forall|a: Seq<char>| a != key@ && keys_of(s).contains(a) implies
                    keys_of(u).contains(a) && u[key_index(u, a)] == s[key_index(s, a)] by {
                    let j = key_index(s, a);
                    lemma_key_index(s, j);
                    assert(u[j] == s[j]);
                    lemma_key_index(u, j);
                }
                assert forall|a: Seq<char>| keys_of(u).contains(a) implies a == key@ || keys_of(s).contains(a) by {
                    let j = choose|j: int| 0 <= j < keys_of(u).len() && keys_of(u)[j] == a;
                    if j < s.len() {
                        assert(keys_of(s)[j] == a);
                    }
                }
                assert(keyed_map(u) =~= keyed_map(s).insert(key@, val));
            }
        },
        Some(i) => {
            let (k, _old) = v.remove(i);
            v.insert(i, (k, val));
            proof {
                let u = v@;
                assert(u =~= s.update(i as int, (s[i as int].0, val)));
                assert(keys_of(u) =~= keys_of(s));
                lemma_key_index(u, i as int);
                assert forall|a: Seq<char>| a != key@ && keys_of(s).contains(a) implies
                    u[key_index(u, a)] == s[key_index(s, a)] by {
                    let j = key_index(s, a);
                    lemma_key_index(s, j);
                    lemma_key_index(u, j);
                }
                assert(keyed_map(u) =~= keyed_map(s).insert(key@, val));
            }
        },
    }
}

} // verus!
