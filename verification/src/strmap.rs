//! A small text-keyed map: each key at most once, later inserts replacing
//! earlier values.
use vstd::prelude::*;
use crate::text::{owned, str_eq};

verus! {

/// A map from text keys to text values.
#[derive(Debug)]
pub struct StrMap {
    entries: Vec<(String, String)>,
}

/// The keys of a list of entries.
pub open spec fn entry_keys(e: Seq<(String, String)>) -> Seq<Seq<char>> {
    e.map_values(|p: (String, String)| p.0@)
}

/// The map that a list of entries (keys distinct) stands for.
pub open spec fn entries_map(e: Seq<(String, String)>) -> Map<Seq<char>, Seq<char>>
    decreases e.len(),
{
    if e.len() == 0 {
        Map::empty()
    } else {
        entries_map(e.drop_last()).insert(e.last().0@, e.last().1@)
    }
}

proof fn lemma_entries_map_dom(e: Seq<(String, String)>)
    ensures
        forall|k: Seq<char>| #[trigger] entries_map(e).contains_key(k) <==> entry_keys(e).contains(k),
    decreases e.len(),
{
    if e.len() > 0 {
        let d = e.drop_last();
        lemma_entries_map_dom(d);
        let last = e.last().0@;
        assert(entry_keys(e) =~= entry_keys(d).push(last));
        assert forall|k: Seq<char>| #[trigger] entries_map(e).contains_key(k) <==> entry_keys(e).contains(k) by {
            assert(entries_map(e).contains_key(k) <==> (entries_map(d).contains_key(k) || k == last));
            if entry_keys(e).contains(k) && k != last {
                let i = choose|i: int| 0 <= i < entry_keys(e).len() && entry_keys(e)[i] == k;
                assert(i < entry_keys(d).len());
                assert(entry_keys(d)[i] == k);
                assert(entry_keys(d).contains(k));
            }
            if entry_keys(d).contains(k) {
                let i = choose|i: int| 0 <= i < entry_keys(d).len() && entry_keys(d)[i] == k;
                assert(entry_keys(e)[i] == k);
            }
            if k == last {
                assert(entry_keys(e)[e.len() - 1] == k);
            }
        }
    } else {
        assert forall|k: Seq<char>| #[trigger] entries_map(e).contains_key(k) <==> entry_keys(e).contains(k) by {
            assert(entries_map(e) == Map::<Seq<char>, Seq<char>>::empty());
        }
    }
}

proof fn lemma_entries_map_at(e: Seq<(String, String)>, i: int)
    requires
        entry_keys(e).no_duplicates(),
        0 <= i < e.len(),
    ensures
        entries_map(e).contains_key(e[i].0@),
        entries_map(e)[e[i].0@] == e[i].1@,
    decreases e.len(),
{
    lemma_entries_map_dom(e);
    assert(entry_keys(e)[i] == e[i].0@);
    if i < e.len() - 1 {
        let d = e.drop_last();
        assert(entry_keys(d) =~= entry_keys(e).drop_last());
        assert(entry_keys(e)[i] != entry_keys(e)[e.len() - 1]);
        assert(d[i] == e[i]);
        lemma_entries_map_at(d, i);
    }
}

proof fn lemma_entries_map_update(e: Seq<(String, String)>, i: int, v: String)
    requires
        entry_keys(e).no_duplicates(),
        0 <= i < e.len(),
    ensures
        entries_map(e.update(i, (e[i].0, v))) == entries_map(e).insert(e[i].0@, v@),
        entry_keys(e.update(i, (e[i].0, v))) == entry_keys(e),
    decreases e.len(),
{
    let u = e.update(i, (e[i].0, v));
    assert(entry_keys(u) =~= entry_keys(e));
    if i == e.len() - 1 {
        assert(u.drop_last() =~= e.drop_last());
        assert(entries_map(u) =~= entries_map(e).insert(e[i].0@, v@));
    } else {
        let d = e.drop_last();
        assert(entry_keys(d) =~= entry_keys(e).drop_last());
        assert(u.drop_last() =~= d.update(i, (d[i].0, v)));
        lemma_entries_map_update(d, i, v);
        assert(entry_keys(e)[i] != entry_keys(e)[e.len() - 1]);
        assert(entries_map(u) =~= entries_map(e).insert(e[i].0@, v@));
    }
}

proof fn lemma_entries_map_remove(e: Seq<(String, String)>, i: int)
    requires
        entry_keys(e).no_duplicates(),
        0 <= i < e.len(),
    ensures
        entries_map(e.remove(i)) == entries_map(e).remove(e[i].0@),
        entry_keys(e.remove(i)).no_duplicates(),
    decreases e.len(),
{
    let r = e.remove(i);
    let k = e[i].0@;
    assert(entry_keys(r) =~= entry_keys(e).remove(i));
    assert(entry_keys(r).no_duplicates()) by {
        let ks = entry_keys(e);
        assert forall|a: int, b: int| 0 <= a < entry_keys(r).len() && 0 <= b < entry_keys(r).len() && a != b
            implies entry_keys(r)[a] != entry_keys(r)[b] by {
            let a2 = if a < i { a } else { a + 1 };
            let b2 = if b < i { b } else { b + 1 };
            assert(entry_keys(r)[a] == ks[a2]);
            assert(entry_keys(r)[b] == ks[b2]);
        }
    }
    let d = e.drop_last();
    assert(entry_keys(d) =~= entry_keys(e).drop_last());
    lemma_entries_map_dom(d);
    if i == e.len() - 1 {
        assert(r =~= d);
        if entry_keys(d).contains(k) {
            let j = choose|j: int| 0 <= j < entry_keys(d).len() && entry_keys(d)[j] == k;
            assert(entry_keys(e)[j] == entry_keys(e)[e.len() - 1]);
        }
        assert(entries_map(r) =~= entries_map(e).remove(k));
    } else {
        assert(r.drop_last() =~= d.remove(i));
        assert(r.last() == e.last());
        assert(d[i] == e[i]);
        lemma_entries_map_remove(d, i);
        assert(entry_keys(e)[i] != entry_keys(e)[e.len() - 1]);
        assert(entries_map(r) =~= entries_map(e).remove(k));
    }
}

impl View for StrMap {
    type V = Map<Seq<char>, Seq<char>>;

    closed spec fn view(&self) -> Map<Seq<char>, Seq<char>> {
        entries_map(self.entries@)
    }
}

impl Default for StrMap {
    fn default() -> (m: Self)
        ensures
            m@ == Map::<Seq<char>, Seq<char>>::empty(),
    {
        StrMap::new()
    }
}

impl Clone for StrMap {
    fn clone(&self) -> (m: Self)
        ensures
            m@ == self@,
    {
        proof {
            use_type_invariant(&*self);
        }
        let mut entries: Vec<(String, String)> = Vec::new();
        let mut i: usize = 0;
        while i < self.entries.len()
            invariant
                i <= self.entries@.len(),
                entries@ == self.entries@.take(i as int),
            decreases self.entries@.len() - i,
        {
            let k = self.entries[i].0.clone();
            let v = self.entries[i].1.clone();
            entries.push((k, v));
            assert(entries@ =~= self.entries@.take(i + 1));
            i = i + 1;
        }
        assert(entries@ =~= self.entries@);
        StrMap { entries }
    }
}

impl StrMap {
    #[verifier::type_invariant]
    closed spec fn keys_distinct(self) -> bool {
        entry_keys(self.entries@).no_duplicates()
    }

    /// An empty map.
    pub fn new() -> (m: Self)
        ensures
            m@ == Map::<Seq<char>, Seq<char>>::empty(),
    {
        StrMap { entries: Vec::new() }
    }

    /// The value under `key`, if any.
    pub fn get(&self, key: &str) -> (r: Option<&String>)
        ensures
            self@.contains_key(key@) ==> (r matches Some(v) && v@ == self@[key@]),
            !self@.contains_key(key@) ==> r is None,
    {
        proof {
            use_type_invariant(&*self);
            lemma_entries_map_dom(self.entries@);
        }
        let mut i: usize = 0;
        while i < self.entries.len()
            invariant
                i <= self.entries@.len(),
                forall|j: int| 0 <= j < i ==> (#[trigger] self.entries@[j]).0@ != key@,
            decreases self.entries@.len() - i,
        {
            if str_eq(self.entries[i].0.as_str(), key) {
                proof {
                    use_type_invariant(&*self);
                    lemma_entries_map_at(self.entries@, i as int);
                }
                return Some(&self.entries[i].1);
            }
            i = i + 1;
        }
        proof {
            if entry_keys(self.entries@).contains(key@) {
                let j = choose|j: int| 0 <= j < entry_keys(self.entries@).len() && entry_keys(self.entries@)[j] == key@;
                assert(self.entries@[j].0@ == key@);
            }
        }
        None
    }

    /// Whether `key` is present.
    pub fn contains_key(&self, key: &str) -> (r: bool)
        ensures
            r == self@.contains_key(key@),
    {
        self.get(key).is_some()
    }

    /// The number of keys.
    pub fn len(&self) -> (n: usize)
        ensures
            n == self@.len(),
    {
        proof {
            use_type_invariant(&*self);
            lemma_entries_map_len(self.entries@);
        }
        self.entries.len()
    }

    /// Remove `key` and its value, if present.
    pub fn remove(&mut self, key: &str)
        ensures
            final(self)@ == old(self)@.remove(key@),
    {
        proof {
            use_type_invariant(&*self);
            lemma_entries_map_dom(self.entries@);
        }
        let mut entries: Vec<(String, String)> = Vec::new();
        std::mem::swap(&mut entries, &mut self.entries);
        let ghost e = entries@;
        let mut i: usize = 0;
        while i < entries.len() && !str_eq(entries[i].0.as_str(), key)
            invariant
                entries@ == e,
                i <= e.len(),
                forall|j: int| 0 <= j < i ==> (#[trigger] e[j]).0@ != key@,
            decreases e.len() - i,
        {
            i = i + 1;
        }
        if i < entries.len() {
            proof {
                lemma_entries_map_remove(e, i as int);
            }
            let _gone = entries.remove(i);
        } else {
            proof {
                if entry_keys(e).contains(key@) {
                    let j = choose|j: int| 0 <= j < entry_keys(e).len() && entry_keys(e)[j] == key@;
                    assert(e[j].0@ == key@);
                }
                assert(entries_map(e).remove(key@) =~= entries_map(e));
            }
        }
        std::mem::swap(&mut entries, &mut self.entries);
    }

    /// Set `key` to `value`, replacing any earlier value.
    pub fn insert(&mut self, key: &str, value: &str)
        ensures
            final(self)@ == old(self)@.insert(key@, value@),
    {
        proof {
            use_type_invariant(&*self);
        }
        let mut entries: Vec<(String, String)> = Vec::new();
        std::mem::swap(&mut entries, &mut self.entries);
        let ghost e = entries@;
        assert(e == old(self).entries@);
        proof {
            lemma_entries_map_dom(e);
        }
        let mut i: usize = 0;
        while i < entries.len() && !str_eq(entries[i].0.as_str(), key)
            invariant
                entries@ == e,
                i <= e.len(),
                forall|j: int| 0 <= j < i ==> (#[trigger] e[j]).0@ != key@,
            decreases e.len() - i,
        {
            i = i + 1;
        }
        if i < entries.len() {
            let k = entries[i].0.clone();
            let v = owned(value);
            proof {
                lemma_entries_map_update(e, i as int, v);
            }
            entries.set(i, (k, v));
        } else {
            proof {
                if entry_keys(e).contains(key@) {
                    let j = choose|j: int| 0 <= j < entry_keys(e).len() && entry_keys(e)[j] == key@;
                    assert(e[j].0@ == key@);
                }
            }
            entries.push((owned(key), owned(value)));
            assert(entries@.drop_last() =~= e);
            assert(entry_keys(entries@) =~= entry_keys(e).push(key@));
            assert(!entry_keys(e).contains(key@));
            assert(entry_keys(entries@).no_duplicates()) by {
                let ks = entry_keys(entries@);
                assert forall|a: int, b: int| 0 <= a < ks.len() && 0 <= b < ks.len() && a != b implies ks[a] != ks[b] by {
                    if a == ks.len() - 1 {
                        assert(entry_keys(e)[b] == ks[b]);
                    } else if b == ks.len() - 1 {
                        assert(entry_keys(e)[a] == ks[a]);
                    } else {
                        assert(entry_keys(e)[a] == ks[a]);
                        assert(entry_keys(e)[b] == ks[b]);
                    }
                }
            }
            assert(entries_map(entries@) == entries_map(e).insert(key@, value@));
        }
        std::mem::swap(&mut entries, &mut self.entries);
    }
}

proof fn lemma_entries_map_len(e: Seq<(String, String)>)
    requires
        entry_keys(e).no_duplicates(),
    ensures
        entries_map(e).len() == e.len(),
        entries_map(e).dom().finite(),
    decreases e.len(),
{
    if e.len() > 0 {
        let d = e.drop_last();
        assert(entry_keys(d) =~= entry_keys(e).drop_last());
        lemma_entries_map_len(d);
        lemma_entries_map_dom(d);
        assert(entry_keys(e)[e.len() - 1] == e.last().0@);
        if entry_keys(d).contains(e.last().0@) {
            let j = choose|j: int| 0 <= j < entry_keys(d).len() && entry_keys(d)[j] == e.last().0@;
            assert(entry_keys(e)[j] == entry_keys(e)[e.len() - 1]);
        }
        assert(!entries_map(d).contains_key(e.last().0@));
    }
}

} // verus!
