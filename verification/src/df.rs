//! The Directory Facilitator: the yellow pages, mapping a service to the
//! agents that provide it.
//!
//! Providers register themselves for a service; a search answers the sorted
//! providers of a service, empty when there are none. The registry is bounded:
//! a brand-new service is refused once the registry holds the maximum number
//! of services, and a new provider is refused once its service has the maximum
//! number of providers. Registering again is harmless.
use vstd::prelude::*;
use crate::order::{
    contains_text, insert_sorted, lemma_sorted_insert, sorted_insert, strictly_sorted, texts,
};
use crate::text::{copy_strings, owned, str_eq};

verus! {

/// The default cap on distinct services.
pub const DEFAULT_MAX_SERVICES: usize = 4096;

/// The default cap on providers of one service.
pub const DEFAULT_MAX_PROVIDERS_PER_SERVICE: usize = 256;

/// A directory as plain values: each service with its sorted providers, and
/// the two caps.
pub struct DfView {
    pub registry: Map<Seq<char>, Seq<Seq<char>>>,
    pub max_services: nat,
    pub max_providers_per_service: nat,
}

/// Every provider list is strictly sorted.
pub open spec fn lists_sorted(d: DfView) -> bool {
    forall|s: Seq<char>| #[trigger] d.registry.contains_key(s) ==> strictly_sorted(d.registry[s])
}

/// The providers of `service`: its list, or none.
pub open spec fn providers_of(d: DfView, service: Seq<char>) -> Seq<Seq<char>> {
    if d.registry.contains_key(service) {
        d.registry[service]
    } else {
        Seq::empty()
    }
}

/// What an offer of `service` by `from` answers, and the directory after it.
/// A new service is refused when the registry is full; a new provider is
/// refused when the service's list is full. A service first offered while the
/// per-service cap is zero is entered with no providers.
pub open spec fn offer_spec(d: DfView, from: Seq<char>, service: Seq<char>) -> (bool, DfView) {
    if !d.registry.contains_key(service) {
        if d.registry.dom().len() >= d.max_services {
            (false, d)
        } else if d.max_providers_per_service == 0 {
            (false, DfView { registry: d.registry.insert(service, Seq::empty()), ..d })
        } else {
            (true, DfView { registry: d.registry.insert(service, seq![from]), ..d })
        }
    } else {
        let l = d.registry[service];
        if l.len() >= d.max_providers_per_service && !l.contains(from) {
            (false, d)
        } else {
            (true, DfView { registry: d.registry.insert(service, sorted_insert(l, from)), ..d })
        }
    }
}

/// The providers that a seed list names for `service`.
pub open spec fn seeded(data: Seq<(String, Vec<String>)>, service: Seq<char>) -> Set<Seq<char>>
    decreases data.len(),
{
    if data.len() == 0 {
        Set::empty()
    } else {
        let rest = seeded(data.drop_last(), service);
        if data.last().0@ == service {
            rest.union(texts(data.last().1@).to_set())
        } else {
            rest
        }
    }
}

/// Whether a seed list names `service`.
pub open spec fn seeds_service(data: Seq<(String, Vec<String>)>, service: Seq<char>) -> bool {
    exists|i: int| 0 <= i < data.len() && (#[trigger] data[i]).0@ == service
}

spec fn entry_keys(e: Seq<(String, Vec<String>)>) -> Seq<Seq<char>> {
    e.map_values(|p: (String, Vec<String>)| p.0@)
}

spec fn entries_map(e: Seq<(String, Vec<String>)>) -> Map<Seq<char>, Seq<Seq<char>>>
    decreases e.len(),
{
    if e.len() == 0 {
        Map::empty()
    } else {
        entries_map(e.drop_last()).insert(e.last().0@, texts(e.last().1@))
    }
}

proof fn lemma_entries_dom(e: Seq<(String, Vec<String>)>)
    ensures
        forall|k: Seq<char>| #[trigger] entries_map(e).contains_key(k) <==> entry_keys(e).contains(k),
    decreases e.len(),
{
    if e.len() > 0 {
        let d = e.drop_last();
        lemma_entries_dom(d);
        let last = e.last().0@;
        assert(entry_keys(e) =~= entry_keys(d).push(last));
        assert forall|k: Seq<char>| #[trigger] entries_map(e).contains_key(k) <==> entry_keys(e).contains(k) by {
            assert(entries_map(e).contains_key(k) <==> (entries_map(d).contains_key(k) || k == last));
            if entry_keys(e).contains(k) && k != last {
                let i = choose|i: int| 0 <= i < entry_keys(e).len() && entry_keys(e)[i] == k;
                assert(entry_keys(d)[i] == k);
            }
            if entry_keys(d).contains(k) {
                let i = choose|i: int| 0 <= i < entry_keys(d).len() && entry_keys(d)[i] == k;
                assert(entry_keys(e)[i] == k);
            }
            if k == last {
                assert(entry_keys(e)[e.len() - 1] == k);
            }
        }
    } else {
        assert forall|k: Seq<char>| #[trigger] entries_map(e).contains_key(k) <==> entry_keys(e).contains(k) by {
            assert(entries_map(e) == Map::<Seq<char>, Seq<Seq<char>>>::empty());
        }
    }
}

proof fn lemma_entries_at(e: Seq<(String, Vec<String>)>, i: int)
    requires
        entry_keys(e).no_duplicates(),
        0 <= i < e.len(),
    ensures
        entries_map(e).contains_key(e[i].0@),
        entries_map(e)[e[i].0@] == texts(e[i].1@),
    decreases e.len(),
{
    lemma_entries_dom(e);
    assert(entry_keys(e)[i] == e[i].0@);
    if i < e.len() - 1 {
        let d = e.drop_last();
        assert(entry_keys(d) =~= entry_keys(e).drop_last());
        assert(entry_keys(e)[i] != entry_keys(e)[e.len() - 1]);
        assert(d[i] == e[i]);
        lemma_entries_at(d, i);
    }
}

proof fn lemma_entries_update(e: Seq<(String, Vec<String>)>, i: int, v: Vec<String>)
    requires
        entry_keys(e).no_duplicates(),
        0 <= i < e.len(),
    ensures
        entries_map(e.update(i, (e[i].0, v))) == entries_map(e).insert(e[i].0@, texts(v@)),
        entry_keys(e.update(i, (e[i].0, v))) == entry_keys(e),
    decreases e.len(),
{
    let u = e.update(i, (e[i].0, v));
    assert(entry_keys(u) =~= entry_keys(e));
    if i == e.len() - 1 {
        assert(u.drop_last() =~= e.drop_last());
        assert(entries_map(u) =~= entries_map(e).insert(e[i].0@, texts(v@)));
    } else {
        let d = e.drop_last();
        assert(entry_keys(d) =~= entry_keys(e).drop_last());
        assert(u.drop_last() =~= d.update(i, (d[i].0, v)));
        lemma_entries_update(d, i, v);
        assert(entry_keys(e)[i] != entry_keys(e)[e.len() - 1]);
        assert(entries_map(u) =~= entries_map(e).insert(e[i].0@, texts(v@)));
    }
}

proof fn lemma_entries_len(e: Seq<(String, Vec<String>)>)
    requires
        entry_keys(e).no_duplicates(),
    ensures
        entries_map(e).dom().len() == e.len(),
        entries_map(e).dom().finite(),
    decreases e.len(),
{
    if e.len() > 0 {
        let d = e.drop_last();
        assert(entry_keys(d) =~= entry_keys(e).drop_last());
        lemma_entries_len(d);
        lemma_entries_dom(d);
        assert(entry_keys(e)[e.len() - 1] == e.last().0@);
        if entry_keys(d).contains(e.last().0@) {
            let j = choose|j: int| 0 <= j < entry_keys(d).len() && entry_keys(d)[j] == e.last().0@;
            assert(entry_keys(e)[j] == entry_keys(e)[e.len() - 1]);
        }
        assert(!entries_map(d).contains_key(e.last().0@));
    }
}

/// The directory: each service with its providers, kept sorted.
pub struct Df {
    entries: Vec<(String, Vec<String>)>,
    max_services: usize,
    max_providers_per_service: usize,
}

impl View for Df {
    type V = DfView;

    closed spec fn view(&self) -> DfView {
        DfView {
            registry: entries_map(self.entries@),
            max_services: self.max_services as nat,
            max_providers_per_service: self.max_providers_per_service as nat,
        }
    }
}

impl Default for Df {
    fn default() -> (d: Self)
        ensures
            d@.registry == Map::<Seq<char>, Seq<Seq<char>>>::empty(),
            d@.max_services == DEFAULT_MAX_SERVICES,
            d@.max_providers_per_service == DEFAULT_MAX_PROVIDERS_PER_SERVICE,
    {
        Df::new()
    }
}

impl Df {
    #[verifier::type_invariant]
    closed spec fn well_formed(self) -> bool {
        &&& entry_keys(self.entries@).no_duplicates()
        &&& forall|i: int| 0 <= i < self.entries@.len() ==> strictly_sorted(texts((#[trigger] self.entries@[i]).1@))
    }

    proof fn lemma_view_sorted(&self)
        requires
            self.well_formed(),
        ensures
            lists_sorted(self@),
            self@.registry.dom().finite(),
            self@.registry.dom().len() == self.entries@.len(),
    {
        lemma_entries_len(self.entries@);
        lemma_entries_dom(self.entries@);
        assert forall|s: Seq<char>| #[trigger] self@.registry.contains_key(s) implies strictly_sorted(self@.registry[s]) by {
            let i = choose|i: int| 0 <= i < entry_keys(self.entries@).len() && entry_keys(self.entries@)[i] == s;
            lemma_entries_at(self.entries@, i);
            assert(strictly_sorted(texts(self.entries@[i].1@)));
        }
    }

    /// An empty directory with the default caps.
    pub fn new() -> (d: Self)
        ensures
            d@.registry == Map::<Seq<char>, Seq<Seq<char>>>::empty(),
            d@.max_services == DEFAULT_MAX_SERVICES,
            d@.max_providers_per_service == DEFAULT_MAX_PROVIDERS_PER_SERVICE,
    {
        Df {
            entries: Vec::new(),
            max_services: DEFAULT_MAX_SERVICES,
            max_providers_per_service: DEFAULT_MAX_PROVIDERS_PER_SERVICE,
        }
    }

    /// The same directory with other caps.
    pub fn with_limits(self, max_services: usize, max_providers_per_service: usize) -> (d: Self)
        ensures
            d@ == (DfView {
                max_services: max_services as nat,
                max_providers_per_service: max_providers_per_service as nat,
                ..self@
            }),
    {
        proof {
            use_type_invariant(&self);
        }
        let Df { entries, max_services: _, max_providers_per_service: _ } = self;
        Df { entries, max_services, max_providers_per_service }
    }

    /// The index of `service`'s entry.
    fn position(&self, service: &str) -> (r: Option<usize>)
        ensures
            r matches Some(i) ==> i < self.entries@.len() && self.entries@[i as int].0@ == service@,
            r is None ==> !self@.registry.contains_key(service@),
    {
        proof {
            lemma_entries_dom(self.entries@);
        }
        let mut i: usize = 0;
        while i < self.entries.len()
            invariant
                i <= self.entries@.len(),
                forall|j: int| 0 <= j < i ==> (#[trigger] self.entries@[j]).0@ != service@,
            decreases self.entries@.len() - i,
        {
            if str_eq(self.entries[i].0.as_str(), service) {
                return Some(i);
            }
            i = i + 1;
        }
        proof {
            if entry_keys(self.entries@).contains(service@) {
                let j = choose|j: int| 0 <= j < entry_keys(self.entries@).len() && entry_keys(self.entries@)[j] == service@;
                assert(self.entries@[j].0@ == service@);
            }
        }
        None
    }

    /// The providers of `service`, sorted; empty when there are none.
    pub fn providers(&self, service: &str) -> (r: Vec<String>)
        ensures
            texts(r@) == providers_of(self@, service@),
            strictly_sorted(texts(r@)),
    {
        proof {
            use_type_invariant(self);
            self.lemma_view_sorted();
        }
        match self.position(service) {
            Some(i) => {
                proof {
                    lemma_entries_at(self.entries@, i as int);
                }
                copy_strings(&self.entries[i].1)
            },
            None => Vec::new(),
        }
    }

    /// Replace the providers of the entry at `i`.
    fn set_list(&mut self, i: usize, list: Vec<String>)
        requires
            i < old(self).entries@.len(),
            strictly_sorted(texts(list@)),
        ensures
            final(self)@ == (DfView {
                registry: old(self)@.registry.insert(old(self).entries@[i as int].0@, texts(list@)),
                ..old(self)@
            }),
    {
        proof {
            use_type_invariant(&*self);
        }
        let mut entries: Vec<(String, Vec<String>)> = Vec::new();
        std::mem::swap(&mut entries, &mut self.entries);
        let ghost e = entries@;
        let (k, _old) = entries.remove(i);
        entries.insert(i, (k, list));
        proof {
            assert(entries@ =~= e.update(i as int, (e[i as int].0, list)));
            lemma_entries_update(e, i as int, list);
            assert forall|j: int| 0 <= j < entries@.len() implies strictly_sorted(texts((#[trigger] entries@[j]).1@)) by {
                if j != i {
                    assert(entries@[j] == e[j]);
                }
            }
        }
        std::mem::swap(&mut entries, &mut self.entries);
    }

    /// Add an entry for a service that has none.
    fn push_entry(&mut self, service: &str, list: Vec<String>)
        requires
            !old(self)@.registry.contains_key(service@),
            strictly_sorted(texts(list@)),
        ensures
            final(self)@ == (DfView {
                registry: old(self)@.registry.insert(service@, texts(list@)),
                ..old(self)@
            }),
    {
        proof {
            use_type_invariant(&*self);
            lemma_entries_dom(self.entries@);
        }
        let mut entries: Vec<(String, Vec<String>)> = Vec::new();
        std::mem::swap(&mut entries, &mut self.entries);
        let ghost e = entries@;
        entries.push((owned(service), list));
        proof {
            assert(entries@.drop_last() =~= e);
            assert(entry_keys(entries@) =~= entry_keys(e).push(service@));
            assert(entry_keys(entries@).no_duplicates()) by {
                let ks = entry_keys(entries@);
                assert forall|a: int, b: int| 0 <= a < ks.len() && 0 <= b < ks.len() && a != b implies ks[a] != ks[b] by {
                    if a == ks.len() - 1 {
                        assert(entry_keys(e)[b] == ks[b]);
                    } else if b == ks.len() - 1 {
                        assert(entry_keys(e)[a] == ks[a]);
                    } else {
                        assert(entry_keys(e)[a] == ks[a]);
                        assert(entry_keys(e)[b] == ks[b]);
                    }
                }
            }
            assert forall|j: int| 0 <= j < entries@.len() implies strictly_sorted(texts((#[trigger] entries@[j]).1@)) by {
                if j < e.len() {
                    assert(entries@[j] == e[j]);
                }
            }
        }
        std::mem::swap(&mut entries, &mut self.entries);
    }

    /// `from` offers `service`: registered (true) or refused (false).
    pub fn offer(&mut self, from: &str, service: &str) -> (registered: bool)
        ensures
            (registered, final(self)@) == offer_spec(old(self)@, from@, service@),
            lists_sorted(final(self)@),
    {
        proof {
            use_type_invariant(&*self);
            self.lemma_view_sorted();
        }
        let cap_s = self.max_services;
        let cap_p = self.max_providers_per_service;
        let registered = match self.position(service) {
            None => {
                if self.entries.len() >= cap_s {
                    false
                } else {
                    let mut list: Vec<String> = Vec::new();
                    let ok = cap_p > 0;
                    if ok {
                        list.push(owned(from));
                    }
                    proof {
                        if ok {
                            assert(texts(list@) =~= seq![from@]);
                        } else {
                            assert(texts(list@) =~= Seq::<Seq<char>>::empty());
                        }
                    }
                    self.push_entry(service, list);
                    ok
                }
            },
            Some(i) => {
                proof {
                    lemma_entries_at(self.entries@, i as int);
                }
                let n = self.entries[i].1.len();
                let present = contains_text(&self.entries[i].1, from);
                if n >= cap_p && !present {
                    false
                } else {
                    let mut list = copy_strings(&self.entries[i].1);
                    insert_sorted(&mut list, from);
                    proof {
                        lemma_sorted_insert(texts(self.entries@[i as int].1@), from@);
                    }
                    self.set_list(i, list);
                    true
                }
            },
        };
        proof {
            use_type_invariant(&*self);
            self.lemma_view_sorted();
        }
        registered
    }

    /// Make sure `service` has an entry (empty when new).
    fn ensure_entry(&mut self, service: &str)
        ensures
            final(self)@ == (DfView {
                registry: if old(self)@.registry.contains_key(service@) {
                    old(self)@.registry
                } else {
                    old(self)@.registry.insert(service@, Seq::empty())
                },
                ..old(self)@
            }),
    {
        proof {
            use_type_invariant(&*self);
        }
        match self.position(service) {
            Some(i) => {
                proof {
                    lemma_entries_at(self.entries@, i as int);
                    assert(self@.registry.insert(service@, self@.registry[service@]) =~= self@.registry);
                }
            },
            None => {
                let list: Vec<String> = Vec::new();
                proof {
                    assert(texts(list@) =~= Seq::<Seq<char>>::empty());
                }
                self.push_entry(service, list);
            },
        }
    }

    /// Add `provider` to the entry of `service`, which exists; no cap applies.
    fn add_provider(&mut self, service: &str, provider: &str)
        requires
            old(self)@.registry.contains_key(service@),
        ensures
            final(self)@ == (DfView {
                registry: old(self)@.registry.insert(
                    service@,
                    sorted_insert(old(self)@.registry[service@], provider@),
                ),
                ..old(self)@
            }),
    {
        proof {
            use_type_invariant(&*self);
        }
        match self.position(service) {
            Some(i) => {
                proof {
                    lemma_entries_at(self.entries@, i as int);
                    lemma_sorted_insert(texts(self.entries@[i as int].1@), provider@);
                }
                let mut list = copy_strings(&self.entries[i].1);
                insert_sorted(&mut list, provider);
                self.set_list(i, list);
            },
            None => {},
        }
    }

    /// Seed the directory: each listed service gets an entry, and its
    /// providers join those it has; no cap applies.
    pub fn seed(&mut self, data: &Vec<(String, Vec<String>)>)
        ensures
            final(self)@.max_services == old(self)@.max_services,
            final(self)@.max_providers_per_service == old(self)@.max_providers_per_service,
            lists_sorted(final(self)@),
            forall|s: Seq<char>| #[trigger] final(self)@.registry.contains_key(s) <==>
                (old(self)@.registry.contains_key(s) || seeds_service(data@, s)),
            forall|s: Seq<char>| #[trigger] final(self)@.registry.contains_key(s) ==>
                final(self)@.registry[s].to_set() == providers_of(old(self)@, s).to_set().union(seeded(data@, s)),
    {
        let ghost d0 = self@;
        let mut i: usize = 0;
        while i < data.len()
            invariant
                i <= data@.len(),
                self@.max_services == d0.max_services,
                self@.max_providers_per_service == d0.max_providers_per_service,
                forall|s: Seq<char>| #[trigger] self@.registry.contains_key(s) <==>
                    (d0.registry.contains_key(s) || seeds_service(data@.take(i as int), s)),
                forall|s: Seq<char>| #[trigger] self@.registry.contains_key(s) ==>
                    self@.registry[s].to_set() == providers_of(d0, s).to_set().union(seeded(data@.take(i as int), s)),
            decreases data@.len() - i,
        {
            let ghost before = self@;
            let ghost pre = data@.take(i as int);
            let ghost next = data@.take(i as int + 1);
            let service = data[i].0.as_str();
            let list = &data[i].1;
            self.ensure_entry(service);
            let ghost mid = self@;
            let mut j: usize = 0;
            while j < list.len()
                invariant
                    j <= list@.len(),
                    self@.max_services == d0.max_services,
                    self@.max_providers_per_service == d0.max_providers_per_service,
                    self@.registry.contains_key(service@),
                    self@.registry.dom() == mid.registry.dom(),
                    forall|s: Seq<char>| s != service@ && #[trigger] self@.registry.contains_key(s) ==>
                        self@.registry[s] == mid.registry[s],
                    self@.registry[service@].to_set() == providers_of(mid, service@).to_set().union(
                        texts(list@.take(j as int)).to_set()),
                decreases list@.len() - j,
            {
                let ghost cur = self@;
                proof {
                    use_type_invariant(&*self);
                    self.lemma_view_sorted();
                    lemma_sorted_insert(cur.registry[service@], list@[j as int]@);
                    assert(texts(list@.take(j as int + 1)) =~= texts(list@.take(j as int)).push(list@[j as int]@));
                    texts(list@.take(j as int)).lemma_push_to_set_commute(list@[j as int]@);
                }
                self.add_provider(service, list[j].as_str());
                proof {
                    assert(self@.registry.dom() =~= mid.registry.dom());
                    assert(self@.registry[service@].to_set() =~= providers_of(mid, service@).to_set().union(
                        texts(list@.take(j as int + 1)).to_set()));
                }
                j = j + 1;
            }
            proof {
                assert(list@.take(list@.len() as int) =~= list@);
                assert(next.drop_last() =~= pre);
                assert(next.last() == data@[i as int]);
                assert forall|s: Seq<char>| #[trigger] self@.registry.contains_key(s) <==>
                    (d0.registry.contains_key(s) || seeds_service(next, s)) by {
                    if seeds_service(next, s) && !seeds_service(pre, s) {
                        let k = choose|k: int| 0 <= k < next.len() && (#[trigger] next[k]).0@ == s;
                        if k < i {
                            assert(pre[k] == next[k]);
                        }
                    }
                    if seeds_service(pre, s) {
                        let k = choose|k: int| 0 <= k < pre.len() && (#[trigger] pre[k]).0@ == s;
                        assert(next[k] == pre[k]);
                    }
                    if s == service@ {
                        assert(next[i as int].0@ == s);
                    }
                }
                assert forall|s: Seq<char>| #[trigger] self@.registry.contains_key(s) implies
                    self@.registry[s].to_set() == providers_of(d0, s).to_set().union(seeded(next, s)) by {
                    if s == service@ {
                        if before.registry.contains_key(s) {
                            assert(providers_of(mid, s) == before.registry[s]);
                        } else {
                            assert(providers_of(mid, s) =~= Seq::<Seq<char>>::empty());
                            assert(providers_of(d0, s).to_set().union(seeded(pre, s)) =~= Set::<Seq<char>>::empty()) by {
                                if !d0.registry.contains_key(s) {
                                    assert(providers_of(d0, s).to_set() =~= Set::<Seq<char>>::empty());
                                }
                                if !seeded(pre, s).is_empty() {
                                    lemma_seeded_names(pre, s);
                                }
                            }
                            assert(providers_of(mid, s).to_set() =~= Set::<Seq<char>>::empty());
                        }
                        assert(self@.registry[s].to_set() =~= providers_of(d0, s).to_set().union(seeded(next, s)));
                    } else {
                        assert(self@.registry[s] == mid.registry[s]);
                        assert(mid.registry[s] == before.registry[s]);
                        assert(seeded(next, s) == seeded(pre, s));
                    }
                }
            }
            i = i + 1;
        }
        proof {
            assert(data@.take(data@.len() as int) =~= data@);
            use_type_invariant(&*self);
            self.lemma_view_sorted();
        }
    }
}

/// A service with seeded providers is one that the seed names.
proof fn lemma_seeded_names(data: Seq<(String, Vec<String>)>, s: Seq<char>)
    requires
        !seeded(data, s).is_empty(),
    ensures
        seeds_service(data, s),
    decreases data.len(),
{
    if data.len() > 0 {
        let d = data.drop_last();
        if data.last().0@ == s {
            assert(data[data.len() - 1].0@ == s);
        } else {
            assert(seeded(data, s) == seeded(d, s));
            lemma_seeded_names(d, s);
            let k = choose|k: int| 0 <= k < d.len() && (#[trigger] d[k]).0@ == s;
            assert(data[k] == d[k]);
        }
    } else {
        assert(seeded(data, s) =~= Set::<Seq<char>>::empty());
    }
}

/// The registry holds no more services, and no service more providers, than
/// its caps allow.
pub open spec fn within_caps(d: DfView) -> bool {
    &&& d.registry.dom().finite()
    &&& d.registry.dom().len() <= d.max_services
    &&& forall|s: Seq<char>| #[trigger] d.registry.contains_key(s) ==> d.registry[s].len() <= d.max_providers_per_service
}

/// An offer keeps the registry within its caps.
pub proof fn law_offer_keeps_caps(d: DfView, from: Seq<char>, service: Seq<char>)
    requires
        lists_sorted(d),
        within_caps(d),
    ensures
        within_caps(offer_spec(d, from, service).1),
        lists_sorted(offer_spec(d, from, service).1),
{
    let after = offer_spec(d, from, service).1;
    if d.registry.contains_key(service) {
        lemma_sorted_insert(d.registry[service], from);
        assert(after.registry.dom() =~= d.registry.dom());
    } else if d.registry.dom().len() < d.max_services {
        assert(strictly_sorted(seq![from]));
        assert(strictly_sorted(Seq::<Seq<char>>::empty()));
    }
}

/// Offering the same service twice leaves the directory, and the answer, as
/// offering it once.
pub proof fn law_offer_idempotent(d: DfView, from: Seq<char>, service: Seq<char>)
    ensures
        offer_spec(offer_spec(d, from, service).1, from, service) == offer_spec(d, from, service),
{
    let (r1, d1) = offer_spec(d, from, service);
    crate::order::lemma_text_lt_irreflexive(from);
    if d.registry.contains_key(service) {
        let l = d.registry[service];
        if !(l.len() >= d.max_providers_per_service && !l.contains(from)) {
            crate::order::lemma_sorted_insert_twice(l, from);
            crate::order::lemma_pos_exists(l, from);
            let i = crate::order::insert_pos(l, from);
            let r = sorted_insert(l, from);
            assert(r[i] == from);
            assert(r.contains(from));
            assert(d1.registry.insert(service, sorted_insert(r, from)) =~= d1.registry);
        }
    } else if d.registry.dom().len() < d.max_services {
        if d.max_providers_per_service == 0 {
            assert(d1.registry.insert(service, Seq::empty()) =~= d1.registry);
        } else {
            let one = seq![from];
            assert(one[0] == from);
            assert(crate::order::pos_ok(one, from, 0));
            crate::order::lemma_pos_exists(one, from);
            crate::order::lemma_pos_unique(one, from, 0, crate::order::insert_pos(one, from));
            assert(d1.registry.insert(service, sorted_insert(one, from)) =~= d1.registry);
        }
    }
}

/// A provider whose offer was accepted is found by a search for the service.
pub proof fn law_register_then_search(d: DfView, from: Seq<char>, service: Seq<char>)
    requires
        lists_sorted(d),
        offer_spec(d, from, service).0,
    ensures
        providers_of(offer_spec(d, from, service).1, service).contains(from),
{
    if d.registry.contains_key(service) {
        lemma_sorted_insert(d.registry[service], from);
        assert(sorted_insert(d.registry[service], from).to_set().contains(from));
    } else {
        assert(seq![from][0] == from);
    }
}

} // verus!
