//! Agent and platform addresses, and address resolution.
//!
//! An agent address is `name`, `name@platform` or `name@<url>`; a platform
//! address lists a platform's transport endpoints.
use vstd::prelude::*;
use crate::text::{concat, contains_seq, contains_str, copy_strings, find_char, is_ws, occurs_at, owned, str_eq, trim, trim_end_spec, trim_start_spec, trimmed};
use crate::clock::unix_time_secs;
use crate::strmap::StrMap;

verus! {

/// Address resolution errors.
#[derive(Clone, Debug)]
pub enum AddressError {
    InvalidFormat(String),
    UnknownPlatform(String),
    AgentNotFound(String),
    ResolutionFailed(String),
    NoTransportAddress,
}

/// The human-readable text of an address error.
pub open spec fn address_error_text(e: AddressError) -> Seq<char> {
    match e {
        AddressError::InvalidFormat(m) => "Invalid address format: "@ + m@,
        AddressError::UnknownPlatform(m) => "Unknown platform: "@ + m@,
        AddressError::AgentNotFound(m) => "Agent not found: "@ + m@,
        AddressError::ResolutionFailed(m) => "Resolution failed: "@ + m@,
        AddressError::NoTransportAddress => "No transport address available"@,
    }
}

impl AddressError {
    /// The error's message.
    pub fn message(&self) -> (s: String)
        ensures
            s@ == address_error_text(*self),
    {
        match self {
            AddressError::InvalidFormat(m) => concat("Invalid address format: ", m.as_str()),
            AddressError::UnknownPlatform(m) => concat("Unknown platform: ", m.as_str()),
            AddressError::AgentNotFound(m) => concat("Agent not found: ", m.as_str()),
            AddressError::ResolutionFailed(m) => concat("Resolution failed: ", m.as_str()),
            AddressError::NoTransportAddress => owned("No transport address available"),
        }
    }
}

/// Agent address (`name@platform` form).
#[derive(Clone, Debug, PartialEq, Eq)]
pub struct AgentAddress {
    /// Agent local name.
    pub name: String,
    /// Platform identifier.
    pub platform: Option<String>,
    /// Transport addresses (URLs).
    pub addresses: Vec<String>,
    /// Name resolution service addresses.
    pub resolvers: Vec<String>,
}

/// The fully qualified name of an address: `name@platform`, else
/// `name@<first address>`, else the bare name.
pub open spec fn qualified_text(a: AgentAddress) -> Seq<char> {
    match a.platform {
        Some(p) => a.name@ + "@"@ + p@,
        None => if a.addresses@.len() > 0 {
            a.name@ + "@"@ + a.addresses@[0]@
        } else {
            a.name@
        },
    }
}

/// An optional string as optional text.
pub open spec fn opt_text(o: Option<String>) -> Option<Seq<char>> {
    match o {
        Some(s) => Some(s@),
        None => None,
    }
}

/// The addresses whose qualified name parses back to them: no resolvers; a
/// non-empty name without `@` that does not start with whitespace; and
/// either nothing more (the name then not ending in whitespace), or a
/// platform without `://` that does not end in whitespace, or a single
/// transport address holding `://` that does not end in whitespace.
pub open spec fn round_trips(a: AgentAddress) -> bool {
    &&& a.resolvers@.len() == 0
    &&& a.name@.len() > 0
    &&& !a.name@.contains('@')
    &&& !is_ws(a.name@[0])
    &&& match a.platform {
        Some(p) => a.addresses@.len() == 0 && !contains_seq(p@, "://"@) && (p@.len() > 0 ==> !is_ws(p@.last())),
        None => {
            ||| (a.addresses@.len() == 0 && !is_ws(a.name@.last()))
            ||| (a.addresses@.len() == 1 && contains_seq(a.addresses@[0]@, "://"@) && !is_ws(a.addresses@[0]@.last()))
        },
    }
}

/// Parsing an address's qualified name gives the address back, for every
/// address whose parts the text can carry unambiguously.
pub proof fn law_parse_qualified_name(a: AgentAddress)
    requires
        round_trips(a),
    ensures
        parse_spec(trimmed(qualified_text(a))) == Ok::<(Seq<char>, Option<Seq<char>>, Seq<Seq<char>>), Seq<char>>(
            (a.name@, opt_text(a.platform), texts(a.addresses@)),
        ),
{
    let t = qualified_text(a);
    let name = a.name@;
    assert(t.len() > 0 && t[0] == name[0]);
    assert(trim_start_spec(t) == t);
    match a.platform {
        Some(p) => {
            assert(t =~= name + seq!['@'] + p@) by { reveal_strlit("@"); }
            if p@.len() > 0 {
                assert(t.last() == p@.last());
            } else {
                assert(t.last() == '@');
            }
            assert(trim_end_spec(t) == t);
            lemma_first_at_after(t, name);
            assert(t.take(name.len() as int) =~= name);
            assert(t.skip(name.len() as int + 1) =~= p@);
            assert(texts(a.addresses@) =~= Seq::<Seq<char>>::empty());
        },
        None => {
            if a.addresses@.len() == 0 {
                assert(t.last() == name.last());
                assert(trim_end_spec(t) == t);
                assert(!(exists|i: int| 0 <= i < t.len() && t[i] == '@')) by {
                    if exists|i: int| 0 <= i < t.len() && t[i] == '@' {
                        let i = choose|i: int| 0 <= i < t.len() && t[i] == '@';
                        assert(name.contains(name[i]));
                    }
                }
                assert(texts(a.addresses@) =~= Seq::<Seq<char>>::empty());
            } else {
                let u = a.addresses@[0]@;
                assert(t =~= name + seq!['@'] + u) by { reveal_strlit("@"); }
                assert(u.len() > 0) by {
                    let k = choose|k: int| occurs_at(u, "://"@, k);
                    reveal_strlit("://");
                }
                assert(t.last() == u.last());
                assert(trim_end_spec(t) == t);
                lemma_first_at_after(t, name);
                assert(t.take(name.len() as int) =~= name);
                assert(t.skip(name.len() as int + 1) =~= u);
                assert(texts(a.addresses@) =~= seq![u]);
            }
        },
    }
}

/// In `name` followed by `@`, that `@` is the first one when `name` has none.
proof fn lemma_first_at_after(t: Seq<char>, name: Seq<char>)
    requires
        name.len() < t.len(),
        t.take(name.len() as int) =~= name,
        t[name.len() as int] == '@',
        !name.contains('@'),
    ensures
        exists|i: int| 0 <= i < t.len() && t[i] == '@',
        (choose|i: int| 0 <= i < t.len() && t[i] == '@' && forall|j: int| 0 <= j < i ==> t[j] != '@') == name.len(),
{
    let p = name.len() as int;
    assert forall|j: int| 0 <= j < p implies t[j] != '@' by {
        assert(t[j] == name[j]);
        if t[j] == '@' {
            assert(name.contains(name[j]));
        }
    }
    lemma_first_at(t, p);
}

/// The texts of a list of strings.
pub open spec fn texts(v: Seq<String>) -> Seq<Seq<char>> {
    v.map_values(|s: String| s@)
}

/// What parsing a (trimmed) address text yields: the name, and after an `@`
/// either a URL (when it holds `://`) or a platform name.
pub open spec fn parse_spec(t: Seq<char>) -> Result<(Seq<char>, Option<Seq<char>>, Seq<Seq<char>>), Seq<char>> {
    if t.len() == 0 {
        Err("Empty address"@)
    } else if exists|i: int| 0 <= i < t.len() && t[i] == '@' {
        let p = choose|i: int| 0 <= i < t.len() && t[i] == '@' && forall|j: int| 0 <= j < i ==> t[j] != '@';
        let name = t.take(p);
        let rest = t.skip(p + 1);
        if name.len() == 0 {
            Err("Empty agent name"@)
        } else if contains_seq(rest, "://"@) {
            Ok((name, None, seq![rest]))
        } else {
            Ok((name, Some(rest), Seq::empty()))
        }
    } else {
        Ok((t, None, Seq::empty()))
    }
}

proof fn lemma_first_at(t: Seq<char>, p: int)
    requires
        0 <= p < t.len(),
        t[p] == '@',
        forall|j: int| 0 <= j < p ==> t[j] != '@',
    ensures
        (choose|i: int| 0 <= i < t.len() && t[i] == '@' && forall|j: int| 0 <= j < i ==> t[j] != '@') == p,
{
    let k = choose|i: int| 0 <= i < t.len() && t[i] == '@' && forall|j: int| 0 <= j < i ==> t[j] != '@';
    assert(0 <= p < t.len() && t[p] == '@' && forall|j: int| 0 <= j < p ==> t[j] != '@');
    if k < p {
        assert(t[k] != '@');
    } else if k > p {
        assert(t[p] != '@');
    }
}

fn strings_from(s: &str) -> (v: Vec<String>)
    ensures
        texts(v@) == seq![s@],
{
    let mut v: Vec<String> = Vec::new();
    v.push(owned(s));
    assert(texts(v@) =~= seq![s@]);
    v
}

impl AgentAddress {
    /// A local agent address.
    pub fn local(name: &str) -> (a: Self)
        ensures
            a.name@ == name@,
            a.platform is None,
            a.addresses@.len() == 0,
            a.resolvers@.len() == 0,
    {
        AgentAddress { name: owned(name), platform: None, addresses: Vec::new(), resolvers: Vec::new() }
    }

    /// A remote agent address.
    pub fn remote(name: &str, platform: &str) -> (a: Self)
        ensures
            a.name@ == name@,
            a.platform matches Some(p) && p@ == platform@,
            a.addresses@.len() == 0,
            a.resolvers@.len() == 0,
    {
        AgentAddress { name: owned(name), platform: Some(owned(platform)), addresses: Vec::new(), resolvers: Vec::new() }
    }

    /// Parse `name`, `name@platform` or `name@<url>` (surrounding whitespace
    /// ignored).
    pub fn parse(s: &str) -> (r: Result<Self, AddressError>)
        ensures
            match parse_spec(trimmed(s@)) {
                Ok((name, platform, addresses)) => r matches Ok(a) && a.name@ == name
                    && (match platform {
                        Some(p) => a.platform matches Some(q) && q@ == p,
                        None => a.platform is None,
                    })
                    && texts(a.addresses@) == addresses && a.resolvers@.len() == 0,
                Err(m) => r matches Err(AddressError::InvalidFormat(e)) && e@ == m,
            },
    {
        let t = trim(s);
        if t.unicode_len() == 0 {
            return Err(AddressError::InvalidFormat(owned("Empty address")));
        }
        match find_char(t, '@') {
            Some(pos) => {
                proof {
                    lemma_first_at(t@, pos as int);
                }
                let n = t.unicode_len();
                let name = t.substring_char(0, pos);
                let rest = t.substring_char(pos + 1, n);
                assert(name@ =~= t@.take(pos as int));
                assert(rest@ =~= t@.skip(pos + 1));
                if name.unicode_len() == 0 {
                    return Err(AddressError::InvalidFormat(owned("Empty agent name")));
                }
                if contains_str(rest, "://") {
                    Ok(AgentAddress { name: owned(name), platform: None, addresses: strings_from(rest), resolvers: Vec::new() })
                } else {
                    proof {
                        assert(texts(Seq::<String>::empty()) =~= Seq::<Seq<char>>::empty());
                    }
                    Ok(AgentAddress { name: owned(name), platform: Some(owned(rest)), addresses: Vec::new(), resolvers: Vec::new() })
                }
            },
            None => {
                assert(texts(Seq::<String>::empty()) =~= Seq::<Seq<char>>::empty());
                Ok(AgentAddress::local(t))
            },
        }
    }

    /// Add a transport address.
    pub fn with_address(self, addr: &str) -> (a: Self)
        ensures
            a.name == self.name && a.platform == self.platform && a.resolvers == self.resolvers,
            texts(a.addresses@) == texts(self.addresses@).push(addr@),
    {
        let mut a = self;
        let ghost before = a.addresses@;
        a.addresses.push(owned(addr));
        assert(texts(a.addresses@) =~= texts(before).push(addr@));
        a
    }

    /// Add a resolver.
    pub fn with_resolver(self, resolver: &str) -> (a: Self)
        ensures
            a.name == self.name && a.platform == self.platform && a.addresses == self.addresses,
            texts(a.resolvers@) == texts(self.resolvers@).push(resolver@),
    {
        let mut a = self;
        let ghost before = a.resolvers@;
        a.resolvers.push(owned(resolver));
        assert(texts(a.resolvers@) =~= texts(before).push(resolver@));
        a
    }

    /// A local address names no platform and no transport address.
    pub fn is_local(&self) -> (r: bool)
        ensures
            r == (self.platform is None && self.addresses@.len() == 0),
    {
        self.platform.is_none() && self.addresses.len() == 0
    }

    /// A remote address names a platform or a transport address.
    pub fn is_remote(&self) -> (r: bool)
        ensures
            r == (self.platform is Some || self.addresses@.len() > 0),
    {
        self.platform.is_some() || self.addresses.len() > 0
    }

    /// The fully qualified name: `name@platform`, else `name@<first address>`,
    /// else the bare name.
    pub fn qualified_name(&self) -> (r: String)
        ensures
            r@ == qualified_text(*self),
    {
        match &self.platform {
            Some(p) => {
                let mut r = concat(self.name.as_str(), "@");
                r.append(p.as_str());
                r
            },
            None => {
                if self.addresses.len() > 0 {
                    let mut r = concat(self.name.as_str(), "@");
                    r.append(self.addresses[0].as_str());
                    r
                } else {
                    self.name.clone()
                }
            },
        }
    }

    /// The primary transport address: the first one.
    pub fn primary_address(&self) -> (r: Option<&String>)
        ensures
            self.addresses@.len() > 0 ==> r == Some(&self.addresses@[0]),
            self.addresses@.len() == 0 ==> r is None,
    {
        if self.addresses.len() > 0 {
            Some(&self.addresses[0])
        } else {
            None
        }
    }
}

/// Platform address (transport endpoints).
#[derive(Clone, Debug)]
pub struct PlatformAddress {
    /// Platform name/identifier.
    pub name: String,
    /// Platform description.
    pub description: Option<String>,
    /// HTTP transport addresses.
    pub http_addresses: Vec<String>,
    /// gRPC transport addresses.
    pub grpc_addresses: Vec<String>,
    /// Other transport addresses, by scheme.
    pub other_addresses: Vec<(String, Vec<String>)>,
    /// AMS address (agent management).
    pub ams_address: Option<String>,
    /// DF address (service discovery).
    pub df_address: Option<String>,
    /// Last seen timestamp (seconds since the epoch).
    pub last_seen: u64,
    /// Whether this is the local platform.
    pub is_local: bool,
}

/// The addresses of the other transports, in order.
pub open spec fn other_flat(o: Seq<(String, Vec<String>)>) -> Seq<String>
    decreases o.len(),
{
    if o.len() == 0 {
        Seq::empty()
    } else {
        other_flat(o.drop_last()) + o.last().1@
    }
}

impl PlatformAddress {
    /// A platform address seen now.
    pub fn new(name: &str) -> (p: Self)
        ensures
            p.name@ == name@,
            p.description is None && p.ams_address is None && p.df_address is None,
            p.http_addresses@.len() == 0 && p.grpc_addresses@.len() == 0 && p.other_addresses@.len() == 0,
            !p.is_local,
    {
        Self::new_at(name, unix_time_secs())
    }

    /// A platform address last seen at `now` (seconds since the epoch).
    pub fn new_at(name: &str, now: u64) -> (p: Self)
        ensures
            p.name@ == name@,
            p.description is None && p.ams_address is None && p.df_address is None,
            p.http_addresses@.len() == 0 && p.grpc_addresses@.len() == 0 && p.other_addresses@.len() == 0,
            p.last_seen == now,
            !p.is_local,
    {
        PlatformAddress {
            name: owned(name),
            description: None,
            http_addresses: Vec::new(),
            grpc_addresses: Vec::new(),
            other_addresses: Vec::new(),
            ams_address: None,
            df_address: None,
            last_seen: now,
            is_local: false,
        }
    }

    /// Mark as the local platform.
    pub fn local(self) -> (p: Self)
        ensures
            p == (PlatformAddress { is_local: true, ..self }),
    {
        let mut p = self;
        p.is_local = true;
        p
    }

    /// Add an HTTP address.
    pub fn with_http(self, addr: &str) -> (p: Self)
        ensures
            texts(p.http_addresses@) == texts(self.http_addresses@).push(addr@),
            p == (PlatformAddress { http_addresses: p.http_addresses, ..self }),
    {
        let mut p = self;
        let ghost before = p.http_addresses@;
        p.http_addresses.push(owned(addr));
        assert(texts(p.http_addresses@) =~= texts(before).push(addr@));
        p
    }

    /// Add a gRPC address.
    pub fn with_grpc(self, addr: &str) -> (p: Self)
        ensures
            texts(p.grpc_addresses@) == texts(self.grpc_addresses@).push(addr@),
            p == (PlatformAddress { grpc_addresses: p.grpc_addresses, ..self }),
    {
        let mut p = self;
        let ghost before = p.grpc_addresses@;
        p.grpc_addresses.push(owned(addr));
        assert(texts(p.grpc_addresses@) =~= texts(before).push(addr@));
        p
    }

    /// Set the AMS address.
    pub fn with_ams(self, addr: &str) -> (p: Self)
        ensures
            p.ams_address matches Some(a) && a@ == addr@,
            p == (PlatformAddress { ams_address: p.ams_address, ..self }),
    {
        let mut p = self;
        p.ams_address = Some(owned(addr));
        p
    }

    /// Set the DF address.
    pub fn with_df(self, addr: &str) -> (p: Self)
        ensures
            p.df_address matches Some(a) && a@ == addr@,
            p == (PlatformAddress { df_address: p.df_address, ..self }),
    {
        let mut p = self;
        p.df_address = Some(owned(addr));
        p
    }

    /// Every transport address: HTTP, then gRPC, then the others.
    pub fn all_addresses(&self) -> (r: Vec<&String>)
        ensures
            r@.map_values(|s: &String| *s) == self.http_addresses@ + self.grpc_addresses@ + other_flat(self.other_addresses@),
    {
        let mut r: Vec<&String> = Vec::new();
        let ghost want = self.http_addresses@ + self.grpc_addresses@ + other_flat(self.other_addresses@);
        let mut i: usize = 0;
        while i < self.http_addresses.len()
            invariant
                i <= self.http_addresses@.len(),
                r@.len() == i,
                forall|m: int| 0 <= m < i ==> *r@[m] == self.http_addresses@[m],
            decreases self.http_addresses@.len() - i,
        {
            r.push(&self.http_addresses[i]);
            i = i + 1;
        }
        let ghost h = self.http_addresses@.len() as int;
        let mut j: usize = 0;
        while j < self.grpc_addresses.len()
            invariant
                j <= self.grpc_addresses@.len(),
                h == self.http_addresses@.len(),
                r@.len() == h + j,
                forall|m: int| 0 <= m < h ==> *r@[m] == self.http_addresses@[m],
                forall|m: int| 0 <= m < j ==> *r@[h + m] == self.grpc_addresses@[m],
            decreases self.grpc_addresses@.len() - j,
        {
            r.push(&self.grpc_addresses[j]);
            j = j + 1;
        }
        let ghost front = self.http_addresses@ + self.grpc_addresses@;
        assert forall|m: int| 0 <= m < front.len() implies *r@[m] == front[m] by {
            if m >= h {
                assert(*r@[h + (m - h)] == self.grpc_addresses@[m - h]);
            }
        }
        let mut k: usize = 0;
        while k < self.other_addresses.len()
            invariant
                k <= self.other_addresses@.len(),
                front == self.http_addresses@ + self.grpc_addresses@,
                r@.len() == front.len() + other_flat(self.other_addresses@.take(k as int)).len(),
                forall|m: int| 0 <= m < r@.len() ==> *r@[m] == (front + other_flat(self.other_addresses@.take(k as int)))[m],
            decreases self.other_addresses@.len() - k,
        {
            let list = &self.other_addresses[k].1;
            let ghost base = front + other_flat(self.other_addresses@.take(k as int));
            let mut t: usize = 0;
            while t < list.len()
                invariant
                    t <= list@.len(),
                    r@.len() == base.len() + t,
                    forall|m: int| 0 <= m < base.len() ==> *r@[m] == base[m],
                    forall|m: int| 0 <= m < t ==> *r@[base.len() + m] == list@[m],
                decreases list@.len() - t,
            {
                r.push(&list[t]);
                t = t + 1;
            }
            assert(self.other_addresses@.take(k + 1).drop_last() =~= self.other_addresses@.take(k as int));
            assert(self.other_addresses@.take(k + 1).last() == self.other_addresses@[k as int]);
            let ghost next = front + other_flat(self.other_addresses@.take(k + 1));
            assert(next =~= base + list@);
            assert forall|m: int| 0 <= m < r@.len() implies *r@[m] == next[m] by {
                if m >= base.len() {
                    assert(*r@[base.len() + (m - base.len())] == list@[m - base.len()]);
                }
            }
            k = k + 1;
        }
        assert(self.other_addresses@.take(k as int) == self.other_addresses@);
        assert(r@.map_values(|s: &String| *s) =~= want);
        r
    }

    /// The primary address: the first HTTP one, else the first gRPC one.
    pub fn primary_address(&self) -> (r: Option<&String>)
        ensures
            self.http_addresses@.len() > 0 ==> r == Some(&self.http_addresses@[0]),
            self.http_addresses@.len() == 0 && self.grpc_addresses@.len() > 0 ==> r == Some(&self.grpc_addresses@[0]),
            self.http_addresses@.len() == 0 && self.grpc_addresses@.len() == 0 ==> r is None,
    {
        if self.http_addresses.len() > 0 {
            Some(&self.http_addresses[0])
        } else if self.grpc_addresses.len() > 0 {
            Some(&self.grpc_addresses[0])
        } else {
            None
        }
    }

    /// Record that the platform was seen now: `last_seen` becomes the system
    /// clock's reading, and nothing else changes.
    pub fn touch(&mut self)
        ensures
            *final(self) == (PlatformAddress { last_seen: final(self).last_seen, ..*old(self) }),
    {
        self.touch_at(unix_time_secs());
    }

    /// Record that the platform was seen at `now` (seconds since the epoch).
    pub fn touch_at(&mut self, now: u64)
        ensures
            *final(self) == (PlatformAddress { last_seen: now, ..*old(self) }),
    {
        self.last_seen = now;
    }
}

/// The primary address of a platform: its first HTTP address, else its
/// first gRPC address.
pub open spec fn platform_primary(p: PlatformAddress) -> Option<Seq<char>> {
    if p.http_addresses@.len() > 0 {
        Some(p.http_addresses@[0]@)
    } else if p.grpc_addresses@.len() > 0 {
        Some(p.grpc_addresses@[0]@)
    } else {
        None
    }
}

/// The keys of a list of keyed platforms.
pub open spec fn platform_keys(v: Seq<(String, PlatformAddress)>) -> Seq<Seq<char>> {
    v.map_values(|e: (String, PlatformAddress)| e.0@)
}

/// Index of the entry under `key`.
pub open spec fn platform_index(v: Seq<(String, PlatformAddress)>, key: Seq<char>) -> int {
    choose|i: int| 0 <= i < v.len() && (#[trigger] v[i]).0@ == key
}

/// The platforms of a keyed list, as a map.
pub open spec fn platform_map(v: Seq<(String, PlatformAddress)>) -> Map<Seq<char>, PlatformAddress> {
    Map::new(|k: Seq<char>| platform_keys(v).contains(k), |k: Seq<char>| v[platform_index(v, k)].1)
}

proof fn lemma_platform_lookup(v: Seq<(String, PlatformAddress)>, i: int)
    requires
        platform_keys(v).no_duplicates(),
        0 <= i < v.len(),
    ensures
        platform_keys(v).contains(v[i].0@),
        platform_index(v, v[i].0@) == i,
        platform_map(v).contains_key(v[i].0@),
        platform_map(v)[v[i].0@] == v[i].1,
{
    let key = v[i].0@;
    assert(platform_keys(v)[i] == key);
    let k = platform_index(v, key);
    assert(0 <= k < v.len() && v[k].0@ == key);
    if k != i {
        assert(platform_keys(v)[k] == platform_keys(v)[i]);
    }
}

/// Resolves agent addresses to transport addresses, with a registry of known
/// platforms and a cache of agent locations.
#[derive(Debug)]
pub struct AddressResolver {
    platforms: Vec<(String, PlatformAddress)>,
    agent_cache: StrMap,
    local_platform: String,
    cache_ttl_secs: u64,
}

/// An address resolver as plain values.
pub struct ResolverView {
    /// The platform keys, in registration order.
    pub names: Seq<Seq<char>>,
    /// Known platforms by key.
    pub platforms: Map<Seq<char>, PlatformAddress>,
    /// Agent name to platform name.
    pub agent_cache: Map<Seq<char>, Seq<char>>,
    pub local_platform: Seq<char>,
    pub cache_ttl_secs: u64,
}

impl View for AddressResolver {
    type V = ResolverView;

    closed spec fn view(&self) -> ResolverView {
        ResolverView {
            names: platform_keys(self.platforms@),
            platforms: platform_map(self.platforms@),
            agent_cache: self.agent_cache@,
            local_platform: self.local_platform@,
            cache_ttl_secs: self.cache_ttl_secs,
        }
    }
}

/// The resolver after registering `p` under `key`.
pub open spec fn resolver_register(r: ResolverView, key: Seq<char>, p: PlatformAddress) -> ResolverView {
    ResolverView {
        names: if r.names.contains(key) { r.names } else { r.names.push(key) },
        platforms: r.platforms.insert(key, p),
        ..r
    }
}

/// What resolving an agent address yields: its own transport addresses if
/// it has any; nothing for a local agent; else the primary address of its
/// platform, or an unknown-platform error.
pub open spec fn resolve_spec(r: ResolverView, a: AgentAddress) -> Result<Seq<Seq<char>>, Seq<char>> {
    if a.addresses@.len() > 0 {
        Ok(texts(a.addresses@))
    } else {
        match a.platform {
            None => Ok(Seq::empty()),
            Some(p) => if r.platforms.contains_key(p@) && platform_primary(r.platforms[p@]) is Some {
                Ok(seq![platform_primary(r.platforms[p@]).unwrap()])
            } else {
                Err(p@)
            },
        }
    }
}

impl AddressResolver {
    /// Platform keys are distinct.
    pub closed spec fn wf(&self) -> bool {
        platform_keys(self.platforms@).no_duplicates()
    }

    /// A resolver for this local platform, caching for five minutes.
    pub fn new(local_platform: &str) -> (r: Self)
        ensures
            r.wf(),
            r@.names.len() == 0,
            r@.platforms == Map::<Seq<char>, PlatformAddress>::empty(),
            r@.agent_cache == Map::<Seq<char>, Seq<char>>::empty(),
            r@.local_platform == local_platform@,
            r@.cache_ttl_secs == 300,
    {
        let r = AddressResolver {
            platforms: Vec::new(),
            agent_cache: StrMap::new(),
            local_platform: owned(local_platform),
            cache_ttl_secs: 300,
        };
        assert(platform_keys(r.platforms@) =~= Seq::<Seq<char>>::empty());
        assert(platform_map(r.platforms@) =~= Map::<Seq<char>, PlatformAddress>::empty());
        r
    }

    /// Set the cache lifetime.
    pub fn with_cache_ttl(self, ttl_secs: u64) -> (r: Self)
        ensures
            r.wf() == self.wf(),
            r@ == (ResolverView { cache_ttl_secs: ttl_secs, ..self@ }),
    {
        let mut r = self;
        r.cache_ttl_secs = ttl_secs;
        r
    }

    fn position(&self, key: &str) -> (r: Option<usize>)
        requires
            self.wf(),
        ensures
            match r {
                Some(i) => i < self.platforms@.len() && self.platforms@[i as int].0@ == key@
                    && self@.platforms.contains_key(key@) && self@.platforms[key@] == self.platforms@[i as int].1,
                None => !self@.names.contains(key@) && !self@.platforms.contains_key(key@),
            },
    {
        let mut i: usize = 0;
        while i < self.platforms.len()
            invariant
                i <= self.platforms@.len(),
                self.wf(),
                forall|j: int| 0 <= j < i ==> (#[trigger] self.platforms@[j]).0@ != key@,
            decreases self.platforms@.len() - i,
        {
            if str_eq(self.platforms[i].0.as_str(), key) {
                proof {
                    lemma_platform_lookup(self.platforms@, i as int);
                }
                return Some(i);
            }
            i = i + 1;
        }
        proof {
            let ks = platform_keys(self.platforms@);
            if ks.contains(key@) {
                let j = choose|j: int| 0 <= j < ks.len() && ks[j] == key@;
                assert(self.platforms@[j].0@ == key@);
            }
        }
        None
    }

    fn insert_keyed(&mut self, key: &str, p: PlatformAddress)
        requires
            old(self).wf(),
        ensures
            final(self).wf(),
            final(self)@ == resolver_register(old(self)@, key@, p),
    {
        let ghost v0 = self.platforms@;
        let ghost m0 = self@;
        match self.position(key) {
            Some(i) => {
                let k = self.platforms[i].0.clone();
                self.platforms.set(i, (k, p));
                proof {
                    let v = self.platforms@;
                    assert(platform_keys(v) =~= platform_keys(v0));
                    assert forall|kk: Seq<char>| #[trigger] platform_map(v).contains_key(kk) implies
                        platform_map(v)[kk] == m0.platforms.insert(key@, p)[kk] by {
                        let j = choose|j: int| 0 <= j < platform_keys(v).len() && platform_keys(v)[j] == kk;
                        assert(v[j].0@ == kk);
                        lemma_platform_lookup(v, j);
                        lemma_platform_lookup(v0, j);
                        if j == i as int {
                            assert(kk == key@);
                        } else {
                            assert(v[j] == v0[j]);
                            assert(platform_keys(v0)[j] != platform_keys(v0)[i as int]);
                        }
                    }
                    assert(platform_map(v) =~= m0.platforms.insert(key@, p));
                    assert(m0.names.contains(key@)) by {
                        assert(platform_keys(v0)[i as int] == key@);
                    }
                }
            },
            None => {
                self.platforms.push((owned(key), p));
                proof {
                    let v = self.platforms@;
                    assert(platform_keys(v) =~= platform_keys(v0).push(key@));
                    assert(platform_keys(v).no_duplicates()) by {
                        let ks = platform_keys(v);
                        assert forall|a: int, b: int| 0 <= a < ks.len() && 0 <= b < ks.len() && a != b implies ks[a] != ks[b] by {
                            if a < v0.len() && b < v0.len() {
                                assert(ks[a] == platform_keys(v0)[a] && ks[b] == platform_keys(v0)[b]);
                            } else if a < v0.len() {
                                assert(ks[a] == platform_keys(v0)[a]);
                                assert(platform_keys(v0).contains(ks[a]));
                            } else {
                                assert(ks[b] == platform_keys(v0)[b]);
                                assert(platform_keys(v0).contains(ks[b]));
                            }
                        }
                    }
                    assert forall|kk: Seq<char>| #[trigger] platform_map(v).contains_key(kk) implies
                        platform_map(v)[kk] == m0.platforms.insert(key@, p)[kk] by {
                        let j = choose|j: int| 0 <= j < platform_keys(v).len() && platform_keys(v)[j] == kk;
                        assert(v[j].0@ == kk);
                        lemma_platform_lookup(v, j);
                        if j < v0.len() {
                            assert(v[j] == v0[j]);
                            lemma_platform_lookup(v0, j);
                        }
                    }
                    assert forall|kk: Seq<char>| #[trigger] m0.platforms.insert(key@, p).contains_key(kk) implies
                        platform_map(v).contains_key(kk) by {
                        if kk != key@ {
                            let j = choose|j: int| 0 <= j < platform_keys(v0).len() && platform_keys(v0)[j] == kk;
                            assert(platform_keys(v)[j] == kk);
                        } else {
                            assert(platform_keys(v)[v0.len() as int] == kk);
                        }
                    }
                    assert(platform_map(v) =~= m0.platforms.insert(key@, p));
                }
            },
        }
    }

    /// Register the local platform (marked local) under the local platform's
    /// name.
    pub fn register_local(&mut self, platform: PlatformAddress)
        requires
            old(self).wf(),
        ensures
            final(self).wf(),
            final(self)@ == resolver_register(old(self)@, old(self)@.local_platform,
                PlatformAddress { is_local: true, ..platform }),
    {
        let mut local = platform;
        local.is_local = true;
        let key = self.local_platform.clone();
        self.insert_keyed(key.as_str(), local);
    }

    /// Register a platform under its name.
    pub fn register_platform(&mut self, platform: PlatformAddress)
        requires
            old(self).wf(),
        ensures
            final(self).wf(),
            final(self)@ == resolver_register(old(self)@, platform.name@, platform),
    {
        let key = platform.name.clone();
        self.insert_keyed(key.as_str(), platform);
    }

    /// Forget a platform; whether it was known.
    pub fn unregister_platform(&mut self, name: &str) -> (r: bool)
        requires
            old(self).wf(),
        ensures
            final(self).wf(),
            r == old(self)@.platforms.contains_key(name@),
            final(self)@.platforms == old(self)@.platforms.remove(name@),
            old(self)@.names.contains(name@) ==> exists|i: int| 0 <= i < old(self)@.names.len()
                && old(self)@.names[i] == name@ && final(self)@.names == old(self)@.names.remove(i),
            !old(self)@.names.contains(name@) ==> final(self)@.names == old(self)@.names,
            final(self)@.agent_cache == old(self)@.agent_cache,
            final(self)@.local_platform == old(self)@.local_platform,
            final(self)@.cache_ttl_secs == old(self)@.cache_ttl_secs,
    {
        let ghost v0 = self.platforms@;
        let ghost m0 = self@;
        match self.position(name) {
            Some(i) => {
                let _gone = self.platforms.remove(i);
                proof {
                    let v = self.platforms@;
                    assert(v =~= v0.remove(i as int));
                    let ks0 = platform_keys(v0);
                    assert(platform_keys(v) =~= ks0.remove(i as int));
                    assert(ks0[i as int] == name@);
                    assert(platform_keys(v).no_duplicates()) by {
                        let ks = platform_keys(v);
                        assert forall|a: int, b: int| 0 <= a < ks.len() && 0 <= b < ks.len() && a != b implies ks[a] != ks[b] by {
                            let a0 = if a < i { a } else { a + 1 };
                            let b0 = if b < i { b } else { b + 1 };
                            assert(ks[a] == ks0[a0] && ks[b] == ks0[b0]);
                        }
                    }
                    assert forall|kk: Seq<char>| #[trigger] platform_map(v).contains_key(kk) implies
                        platform_map(v)[kk] == m0.platforms.remove(name@)[kk] && kk != name@ by {
                        let j = choose|j: int| 0 <= j < platform_keys(v).len() && platform_keys(v)[j] == kk;
                        lemma_platform_lookup(v, j);
                        let j0 = if j < i { j } else { j + 1 };
                        assert(v[j] == v0[j0]);
                        lemma_platform_lookup(v0, j0);
                        assert(j0 != i);
                        assert(ks0[j0] != ks0[i as int]);
                    }
                    assert forall|kk: Seq<char>| #[trigger] m0.platforms.remove(name@).contains_key(kk) implies
                        platform_map(v).contains_key(kk) by {
                        let j0 = choose|j: int| 0 <= j < ks0.len() && ks0[j] == kk;
                        assert(j0 != i);
                        let j = if j0 < i { j0 } else { j0 - 1 };
                        assert(platform_keys(v)[j] == kk);
                    }
                    assert(platform_map(v) =~= m0.platforms.remove(name@));
                }
                true
            },
            None => {
                proof {
                    assert(m0.platforms.remove(name@) =~= m0.platforms);
                }
                false
            },
        }
    }

    /// The platform registered under `name`.
    pub fn get_platform(&self, name: &str) -> (r: Option<&PlatformAddress>)
        requires
            self.wf(),
        ensures
            self@.platforms.contains_key(name@) ==> r == Some(&self@.platforms[name@]),
            !self@.platforms.contains_key(name@) ==> r is None,
    {
        match self.position(name) {
            Some(i) => Some(&self.platforms[i].1),
            None => None,
        }
    }

    /// The known platforms, in registration order.
    pub fn list_platforms(&self) -> (r: Vec<&PlatformAddress>)
        requires
            self.wf(),
        ensures
            r@.len() == self@.names.len(),
            forall|i: int| 0 <= i < r@.len() ==> *r@[i] == self@.platforms[#[trigger] self@.names[i]],
    {
        let mut r: Vec<&PlatformAddress> = Vec::new();
        let mut i: usize = 0;
        while i < self.platforms.len()
            invariant
                i <= self.platforms@.len(),
                self.wf(),
                r@.len() == i,
                forall|j: int| 0 <= j < i ==> *r@[j] == self.platforms@[j].1,
            decreases self.platforms@.len() - i,
        {
            r.push(&self.platforms[i].1);
            i = i + 1;
        }
        proof {
            assert forall|j: int| 0 <= j < r@.len() implies *r@[j] == self@.platforms[#[trigger] self@.names[j]] by {
                lemma_platform_lookup(self.platforms@, j);
            }
        }
        r
    }

    /// Record the platform an agent lives on.
    pub fn register_agent(&mut self, agent: &str, platform: &str)
        ensures
            final(self).wf() == old(self).wf(),
            final(self)@ == (ResolverView { agent_cache: old(self)@.agent_cache.insert(agent@, platform@), ..old(self)@ }),
    {
        self.agent_cache.insert(agent, platform);
    }

    /// The platform an agent was recorded on.
    pub fn find_agent(&self, agent: &str) -> (r: Option<String>)
        ensures
            self@.agent_cache.contains_key(agent@) ==> (r matches Some(p) && p@ == self@.agent_cache[agent@]),
            !self@.agent_cache.contains_key(agent@) ==> r is None,
    {
        match self.agent_cache.get(agent) {
            Some(p) => Some(p.clone()),
            None => None,
        }
    }

    /// Resolve an agent address to transport addresses.
    pub fn resolve(&self, address: &AgentAddress) -> (r: Result<Vec<String>, AddressError>)
        requires
            self.wf(),
        ensures
            match resolve_spec(self@, *address) {
                Ok(v) => r matches Ok(w) && texts(w@) == v,
                Err(p) => r matches Err(AddressError::UnknownPlatform(q)) && q@ == p,
            },
    {
        if address.addresses.len() > 0 {
            return Ok(copy_strings(&address.addresses));
        }
        if address.is_local() {
            return Ok(Vec::new());
        }
        match &address.platform {
            Some(platform_name) => {
                match self.get_platform(platform_name.as_str()) {
                    Some(platform) => {
                        match platform.primary_address() {
                            Some(addr) => {
                                let w = strings_from(addr.as_str());
                                return Ok(w);
                            },
                            None => {},
                        }
                    },
                    None => {},
                }
                Err(AddressError::UnknownPlatform(platform_name.clone()))
            },
            None => {
                match self.find_agent(address.name.as_str()) {
                    Some(platform_name) => {
                        match self.get_platform(platform_name.as_str()) {
                            Some(platform) => {
                                match platform.primary_address() {
                                    Some(addr) => {
                                        return Ok(strings_from(addr.as_str()));
                                    },
                                    None => {},
                                }
                            },
                            None => {},
                        }
                    },
                    None => {},
                }
                Err(AddressError::AgentNotFound(address.name.clone()))
            },
        }
    }

    /// Whether an address is on the local platform: a local address, or one
    /// naming the local platform.
    pub fn is_local(&self, address: &AgentAddress) -> (r: bool)
        ensures
            r == ((address.platform is None && address.addresses@.len() == 0)
                || (address.platform matches Some(p) && p@ == self@.local_platform)),
    {
        if address.is_local() {
            return true;
        }
        match &address.platform {
            Some(p) => str_eq(p.as_str(), self.local_platform.as_str()),
            None => false,
        }
    }

    /// The local platform's name.
    pub fn local_platform(&self) -> (r: &str)
        ensures
            r@ == self@.local_platform,
    {
        self.local_platform.as_str()
    }
}

/// Registering a platform makes it the one resolution uses: a remote agent
/// on it resolves to its primary address.
pub proof fn law_register_then_resolve(r: ResolverView, p: PlatformAddress, agent: AgentAddress)
    requires
        agent.addresses@.len() == 0,
        agent.platform matches Some(n) && n@ == p.name@,
        platform_primary(p) is Some,
    ensures
        resolve_spec(resolver_register(r, p.name@, p), agent) == Ok::<Seq<Seq<char>>, Seq<char>>(seq![platform_primary(p).unwrap()]),
{
}

} // verus!

