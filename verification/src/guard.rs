//! A node's admission guards: what decides, message by message, whether a
//! sender is believed, whether an agent may send, and whether an agent is
//! isolated.
//!
//! - Keys are trusted on first use: the first node key seen signing for an
//!   agent owns it; another key is accepted only with a handoff from the
//!   current one.
//! - A replayed envelope (same sender, same nonce) is dropped; the node
//!   remembers the most recent nonces only.
//! - Each agent's egress is limited per one-second window.
//! - An agent that faults repeatedly in a row is quarantined, for good.
use vstd::prelude::*;
use crate::adapters::{is_reserved_sender, reserved_senders};
use crate::crypto::{ed25519_accepts, verify};
use crate::keyed::{find_key, key_index, keyed_get, keyed_map, keyed_put, keys_of, lemma_key_index, lemma_push_distinct};
use crate::order::{contains_text, texts};
use crate::migrate::{copy_32, copy_64, handoff_verifies, Handoff};
use crate::text::{owned, str_eq};

verus! {

/// Whether two byte strings are equal.
pub fn bytes_eq(a: &[u8], b: &[u8]) -> (r: bool)
    ensures
        r == (a@ == b@),
{
    if a.len() != b.len() {
        return false;
    }
    let mut i: usize = 0;
    while i < a.len()
        invariant
            a@.len() == b@.len(),
            i <= a@.len(),
            forall|j: int| 0 <= j < i ==> a@[j] == b@[j],
        decreases a@.len() - i,
    {
        if a[i] != b[i] {
            return false;
        }
        i = i + 1;
    }
    assert(a@ =~= b@);
    true
}

/// Whether a message arriving over the wire may be looked at: its sender is
/// no reserved system id, and it carries a 64-byte signature, by the 32-byte
/// key it names, over `signed`.
pub fn wire_admit(from: &str, sig: &[u8], sender_pub: &[u8], signed: &[u8]) -> (ok: bool)
    ensures
        ok == (!reserved_senders().contains(from@) && sig@.len() == 64 && sender_pub@.len() == 32
            && ed25519_accepts(sender_pub@, signed@, sig@)),
{
    if is_reserved_sender(from) {
        return false;
    }
    if sig.len() != 64 || sender_pub.len() != 32 {
        return false;
    }
    let pk = copy_32(sender_pub);
    let sg = copy_64(sig);
    verify(&pk, signed, &sg)
}

/// Whether an agent with network scope `net` may message `to`: scope `none`
/// reaches only co-located agents.
pub fn net_allows(net: Option<&str>, to_is_local: bool) -> (ok: bool)
    ensures
        ok == (to_is_local || !(net matches Some(n) && n@ == "none"@)),
{
    match net {
        Some(n) => to_is_local || !str_eq(n, "none"),
        None => true,
    }
}

/// Whether a handoff carried on a bind authorizes moving agent `from` from
/// the key `from_key` to `to_key`: it verifies, it is for this agent and these
/// two keys, and its epoch is the bind's (its own when the bind has none).
pub fn handoff_authorizes(ho: &Handoff, bind_epoch: Option<u64>, from: &str, from_key: &[u8; 32], to_key: &[u8; 32]) -> (ok: bool)
    ensures
        ok == (handoff_verifies(*ho)
            && ho.epoch == (match bind_epoch { Some(e) => e, None => ho.epoch })
            && ho.agent@ == from@
            && ho.from_pub@ == from_key@
            && ho.to_pub@ == to_key@),
{
    let epoch = match bind_epoch {
        Some(e) => e,
        None => ho.epoch,
    };
    ho.verify() && ho.epoch == epoch && str_eq(ho.agent.as_str(), from)
        && bytes_eq(ho.from_pub.as_slice(), from_key.as_slice())
        && bytes_eq(ho.to_pub.as_slice(), to_key.as_slice())
}

/// What authorizing `key` for agent `from` answers, and the key book after:
/// an unknown agent's first key is taken; the known key is accepted; another
/// key only with an authorizing handoff, which then replaces it.
pub open spec fn authorize_spec(book: Map<Seq<char>, Seq<u8>>, from: Seq<char>, key: Seq<u8>, handoff_ok: bool)
    -> (bool, Map<Seq<char>, Seq<u8>>)
{
    if !book.contains_key(from) {
        (true, book.insert(from, key))
    } else if book[from] == key {
        (true, book)
    } else if handoff_ok {
        (true, book.insert(from, key))
    } else {
        (false, book)
    }
}

/// The node keys trusted for each agent.
#[derive(Debug)]
pub struct KeyBook {
    keys: Vec<(String, [u8; 32])>,
}

impl View for KeyBook {
    type V = Map<Seq<char>, Seq<u8>>;

    closed spec fn view(&self) -> Map<Seq<char>, Seq<u8>> {
        Map::new(
            |a: Seq<char>| keys_of(self.keys@).contains(a),
            |a: Seq<char>| self.keys@[key_index(self.keys@, a)].1@,
        )
    }
}

impl KeyBook {
    #[verifier::type_invariant]
    closed spec fn keys_distinct(self) -> bool {
        keys_of(self.keys@).no_duplicates()
    }

    /// No keys yet.
    pub fn new() -> (b: Self)
        ensures
            b@ == Map::<Seq<char>, Seq<u8>>::empty(),
    {
        let b = KeyBook { keys: Vec::new() };
        assert(keys_of(b.keys@) =~= Seq::<Seq<char>>::empty());
        assert(b@ =~= Map::<Seq<char>, Seq<u8>>::empty());
        b
    }

    /// The key trusted for `from`, if any.
    pub fn key_of(&self, from: &str) -> (r: Option<[u8; 32]>)
        ensures
            match r {
                Some(k) => self@.contains_key(from@) && self@[from@] == k@,
                None => !self@.contains_key(from@),
            },
    {
        proof {
            use_type_invariant(self);
        }
        match find_key(&self.keys, from) {
            Some(i) => Some(self.keys[i].1),
            None => None,
        }
    }

    /// Authorize `key` as the signer for agent `from`; `handoff_ok` says
    /// whether the message carries a handoff from the trusted key to this one.
    pub fn authorize(&mut self, from: &str, key: [u8; 32], handoff_ok: bool) -> (ok: bool)
        ensures
            (ok, final(self)@) == authorize_spec(old(self)@, from@, key@, handoff_ok),
    {
        proof {
            use_type_invariant(&*self);
        }
        let ghost s = self.keys@;
        match find_key(&self.keys, from) {
            None => {
                let mut keys: Vec<(String, [u8; 32])> = Vec::new();
                std::mem::swap(&mut keys, &mut self.keys);
                keys.push((owned(from), key));
                proof {
                    let u = keys@;
                    lemma_push_distinct(s, u.last());
                    assert(u == s.push(u.last()));
                    lemma_key_index(u, s.len() as int);
                    assert forall|a: Seq<char>| a != from@ && keys_of(s).contains(a) implies
                        keys_of(u).contains(a) && u[key_index(u, a)] == s[key_index(s, a)] by {
                        let j = key_index(s, a);
                        lemma_key_index(s, j);
                        assert(u[j] == s[j]);
                        lemma_key_index(u, j);
                    }
                    assert forall|a: Seq<char>| keys_of(u).contains(a) implies a == from@ || keys_of(s).contains(a) by {
                        let j = choose|j: int| 0 <= j < keys_of(u).len() && keys_of(u)[j] == a;
                        if j < s.len() {
                            assert(keys_of(s)[j] == a);
                        }
                    }
                }
                std::mem::swap(&mut keys, &mut self.keys);
                proof {
                    assert(self@ =~= old(self)@.insert(from@, key@));
                }
                true
            },
            Some(i) => {
                let known = self.keys[i].1;
                if bytes_eq(known.as_slice(), key.as_slice()) {
                    true
                } else if handoff_ok {
                    let mut keys: Vec<(String, [u8; 32])> = Vec::new();
                    std::mem::swap(&mut keys, &mut self.keys);
                    let k = keys[i].0.clone();
                    keys.set(i, (k, key));
                    proof {
                        let u = keys@;
                        assert(keys_of(u) =~= keys_of(s));
                        lemma_key_index(u, i as int);
                        assert forall|a: Seq<char>| a != from@ && keys_of(s).contains(a) implies
                            u[key_index(u, a)] == s[key_index(s, a)] by {
                            let j = key_index(s, a);
                            lemma_key_index(s, j);
                            lemma_key_index(u, j);
                        }
                    }
                    std::mem::swap(&mut keys, &mut self.keys);
                    proof {
                        assert(self@ =~= old(self)@.insert(from@, key@));
                    }
                    true
                } else {
                    false
                }
            },
        }
    }
}

/// The first key seen for an agent owns it: a different key, without a
/// handoff, is refused afterwards.
pub proof fn law_first_key_owns(book: Map<Seq<char>, Seq<u8>>, from: Seq<char>, first: Seq<u8>, other: Seq<u8>, h: bool)
    requires
        !book.contains_key(from),
        first != other,
    ensures
        !authorize_spec(authorize_spec(book, from, first, h).1, from, other, false).0,
        authorize_spec(authorize_spec(book, from, first, h).1, from, other, false).1
            == authorize_spec(book, from, first, h).1,
{
}

/// A trusted key is replaced only by an authorizing handoff, and never
/// forgotten.
pub proof fn law_key_changes_only_by_handoff(book: Map<Seq<char>, Seq<u8>>, from: Seq<char>, key: Seq<u8>, h: bool, a: Seq<char>)
    requires
        book.contains_key(a),
    ensures
        authorize_spec(book, from, key, h).1.contains_key(a),
        authorize_spec(book, from, key, h).1[a] != book[a] ==> h && a == from,
{
}

/// A node-side forensic event: which agent, what kind, and detail.
#[derive(Clone, Debug)]
pub struct AuditEvent {
    pub agent: String,
    pub kind: String,
    pub detail: String,
}

/// Where audit events are recorded (a log, a SIEM, a test recorder).
pub trait AuditSink {
    fn record(&self, event: &AuditEvent);
}

/// A node-side inference backend for the `llm` capability.
pub trait LlmBackend {
    fn infer(&self, prompt: &str) -> Result<String, String>;
}

/// An event's fields as text.
pub open spec fn event_is(e: AuditEvent, agent: Seq<char>, kind: Seq<char>, detail: Seq<char>) -> bool {
    e.agent@ == agent && e.kind@ == kind && e.detail@ == detail
}

/// Consecutive faults after which an agent is quarantined.
pub const MAX_FAULTS: u32 = 3;

/// What a supervised run led to.
#[derive(Clone, Copy, Debug, PartialEq, Eq, Structural)]
pub enum FaultVerdict {
    /// The run succeeded; the fault count starts over.
    Cleared,
    /// The run faulted; this many in a row so far.
    Fault(u32),
    /// The run faulted, this many in a row, and the agent is quarantined.
    Quarantined(u32),
}

/// Supervision as plain values: consecutive faults per agent, and the
/// quarantined agents.
pub struct SupervisionView {
    pub faults: Map<Seq<char>, u32>,
    pub quarantined: Set<Seq<char>>,
}

/// The consecutive faults of an agent (none when unknown).
pub open spec fn fault_count(v: SupervisionView, a: Seq<char>) -> u32 {
    if v.faults.contains_key(a) { v.faults[a] } else { 0 }
}

/// What recording a run of agent `a` answers, and the supervision after.
pub open spec fn record_spec(v: SupervisionView, a: Seq<char>, ok: bool) -> (FaultVerdict, SupervisionView) {
    if ok {
        (FaultVerdict::Cleared, SupervisionView { faults: v.faults.insert(a, 0), ..v })
    } else {
        let c = (fault_count(v, a) + 1) as u32;
        let faults = v.faults.insert(a, c);
        if c >= MAX_FAULTS {
            (FaultVerdict::Quarantined(c), SupervisionView { faults, quarantined: v.quarantined.insert(a) })
        } else {
            (FaultVerdict::Fault(c), SupervisionView { faults, ..v })
        }
    }
}

/// Per-agent fault counts and the quarantine.
#[derive(Debug)]
pub struct Supervision {
    faults: Vec<(String, u32)>,
    quarantined: Vec<String>,
}

impl View for Supervision {
    type V = SupervisionView;

    closed spec fn view(&self) -> SupervisionView {
        SupervisionView { faults: keyed_map(self.faults@), quarantined: texts(self.quarantined@).to_set() }
    }
}

impl Supervision {
    #[verifier::type_invariant]
    closed spec fn keys_distinct(self) -> bool {
        keys_of(self.faults@).no_duplicates()
    }

    /// No faults, nobody quarantined.
    pub fn new() -> (s: Self)
        ensures
            s@.faults == Map::<Seq<char>, u32>::empty(),
            s@.quarantined == Set::<Seq<char>>::empty(),
    {
        let s = Supervision { faults: Vec::new(), quarantined: Vec::new() };
        assert(keys_of(s.faults@) =~= Seq::<Seq<char>>::empty());
        assert(s@.faults =~= Map::<Seq<char>, u32>::empty());
        assert(s@.quarantined =~= Set::<Seq<char>>::empty());
        s
    }

    /// The consecutive faults of `agent`.
    pub fn faults(&self, agent: &str) -> (n: u32)
        ensures
            n == fault_count(self@, agent@),
    {
        proof {
            use_type_invariant(self);
        }
        match keyed_get(&self.faults, agent) {
            Some(n) => n,
            None => 0,
        }
    }

    /// Whether `agent` is quarantined.
    pub fn is_quarantined(&self, agent: &str) -> (q: bool)
        ensures
            q == self@.quarantined.contains(agent@),
    {
        contains_text(&self.quarantined, agent)
    }

    /// Record how a run of `agent` went.
    pub fn record(&mut self, agent: &str, ok: bool) -> (v: FaultVerdict)
        requires
            !ok ==> fault_count(old(self)@, agent@) < u32::MAX,
        ensures
            (v, final(self)@) == record_spec(old(self)@, agent@, ok),
    {
        proof {
            use_type_invariant(&*self);
        }
        if ok {
            {
                let mut v: Vec<_> = Vec::new();
                std::mem::swap(&mut v, &mut self.faults);
                keyed_put(&mut v, agent, 0);
                std::mem::swap(&mut v, &mut self.faults);
            }
            return FaultVerdict::Cleared;
        }
        let c = match keyed_get(&self.faults, agent) {
            Some(n) => n + 1,
            None => 1,
        };
        {
                let mut v: Vec<_> = Vec::new();
                std::mem::swap(&mut v, &mut self.faults);
                keyed_put(&mut v, agent, c);
                std::mem::swap(&mut v, &mut self.faults);
            }
        if c >= MAX_FAULTS {
            if !contains_text(&self.quarantined, agent) {
                let ghost q = self.quarantined@;
                let mut v: Vec<String> = Vec::new();
                std::mem::swap(&mut v, &mut self.quarantined);
                v.push(owned(agent));
                std::mem::swap(&mut v, &mut self.quarantined);
                proof {
                    assert(texts(self.quarantined@) =~= texts(q).push(agent@));
                    texts(q).lemma_push_to_set_commute(agent@);
                }
            } else {
                proof {
                    assert(self@.quarantined.insert(agent@) =~= self@.quarantined);
                }
            }
            FaultVerdict::Quarantined(c)
        } else {
            FaultVerdict::Fault(c)
        }
    }
}

/// The audit events a supervised run leads to: none on success; a `fault`
/// with the error; and, on quarantine, then a `quarantined` event.
pub fn fault_events(agent: &str, verdict: FaultVerdict, error: &str) -> (events: Vec<AuditEvent>)
    ensures
        verdict == FaultVerdict::Cleared ==> events@.len() == 0,
        verdict is Fault ==> events@.len() == 1 && event_is(events@[0], agent@, "fault"@, error@),
        verdict is Quarantined ==> events@.len() == 2 && event_is(events@[0], agent@, "fault"@, error@)
            && event_is(events@[1], agent@, "quarantined"@, "fault threshold exceeded"@),
{
    let mut events: Vec<AuditEvent> = Vec::new();
    match verdict {
        FaultVerdict::Cleared => {},
        FaultVerdict::Fault(_) => {
            events.push(AuditEvent { agent: owned(agent), kind: owned("fault"), detail: owned(error) });
        },
        FaultVerdict::Quarantined(_) => {
            events.push(AuditEvent { agent: owned(agent), kind: owned("fault"), detail: owned(error) });
            events.push(AuditEvent {
                agent: owned(agent),
                kind: owned("quarantined"),
                detail: owned("fault threshold exceeded"),
            });
        },
    }
    events
}

/// Quarantine is for good: recording a run never releases an agent.
pub proof fn law_quarantine_is_permanent(v: SupervisionView, a: Seq<char>, ok: bool, b: Seq<char>)
    requires
        v.quarantined.contains(b),
    ensures
        record_spec(v, a, ok).1.quarantined.contains(b),
{
}

/// An agent is quarantined on its `MAX_FAULTS`-th fault in a row.
pub proof fn law_repeated_faults_quarantine(v: SupervisionView, a: Seq<char>)
    requires
        fault_count(v, a) == MAX_FAULTS - 1,
    ensures
        record_spec(v, a, false).0 == FaultVerdict::Quarantined(MAX_FAULTS),
        record_spec(v, a, false).1.quarantined.contains(a),
{
}

/// The length of an egress window, in milliseconds.
pub const RATE_WINDOW_MS: u64 = 1000;

/// The window an agent's next message falls in: its current one, or a fresh
/// one (starting now, empty) once a full window has passed.
pub open spec fn current_window(m: Map<Seq<char>, (u64, u32)>, a: Seq<char>, now: u64) -> (u64, u32) {
    let slot = if m.contains_key(a) { m[a] } else { (now, 0u32) };
    if now >= slot.0 && now - slot.0 >= RATE_WINDOW_MS { (now, 0u32) } else { slot }
}

/// Whether agent `a`, allowed `limit` messages a window (none or zero: no
/// limit), may send now, and the windows after.
pub open spec fn rate_spec(m: Map<Seq<char>, (u64, u32)>, a: Seq<char>, limit: Option<u32>, now: u64)
    -> (bool, Map<Seq<char>, (u64, u32)>)
{
    match limit {
        Some(l) if l > 0 => {
            let w = current_window(m, a, now);
            if w.1 >= l {
                (false, m.insert(a, w))
            } else {
                (true, m.insert(a, (w.0, (w.1 + 1) as u32)))
            }
        },
        _ => (true, m),
    }
}

/// Per-agent egress windows: when each started and how many messages went.
#[derive(Debug)]
pub struct RateWindows {
    windows: Vec<(String, (u64, u32))>,
}

impl View for RateWindows {
    type V = Map<Seq<char>, (u64, u32)>;

    closed spec fn view(&self) -> Map<Seq<char>, (u64, u32)> {
        keyed_map(self.windows@)
    }
}

impl RateWindows {
    #[verifier::type_invariant]
    closed spec fn keys_distinct(self) -> bool {
        keys_of(self.windows@).no_duplicates()
    }

    /// No windows yet.
    pub fn new() -> (r: Self)
        ensures
            r@ == Map::<Seq<char>, (u64, u32)>::empty(),
    {
        let r = RateWindows { windows: Vec::new() };
        assert(keys_of(r.windows@) =~= Seq::<Seq<char>>::empty());
        assert(r@ =~= Map::<Seq<char>, (u64, u32)>::empty());
        r
    }

    /// Whether `agent`, allowed `limit` messages a window, may send at `now`
    /// (milliseconds); counts the message when it may.
    pub fn allow(&mut self, agent: &str, limit: Option<u32>, now: u64) -> (ok: bool)
        ensures
            (ok, final(self)@) == rate_spec(old(self)@, agent@, limit, now),
    {
        proof {
            use_type_invariant(&*self);
        }
        let l = match limit {
            Some(l) => l,
            None => return true,
        };
        if l == 0 {
            return true;
        }
        let slot = match keyed_get(&self.windows, agent) {
            Some(w) => w,
            None => (now, 0u32),
        };
        let w = if now >= slot.0 && now - slot.0 >= RATE_WINDOW_MS { (now, 0u32) } else { slot };
        if w.1 >= l {
            {
                let mut v: Vec<_> = Vec::new();
                std::mem::swap(&mut v, &mut self.windows);
                keyed_put(&mut v, agent, w);
                std::mem::swap(&mut v, &mut self.windows);
            }
            false
        } else {
            {
                let mut v: Vec<_> = Vec::new();
                std::mem::swap(&mut v, &mut self.windows);
                keyed_put(&mut v, agent, (w.0, w.1 + 1));
                std::mem::swap(&mut v, &mut self.windows);
            }
            true
        }
    }
}

/// Within a window an agent never goes past its limit: a count within the
/// limit stays within it, and an admitted message is counted.
pub proof fn law_rate_bounded(m: Map<Seq<char>, (u64, u32)>, a: Seq<char>, l: u32, now: u64)
    requires
        l > 0,
        m.contains_key(a) ==> m[a].1 <= l,
    ensures
        rate_spec(m, a, Some(l), now).1[a].1 <= l,
        rate_spec(m, a, Some(l), now).0 ==> rate_spec(m, a, Some(l), now).1[a].1 == current_window(m, a, now).1 + 1,
        !rate_spec(m, a, Some(l), now).0 ==> current_window(m, a, now).1 == l,
{
}

/// How many recent (sender, nonce) pairs the replay guard remembers.
pub const NONCE_WINDOW: usize = 8192;

/// The (sender, nonce) pairs of a remembered list.
pub open spec fn pairs(s: Seq<(String, Vec<u8>)>) -> Seq<(Seq<char>, Seq<u8>)> {
    s.map_values(|p: (String, Vec<u8>)| (p.0@, p.1@))
}

/// Whether a message from `from` with `nonce` is fresh, and the remembered
/// pairs after: a message without a nonce is not checked; a remembered pair
/// is a replay; a fresh pair is remembered, forgetting the oldest beyond the
/// window.
pub open spec fn replay_spec(s: Seq<(Seq<char>, Seq<u8>)>, from: Seq<char>, nonce: Seq<u8>) -> (bool, Seq<(Seq<char>, Seq<u8>)>) {
    if nonce.len() == 0 {
        (true, s)
    } else if s.contains((from, nonce)) {
        (false, s)
    } else {
        let p = s.push((from, nonce));
        (true, if p.len() > NONCE_WINDOW { p.drop_first() } else { p })
    }
}

/// The replay guard: recent (sender, nonce) pairs, oldest first.
#[derive(Debug)]
pub struct ReplayGuard {
    seen: Vec<(String, Vec<u8>)>,
}

impl View for ReplayGuard {
    type V = Seq<(Seq<char>, Seq<u8>)>;

    closed spec fn view(&self) -> Seq<(Seq<char>, Seq<u8>)> {
        pairs(self.seen@)
    }
}

impl ReplayGuard {
    /// Nothing remembered.
    pub fn new() -> (g: Self)
        ensures
            g@ == Seq::<(Seq<char>, Seq<u8>)>::empty(),
    {
        let g = ReplayGuard { seen: Vec::new() };
        assert(g@ =~= Seq::<(Seq<char>, Seq<u8>)>::empty());
        g
    }

    /// Whether a message from `from` with `nonce` is fresh; remembers it.
    pub fn check_fresh(&mut self, from: &str, nonce: &[u8]) -> (ok: bool)
        ensures
            (ok, final(self)@) == replay_spec(old(self)@, from@, nonce@),
    {
        if nonce.len() == 0 {
            return true;
        }
        let ghost s = self@;
        let mut i: usize = 0;
        while i < self.seen.len()
            invariant
                s == pairs(self.seen@),
                nonce@.len() > 0,
                i <= self.seen@.len(),
                forall|j: int| 0 <= j < i ==> #[trigger] s[j] != (from@, nonce@),
            decreases self.seen@.len() - i,
        {
            if str_eq(self.seen[i].0.as_str(), from) && bytes_eq(self.seen[i].1.as_slice(), nonce) {
                proof {
                    assert(s[i as int] == (from@, nonce@));
                    assert(s.contains((from@, nonce@)));
                }
                return false;
            }
            i = i + 1;
        }
        proof {
            if s.contains((from@, nonce@)) {
                let j = choose|j: int| 0 <= j < s.len() && s[j] == (from@, nonce@);
                assert(s[j] != (from@, nonce@));
            }
        }
        self.seen.push((owned(from), vstd::slice::slice_to_vec(nonce)));
        assert(pairs(self.seen@) =~= s.push((from@, nonce@)));
        if self.seen.len() > NONCE_WINDOW {
            let ghost p = self.seen@;
            let _oldest = self.seen.remove(0);
            assert(pairs(self.seen@) =~= pairs(p).drop_first());
        }
        true
    }
}

/// A fresh message, presented again at once, is a replay.
pub proof fn law_replay_dropped(s: Seq<(Seq<char>, Seq<u8>)>, from: Seq<char>, nonce: Seq<u8>)
    requires
        nonce.len() > 0,
        replay_spec(s, from, nonce).0,
    ensures
        !replay_spec(replay_spec(s, from, nonce).1, from, nonce).0,
{
    let p = s.push((from, nonce));
    let after = replay_spec(s, from, nonce).1;
    if p.len() > NONCE_WINDOW {
        assert(after[after.len() - 1] == (from, nonce));
    } else {
        assert(after[after.len() - 1] == (from, nonce));
    }
}

/// The guard never remembers more than its window.
pub proof fn law_replay_window_bounded(s: Seq<(Seq<char>, Seq<u8>)>, from: Seq<char>, nonce: Seq<u8>)
    requires
        s.len() <= NONCE_WINDOW,
    ensures
        replay_spec(s, from, nonce).1.len() <= NONCE_WINDOW,
{
}


/// The most connections a node keeps open at once.
pub const MAX_CONNS: usize = 64;

/// The most connections a node keeps open from any one source address.
pub const MAX_PER_IP: usize = 8;

/// The most inferences a node runs at once.
pub const MAX_INFLIGHT_INFER: usize = 32;

/// Whether a node with `open` connections takes a new one, `from_source`
/// being how many it already has from that source (when the source address
/// is known): past either cap the connection is dropped.
pub fn admit_connection(open: usize, from_source: Option<usize>) -> (ok: bool)
    ensures
        ok == (open < MAX_CONNS && (from_source matches Some(c) ==> c < MAX_PER_IP)),
{
    if open >= MAX_CONNS {
        return false;
    }
    match from_source {
        Some(c) => c < MAX_PER_IP,
        None => true,
    }
}

/// Whether another inference may start with `inflight` running; otherwise
/// the request waits for a later round.
pub fn infer_slot_free(inflight: usize) -> (ok: bool)
    ensures
        ok == (inflight < MAX_INFLIGHT_INFER),
{
    inflight < MAX_INFLIGHT_INFER
}

} // verus!
