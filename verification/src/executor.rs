//! The node's in-process executor: it delivers a message to the local agent
//! it is addressed to and routes what that agent emits, in-process to a
//! co-located agent or out to the wire, under the node's guards. A per-event
//! work budget bounds the fan-out, so a local message loop cannot exhaust the
//! node.
use vstd::prelude::*;
use std::collections::VecDeque;
use crate::guard::{fault_count, net_allows, rate_spec, FaultVerdict, RateWindows, Supervision, SupervisionView, MAX_FAULTS};
use crate::router::{AgentRuntime, OutboundIntent};
use crate::strmap::StrMap;
use crate::text::{owned, str_eq};

verus! {

/// A message the node moves: `from` is the sender the node vouches for, and
/// `from_addr` where replies to it go.
#[derive(Debug)]
pub struct NodeMessage {
    pub from: String,
    pub from_addr: String,
    pub to: String,
    pub unl: Vec<u8>,
    pub body: Vec<u8>,
}

/// A node message as plain values.
pub struct NodeMessageView {
    pub from: Seq<char>,
    pub from_addr: Seq<char>,
    pub to: Seq<char>,
    pub unl: Seq<u8>,
    pub body: Seq<u8>,
}

impl View for NodeMessage {
    type V = NodeMessageView;

    open spec fn view(&self) -> NodeMessageView {
        NodeMessageView { from: self.from@, from_addr: self.from_addr@, to: self.to@, unl: self.unl@, body: self.body@ }
    }
}

/// A locally mounted agent: its id and alias, its runtime, whether it is
/// live (a migrated agent is not until it commits), its egress limit per
/// window, and its network scope.
pub struct Mounted<A> {
    pub uuid: String,
    pub alias: String,
    pub runtime: A,
    pub active: bool,
    pub msg_limit: Option<u32>,
    pub net: Option<String>,
}

/// A mounted agent as plain values (its runtime left out).
pub struct MountedView {
    pub uuid: Seq<char>,
    pub alias: Seq<char>,
    pub active: bool,
    pub msg_limit: Option<u32>,
    pub net: Option<Seq<char>>,
}

/// An optional string as optional text.
pub open spec fn opt_seq(o: Option<String>) -> Option<Seq<char>> {
    match o {
        Some(s) => Some(s@),
        None => None,
    }
}

/// A mounted agent's plain values.
pub open spec fn mounted_view<A>(m: Mounted<A>) -> MountedView {
    MountedView { uuid: m.uuid@, alias: m.alias@, active: m.active, msg_limit: m.msg_limit, net: opt_seq(m.net) }
}

/// The mounted agents' plain values.
pub open spec fn mounted_views<A>(v: Seq<Mounted<A>>) -> Seq<MountedView> {
    v.map_values(|m: Mounted<A>| mounted_view(m))
}

/// Whether `to` names a mounted agent, by id or alias.
pub open spec fn is_local(agents: Seq<MountedView>, to: Seq<char>) -> bool {
    exists|i: int| 0 <= i < agents.len() && ((#[trigger] agents[i]).uuid == to || agents[i].alias == to)
}

/// Why a send was or was not let out.
#[derive(Clone, Copy, Debug, PartialEq, Eq, Structural)]
pub enum SendVerdict {
    /// Within the sender's rate and network scope: sent.
    Admitted,
    /// Over the sender's egress rate: dropped.
    DeniedRate,
    /// Outside the sender's network scope: dropped.
    DeniedNet,
}

/// One send an agent made, how it was judged, and what it was judged on.
#[derive(Debug)]
pub struct SendCheck {
    pub agent: String,
    pub receiver: String,
    pub msg_limit: Option<u32>,
    pub net: Option<String>,
    pub to_local: bool,
    pub verdict: SendVerdict,
}

/// A send check as plain values.
pub struct SendCheckView {
    pub agent: Seq<char>,
    pub receiver: Seq<char>,
    pub msg_limit: Option<u32>,
    pub net: Option<Seq<char>>,
    pub to_local: bool,
    pub verdict: SendVerdict,
}

/// A send check's plain values.
pub open spec fn check_view(c: SendCheck) -> SendCheckView {
    SendCheckView {
        agent: c.agent@,
        receiver: c.receiver@,
        msg_limit: c.msg_limit,
        net: opt_seq(c.net),
        to_local: c.to_local,
        verdict: c.verdict,
    }
}

/// Send checks as plain values.
pub open spec fn check_views(v: Seq<SendCheck>) -> Seq<SendCheckView> {
    v.map_values(|c: SendCheck| check_view(c))
}

/// Whether scope `net` lets a message out to a (non-)local receiver.
pub open spec fn net_ok(net: Option<Seq<char>>, to_local: bool) -> bool {
    to_local || !(net matches Some(n) && n == "none"@)
}

/// The egress windows after the sends `cs`, each counted against its
/// sender in turn.
pub open spec fn rate_fold(w: Map<Seq<char>, (u64, u32)>, cs: Seq<SendCheckView>, now: u64) -> Map<Seq<char>, (u64, u32)>
    decreases cs.len(),
{
    if cs.len() == 0 {
        w
    } else {
        rate_spec(rate_fold(w, cs.drop_last(), now), cs.last().agent, cs.last().msg_limit, now).1
    }
}

/// The verdict on send `c` with the egress windows `w`: the rate is checked
/// first, then the network scope.
pub open spec fn verdict_spec(w: Map<Seq<char>, (u64, u32)>, c: SendCheckView, now: u64) -> SendVerdict {
    if !rate_spec(w, c.agent, c.msg_limit, now).0 {
        SendVerdict::DeniedRate
    } else if !net_ok(c.net, c.to_local) {
        SendVerdict::DeniedNet
    } else {
        SendVerdict::Admitted
    }
}


/// Delivery records as plain values.
pub open spec fn delivered_view(v: Seq<(String, FaultVerdict)>) -> Seq<(Seq<char>, FaultVerdict)> {
    v.map_values(|d: (String, FaultVerdict)| (d.0@, d.1))
}

/// Node messages as plain values.
pub open spec fn messages_view(v: Seq<NodeMessage>) -> Seq<NodeMessageView> {
    v.map_values(|m: NodeMessage| m@)
}

/// Every send in `cs` got the verdict that the windows before it (starting
/// from `w0`) and its sender's scope give.
pub open spec fn checks_judged(w0: Map<Seq<char>, (u64, u32)>, cs: Seq<SendCheckView>, now: u64) -> bool {
    forall|i: int| 0 <= i < cs.len() ==> (#[trigger] cs[i]).verdict == verdict_spec(rate_fold(w0, cs.take(i), now), cs[i], now)
}

/// Every wire message is an admitted send to a non-local receiver, stamped
/// with its sender's id and this node's address.
pub open spec fn wire_admitted(wire: Seq<NodeMessageView>, cs: Seq<SendCheckView>, addr: Seq<char>) -> bool {
    forall|k: int| 0 <= k < wire.len() ==> exists|i: int| 0 <= i < cs.len() && {
        &&& (#[trigger] cs[i]).verdict == SendVerdict::Admitted
        &&& !cs[i].to_local
        &&& (#[trigger] wire[k]).from == cs[i].agent
        &&& wire[k].to == cs[i].receiver
        &&& wire[k].from_addr == addr
    }
}

/// Every send in `cs` was made by an agent delivered to, and was judged on
/// that agent's limit and scope and on whether the receiver is local.
pub open spec fn checks_from(cs: Seq<SendCheckView>, delivered: Seq<(Seq<char>, FaultVerdict)>, agents: Seq<MountedView>) -> bool {
    forall|i: int| 0 <= i < cs.len() ==> {
        &&& exists|j: int| 0 <= j < delivered.len() && (#[trigger] delivered[j]).0 == (#[trigger] cs[i]).agent
        &&& exists|a: int| 0 <= a < agents.len() && (#[trigger] agents[a]).uuid == cs[i].agent
            && agents[a].msg_limit == cs[i].msg_limit && agents[a].net == cs[i].net
        &&& cs[i].to_local == is_local(agents, cs[i].receiver)
    }
}

/// Every delivery went to a live agent that was not quarantined before the
/// pump, and an agent whose run put it in quarantine got nothing after.
pub open spec fn deliveries_guarded(d: Seq<(Seq<char>, FaultVerdict)>, agents: Seq<MountedView>, q0: Set<Seq<char>>) -> bool {
    &&& forall|i: int| 0 <= i < d.len() ==> !q0.contains((#[trigger] d[i]).0)
        && exists|a: int| 0 <= a < agents.len() && (#[trigger] agents[a]).uuid == d[i].0 && agents[a].active
    &&& forall|i: int, k: int| 0 <= i < k < d.len() && (#[trigger] d[i]).0 == (#[trigger] d[k]).0 ==> !(d[i].1 is Quarantined)
}

proof fn lemma_fold_push(w: Map<Seq<char>, (u64, u32)>, cs: Seq<SendCheckView>, c: SendCheckView, now: u64)
    ensures
        rate_fold(w, cs.push(c), now) == rate_spec(rate_fold(w, cs, now), c.agent, c.msg_limit, now).1,
        forall|i: int| 0 <= i <= cs.len() ==> #[trigger] cs.push(c).take(i) == cs.take(i),
{
    assert(cs.push(c).drop_last() =~= cs);
    assert forall|i: int| 0 <= i <= cs.len() implies #[trigger] cs.push(c).take(i) == cs.take(i) by {
        assert(cs.push(c).take(i) =~= cs.take(i));
    }
}

/// The mounted agent a message to `to` goes to: the first with that id,
/// else the first with that alias.
#[verifier::opaque]
pub open spec fn target_of(agents: Seq<MountedView>, to: Seq<char>) -> Option<int> {
    if exists|i: int| 0 <= i < agents.len() && (#[trigger] agents[i]).uuid == to {
        Some(choose|i: int| 0 <= i < agents.len() && (#[trigger] agents[i]).uuid == to
            && forall|j: int| 0 <= j < i ==> agents[j].uuid != to)
    } else if exists|i: int| 0 <= i < agents.len() && (#[trigger] agents[i]).alias == to {
        Some(choose|i: int| 0 <= i < agents.len() && (#[trigger] agents[i]).alias == to
            && forall|j: int| 0 <= j < i ==> agents[j].alias != to)
    } else {
        None
    }
}

proof fn lemma_first_uuid(agents: Seq<MountedView>, to: Seq<char>, i: int)
    requires
        0 <= i < agents.len(),
        agents[i].uuid == to,
        forall|j: int| 0 <= j < i ==> agents[j].uuid != to,
    ensures
        target_of(agents, to) == Some(i),
{
    reveal(target_of);
    assert(exists|k: int| 0 <= k < agents.len() && (#[trigger] agents[k]).uuid == to) by {
        assert(agents[i].uuid == to);
    }
    let k = choose|k: int| 0 <= k < agents.len() && (#[trigger] agents[k]).uuid == to
        && forall|j: int| 0 <= j < k ==> agents[j].uuid != to;
    assert(0 <= i < agents.len() && agents[i].uuid == to && forall|j: int| 0 <= j < i ==> agents[j].uuid != to);
    if k < i {
        assert(agents[k].uuid != to);
    } else if k > i {
        assert(agents[i].uuid != to);
    }
}

proof fn lemma_first_alias(agents: Seq<MountedView>, to: Seq<char>, i: int)
    requires
        0 <= i < agents.len(),
        agents[i].alias == to,
        forall|j: int| 0 <= j < i ==> agents[j].alias != to,
        forall|j: int| 0 <= j < agents.len() ==> agents[j].uuid != to,
    ensures
        target_of(agents, to) == Some(i),
{
    reveal(target_of);
    assert(!exists|k: int| 0 <= k < agents.len() && (#[trigger] agents[k]).uuid == to);
    assert(exists|k: int| 0 <= k < agents.len() && (#[trigger] agents[k]).alias == to) by {
        assert(agents[i].alias == to);
    }
    let k = choose|k: int| 0 <= k < agents.len() && (#[trigger] agents[k]).alias == to
        && forall|j: int| 0 <= j < k ==> agents[j].alias != to;
    assert(0 <= i < agents.len() && agents[i].alias == to && forall|j: int| 0 <= j < i ==> agents[j].alias != to);
    if k < i {
        assert(agents[k].alias != to);
    } else if k > i {
        assert(agents[i].alias != to);
    }
}

/// Sends paired with their sender.
pub open spec fn pairs_of(agent: Seq<char>, receivers: Seq<Seq<char>>) -> Seq<(Seq<char>, Seq<char>)> {
    receivers.map_values(|r: Seq<char>| (agent, r))
}

/// Every send emitted by the runs recorded in `d`, where `s[k]` lists the
/// receivers of what run `k` emitted: sender and receiver, in order.
pub open spec fn sends_of(d: Seq<(Seq<char>, FaultVerdict)>, s: Seq<Seq<Seq<char>>>) -> Seq<(Seq<char>, Seq<char>)>
    decreases s.len(),
{
    if s.len() == 0 {
        Seq::empty()
    } else {
        sends_of(d, s.drop_last()) + pairs_of(d[s.len() - 1].0, s.last())
    }
}

proof fn lemma_sends_of_prefix(d1: Seq<(Seq<char>, FaultVerdict)>, d2: Seq<(Seq<char>, FaultVerdict)>, s: Seq<Seq<Seq<char>>>)
    requires
        s.len() <= d1.len(),
        s.len() <= d2.len(),
        forall|i: int| 0 <= i < s.len() ==> d1[i] == d2[i],
    ensures
        sends_of(d1, s) == sends_of(d2, s),
    decreases s.len(),
{
    if s.len() > 0 {
        lemma_sends_of_prefix(d1, d2, s.drop_last());
    }
}

/// The sender and receiver of each send check.
pub open spec fn check_pairs(cs: Seq<SendCheckView>) -> Seq<(Seq<char>, Seq<char>)> {
    cs.map_values(|c: SendCheckView| (c.agent, c.receiver))
}

/// How many sends in `cs` were admitted to a local (or, with `local` false,
/// a non-local) receiver.
pub open spec fn admitted_count(cs: Seq<SendCheckView>, local: bool) -> nat
    decreases cs.len(),
{
    if cs.len() == 0 {
        0
    } else {
        admitted_count(cs.drop_last(), local)
            + if cs.last().verdict == SendVerdict::Admitted && cs.last().to_local == local { 1nat } else { 0nat }
    }
}

/// The receivers of a list of emitted sends.
pub open spec fn receivers(v: Seq<OutboundIntent>) -> Seq<Seq<char>> {
    v.map_values(|o: OutboundIntent| o.receiver@)
}

/// Lists of strings as lists of text.
pub open spec fn text_lists(v: Seq<Vec<String>>) -> Seq<Seq<Seq<char>>> {
    v.map_values(|l: Vec<String>| l@.map_values(|t: String| t@))
}

/// What one pump did: how many messages it took; whom it delivered to
/// (with the verdict on each run) and, for each of those runs, the
/// receivers of what the agent sent; the agents it dropped a message for
/// because they are quarantined; the messages for no local agent; those held
/// back for an agent not yet live; every send judged; the sends that go out
/// to the wire; and the messages left when the budget ran out.
#[derive(Debug)]
pub struct PumpOutcome {
    pub taken: usize,
    pub delivered: Vec<(String, FaultVerdict)>,
    pub sent: Vec<Vec<String>>,
    pub quarantined_drops: Vec<String>,
    pub unrouted: Vec<NodeMessage>,
    pub held: Vec<NodeMessage>,
    pub checks: Vec<SendCheck>,
    pub wire: Vec<NodeMessage>,
    pub rest: Vec<NodeMessage>,
}

/// Whether the first message goes to a live local agent that is not
/// quarantined (with the quarantine `q0` at the start).
pub open spec fn first_delivers(a0: Seq<MountedView>, q0: Set<Seq<char>>, init: NodeMessageView) -> bool {
    match target_of(a0, init.to) {
        Some(t) => !q0.contains(a0[t].uuid) && a0[t].active,
        None => false,
    }
}

/// What became of the first message: to the sink when no local agent has
/// its address, dropped for a quarantined agent, held back for one not
/// live, else delivered first, to the agent it names.
#[verifier::opaque]
pub open spec fn first_handled(a0: Seq<MountedView>, q0: Set<Seq<char>>, init: NodeMessageView, out: PumpOutcome) -> bool {
    match target_of(a0, init.to) {
        None => {
            &&& messages_view(out.unrouted@) == seq![init]
            &&& out.delivered@.len() == 0
            &&& out.quarantined_drops@.len() == 0
            &&& out.held@.len() == 0
        },
        Some(t) => if q0.contains(a0[t].uuid) {
            &&& out.quarantined_drops@.len() == 1
            &&& out.quarantined_drops@[0]@ == a0[t].uuid
            &&& out.delivered@.len() == 0
            &&& out.unrouted@.len() == 0
            &&& out.held@.len() == 0
        } else if !a0[t].active {
            &&& messages_view(out.held@) == seq![init]
            &&& out.delivered@.len() == 0
            &&& out.unrouted@.len() == 0
            &&& out.quarantined_drops@.len() == 0
        } else {
            &&& out.delivered@.len() >= 1
            &&& out.delivered@[0].0@ == a0[t].uuid
        },
    }
}

/// The executor's state: the mounted agents, fault supervision, egress
/// windows, the return routes learned, and this node's address.
pub struct Executor<A: AgentRuntime> {
    agents: Vec<Mounted<A>>,
    supervision: Supervision,
    windows: RateWindows,
    routes: StrMap,
    addr: String,
}

/// Move what is left on the queue, in order, to the end of `rest`.
fn drain(q: &mut VecDeque<NodeMessage>, rest: &mut Vec<NodeMessage>)
    ensures
        final(q)@.len() == 0,
        messages_view(final(rest)@) == messages_view(old(rest)@) + messages_view(old(q)@),
{
    let ghost r0 = messages_view(rest@);
    let ghost all = messages_view(q@);
    let ghost mut taken: int = 0;
    while q.len() > 0
        invariant
            0 <= taken <= all.len(),
            messages_view(q@) == all.skip(taken as int),
            messages_view(rest@) == r0 + all.take(taken as int),
            all == messages_view(old(q)@),
            r0 == messages_view(old(rest)@),
        decreases q@.len(),
    {
        let ghost qv = messages_view(q@);
        let ghost rv = messages_view(rest@);
        match q.pop_front() {
            Some(x) => {
                proof {
                    assert(qv.len() > 0);
                    assert(x@ == qv[0]);
                    assert(messages_view(q@) =~= qv.skip(1));
                }
                rest.push(x);
                proof {
                    assert(messages_view(rest@) =~= rv.push(all[taken as int]));
                    assert(all.take(taken as int + 1) =~= all.take(taken as int).push(all[taken as int]));
                    assert(all.skip(taken as int + 1) =~= all.skip(taken as int).skip(1));
                }
                proof {
                    taken = taken + 1;
                }
            },
            None => {},
        }
    }
    assert(all.take(taken as int) =~= all);
}

/// The receivers of a list of emitted sends, in order.
fn receivers_of(v: &Vec<OutboundIntent>) -> (r: Vec<String>)
    ensures
        r@.map_values(|t: String| t@) == receivers(v@),
{
    let mut r: Vec<String> = Vec::new();
    let mut i: usize = 0;
    while i < v.len()
        invariant
            i <= v@.len(),
            r@.map_values(|t: String| t@) == receivers(v@.take(i as int)),
        decreases v@.len() - i,
    {
        let ghost r0 = r@;
        r.push(v[i].receiver.clone());
        proof {
            assert(v@.take(i + 1) =~= v@.take(i as int).push(v@[i as int]));
            assert(r@.map_values(|t: String| t@) =~= r0.map_values(|t: String| t@).push(v@[i as int].receiver@));
            assert(receivers(v@.take(i + 1)) =~= receivers(v@.take(i as int)).push(v@[i as int].receiver@));
        }
        i = i + 1;
    }
    assert(v@.take(i as int) =~= v@);
    r
}

impl<A: AgentRuntime> Executor<A> {
    /// The mounted agents' plain values.
    pub closed spec fn agents_view(&self) -> Seq<MountedView> {
        mounted_views(self.agents@)
    }

    /// Supervision as plain values.
    pub closed spec fn supervision_view(&self) -> SupervisionView {
        self.supervision@
    }

    /// The egress windows.
    pub closed spec fn windows_view(&self) -> Map<Seq<char>, (u64, u32)> {
        self.windows@
    }

    /// This node's address.
    pub closed spec fn addr_view(&self) -> Seq<char> {
        self.addr@
    }

    /// The return routes learned, by sender.
    pub closed spec fn routes_view(&self) -> Map<Seq<char>, Seq<char>> {
        self.routes@
    }

    /// Every agent that is not quarantined has fewer faults in a row than
    /// quarantine takes.
    pub open spec fn wf(&self) -> bool {
        forall|a: Seq<char>| !self.supervision_view().quarantined.contains(a)
            ==> #[trigger] fault_count(self.supervision_view(), a) < MAX_FAULTS
    }

    /// No agents, no faults, no windows, no routes.
    pub fn new(addr: &str) -> (e: Self)
        ensures
            e.wf(),
            e.agents_view().len() == 0,
            e.supervision_view().quarantined == Set::<Seq<char>>::empty(),
            e.windows_view() == Map::<Seq<char>, (u64, u32)>::empty(),
            e.routes_view() == Map::<Seq<char>, Seq<char>>::empty(),
            e.addr_view() == addr@,
    {
        let e = Executor {
            agents: Vec::new(),
            supervision: Supervision::new(),
            windows: RateWindows::new(),
            routes: StrMap::new(),
            addr: owned(addr),
        };
        assert(mounted_views(e.agents@) =~= Seq::<MountedView>::empty());
        e
    }

    /// Mount an agent at the end of the list.
    pub fn mount(&mut self, m: Mounted<A>)
        ensures
            final(self).agents_view() == old(self).agents_view().push(mounted_view(m)),
            final(self).supervision_view() == old(self).supervision_view(),
            final(self).windows_view() == old(self).windows_view(),
            final(self).routes_view() == old(self).routes_view(),
            final(self).addr_view() == old(self).addr_view(),
    {
        let ghost mv = mounted_view(m);
        let ghost before = mounted_views(self.agents@);
        self.agents.push(m);
        assert(mounted_views(self.agents@) =~= before.push(mv));
    }

    /// Make the agent `uuid` live (or not): a migrated agent commits.
    pub fn set_active(&mut self, uuid: &str, active: bool)
        ensures
            final(self).agents_view().len() == old(self).agents_view().len(),
            forall|i: int| 0 <= i < old(self).agents_view().len() ==> #[trigger] final(self).agents_view()[i]
                == if old(self).agents_view()[i].uuid == uuid@ {
                    MountedView { active, ..old(self).agents_view()[i] }
                } else {
                    old(self).agents_view()[i]
                },
            final(self).supervision_view() == old(self).supervision_view(),
            final(self).windows_view() == old(self).windows_view(),
            final(self).routes_view() == old(self).routes_view(),
            final(self).addr_view() == old(self).addr_view(),
    {
        let ghost v0 = mounted_views(self.agents@);
        let mut i: usize = 0;
        while i < self.agents.len()
            invariant
                i <= self.agents@.len(),
                self.agents@.len() == v0.len(),
                forall|j: int| 0 <= j < v0.len() ==> #[trigger] mounted_views(self.agents@)[j]
                    == if j < i && v0[j].uuid == uuid@ { MountedView { active, ..v0[j] } } else { v0[j] },
                self.supervision@ == old(self).supervision@,
                self.windows@ == old(self).windows@,
                self.routes@ == old(self).routes@,
                self.addr == old(self).addr,
                v0 == mounted_views(old(self).agents@),
            decreases self.agents@.len() - i,
        {
            if str_eq(self.agents[i].uuid.as_str(), uuid) {
                let ghost before = self.agents@;
                let mut m = self.agents.remove(i);
                m.active = active;
                self.agents.insert(i, m);
                proof {
                    assert forall|j: int| 0 <= j < v0.len() implies #[trigger] mounted_views(self.agents@)[j]
                        == if j < i + 1 && v0[j].uuid == uuid@ { MountedView { active, ..v0[j] } } else { v0[j] } by {
                        if j != i {
                            assert(self.agents@[j] == before[j]);
                            assert(mounted_views(before)[j] == mounted_view(before[j]));
                        }
                    }
                }
            }
            i = i + 1;
        }
    }

    /// Whether `uuid` is quarantined.
    pub fn is_quarantined(&self, uuid: &str) -> (q: bool)
        ensures
            q == self.supervision_view().quarantined.contains(uuid@),
    {
        self.supervision.is_quarantined(uuid)
    }

    /// The return route learned for `from`.
    pub fn route(&self, from: &str) -> (r: Option<String>)
        ensures
            self.routes_view().contains_key(from@) ==> (r matches Some(a) && a@ == self.routes_view()[from@]),
            !self.routes_view().contains_key(from@) ==> r is None,
    {
        match self.routes.get(from) {
            Some(a) => Some(a.clone()),
            None => None,
        }
    }

    /// Judge and route one send `s` of agent `uuid` (egress limit
    /// `msg_limit`, network scope `net`): it is counted against the agent's
    /// window, then checked against its scope; if admitted it goes on the
    /// queue when its receiver is local, else out to the wire, stamped with
    /// `uuid` and this node's address.
    #[verifier::spinoff_prover]
    #[verifier::rlimit(30)]
    fn route_one(
        &mut self,
        uuid: &String,
        msg_limit: Option<u32>,
        net: &Option<String>,
        s: OutboundIntent,
        now: u64,
        q: &mut VecDeque<NodeMessage>,
        checks: &mut Vec<SendCheck>,
        wire: &mut Vec<NodeMessage>,
        Ghost(w0): Ghost<Map<Seq<char>, (u64, u32)>>,
    )
        requires
            old(self).wf(),
            checks_judged(w0, check_views(old(checks)@), now),
            old(self).windows_view() == rate_fold(w0, check_views(old(checks)@), now),
            wire_admitted(messages_view(old(wire)@), check_views(old(checks)@), old(self).addr_view()),
        ensures
            final(self).wf(),
            final(self).agents_view() == old(self).agents_view(),
            final(self).supervision_view() == old(self).supervision_view(),
            final(self).routes_view() == old(self).routes_view(),
            final(self).addr_view() == old(self).addr_view(),
            checks_judged(w0, check_views(final(checks)@), now),
            final(self).windows_view() == rate_fold(w0, check_views(final(checks)@), now),
            wire_admitted(messages_view(final(wire)@), check_views(final(checks)@), old(self).addr_view()),
            final(checks)@.len() == old(checks)@.len() + 1,
            check_views(final(checks)@).drop_last() == check_views(old(checks)@),
            ({
                let c = check_views(final(checks)@).last();
                &&& c.agent == uuid@
                &&& c.receiver == s.receiver@
                &&& c.msg_limit == msg_limit
                &&& c.net == opt_seq(*net)
                &&& c.to_local == is_local(old(self).agents_view(), c.receiver)
                &&& final(q)@.len() == old(q)@.len() + if c.verdict == SendVerdict::Admitted && c.to_local { 1int } else { 0int }
                &&& final(wire)@.len() == old(wire)@.len() + if c.verdict == SendVerdict::Admitted && !c.to_local { 1int } else { 0int }
            }),
    {
        let to_local = match self.local(s.receiver.as_str()) {
            Some(i) => {
                assert(is_local(self.agents_view(), s.receiver@)) by {
                    let a = self.agents_view()[i as int];
                }
                true
            },
            None => false,
        };
        let ghost wb = self.windows@;
        let rate_ok = self.windows.allow(uuid.as_str(), msg_limit, now);
        let net_str: Option<&str> = match net {
            Some(n) => Some(n.as_str()),
            None => None,
        };
        let verdict = if !rate_ok {
            SendVerdict::DeniedRate
        } else if !net_allows(net_str, to_local) {
            SendVerdict::DeniedNet
        } else {
            SendVerdict::Admitted
        };
        let net_copy: Option<String> = match net {
            Some(n) => Some(n.clone()),
            None => None,
        };
        let c = SendCheck {
            agent: uuid.clone(),
            receiver: s.receiver.clone(),
            msg_limit,
            net: net_copy,
            to_local,
            verdict,
        };
        let ghost cv = check_view(c);
        assert(cv.agent == uuid@ && cv.msg_limit == msg_limit && cv.net == opt_seq(*net));
        assert(cv.to_local == is_local(old(self).agents_view(), cv.receiver));
        let ghost cs = check_views(checks@);
        assert(verdict == verdict_spec(wb, cv, now));
        if verdict == SendVerdict::Admitted {
            let next = NodeMessage {
                from: uuid.clone(),
                from_addr: self.addr.clone(),
                to: s.receiver,
                unl: s.unl,
                body: s.body,
            };
            if to_local {
                q.push_back(next);
            } else {
                let ghost wv = messages_view(wire@);
                let ghost nv = next@;
                wire.push(next);
                proof {
                    assert(messages_view(wire@) =~= wv.push(nv));
                }
            }
        }
        checks.push(c);
        proof {
            let cs2 = check_views(checks@);
            assert(cs2 =~= cs.push(cv));
            assert(cs2.drop_last() =~= cs);
            lemma_fold_push(w0, cs, cv, now);
            assert forall|i: int| 0 <= i < cs2.len() implies (#[trigger] cs2[i]).verdict
                == verdict_spec(rate_fold(w0, cs2.take(i), now), cs2[i], now) by {
                if i < cs.len() {
                    assert(cs2[i] == cs[i]);
                    assert(cs2.take(i) == cs.take(i));
                } else {
                    assert(cs2.take(i) =~= cs);
                }
            }
            let wv = messages_view(wire@);
            assert forall|k: int| 0 <= k < wv.len() implies exists|i: int| 0 <= i < cs2.len() && {
                &&& (#[trigger] cs2[i]).verdict == SendVerdict::Admitted
                &&& !cs2[i].to_local
                &&& (#[trigger] wv[k]).from == cs2[i].agent
                &&& wv[k].to == cs2[i].receiver
                &&& wv[k].from_addr == old(self).addr_view()
            } by {
                if verdict == SendVerdict::Admitted && !to_local && k == wv.len() - 1 {
                    assert(cs2[cs.len() as int] == cv);
                } else {
                    let i = choose|i: int| 0 <= i < cs.len() && {
                        &&& (#[trigger] cs[i]).verdict == SendVerdict::Admitted
                        &&& !cs[i].to_local
                        &&& (#[trigger] wv[k]).from == cs[i].agent
                        &&& wv[k].to == cs[i].receiver
                        &&& wv[k].from_addr == old(self).addr_view()
                    };
                    assert(cs2[i] == cs[i]);
                }
            }
            assert(wire_admitted(messages_view(wire@), cs2, old(self).addr_view()));
            assert(self.supervision_view() == old(self).supervision_view());
            assert(forall|a: Seq<char>| !self.supervision_view().quarantined.contains(a)
                ==> #[trigger] fault_count(self.supervision_view(), a) == fault_count(old(self).supervision_view(), a));
        }
    }

    /// Judge and route the sends `sends` of agent `uuid` in order (see
    /// `route_one`).
    #[verifier::spinoff_prover]
    #[verifier::rlimit(80)]
    fn route_sends(
        &mut self,
        uuid: &String,
        msg_limit: Option<u32>,
        net: &Option<String>,
        sends: Vec<OutboundIntent>,
        now: u64,
        q: &mut VecDeque<NodeMessage>,
        checks: &mut Vec<SendCheck>,
        wire: &mut Vec<NodeMessage>,
        Ghost(w0): Ghost<Map<Seq<char>, (u64, u32)>>,
    )
        requires
            old(self).wf(),
            checks_judged(w0, check_views(old(checks)@), now),
            old(self).windows_view() == rate_fold(w0, check_views(old(checks)@), now),
            wire_admitted(messages_view(old(wire)@), check_views(old(checks)@), old(self).addr_view()),
        ensures
            final(self).wf(),
            final(self).agents_view() == old(self).agents_view(),
            final(self).supervision_view() == old(self).supervision_view(),
            final(self).routes_view() == old(self).routes_view(),
            final(self).addr_view() == old(self).addr_view(),
            checks_judged(w0, check_views(final(checks)@), now),
            final(self).windows_view() == rate_fold(w0, check_views(final(checks)@), now),
            wire_admitted(messages_view(final(wire)@), check_views(final(checks)@), old(self).addr_view()),
            final(checks)@.len() >= old(checks)@.len(),
            check_views(final(checks)@).take(old(checks)@.len() as int) == check_views(old(checks)@),
            forall|i: int| old(checks)@.len() <= i < final(checks)@.len() ==> {
                let c = #[trigger] check_views(final(checks)@)[i];
                &&& c.agent == uuid@
                &&& c.msg_limit == msg_limit
                &&& c.net == opt_seq(*net)
                &&& c.to_local == is_local(old(self).agents_view(), c.receiver)
            },
            check_pairs(check_views(final(checks)@)) == check_pairs(check_views(old(checks)@)) + pairs_of(uuid@, receivers(sends@)),
            final(q)@.len() + admitted_count(check_views(old(checks)@), true)
                == old(q)@.len() + admitted_count(check_views(final(checks)@), true),
            final(wire)@.len() + admitted_count(check_views(old(checks)@), false)
                == old(wire)@.len() + admitted_count(check_views(final(checks)@), false),
    {
        let ghost c0 = check_views(checks@);
        let ghost all = sends@;
        let ghost ql0 = q@.len();
        let ghost wl0 = wire@.len();
        let ghost mut k: int = 0;
        let mut sends = sends;
        proof {
            assert(receivers(all.take(0)) =~= Seq::<Seq<char>>::empty());
            assert(pairs_of(uuid@, Seq::<Seq<char>>::empty()) =~= Seq::<(Seq<char>, Seq<char>)>::empty());
            assert(check_pairs(c0) + pairs_of(uuid@, receivers(all.take(0))) =~= check_pairs(c0));
            assert(all.skip(0) =~= all);
            assert(check_views(checks@).take(c0.len() as int) =~= c0);
        }
        while sends.len() > 0
            invariant
                self.wf(),
                self.agents_view() == old(self).agents_view(),
                self.supervision_view() == old(self).supervision_view(),
                self.routes_view() == old(self).routes_view(),
                self.addr_view() == old(self).addr_view(),
                checks_judged(w0, check_views(checks@), now),
                self.windows_view() == rate_fold(w0, check_views(checks@), now),
                wire_admitted(messages_view(wire@), check_views(checks@), old(self).addr_view()),
                checks@.len() >= c0.len(),
                check_views(checks@).take(c0.len() as int) == c0,
                c0 == check_views(old(checks)@),
                forall|i: int| c0.len() <= i < checks@.len() ==> {
                    let c = #[trigger] check_views(checks@)[i];
                    &&& c.agent == uuid@
                    &&& c.msg_limit == msg_limit
                    &&& c.net == opt_seq(*net)
                    &&& c.to_local == is_local(old(self).agents_view(), c.receiver)
                },
                0 <= k <= all.len(),
                sends@ == all.skip(k),
                check_pairs(check_views(checks@)) == check_pairs(c0) + pairs_of(uuid@, receivers(all.take(k))),
                q@.len() + admitted_count(c0, true) == ql0 + admitted_count(check_views(checks@), true),
                wire@.len() + admitted_count(c0, false) == wl0 + admitted_count(check_views(checks@), false),
                ql0 == old(q)@.len(),
                wl0 == old(wire)@.len(),
            decreases sends@.len(),
        {
            let s = sends.remove(0);
            proof {
                assert(s == all[k]);
                assert(sends@ =~= all.skip(k + 1));
            }
            let ghost cs = check_views(checks@);
            self.route_one(uuid, msg_limit, net, s, now, q, checks, wire, Ghost(w0));
            proof {
                let cs2 = check_views(checks@);
                let cv = cs2.last();
                assert(cs2 =~= cs.push(cv));
                assert(cs2.take(c0.len() as int) =~= c0) by {
                    assert forall|i: int| 0 <= i < c0.len() implies cs2[i] == c0[i] by {
                        assert(cs2[i] == cs[i]);
                        assert(cs.take(c0.len() as int)[i] == c0[i]);
                    }
                }
                assert forall|i: int| c0.len() <= i < cs2.len() implies {
                    let c = #[trigger] cs2[i];
                    &&& c.agent == uuid@
                    &&& c.msg_limit == msg_limit
                    &&& c.net == opt_seq(*net)
                    &&& c.to_local == is_local(old(self).agents_view(), c.receiver)
                } by {
                    if i < cs.len() {
                        assert(cs2[i] == cs[i]);
                    }
                }
                assert(check_pairs(cs2) =~= check_pairs(cs).push((cv.agent, cv.receiver)));
                assert(all.take(k + 1) =~= all.take(k).push(all[k]));
                assert(receivers(all.take(k + 1)) =~= receivers(all.take(k)).push(all[k].receiver@));
                assert(pairs_of(uuid@, receivers(all.take(k + 1)))
                    =~= pairs_of(uuid@, receivers(all.take(k))).push((uuid@, all[k].receiver@)));
                assert(check_pairs(cs2) =~= check_pairs(c0) + pairs_of(uuid@, receivers(all.take(k + 1))));
                assert(admitted_count(cs2, true) == admitted_count(cs, true)
                    + if cv.verdict == SendVerdict::Admitted && cv.to_local == true { 1nat } else { 0nat });
                assert(admitted_count(cs2, false) == admitted_count(cs, false)
                    + if cv.verdict == SendVerdict::Admitted && cv.to_local == false { 1nat } else { 0nat });
                k = k + 1;
            }
        }
        proof {
            assert(all.take(k) =~= all);
        }
    }


    /// What holds of the executor and a pump's outcome so far, for agents
    /// `a0`, quarantine `q0`, windows `w0` and address `addr0` at the start.
    #[verifier::opaque]
    pub open spec fn pump_state_ok(
        &self,
        out: PumpOutcome,
        a0: Seq<MountedView>,
        q0: Set<Seq<char>>,
        w0: Map<Seq<char>, (u64, u32)>,
        addr0: Seq<char>,
        now: u64,
    ) -> bool {
        &&& self.wf()
        &&& self.agents_view() == a0
        &&& self.addr_view() == addr0
        &&& q0.subset_of(self.supervision_view().quarantined)
        &&& out.sent@.len() == out.delivered@.len()
        &&& deliveries_guarded(delivered_view(out.delivered@), a0, q0)
        &&& forall|i: int| 0 <= i < out.delivered@.len() && (#[trigger] out.delivered@[i]).1 is Quarantined
            ==> self.supervision_view().quarantined.contains(out.delivered@[i].0@)
        &&& checks_judged(w0, check_views(out.checks@), now)
        &&& self.windows_view() == rate_fold(w0, check_views(out.checks@), now)
        &&& checks_from(check_views(out.checks@), delivered_view(out.delivered@), a0)
        &&& wire_admitted(messages_view(out.wire@), check_views(out.checks@), addr0)
        &&& check_pairs(check_views(out.checks@)) == sends_of(delivered_view(out.delivered@), text_lists(out.sent@))
        &&& out.wire@.len() == admitted_count(check_views(out.checks@), false)
        &&& forall|i: int| 0 <= i < out.unrouted@.len() ==> !is_local(a0, (#[trigger] out.unrouted@[i]).to@)
        &&& forall|i: int| 0 <= i < out.quarantined_drops@.len()
            ==> self.supervision_view().quarantined.contains((#[trigger] out.quarantined_drops@[i])@)
    }

    /// `pump_state_ok` does not depend on how many messages were taken or
    /// on what was left over.
    proof fn lemma_state_frame(
        &self,
        out1: PumpOutcome,
        out2: PumpOutcome,
        a0: Seq<MountedView>,
        q0: Set<Seq<char>>,
        w0: Map<Seq<char>, (u64, u32)>,
        addr0: Seq<char>,
        now: u64,
    )
        requires
            self.pump_state_ok(out1, a0, q0, w0, addr0, now),
            out2.delivered@ == out1.delivered@,
            out2.sent@ == out1.sent@,
            out2.quarantined_drops@ == out1.quarantined_drops@,
            out2.unrouted@ == out1.unrouted@,
            out2.held@ == out1.held@,
            out2.checks@ == out1.checks@,
            out2.wire@ == out1.wire@,
        ensures
            self.pump_state_ok(out2, a0, q0, w0, addr0, now),
    {
        reveal(Executor::pump_state_ok);
    }

    /// Before any message is taken, the state is as it should be.
    proof fn lemma_state_start(
        &self,
        out: PumpOutcome,
        now: u64,
    )
        requires
            self.wf(),
            out.delivered@.len() == 0,
            out.sent@.len() == 0,
            out.quarantined_drops@.len() == 0,
            out.unrouted@.len() == 0,
            out.held@.len() == 0,
            out.checks@.len() == 0,
            out.wire@.len() == 0,
        ensures
            self.pump_state_ok(out, self.agents_view(), self.supervision_view().quarantined,
                self.windows_view(), self.addr_view(), now),
    {
        reveal(Executor::pump_state_ok);
        assert(check_views(out.checks@) =~= Seq::<SendCheckView>::empty());
        assert(messages_view(out.wire@) =~= Seq::<NodeMessageView>::empty());
        assert(delivered_view(out.delivered@) =~= Seq::<(Seq<char>, FaultVerdict)>::empty());
        assert(text_lists(out.sent@) =~= Seq::<Seq<Seq<char>>>::empty());
        assert(check_pairs(Seq::<SendCheckView>::empty()) =~= Seq::<(Seq<char>, Seq<char>)>::empty());
    }

    /// Take one message `m` (see `pump`): to the sink if no local agent has
    /// its address, dropped if the agent is quarantined, held back if it is
    /// not live, else delivered, with what the agent sends judged and routed.
    #[verifier::spinoff_prover]
    #[verifier::rlimit(30)]
    fn handle(
        &mut self,
        m: NodeMessage,
        now: u64,
        q: &mut VecDeque<NodeMessage>,
        out: &mut PumpOutcome,
        Ghost(a0): Ghost<Seq<MountedView>>,
        Ghost(q0): Ghost<Set<Seq<char>>>,
        Ghost(w0): Ghost<Map<Seq<char>, (u64, u32)>>,
        Ghost(addr0): Ghost<Seq<char>>,
    )
        requires
            old(self).pump_state_ok(*old(out), a0, q0, w0, addr0, now),
        ensures
            final(self).pump_state_ok(*final(out), a0, q0, w0, addr0, now),
            final(out).taken == old(out).taken,
            final(out).rest@ == old(out).rest@,
            final(q)@.len() + admitted_count(check_views(old(out).checks@), true)
                == old(q)@.len() + admitted_count(check_views(final(out).checks@), true),
            match target_of(a0, m.to@) {
                None => {
                    &&& messages_view(final(out).unrouted@) == messages_view(old(out).unrouted@).push(m@)
                    &&& final(out).delivered@ == old(out).delivered@
                    &&& final(out).checks@ == old(out).checks@
                    &&& final(out).wire@ == old(out).wire@
                    &&& final(q)@ == old(q)@
                    &&& final(out).quarantined_drops@.len() == old(out).quarantined_drops@.len()
                    &&& final(out).held@.len() == old(out).held@.len()
                    &&& final(self).windows_view() == old(self).windows_view()
                },
                Some(t) => if old(self).supervision_view().quarantined.contains(a0[t].uuid) {
                    &&& final(out).quarantined_drops@.len() == old(out).quarantined_drops@.len() + 1
                    &&& final(out).quarantined_drops@.last()@ == a0[t].uuid
                    &&& final(out).unrouted@.len() == old(out).unrouted@.len()
                    &&& final(out).delivered@ == old(out).delivered@
                    &&& final(out).checks@ == old(out).checks@
                    &&& final(out).wire@ == old(out).wire@
                    &&& final(q)@ == old(q)@
                    &&& final(out).held@.len() == old(out).held@.len()
                    &&& final(self).windows_view() == old(self).windows_view()
                } else if !a0[t].active {
                    &&& messages_view(final(out).held@) == messages_view(old(out).held@).push(m@)
                    &&& final(out).unrouted@.len() == old(out).unrouted@.len()
                    &&& final(out).delivered@ == old(out).delivered@
                    &&& final(out).checks@ == old(out).checks@
                    &&& final(out).wire@ == old(out).wire@
                    &&& final(q)@ == old(q)@
                    &&& final(out).quarantined_drops@.len() == old(out).quarantined_drops@.len()
                    &&& final(self).windows_view() == old(self).windows_view()
                } else {
                    &&& final(out).delivered@.len() == old(out).delivered@.len() + 1
                    &&& final(out).delivered@.last().0@ == a0[t].uuid
                    &&& final(out).delivered@.take(old(out).delivered@.len() as int) == old(out).delivered@
                    &&& final(out).unrouted@.len() == old(out).unrouted@.len()
                    &&& final(out).quarantined_drops@.len() == old(out).quarantined_drops@.len()
                    &&& final(out).held@.len() == old(out).held@.len()
                },
            },
    {
        proof {
            reveal(Executor::pump_state_ok);
        }
        let i = match self.local(m.to.as_str()) {
            Some(i) => i,
            None => {
                let ghost u0 = out.unrouted@;
                let ghost uv0 = messages_view(out.unrouted@);
                let ghost mv = m@;
                out.unrouted.push(m);
                proof {
                    assert(messages_view(out.unrouted@) =~= uv0.push(mv));
                    assert forall|k: int| 0 <= k < out.unrouted@.len() implies !is_local(a0, (#[trigger] out.unrouted@[k]).to@) by {
                        if k < u0.len() {
                            assert(out.unrouted@[k] == u0[k]);
                        }
                    }
                }
                return;
            },
        };
        let uuid = self.agents[i].uuid.clone();
        proof {
            assert(self.agents_view()[i as int] == mounted_view(self.agents@[i as int]));
        }
        if self.supervision.is_quarantined(uuid.as_str()) {
            let ghost d0 = out.quarantined_drops@;
            out.quarantined_drops.push(uuid);
            proof {
                assert forall|k: int| 0 <= k < out.quarantined_drops@.len()
                    implies self.supervision_view().quarantined.contains((#[trigger] out.quarantined_drops@[k])@) by {
                    if k < d0.len() {
                        assert(out.quarantined_drops@[k] == d0[k]);
                    }
                }
            }
            return;
        }
        if !self.agents[i].active {
            let ghost hv0 = messages_view(out.held@);
            let ghost mv = m@;
            out.held.push(m);
            proof {
                assert(messages_view(out.held@) =~= hv0.push(mv));
            }
            return;
        }
        self.deliver_to(i, uuid, m, now, q, out, Ghost(a0), Ghost(q0), Ghost(w0), Ghost(addr0));
    }

    /// Deliver `m` to the live, not quarantined agent at `i` (id `uuid`):
    /// cache the sender's route, run the agent and supervise the run, record
    /// the delivery with the receivers of what the agent sent, and judge and
    /// route those sends.
    #[verifier::spinoff_prover]
    #[verifier::rlimit(30)]
    fn deliver_to(
        &mut self,
        i: usize,
        uuid: String,
        m: NodeMessage,
        now: u64,
        q: &mut VecDeque<NodeMessage>,
        out: &mut PumpOutcome,
        Ghost(a0): Ghost<Seq<MountedView>>,
        Ghost(q0): Ghost<Set<Seq<char>>>,
        Ghost(w0): Ghost<Map<Seq<char>, (u64, u32)>>,
        Ghost(addr0): Ghost<Seq<char>>,
    )
        requires
            old(self).pump_state_ok(*old(out), a0, q0, w0, addr0, now),
            i < a0.len(),
            a0[i as int].uuid == uuid@,
            a0[i as int].active,
            !old(self).supervision_view().quarantined.contains(uuid@),
        ensures
            final(self).pump_state_ok(*final(out), a0, q0, w0, addr0, now),
            final(out).taken == old(out).taken,
            final(out).rest@ == old(out).rest@,
            final(q)@.len() + admitted_count(check_views(old(out).checks@), true)
                == old(q)@.len() + admitted_count(check_views(final(out).checks@), true),
            final(out).delivered@.len() == old(out).delivered@.len() + 1,
            final(out).delivered@.last().0@ == uuid@,
            final(out).delivered@.take(old(out).delivered@.len() as int) == old(out).delivered@,
            final(out).unrouted@ == old(out).unrouted@,
            final(out).quarantined_drops@ == old(out).quarantined_drops@,
            final(out).held@ == old(out).held@,
    {
        proof {
            reveal(Executor::pump_state_ok);
        }
        if m.from.as_str().unicode_len() > 0 && m.from_addr.as_str().unicode_len() > 0 {
            self.routes.insert(m.from.as_str(), m.from_addr.as_str());
        }
        let ghost before_agents = self.agents@;
        let mut entry = self.agents.remove(i);
        let result = entry.runtime.config(m.from.as_str(), m.unl.as_slice(), m.body.as_slice());
        let sends = entry.runtime.take_sends();
        let msg_limit = entry.msg_limit;
        let net: Option<String> = match &entry.net {
            Some(n) => Some(n.clone()),
            None => None,
        };
        self.agents.insert(i, entry);
        proof {
            assert(mounted_views(self.agents@) =~= mounted_views(before_agents)) by {
                assert forall|j: int| 0 <= j < before_agents.len() implies
                    #[trigger] mounted_views(self.agents@)[j] == mounted_views(before_agents)[j] by {
                    if j != i {
                        assert(self.agents@[j] == before_agents[j]);
                    }
                }
            }
        }
        let ok = match result {
            Ok(_) => true,
            Err(_) => false,
        };
        let ghost sv0 = self.supervision@;
        let verdict = self.supervision.record(uuid.as_str(), ok);
        proof {
            let sv1 = self.supervision@;
            assert(sv1.quarantined =~= sv0.quarantined || sv1.quarantined =~= sv0.quarantined.insert(uuid@));
            assert forall|a: Seq<char>| !sv1.quarantined.contains(a) implies #[trigger] fault_count(sv1, a) < MAX_FAULTS by {
                if a != uuid@ {
                    assert(fault_count(sv1, a) == fault_count(sv0, a));
                }
            }
        }
        let rcv = receivers_of(&sends);
        let ghost dv0 = delivered_view(out.delivered@);
        let ghost dr0 = out.delivered@;
        let ghost sl0 = text_lists(out.sent@);
        out.delivered.push((uuid.clone(), verdict));
        let ghost rv = rcv@.map_values(|t: String| t@);
        out.sent.push(rcv);
        proof {
            let dv = delivered_view(out.delivered@);
            assert(dv =~= dv0.push((uuid@, verdict)));
            assert(out.delivered@.take(dr0.len() as int) =~= dr0);
            let k = dv0.len() as int;
            assert(dv[k] == (uuid@, verdict));
            assert forall|j: int| 0 <= j < dv.len() implies !q0.contains((#[trigger] dv[j]).0)
                && exists|a: int| 0 <= a < a0.len() && (#[trigger] a0[a]).uuid == dv[j].0 && a0[a].active by {
                if j < k {
                    assert(dv[j] == dv0[j]);
                } else {
                    assert(a0[i as int].uuid == uuid@ && a0[i as int].active);
                }
            }
            assert forall|x: int, y: int| 0 <= x < y < dv.len() && (#[trigger] dv[x]).0 == (#[trigger] dv[y]).0
                implies !(dv[x].1 is Quarantined) by {
                if y < k {
                    assert(dv[x] == dv0[x] && dv[y] == dv0[y]);
                } else {
                    assert(dv[x] == dv0[x]);
                    if dv[x].1 is Quarantined {
                        assert(out.delivered@[x] == dr0[x]);
                        assert(sv0.quarantined.contains(dr0[x].0@));
                    }
                }
            }
            assert forall|j: int| 0 <= j < out.delivered@.len() && (#[trigger] out.delivered@[j]).1 is Quarantined
                implies self.supervision_view().quarantined.contains(out.delivered@[j].0@) by {
                if j < k {
                    assert(out.delivered@[j] == dr0[j]);
                }
            }
            assert forall|x: int| 0 <= x < check_views(out.checks@).len() implies
                exists|j: int| 0 <= j < dv.len() && (#[trigger] dv[j]).0 == (#[trigger] check_views(out.checks@)[x]).agent by {
                let j = choose|j: int| 0 <= j < dv0.len() && (#[trigger] dv0[j]).0 == check_views(out.checks@)[x].agent;
                assert(dv[j] == dv0[j]);
            }
            let sl = text_lists(out.sent@);
            assert(sl =~= sl0.push(rv));
            assert(sl.drop_last() =~= sl0);
            lemma_sends_of_prefix(dv, dv0, sl0);
            assert(sends_of(dv, sl) == sends_of(dv, sl0) + pairs_of(dv[k].0, rv));
            assert(sends_of(dv, sl) == sends_of(dv0, sl0) + pairs_of(uuid@, receivers(sends@)));
        }
        let ghost cs0 = check_views(out.checks@);
        self.route_sends(&uuid, msg_limit, &net, sends, now, q, &mut out.checks, &mut out.wire, Ghost(w0));
        proof {
            let cs = check_views(out.checks@);
            let dv = delivered_view(out.delivered@);
            let k = dv.len() - 1;
            assert(dv[k].0 == uuid@);
            assert forall|x: int| 0 <= x < cs.len() implies {
                &&& exists|j: int| 0 <= j < dv.len() && (#[trigger] dv[j]).0 == (#[trigger] cs[x]).agent
                &&& exists|a: int| 0 <= a < a0.len() && (#[trigger] a0[a]).uuid == cs[x].agent
                    && a0[a].msg_limit == cs[x].msg_limit && a0[a].net == cs[x].net
                &&& cs[x].to_local == is_local(a0, cs[x].receiver)
            } by {
                if x < cs0.len() {
                    assert(cs[x] == cs.take(cs0.len() as int)[x]);
                    assert(cs[x] == cs0[x]);
                } else {
                    assert(a0[i as int].uuid == uuid@);
                    assert(a0[i as int].msg_limit == msg_limit);
                    assert(a0[i as int].net == opt_seq(net));
                }
            }
        }
    }

    /// Pump one incoming message through the node: deliver it to the local
    /// agent it is addressed to and route what that agent emits, in-process
    /// to co-located agents (which are then delivered in turn) or out to the
    /// wire. A message for no local agent goes to the sink; one for a
    /// quarantined agent is dropped (and reported); one for an agent not yet
    /// live is held back. Each run is supervised, each send is counted
    /// against its sender's egress window and checked against its network
    /// scope, and a sender's return route is cached. At most `budget - 1`
    /// messages are taken; what is left when the budget runs out is dropped
    /// and reported.
    #[verifier::spinoff_prover]
    #[verifier::rlimit(30)]
    pub fn pump(&mut self, initial: NodeMessage, budget: usize, now: u64) -> (out: PumpOutcome)
        requires
            old(self).wf(),
            budget >= 1,
        ensures
            final(self).pump_state_ok(out, old(self).agents_view(), old(self).supervision_view().quarantined,
                old(self).windows_view(), old(self).addr_view(), now),
            out.taken < budget,
            out.taken == out.delivered@.len() + out.unrouted@.len() + out.quarantined_drops@.len() + out.held@.len(),
            out.taken + out.rest@.len() == 1 + admitted_count(check_views(out.checks@), true),
            budget == 1 ==> out.taken == 0 && messages_view(out.rest@) == seq![initial@] && out.checks@.len() == 0
                && final(self).windows_view() == old(self).windows_view(),
            budget >= 2 ==> first_handled(old(self).agents_view(), old(self).supervision_view().quarantined, initial@, out),
            budget >= 2 && !first_delivers(old(self).agents_view(), old(self).supervision_view().quarantined, initial@)
                ==> out.taken == 1 && out.rest@.len() == 0 && out.checks@.len() == 0 && out.wire@.len() == 0
                    && final(self).windows_view() == old(self).windows_view(),
    {
        let ghost a0 = self.agents_view();
        let ghost q0 = self.supervision_view().quarantined;
        let ghost w0 = self.windows_view();
        let ghost addr0 = self.addr_view();
        let ghost init = initial@;
        let mut out = PumpOutcome {
            taken: 0,
            delivered: Vec::new(),
            sent: Vec::new(),
            quarantined_drops: Vec::new(),
            unrouted: Vec::new(),
            held: Vec::new(),
            checks: Vec::new(),
            wire: Vec::new(),
            rest: Vec::new(),
        };
        proof {
            self.lemma_state_start(out, now);
            assert(check_views(out.checks@) =~= Seq::<SendCheckView>::empty());
        }
        if budget == 1 {
            let ghost out_e = out;
            out.rest.push(initial);
            proof {
                self.lemma_state_frame(out_e, out, a0, q0, w0, addr0, now);
                assert(messages_view(out.rest@) =~= seq![init]);
                assert(out.rest@.len() == 1);
                assert(admitted_count(check_views(out.checks@), true) == 0);
            }
            return out;
        }
        let mut q: VecDeque<NodeMessage> = VecDeque::new();
        out.taken = 1;
        let ghost out0 = out;
        proof {
            self.lemma_state_start(out, now);
        }
        self.handle(initial, now, &mut q, &mut out, Ghost(a0), Ghost(q0), Ghost(w0), Ghost(addr0));
        assert(first_handled(a0, q0, init, out)) by {
            reveal(first_handled);
            assert(messages_view(out.unrouted@).len() == out.unrouted@.len());
            assert(messages_view(out.held@).len() == out.held@.len());
            assert(messages_view(out0.unrouted@) =~= Seq::<NodeMessageView>::empty());
            assert(messages_view(out0.held@) =~= Seq::<NodeMessageView>::empty());
            assert(admitted_count(check_views(out0.checks@), true) == 0);
            match target_of(a0, init.to) {
                None => {
                    assert(messages_view(out.unrouted@) =~= seq![init]);
                },
                Some(t) => {
                    if !q0.contains(a0[t].uuid) && !a0[t].active {
                        assert(messages_view(out.held@) =~= seq![init]);
                    }
                },
            }
        }
        proof {
            assert(messages_view(out.unrouted@).len() == out.unrouted@.len());
            assert(messages_view(out.held@).len() == out.held@.len());
            assert(messages_view(out0.unrouted@) =~= Seq::<NodeMessageView>::empty());
            assert(messages_view(out0.held@) =~= Seq::<NodeMessageView>::empty());
            assert(admitted_count(check_views(out0.checks@), true) == 0);
            assert(admitted_count(check_views(out0.checks@), false) == 0);
        }
        let mut left = budget - 1;
        loop
            invariant
                self.pump_state_ok(out, a0, q0, w0, addr0, now),
                a0 == old(self).agents_view(),
                q0 == old(self).supervision_view().quarantined,
                w0 == old(self).windows_view(),
                addr0 == old(self).addr_view(),
                budget >= 2,
                out.taken + left == budget,
                left >= 1,
                out.taken >= 1,
                out.taken == out.delivered@.len() + out.unrouted@.len() + out.quarantined_drops@.len() + out.held@.len(),
                q@.len() + out.taken + out.rest@.len() == 1 + admitted_count(check_views(out.checks@), true),
                first_handled(a0, q0, init, out),
                !first_delivers(a0, q0, init) ==> q@.len() == 0 && out.taken == 1 && out.rest@.len() == 0
                    && out.checks@.len() == 0 && out.wire@.len() == 0 && self.windows_view() == w0,
            ensures
                q@.len() == 0,
            decreases left,
        {
            let m = match q.pop_front() {
                Some(m) => m,
                None => {
                    break;
                },
            };
            if left == 1 {
                let ghost out1 = out;
                let ghost rl0 = out.rest@.len();
                let ghost ql = q@.len();
                out.rest.push(m);
                let ghost rv1 = messages_view(out.rest@);
                let ghost qv = messages_view(q@);
                drain(&mut q, &mut out.rest);
                proof {
                    assert(rv1.len() == rl0 + 1);
                    assert(qv.len() == ql);
                    assert(messages_view(out.rest@).len() == out.rest@.len());
                    assert(out.rest@.len() == rl0 + 1 + ql);
                    self.lemma_state_frame(out1, out, a0, q0, w0, addr0, now);
                }
                assert(first_handled(a0, q0, init, out)) by {
                    reveal(first_handled);
                }
                break;
            }
            left = left - 1;
            let ghost out_b = out;
            out.taken = out.taken + 1;
            proof {
                self.lemma_state_frame(out_b, out, a0, q0, w0, addr0, now);
            }
            let ghost d0 = out.delivered@;
            let ghost ob = out;
            self.handle(m, now, &mut q, &mut out, Ghost(a0), Ghost(q0), Ghost(w0), Ghost(addr0));
            proof {
                assert(messages_view(out.unrouted@).len() == out.unrouted@.len());
                assert(messages_view(ob.unrouted@).len() == ob.unrouted@.len());
                assert(messages_view(out.held@).len() == out.held@.len());
                assert(messages_view(ob.held@).len() == ob.held@.len());
            }
            assert(first_handled(a0, q0, init, out)) by {
                reveal(first_handled);
                if first_delivers(a0, q0, init) {
                    assert(out.delivered@[0] == d0[0]);
                }
            }
        }
        out
    }


    /// The mounted agent `to` names: the first with that id, else the first
    /// with that alias.
    fn local(&self, to: &str) -> (r: Option<usize>)
        ensures
            match r {
                Some(i) => i < self.agents_view().len()
                    && (self.agents_view()[i as int].uuid == to@ || self.agents_view()[i as int].alias == to@)
                    && target_of(self.agents_view(), to@) == Some(i as int),
                None => !is_local(self.agents_view(), to@) && target_of(self.agents_view(), to@) is None,
            },
    {
        let ghost v = mounted_views(self.agents@);
        let mut i: usize = 0;
        while i < self.agents.len()
            invariant
                i <= self.agents@.len(),
                v == mounted_views(self.agents@),
                forall|j: int| 0 <= j < i ==> (#[trigger] v[j]).uuid != to@,
            decreases self.agents@.len() - i,
        {
            if str_eq(self.agents[i].uuid.as_str(), to) {
                proof {
                    assert(v[i as int] == mounted_view(self.agents@[i as int]));
                    lemma_first_uuid(v, to@, i as int);
                }
                return Some(i);
            }
            i = i + 1;
        }
        let mut k: usize = 0;
        while k < self.agents.len()
            invariant
                k <= self.agents@.len(),
                v == mounted_views(self.agents@),
                forall|j: int| 0 <= j < self.agents@.len() ==> (#[trigger] v[j]).uuid != to@,
                forall|j: int| 0 <= j < k ==> (#[trigger] v[j]).alias != to@,
            decreases self.agents@.len() - k,
        {
            if str_eq(self.agents[k].alias.as_str(), to) {
                proof {
                    assert(v[k as int] == mounted_view(self.agents@[k as int]));
                    lemma_first_alias(v, to@, k as int);
                }
                return Some(k);
            }
            k = k + 1;
        }
        assert(target_of(v, to@) is None) by {
            reveal(target_of);
        }
        None
    }
}

} // verus!
