//! The FIPA Brokering protocol: a broker takes a proxy request, forwards it
//! to service providers, tracks their answers and consolidates the results.
//!
//! ```text
//! Initiator         Broker             Provider(s)
//!     |--- PROXY ----->|                    |
//!     |                |--- REQUEST ------->|
//!     |                |<-- AGREE/REFUSE ---|
//!     |                |<-- INFORM ---------|
//!     |<-- INFORM -----|                    |
//! ```
use vstd::prelude::*;
use crate::acl::{
    agent_opt, agents_view, copy_agent_opt, messages_view, performative_name, uuid_text_shape, uuid_v4_text,
    AclMessage, AclView, AgentId, AgentIdView, Performative, ProtocolType,
};
use crate::fmt::decimal;
use crate::protocol::state_machine::{
    invalid_transition, is_invalid_transition, CompletionData, ConversationBase, ProcessResult,
    ProtocolError, ProtocolStateMachine, Role,
};
use crate::strmap::StrMap;
use crate::text::{owned, str_bytes, str_eq};

verus! {

/// Where a provider stands with the forwarded request.
#[derive(Clone, Copy, Debug, PartialEq, Eq, Structural)]
pub enum ProviderStatus {
    /// Forwarded, no answer yet.
    Pending,
    /// Agreed to handle it.
    Agreed,
    /// Refused.
    Refused,
    /// Completed with a result.
    Completed,
    /// Failed.
    Failed,
}

/// A provider the request was forwarded to.
#[derive(Debug)]
pub struct ProviderInfo {
    pub agent_id: AgentId,
    pub status: ProviderStatus,
    pub response: Option<Vec<u8>>,
}

/// A provider as plain values.
pub struct ProviderView {
    pub agent_id: AgentIdView,
    pub status: ProviderStatus,
    pub response: Option<Seq<u8>>,
}

/// The view of optional bytes.
pub open spec fn bytes_opt(b: Option<Vec<u8>>) -> Option<Seq<u8>> {
    match b {
        Some(x) => Some(x@),
        None => None,
    }
}

impl View for ProviderInfo {
    type V = ProviderView;

    open spec fn view(&self) -> ProviderView {
        ProviderView { agent_id: self.agent_id@, status: self.status, response: bytes_opt(self.response) }
    }
}

/// The views of a list of providers.
pub open spec fn providers_view(v: Seq<ProviderInfo>) -> Seq<ProviderView> {
    v.map_values(|p: ProviderInfo| p@)
}

/// The states of a brokering conversation.
#[derive(Clone, Copy, Debug, PartialEq, Eq, Structural)]
pub enum BrokeringState {
    NotStarted,
    ProxyReceived,
    Forwarding,
    WaitingResponses,
    Consolidating,
    Completed,
    Failed,
    Cancelled,
}

/// The name of a state.
pub open spec fn brokering_state_name(s: BrokeringState) -> Seq<char> {
    match s {
        BrokeringState::NotStarted => "not_started"@,
        BrokeringState::ProxyReceived => "proxy_received"@,
        BrokeringState::Forwarding => "forwarding"@,
        BrokeringState::WaitingResponses => "waiting_responses"@,
        BrokeringState::Consolidating => "consolidating"@,
        BrokeringState::Completed => "completed"@,
        BrokeringState::Failed => "failed"@,
        BrokeringState::Cancelled => "cancelled"@,
    }
}

impl BrokeringState {
    /// The state's name.
    pub fn as_str(&self) -> (r: &'static str)
        ensures
            r@ == brokering_state_name(*self),
    {
        match self {
            BrokeringState::NotStarted => "not_started",
            BrokeringState::ProxyReceived => "proxy_received",
            BrokeringState::Forwarding => "forwarding",
            BrokeringState::WaitingResponses => "waiting_responses",
            BrokeringState::Consolidating => "consolidating",
            BrokeringState::Completed => "completed",
            BrokeringState::Failed => "failed",
            BrokeringState::Cancelled => "cancelled",
        }
    }
}

/// The state a performative leads to, if the state accepts it. A failure
/// fails and a cancel cancels the conversation from any state that has no
/// other use for them.
pub open spec fn brokering_next(s: BrokeringState, p: Performative) -> Option<BrokeringState> {
    match (s, p) {
        (BrokeringState::NotStarted, Performative::Proxy) => Some(BrokeringState::ProxyReceived),
        (BrokeringState::ProxyReceived, Performative::Request) => Some(BrokeringState::Forwarding),
        (BrokeringState::Forwarding, Performative::Request) => Some(BrokeringState::Forwarding),
        (BrokeringState::Forwarding, Performative::Agree) => Some(BrokeringState::WaitingResponses),
        (BrokeringState::WaitingResponses, Performative::Agree) => Some(BrokeringState::WaitingResponses),
        (BrokeringState::Forwarding, Performative::Refuse) => Some(BrokeringState::WaitingResponses),
        (BrokeringState::WaitingResponses, Performative::Refuse) => Some(BrokeringState::WaitingResponses),
        (BrokeringState::WaitingResponses, Performative::InformResult) => Some(BrokeringState::Consolidating),
        (BrokeringState::WaitingResponses, Performative::InformDone) => Some(BrokeringState::Consolidating),
        (BrokeringState::WaitingResponses, Performative::Failure) => Some(BrokeringState::WaitingResponses),
        (BrokeringState::Consolidating, Performative::Inform) => Some(BrokeringState::Completed),
        (_, Performative::Failure) => Some(BrokeringState::Failed),
        (_, Performative::Cancel) => Some(BrokeringState::Cancelled),
        _ => None,
    }
}

/// The performatives a state lists as expected next.
pub open spec fn brokering_expected(s: BrokeringState) -> Seq<Performative> {
    match s {
        BrokeringState::NotStarted => seq![Performative::Proxy],
        BrokeringState::ProxyReceived => seq![Performative::Request, Performative::Cancel],
        BrokeringState::Forwarding => seq![
            Performative::Request,
            Performative::Agree,
            Performative::Refuse,
            Performative::Cancel,
        ],
        BrokeringState::WaitingResponses => seq![
            Performative::Agree,
            Performative::Refuse,
            Performative::InformResult,
            Performative::InformDone,
            Performative::Failure,
            Performative::Cancel,
        ],
        BrokeringState::Consolidating => seq![Performative::Inform, Performative::Cancel],
        _ => Seq::empty(),
    }
}

/// Terminal states.
pub open spec fn brokering_complete(s: BrokeringState) -> bool {
    s == BrokeringState::Completed || s == BrokeringState::Failed || s == BrokeringState::Cancelled
}

/// Terminal states that are failures.
pub open spec fn brokering_failed(s: BrokeringState) -> bool {
    s == BrokeringState::Failed || s == BrokeringState::Cancelled
}

/// Every performative a state lists as expected is one it accepts.
pub proof fn law_brokering_expected_is_accepted(s: BrokeringState, p: Performative)
    ensures
        brokering_expected(s).contains(p) ==> brokering_next(s, p) is Some,
{
    let e = brokering_expected(s);
    if e.contains(p) {
        let i = choose|i: int| 0 <= i < e.len() && e[i] == p;
        match s {
            BrokeringState::NotStarted => assert(e[i] == Performative::Proxy),
            BrokeringState::ProxyReceived => assert(e[i] == Performative::Request || e[i] == Performative::Cancel),
            BrokeringState::Forwarding => assert(i == 0 || i == 1 || i == 2 || i == 3),
            BrokeringState::WaitingResponses => assert(0 <= i < 6),
            BrokeringState::Consolidating => assert(i == 0 || i == 1),
            _ => assert(e.len() == 0),
        }
    }
}

/// A cancel cancels the conversation from any state, and a failure is
/// accepted in every state.
pub proof fn law_brokering_cancel_and_failure_always_accepted(s: BrokeringState)
    ensures
        brokering_next(s, Performative::Cancel) == Some(BrokeringState::Cancelled),
        brokering_next(s, Performative::Failure) is Some,
{
}

/// A finished conversation accepts only a failure or a cancel.
pub proof fn law_brokering_terminal(s: BrokeringState, p: Performative)
    requires
        brokering_complete(s),
    ensures
        brokering_next(s, p) is Some <==> (p == Performative::Failure || p == Performative::Cancel),
{
}

/// Consolidation keeps at most one result per provider that completed: no
/// more results than `successful_count` reports.
pub proof fn law_consolidated_results_within_successes(ps: Seq<ProviderView>)
    ensures
        completed_responses(ps).len() <= completed_count(ps),
    decreases ps.len(),
{
    if ps.len() > 0 {
        law_consolidated_results_within_successes(ps.drop_last());
    }
}

/// A provider that completed with a response.
pub open spec fn answered_with_response(p: ProviderView) -> bool {
    p.status == ProviderStatus::Completed && p.response is Some
}

/// Consolidation loses no completed response: the consolidated results are
/// the responses of the providers that completed with one, in provider
/// order. So there are as many as such providers, and each such provider's
/// response is among them.
pub proof fn law_consolidated_results_complete(ps: Seq<ProviderView>)
    ensures
        completed_responses(ps) == ps.filter(|p: ProviderView| answered_with_response(p)).map_values(
            |p: ProviderView| p.response.unwrap()),
        completed_responses(ps).len() == ps.filter(|p: ProviderView| answered_with_response(p)).len(),
        forall|i: int| 0 <= i < ps.len() && answered_with_response(#[trigger] ps[i])
            ==> completed_responses(ps).contains(ps[i].response.unwrap()),
    decreases ps.len(),
{
    let pred = |p: ProviderView| answered_with_response(p);
    let resp = |p: ProviderView| p.response.unwrap();
    if ps.len() == 0 {
        reveal(Seq::filter);
        assert(ps.filter(pred) =~= Seq::<ProviderView>::empty());
        assert(ps.filter(pred).map_values(resp) =~= Seq::<Seq<u8>>::empty());
    } else {
        let init = ps.drop_last();
        law_consolidated_results_complete(init);
        assert(ps =~= init.push(ps.last()));
        init.lemma_filter_push(ps.last(), pred);
        if pred(ps.last()) {
            assert(init.filter(pred).push(ps.last()).map_values(resp)
                =~= init.filter(pred).map_values(resp).push(resp(ps.last())));
        }
        assert(completed_responses(ps) == ps.filter(pred).map_values(resp));
        assert forall|i: int| 0 <= i < ps.len() && answered_with_response(#[trigger] ps[i])
            implies completed_responses(ps).contains(ps[i].response.unwrap()) by {
            ps.lemma_filter_contains(pred, i);
            let f = ps.filter(pred);
            let j = choose|j: int| 0 <= j < f.len() && f[j] == ps[i];
            assert(f.map_values(resp)[j] == ps[i].response.unwrap());
        }
    }
}

/// Whether a provider with this name is in the list.
pub open spec fn has_provider(ps: Seq<ProviderView>, name: Seq<char>) -> bool {
    exists|i: int| 0 <= i < ps.len() && (#[trigger] ps[i]).agent_id.name == name
}

/// No two providers share a name.
pub open spec fn providers_distinct(ps: Seq<ProviderView>) -> bool {
    forall|i: int, j: int| 0 <= i < ps.len() && 0 <= j < ps.len() && i != j
        ==> (#[trigger] ps[i]).agent_id.name != (#[trigger] ps[j]).agent_id.name
}

/// Providers keyed by name: `p` replaces the provider of the same name, or is
/// added at the end.
pub open spec fn provider_insert(ps: Seq<ProviderView>, p: ProviderView) -> Seq<ProviderView> {
    if has_provider(ps, p.agent_id.name) {
        ps.map_values(|q: ProviderView| if q.agent_id.name == p.agent_id.name { p } else { q })
    } else {
        ps.push(p)
    }
}

/// The providers with the one named `name` (if any) given this status and
/// response.
pub open spec fn provider_update(ps: Seq<ProviderView>, name: Seq<char>, status: ProviderStatus, response: Option<Seq<u8>>) -> Seq<ProviderView> {
    ps.map_values(|q: ProviderView|
        if q.agent_id.name == name { ProviderView { agent_id: q.agent_id, status, response } } else { q })
}

/// A status that answers the request.
pub open spec fn has_responded(s: ProviderStatus) -> bool {
    s == ProviderStatus::Completed || s == ProviderStatus::Failed || s == ProviderStatus::Refused
}

/// How many providers completed.
pub open spec fn completed_count(ps: Seq<ProviderView>) -> nat
    decreases ps.len(),
{
    if ps.len() == 0 {
        0
    } else {
        completed_count(ps.drop_last()) + if ps.last().status == ProviderStatus::Completed { 1nat } else { 0nat }
    }
}

/// The responses of the providers that completed with one, in order.
pub open spec fn completed_responses(ps: Seq<ProviderView>) -> Seq<Seq<u8>>
    decreases ps.len(),
{
    if ps.len() == 0 {
        Seq::empty()
    } else {
        let rest = completed_responses(ps.drop_last());
        match ps.last().response {
            Some(r) if ps.last().status == ProviderStatus::Completed => rest.push(r),
            _ => rest,
        }
    }
}

/// The ASCII bytes of a text of ASCII characters.
pub open spec fn ascii_bytes(s: Seq<char>) -> Seq<u8> {
    s.map_values(|c: char| c as u8)
}

/// The bytes as decimal numbers separated by commas.
pub open spec fn json_numbers(v: Seq<u8>) -> Seq<u8>
    decreases v.len(),
{
    if v.len() == 0 {
        Seq::empty()
    } else if v.len() == 1 {
        ascii_bytes(decimal(v[0] as nat))
    } else {
        json_numbers(v.drop_last()) + seq![44u8] + ascii_bytes(decimal(v.last() as nat))
    }
}

/// A byte list as a compact JSON array of numbers.
pub open spec fn json_number_array(v: Seq<u8>) -> Seq<u8> {
    seq![91u8] + json_numbers(v) + seq![93u8]
}

/// Byte lists as JSON arrays separated by commas.
pub open spec fn json_arrays(v: Seq<Seq<u8>>) -> Seq<u8>
    decreases v.len(),
{
    if v.len() == 0 {
        Seq::empty()
    } else if v.len() == 1 {
        json_number_array(v[0])
    } else {
        json_arrays(v.drop_last()) + seq![44u8] + json_number_array(v.last())
    }
}

/// A list of byte lists as a compact JSON array of arrays of numbers.
pub open spec fn json_array_of_arrays(v: Seq<Seq<u8>>) -> Seq<u8> {
    seq![91u8] + json_arrays(v) + seq![93u8]
}

/// The views of a list of byte lists.
pub open spec fn byte_lists_view(v: Seq<Vec<u8>>) -> Seq<Seq<u8>> {
    v.map_values(|b: Vec<u8>| b@)
}

/// Calls `serde_json::to_vec` on a list of byte lists, with
/// `unwrap_or_default`. serde writes a `Vec` as a JSON array and each byte as
/// a number, and the compact formatter writes `[`, the elements separated by
/// `,`, and `]`, numbers in decimal; a list of byte lists raises no error.
#[verifier::external_body]
fn json_of_byte_lists(lists: &Vec<Vec<u8>>) -> (r: Vec<u8>)
    ensures
        r@ == json_array_of_arrays(byte_lists_view(lists@)),
{
    serde_json::to_vec(lists).unwrap_or_default()
}

/// A brokering conversation as plain values.
pub struct BrokeringModel {
    pub state: BrokeringState,
    pub conversation_id: Seq<char>,
    pub role: Role,
    pub participants: Seq<AgentIdView>,
    pub history: Seq<AclView>,
    pub original_request: Option<AclView>,
    pub initiator: Option<AgentIdView>,
    /// Providers, keyed by name.
    pub providers: Seq<ProviderView>,
    pub required_responses: Option<usize>,
    pub results: Seq<Seq<u8>>,
    pub service_name: Option<Seq<char>>,
}

/// Providers are keyed by name.
pub open spec fn brokering_consistent(m: BrokeringModel) -> bool {
    providers_distinct(m.providers)
}

/// The model after an accepted performative moves the conversation to `next`.
pub open spec fn brokering_after(old: BrokeringModel, msg: AclView, next: BrokeringState) -> BrokeringModel {
    let p = msg.performative;
    BrokeringModel {
        state: next,
        history: old.history.push(msg),
        original_request: if p == Performative::Proxy { Some(msg) } else { old.original_request },
        initiator: if p == Performative::Proxy { msg.sender } else { old.initiator },
        providers: match msg.sender {
            Some(s) if p == Performative::InformResult || p == Performative::InformDone =>
                provider_update(old.providers, s.name, ProviderStatus::Completed, Some(msg.content)),
            Some(s) if p == Performative::Agree =>
                provider_update(old.providers, s.name, ProviderStatus::Agreed, None),
            Some(s) if p == Performative::Refuse =>
                provider_update(old.providers, s.name, ProviderStatus::Refused, None),
            Some(s) if p == Performative::Failure =>
                provider_update(old.providers, s.name, ProviderStatus::Failed, Some(msg.content)),
            _ => old.providers,
        },
        results: match msg.sender {
            Some(s) if p == Performative::InformResult || p == Performative::InformDone =>
                old.results.push(msg.content),
            _ => old.results,
        },
        ..old
    }
}

/// What processing reports once the conversation is in state `s` with these
/// results.
pub open spec fn brokering_report(s: BrokeringState, results: Seq<Seq<u8>>, r: ProcessResult) -> bool {
    if s == BrokeringState::Completed {
        r matches ProcessResult::Complete(d) && d.metadata@ == Map::<Seq<char>, Seq<char>>::empty()
            && (d.result matches Some(c) && c@ == json_array_of_arrays(results))
    } else if s == BrokeringState::Failed {
        r matches ProcessResult::Failed(m) && m@ == "Brokering failed"@
    } else if s == BrokeringState::Cancelled {
        r matches ProcessResult::Failed(m) && m@ == "Brokering cancelled"@
    } else {
        r is Continue
    }
}

/// A brokering conversation.
///
/// Providers are kept in the order they were added, keyed by name.
#[derive(Debug)]
pub struct BrokeringProtocol {
    state: BrokeringState,
    base: ConversationBase,
    original_request: Option<AclMessage>,
    initiator: Option<AgentId>,
    providers: Vec<ProviderInfo>,
    required_responses: Option<usize>,
    results: Vec<Vec<u8>>,
    service_name: Option<String>,
}

impl View for BrokeringProtocol {
    type V = BrokeringModel;

    closed spec fn view(&self) -> BrokeringModel {
        BrokeringModel {
            state: self.state,
            conversation_id: self.base.conversation_id@,
            role: self.base.role,
            participants: agents_view(self.base.participants@),
            history: messages_view(self.base.messages@),
            original_request: match self.original_request {
                Some(m) => Some(m@),
                None => None,
            },
            initiator: agent_opt(self.initiator),
            providers: providers_view(self.providers@),
            required_responses: self.required_responses,
            results: byte_lists_view(self.results@),
            service_name: match self.service_name {
                Some(n) => Some(n@),
                None => None,
            },
        }
    }
}

/// A fresh brokering model in this role.
pub open spec fn brokering_fresh(m: BrokeringModel, role: Role) -> bool {
    &&& m.state == BrokeringState::NotStarted
    &&& m.role == role
    &&& m.participants.len() == 0
    &&& m.history.len() == 0
    &&& m.original_request is None
    &&& m.initiator is None
    &&& m.providers.len() == 0
    &&& m.required_responses is None
    &&& m.results.len() == 0
    &&& m.service_name is None
}

impl BrokeringProtocol {
    /// The conversation's invariant.
    pub open spec fn wf(&self) -> bool {
        brokering_consistent(self@)
    }

    fn fresh(role: Role) -> (p: Self)
        ensures
            brokering_fresh(p@, role),
            uuid_text_shape(p@.conversation_id),
            p.wf(),
    {
        let p = BrokeringProtocol {
            state: BrokeringState::NotStarted,
            base: ConversationBase::new(uuid_v4_text(), role),
            original_request: None,
            initiator: None,
            providers: Vec::new(),
            required_responses: None,
            results: Vec::new(),
            service_name: None,
        };
        proof {
            assert(agents_view(p.base.participants@) =~= Seq::<AgentIdView>::empty());
            assert(messages_view(p.base.messages@) =~= Seq::<AclView>::empty());
            assert(providers_view(p.providers@) =~= Seq::<ProviderView>::empty());
            assert(byte_lists_view(p.results@) =~= Seq::<Seq<u8>>::empty());
        }
        p
    }

    /// A new conversation on the broker's side, with a fresh conversation id
    /// (its role is recorded as initiator).
    pub fn new_as_broker() -> (p: Self)
        ensures
            brokering_fresh(p@, Role::Initiator),
            uuid_text_shape(p@.conversation_id),
            p.wf(),
    {
        Self::fresh(Role::Initiator)
    }

    /// A new conversation on the initiator's side, with a fresh conversation
    /// id.
    pub fn new_as_initiator() -> (p: Self)
        ensures
            brokering_fresh(p@, Role::Initiator),
            uuid_text_shape(p@.conversation_id),
            p.wf(),
    {
        Self::fresh(Role::Initiator)
    }

    /// Require this many responses.
    pub fn with_required_responses(self, count: usize) -> (p: Self)
        ensures
            p@ == (BrokeringModel { required_responses: Some(count), ..self@ }),
    {
        let mut p = self;
        p.required_responses = Some(count);
        p
    }

    /// Name the service being brokered.
    pub fn with_service_name(self, name: String) -> (p: Self)
        ensures
            p@ == (BrokeringModel { service_name: Some(name@), ..self@ }),
    {
        let mut p = self;
        p.service_name = Some(name);
        p
    }

    /// Use this conversation id.
    pub fn with_conversation_id(self, id: String) -> (p: Self)
        ensures
            p@ == (BrokeringModel { conversation_id: id@, ..self@ }),
    {
        let mut p = self;
        p.base.conversation_id = id;
        p
    }

    /// The current state.
    pub fn state(&self) -> (s: BrokeringState)
        ensures
            s == self@.state,
    {
        self.state
    }

    /// Add a provider to forward to, pending; one of the same name is
    /// replaced.
    pub fn add_provider(&mut self, agent_id: AgentId)
        requires
            old(self).wf(),
        ensures
            final(self).wf(),
            final(self)@ == (BrokeringModel {
                providers: provider_insert(
                    old(self)@.providers,
                    ProviderView { agent_id: agent_id@, status: ProviderStatus::Pending, response: None },
                ),
                ..old(self)@
            }),
    {
        let ghost pv = ProviderView { agent_id: agent_id@, status: ProviderStatus::Pending, response: None };
        let info = ProviderInfo { agent_id, status: ProviderStatus::Pending, response: None };
        assert(info@ == pv);
        let ghost ps = providers_view(self.providers@);
        let ghost s0 = self@;
        let mut i: usize = 0;
        while i < self.providers.len()
            invariant
                i <= self.providers@.len(),
                ps == providers_view(self.providers@),
                self@ == s0,
                s0 == old(self)@,
                providers_distinct(ps),
                pv == info@,
                pv == (ProviderView { agent_id: agent_id@, status: ProviderStatus::Pending, response: None }),
                forall|j: int| 0 <= j < i ==> (#[trigger] ps[j]).agent_id.name != pv.agent_id.name,
            decreases self.providers@.len() - i,
        {
            if self.providers[i].agent_id.name == info.agent_id.name {
                let ghost k = i as int;
                self.providers.set(i, info);
                proof {
                    let after = providers_view(self.providers@);
                    assert(has_provider(ps, pv.agent_id.name)) by {
                        assert(ps[k].agent_id.name == pv.agent_id.name);
                    }
                    assert forall|j: int| 0 <= j < ps.len() implies
                        (#[trigger] after[j]) == (if ps[j].agent_id.name == pv.agent_id.name { pv } else { ps[j] }) by {
                        if j != k {
                            assert(ps[j].agent_id.name != ps[k].agent_id.name);
                        }
                    }
                    assert(after =~= provider_insert(ps, pv));
                    assert(providers_distinct(after)) by {
                        assert forall|a: int, b: int| 0 <= a < after.len() && 0 <= b < after.len() && a != b
                            implies (#[trigger] after[a]).agent_id.name != (#[trigger] after[b]).agent_id.name by {
                            assert(ps[a].agent_id.name != ps[b].agent_id.name);
                        }
                    }
                    assert(self@ == (BrokeringModel { providers: after, ..s0 }));
                }
                return;
            }
            i = i + 1;
        }
        self.providers.push(info);
        proof {
            let after = providers_view(self.providers@);
            assert(after =~= ps.push(pv));
            assert(!has_provider(ps, pv.agent_id.name));
            assert(providers_distinct(after)) by {
                assert forall|a: int, b: int| 0 <= a < after.len() && 0 <= b < after.len() && a != b
                    implies (#[trigger] after[a]).agent_id.name != (#[trigger] after[b]).agent_id.name by {
                    if a < ps.len() && b < ps.len() {
                        assert(ps[a] == after[a] && ps[b] == after[b]);
                    } else if a < ps.len() {
                        assert(ps[a] == after[a]);
                    } else {
                        assert(ps[b] == after[b]);
                    }
                }
            }
        }
    }

    /// The providers, in the order they were added.
    pub fn providers(&self) -> (r: &[ProviderInfo])
        ensures
            providers_view(r@) == self@.providers,
    {
        self.providers.as_slice()
    }

    /// The consolidated results.
    pub fn results(&self) -> (r: &[Vec<u8>])
        ensures
            byte_lists_view(r@) == self@.results,
    {
        self.results.as_slice()
    }

    /// Whether every provider has answered (completed, failed or refused).
    pub fn all_responded(&self) -> (r: bool)
        ensures
            r == (forall|i: int| 0 <= i < self@.providers.len() ==> has_responded(#[trigger] self@.providers[i].status)),
    {
        let ghost ps = self@.providers;
        let mut i: usize = 0;
        while i < self.providers.len()
            invariant
                i <= self.providers@.len(),
                ps == providers_view(self.providers@),
                forall|j: int| 0 <= j < i ==> has_responded(#[trigger] ps[j].status),
            decreases self.providers@.len() - i,
        {
            let st = self.providers[i].status;
            if !(st == ProviderStatus::Completed || st == ProviderStatus::Failed || st == ProviderStatus::Refused) {
                assert(ps[i as int].status == st);
                return false;
            }
            i = i + 1;
        }
        true
    }

    /// How many providers completed.
    pub fn successful_count(&self) -> (n: usize)
        ensures
            n == completed_count(self@.providers),
    {
        let ghost ps = self@.providers;
        let mut n: usize = 0;
        let mut i: usize = 0;
        while i < self.providers.len()
            invariant
                i <= self.providers@.len(),
                ps == providers_view(self.providers@),
                n == completed_count(ps.take(i as int)),
                n <= i,
            decreases self.providers@.len() - i,
        {
            assert(ps.take(i + 1).drop_last() =~= ps.take(i as int));
            if self.providers[i].status == ProviderStatus::Completed {
                n = n + 1;
            }
            i = i + 1;
        }
        assert(ps.take(ps.len() as int) =~= ps);
        n
    }

    /// The responses of the providers that completed with one, in order.
    fn collect_completed(&self) -> (r: Vec<Vec<u8>>)
        ensures
            byte_lists_view(r@) == completed_responses(self@.providers),
    {
        let ghost ps = self@.providers;
        let mut r: Vec<Vec<u8>> = Vec::new();
        let mut i: usize = 0;
        while i < self.providers.len()
            invariant
                i <= self.providers@.len(),
                ps == providers_view(self.providers@),
                byte_lists_view(r@) == completed_responses(ps.take(i as int)),
            decreases self.providers@.len() - i,
        {
            assert(ps.take(i + 1).drop_last() =~= ps.take(i as int));
            if self.providers[i].status == ProviderStatus::Completed {
                match &self.providers[i].response {
                    Some(resp) => {
                        let ghost before = r@;
                        r.push(vstd::slice::slice_to_vec(resp.as_slice()));
                        assert(byte_lists_view(r@) =~= byte_lists_view(before).push(resp@));
                    },
                    None => {},
                }
            }
            i = i + 1;
        }
        assert(ps.take(ps.len() as int) =~= ps);
        r
    }

    /// Consolidate the providers' results: those of the providers that
    /// completed with a response, in order. The conversation completes if
    /// there is at least one and fails otherwise. Only while waiting for or
    /// consolidating responses; otherwise an invalid-transition error and no
    /// change.
    pub fn consolidate(&mut self) -> (r: Result<(), ProtocolError>)
        ensures
            (old(self)@.state == BrokeringState::WaitingResponses || old(self)@.state == BrokeringState::Consolidating) ==> {
                &&& r is Ok
                &&& final(self)@ == (BrokeringModel {
                    results: completed_responses(old(self)@.providers),
                    state: if completed_responses(old(self)@.providers).len() == 0 {
                        BrokeringState::Failed
                    } else {
                        BrokeringState::Completed
                    },
                    ..old(self)@
                })
                &&& final(self)@.results == old(self)@.providers.filter(|p: ProviderView| answered_with_response(p))
                    .map_values(|p: ProviderView| p.response.unwrap())
            },
            !(old(self)@.state == BrokeringState::WaitingResponses || old(self)@.state == BrokeringState::Consolidating) ==> {
                &&& r matches Err(e) && is_invalid_transition(e, brokering_state_name(old(self)@.state), "consolidate"@)
                &&& final(self)@ == old(self)@
            },
    {
        if !(self.state == BrokeringState::WaitingResponses || self.state == BrokeringState::Consolidating) {
            return Err(ProtocolError::InvalidTransition {
                from: owned(self.state.as_str()),
                to: owned("consolidate"),
            });
        }
        proof {
            law_consolidated_results_complete(self@.providers);
        }
        let results = self.collect_completed();
        let empty = results.len() == 0;
        self.results = results;
        if empty {
            self.state = BrokeringState::Failed;
        } else {
            self.state = BrokeringState::Completed;
        }
        Ok(())
    }

    /// The state a performative leads to, or the invalid-transition error.
    pub fn validate_transition(&self, performative: Performative) -> (r: Result<BrokeringState, ProtocolError>)
        ensures
            match brokering_next(self@.state, performative) {
                Some(n) => r == Ok::<BrokeringState, ProtocolError>(n),
                None => r matches Err(e)
                    && is_invalid_transition(e, brokering_state_name(self@.state), performative_name(performative)),
            },
    {
        match (self.state, performative) {
            (BrokeringState::NotStarted, Performative::Proxy) => Ok(BrokeringState::ProxyReceived),
            (BrokeringState::ProxyReceived, Performative::Request) => Ok(BrokeringState::Forwarding),
            (BrokeringState::Forwarding, Performative::Request) => Ok(BrokeringState::Forwarding),
            (BrokeringState::Forwarding, Performative::Agree) => Ok(BrokeringState::WaitingResponses),
            (BrokeringState::WaitingResponses, Performative::Agree) => Ok(BrokeringState::WaitingResponses),
            (BrokeringState::Forwarding, Performative::Refuse) => Ok(BrokeringState::WaitingResponses),
            (BrokeringState::WaitingResponses, Performative::Refuse) => Ok(BrokeringState::WaitingResponses),
            (BrokeringState::WaitingResponses, Performative::InformResult) => Ok(BrokeringState::Consolidating),
            (BrokeringState::WaitingResponses, Performative::InformDone) => Ok(BrokeringState::Consolidating),
            (BrokeringState::WaitingResponses, Performative::Failure) => Ok(BrokeringState::WaitingResponses),
            (BrokeringState::Consolidating, Performative::Inform) => Ok(BrokeringState::Completed),
            (_, Performative::Failure) => Ok(BrokeringState::Failed),
            (_, Performative::Cancel) => Ok(BrokeringState::Cancelled),
            (state, perf) => Err(invalid_transition(state.as_str(), perf)),
        }
    }
}

impl ProtocolStateMachine for BrokeringProtocol {
    fn protocol_type(&self) -> (t: ProtocolType)
        ensures
            t == ProtocolType::ProtocolBrokering,
    {
        ProtocolType::ProtocolBrokering
    }

    fn state_name(&self) -> (r: &str)
        ensures
            r@ == brokering_state_name(self@.state),
    {
        self.state.as_str()
    }

    fn validate(&self, msg: &AclMessage) -> (r: Result<(), ProtocolError>)
        ensures
            brokering_next(self@.state, msg.performative) is Some ==> r is Ok,
            brokering_next(self@.state, msg.performative) is None ==> (r matches Err(e)
                && is_invalid_transition(e, brokering_state_name(self@.state), performative_name(msg.performative))),
    {
        match self.validate_transition(msg.performative) {
            Ok(_) => Ok(()),
            Err(e) => Err(e),
        }
    }

    /// Check the transition, record the message, keep a proxy request and
    /// its initiator, update the answering provider (and collect a result),
    /// move to the next state and report.
    fn process(&mut self, msg: AclMessage) -> (r: Result<ProcessResult, ProtocolError>)
        ensures
            old(self).wf() ==> final(self).wf(),
            match brokering_next(old(self)@.state, msg.performative) {
                Some(n) => r matches Ok(pr)
                    && final(self)@ == brokering_after(old(self)@, msg@, n)
                    && brokering_report(n, final(self)@.results, pr),
                None => r matches Err(e)
                    && is_invalid_transition(e, brokering_state_name(old(self)@.state), performative_name(msg.performative))
                    && final(self)@ == old(self)@,
            },
    {
        let next = match self.validate_transition(msg.performative) {
            Ok(n) => n,
            Err(e) => {
                return Err(e);
            },
        };
        let ghost old_model = self@;
        let ghost m = msg@;
        let performative = msg.performative;
        let sender = copy_agent_opt(&msg.sender);
        let content = vstd::slice::slice_to_vec(msg.content.as_slice());
        if performative == Performative::Proxy {
            self.original_request = Some(msg.duplicate());
            self.initiator = copy_agent_opt(&msg.sender);
        }
        self.base.record_message(msg);
        proof {
            assert(messages_view(self.base.messages@) =~= old_model.history.push(m));
        }
        match sender {
            Some(s) => {
                if performative == Performative::InformResult || performative == Performative::InformDone {
                    self.update_provider(s.name.as_str(), ProviderStatus::Completed, Some(vstd::slice::slice_to_vec(content.as_slice())));
                    let ghost before = self.results@;
                    self.results.push(content);
                    assert(byte_lists_view(self.results@) =~= byte_lists_view(before).push(m.content));
                } else if performative == Performative::Agree {
                    self.update_provider(s.name.as_str(), ProviderStatus::Agreed, None);
                } else if performative == Performative::Refuse {
                    self.update_provider(s.name.as_str(), ProviderStatus::Refused, None);
                } else if performative == Performative::Failure {
                    self.update_provider(s.name.as_str(), ProviderStatus::Failed, Some(content));
                }
            },
            None => {},
        }
        self.state = next;
        let report = if self.state == BrokeringState::Completed {
            let json = json_of_byte_lists(&self.results);
            ProcessResult::Complete(CompletionData { result: Some(json), metadata: StrMap::new() })
        } else if self.state == BrokeringState::Failed {
            ProcessResult::Failed(owned("Brokering failed"))
        } else if self.state == BrokeringState::Cancelled {
            ProcessResult::Failed(owned("Brokering cancelled"))
        } else {
            ProcessResult::Continue
        };
        Ok(report)
    }

    fn is_complete(&self) -> (r: bool)
        ensures
            r == brokering_complete(self@.state),
    {
        self.state == BrokeringState::Completed || self.state == BrokeringState::Failed
            || self.state == BrokeringState::Cancelled
    }

    fn is_failed(&self) -> (r: bool)
        ensures
            r == brokering_failed(self@.state),
    {
        self.state == BrokeringState::Failed || self.state == BrokeringState::Cancelled
    }

    fn expected_performatives(&self) -> (r: Vec<Performative>)
        ensures
            r@ == brokering_expected(self@.state),
    {
        let r = match self.state {
            BrokeringState::NotStarted => vec![Performative::Proxy],
            BrokeringState::ProxyReceived => vec![Performative::Request, Performative::Cancel],
            BrokeringState::Forwarding => vec![
                Performative::Request,
                Performative::Agree,
                Performative::Refuse,
                Performative::Cancel,
            ],
            BrokeringState::WaitingResponses => vec![
                Performative::Agree,
                Performative::Refuse,
                Performative::InformResult,
                Performative::InformDone,
                Performative::Failure,
                Performative::Cancel,
            ],
            BrokeringState::Consolidating => vec![Performative::Inform, Performative::Cancel],
            _ => Vec::new(),
        };
        assert(r@ =~= brokering_expected(self@.state));
        r
    }

    fn serialize_state(&self) -> (r: Result<Vec<u8>, ProtocolError>)
        ensures
            r matches Ok(b) && b@ == vstd::utf8::encode_utf8(brokering_state_name(self@.state)),
    {
        Ok(str_bytes(self.state.as_str()))
    }

    fn message_history(&self) -> (r: &[AclMessage])
        ensures
            messages_view(r@) == self@.history,
    {
        self.base.messages.as_slice()
    }
}

impl BrokeringProtocol {
    /// Set the status and response of the provider named `name`; no change if
    /// there is none.
    pub fn update_provider(&mut self, name: &str, status: ProviderStatus, response: Option<Vec<u8>>)
        ensures
            final(self)@ == (BrokeringModel {
                providers: provider_update(old(self)@.providers, name@, status, bytes_opt(response)),
                ..old(self)@
            }),
            old(self).wf() ==> final(self).wf(),
    {
        let ghost ps = providers_view(self.providers@);
        let ghost want = provider_update(ps, name@, status, bytes_opt(response));
        let ghost s0 = self@;
        let mut i: usize = 0;
        while i < self.providers.len()
            invariant
                i <= self.providers@.len(),
                ps.len() == self.providers@.len(),
                want == provider_update(ps, name@, status, bytes_opt(response)),
                forall|j: int| 0 <= j < i ==> (#[trigger] providers_view(self.providers@)[j]) == want[j],
                forall|j: int| i <= j < ps.len() ==> (#[trigger] providers_view(self.providers@)[j]) == ps[j],
                self@ == (BrokeringModel { providers: providers_view(self.providers@), ..s0 }),
                s0 == old(self)@,
                ps == s0.providers,
            decreases self.providers@.len() - i,
        {
            let ghost before = self.providers@;
            if str_eq(self.providers[i].agent_id.name.as_str(), name) {
                self.providers[i].status = status;
                self.providers[i].response = match &response {
                    Some(b) => Some(vstd::slice::slice_to_vec(b.as_slice())),
                    None => None,
                };
                assert(self.providers@ =~= before.update(i as int, self.providers@[i as int]));
                assert(providers_view(before)[i as int] == before[i as int]@);
                assert(ps[i as int] == before[i as int]@);
                assert(ps[i as int].agent_id.name == name@);
                assert(self.providers@[i as int].agent_id == before[i as int].agent_id);
                assert(bytes_opt(self.providers@[i as int].response) == bytes_opt(response));
                assert(want[i as int] == (ProviderView { agent_id: ps[i as int].agent_id, status, response: bytes_opt(response) }));
                assert(providers_view(self.providers@)[i as int] == want[i as int]);
            } else {
                assert(providers_view(before)[i as int] == ps[i as int]);
                assert(want[i as int] == ps[i as int]);
            }
            assert forall|j: int| 0 <= j < i + 1 implies (#[trigger] providers_view(self.providers@)[j]) == want[j] by {
                if j < i {
                    assert(self.providers@[j] == before[j]);
                    assert(providers_view(before)[j] == want[j]);
                }
            }
            assert forall|j: int| i + 1 <= j < ps.len() implies (#[trigger] providers_view(self.providers@)[j]) == ps[j] by {
                assert(self.providers@[j] == before[j]);
                assert(providers_view(before)[j] == ps[j]);
            }
            i = i + 1;
        }
        proof {
            assert(providers_view(self.providers@) =~= want);
            if providers_distinct(ps) {
                let after = providers_view(self.providers@);
                assert forall|a: int, b: int| 0 <= a < after.len() && 0 <= b < after.len() && a != b
                    implies (#[trigger] after[a]).agent_id.name != (#[trigger] after[b]).agent_id.name by {
                    assert(after[a].agent_id.name == ps[a].agent_id.name);
                    assert(after[b].agent_id.name == ps[b].agent_id.name);
                }
            }
        }
    }
}

} // verus!
