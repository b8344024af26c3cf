//! The FIPA Contract Net protocol: a call for proposals, bids, an award and
//! the contractor's result.
use vstd::prelude::*;
use crate::acl::{
    agents_view, copy_agent_opt, messages_view, uuid_v4_text, AclMessage, AclView, AgentId,
    AgentIdView, Performative, ProtocolType, performative_name,
};
use crate::clock::wall_clock_millis;
use crate::protocol::state_machine::{
    has_participant_named, invalid_transition, is_invalid_transition,
    CompletionData, ConversationBase, ProcessResult, ProtocolError, ProtocolStateMachine, Role,
};
use crate::strmap::StrMap;
use crate::text::{owned, str_bytes, str_eq};

verus! {

/// The states of a Contract Net conversation.
#[derive(Clone, Copy, Debug, PartialEq, Eq, Structural)]
pub enum ContractNetState {
    NotStarted,
    CfpSent,
    ProposalsReceived,
    Evaluating,
    Accepted,
    Rejected,
    InExecution,
    Completed,
    Failed,
}

/// The name of a state.
pub open spec fn contract_net_state_name(s: ContractNetState) -> Seq<char> {
    match s {
        ContractNetState::NotStarted => "not_started"@,
        ContractNetState::CfpSent => "cfp_sent"@,
        ContractNetState::ProposalsReceived => "proposals_received"@,
        ContractNetState::Evaluating => "evaluating"@,
        ContractNetState::Accepted => "accepted"@,
        ContractNetState::Rejected => "rejected"@,
        ContractNetState::InExecution => "in_execution"@,
        ContractNetState::Completed => "completed"@,
        ContractNetState::Failed => "failed"@,
    }
}

impl ContractNetState {
    /// The state's name.
    pub fn as_str(&self) -> (r: &'static str)
        ensures
            r@ == contract_net_state_name(*self),
    {
        match self {
            ContractNetState::NotStarted => "not_started",
            ContractNetState::CfpSent => "cfp_sent",
            ContractNetState::ProposalsReceived => "proposals_received",
            ContractNetState::Evaluating => "evaluating",
            ContractNetState::Accepted => "accepted",
            ContractNetState::Rejected => "rejected",
            ContractNetState::InExecution => "in_execution",
            ContractNetState::Completed => "completed",
            ContractNetState::Failed => "failed",
        }
    }
}

/// The state a performative leads to, if the state accepts it.
pub open spec fn contract_net_next(s: ContractNetState, p: Performative) -> Option<ContractNetState> {
    match (s, p) {
        (ContractNetState::NotStarted, Performative::Cfp) => Some(ContractNetState::CfpSent),
        (ContractNetState::CfpSent, Performative::Propose) => Some(ContractNetState::ProposalsReceived),
        (ContractNetState::CfpSent, Performative::Refuse) => Some(ContractNetState::ProposalsReceived),
        (ContractNetState::ProposalsReceived, Performative::Propose) => Some(ContractNetState::ProposalsReceived),
        (ContractNetState::ProposalsReceived, Performative::Refuse) => Some(ContractNetState::ProposalsReceived),
        (ContractNetState::ProposalsReceived, Performative::AcceptProposal) => Some(ContractNetState::InExecution),
        (ContractNetState::ProposalsReceived, Performative::RejectProposal) => Some(ContractNetState::Rejected),
        (ContractNetState::InExecution, Performative::InformDone) => Some(ContractNetState::Completed),
        (ContractNetState::InExecution, Performative::InformResult) => Some(ContractNetState::Completed),
        (ContractNetState::InExecution, Performative::Failure) => Some(ContractNetState::Failed),
        _ => None,
    }
}

/// The performatives a state lists as expected next.
pub open spec fn contract_net_expected(s: ContractNetState) -> Seq<Performative> {
    match s {
        ContractNetState::NotStarted => seq![Performative::Cfp],
        ContractNetState::CfpSent => seq![Performative::Propose, Performative::Refuse],
        ContractNetState::ProposalsReceived => seq![
            Performative::Propose,
            Performative::Refuse,
            Performative::AcceptProposal,
            Performative::RejectProposal,
        ],
        ContractNetState::InExecution => seq![
            Performative::InformDone,
            Performative::InformResult,
            Performative::Failure,
        ],
        _ => Seq::empty(),
    }
}

/// Terminal states.
pub open spec fn contract_net_complete(s: ContractNetState) -> bool {
    s == ContractNetState::Completed || s == ContractNetState::Failed || s == ContractNetState::Rejected
}

/// Terminal states that are failures.
pub open spec fn contract_net_failed(s: ContractNetState) -> bool {
    s == ContractNetState::Failed || s == ContractNetState::Rejected
}

/// A state lists as expected exactly the performatives it accepts.
pub proof fn law_contract_net_expected_is_accepted(s: ContractNetState, p: Performative)
    ensures
        contract_net_expected(s).contains(p) <==> contract_net_next(s, p) is Some,
{
    let e = contract_net_expected(s);
    if contract_net_next(s, p) is Some {
        match s {
            ContractNetState::NotStarted => assert(e[0] == p),
            ContractNetState::CfpSent => {
                if p == Performative::Propose { assert(e[0] == p); } else { assert(e[1] == p); }
            },
            ContractNetState::ProposalsReceived => {
                if p == Performative::Propose { assert(e[0] == p); }
                else if p == Performative::Refuse { assert(e[1] == p); }
                else if p == Performative::AcceptProposal { assert(e[2] == p); }
                else { assert(e[3] == p); }
            },
            _ => {
                if p == Performative::InformDone { assert(e[0] == p); }
                else if p == Performative::InformResult { assert(e[1] == p); }
                else { assert(e[2] == p); }
            },
        }
    }
}

/// A finished conversation accepts no further message, and a failed one is
/// finished.
pub proof fn law_contract_net_terminal(s: ContractNetState, p: Performative)
    ensures
        contract_net_complete(s) ==> contract_net_next(s, p) is None,
        contract_net_failed(s) ==> contract_net_complete(s),
{
}

/// A contractor's bid.
#[derive(Debug)]
pub struct Proposal {
    pub bidder: AgentId,
    pub content: Vec<u8>,
    /// When it was received, in milliseconds since the epoch.
    pub received_at: i64,
}

/// A contractor's Failure fails the conversation: a Failure is accepted only
/// while the awarded task is being executed, and there it leads to a failed,
/// finished state whose report is the failure; success is reached only by
/// the contractor's InformDone or InformResult.
pub proof fn law_contract_net_failure_fails(
    s: ContractNetState,
    p: Performative,
    result: Option<(Seq<char>, Seq<u8>)>,
    r: ProcessResult,
)
    ensures
        contract_net_next(s, Performative::Failure) is Some <==> s == ContractNetState::InExecution,
        contract_net_next(s, Performative::Failure) matches Some(n) ==> contract_net_failed(n) && contract_net_complete(n),
        (contract_net_next(s, Performative::Failure) matches Some(n) && contract_net_report(n, result, r))
            ==> (r matches ProcessResult::Failed(m) && m@ == "Contract net failed"@),
        contract_net_next(s, p) == Some(ContractNetState::Completed)
            ==> p == Performative::InformDone || p == Performative::InformResult,
        contract_net_next(s, p) matches Some(n) && contract_net_failed(n)
            ==> p == Performative::Failure || p == Performative::RejectProposal,
{
}

/// A bid as plain values.
pub struct ProposalView {
    pub bidder: AgentIdView,
    pub content: Seq<u8>,
    pub received_at: i64,
}

impl View for Proposal {
    type V = ProposalView;

    open spec fn view(&self) -> ProposalView {
        ProposalView { bidder: self.bidder@, content: self.content@, received_at: self.received_at }
    }
}

impl Proposal {
    /// A bid equal to this one.
    pub fn duplicate(&self) -> (p: Self)
        ensures
            p@ == self@,
    {
        Proposal {
            bidder: self.bidder.duplicate(),
            content: vstd::slice::slice_to_vec(self.content.as_slice()),
            received_at: self.received_at,
        }
    }
}

/// The views of a list of bids.
pub open spec fn proposals_view(v: Seq<Proposal>) -> Seq<ProposalView> {
    v.map_values(|p: Proposal| p@)
}

/// Whether a bid from this bidder is in the list.
pub open spec fn has_bid_from(ps: Seq<ProposalView>, name: Seq<char>) -> bool {
    exists|i: int| 0 <= i < ps.len() && (#[trigger] ps[i]).bidder.name == name
}

/// Bids keyed by bidder name: `p` replaces the bid of the same bidder, or is
/// added at the end.
pub open spec fn keyed_bid_insert(ps: Seq<ProposalView>, p: ProposalView) -> Seq<ProposalView> {
    if has_bid_from(ps, p.bidder.name) {
        ps.map_values(|q: ProposalView| if q.bidder.name == p.bidder.name { p } else { q })
    } else {
        ps.push(p)
    }
}

/// No two bids in the list come from the same bidder.
pub open spec fn bidders_distinct(ps: Seq<ProposalView>) -> bool {
    forall|i: int, j: int| 0 <= i < ps.len() && 0 <= j < ps.len() && i != j
        ==> (#[trigger] ps[i]).bidder.name != (#[trigger] ps[j]).bidder.name
}

/// Index of the first bid from this bidder.
pub open spec fn first_bid_from(ps: Seq<ProposalView>, name: Seq<char>) -> Option<int>
    decreases ps.len(),
{
    if ps.len() == 0 {
        None
    } else if ps[0].bidder.name == name {
        Some(0)
    } else {
        match first_bid_from(ps.drop_first(), name) {
            Some(i) => Some(i + 1),
            None => None,
        }
    }
}

/// An optional index moved by `d`.
pub open spec fn offset_index(o: Option<int>, d: int) -> Option<int> {
    match o {
        Some(k) => Some(k + d),
        None => None,
    }
}

/// A Contract Net conversation as plain values.
pub struct ContractNetModel {
    pub state: ContractNetState,
    pub conversation_id: Seq<char>,
    pub role: Role,
    pub participants: Seq<AgentIdView>,
    pub history: Seq<AclView>,
    pub task_description: Option<Seq<u8>>,
    pub expected_participants: usize,
    pub proposals: Seq<ProposalView>,
    /// Awarded bids, keyed by bidder name.
    pub accepted: Seq<ProposalView>,
    /// The contractor's result: its name and content.
    pub result: Option<(Seq<char>, Seq<u8>)>,
}

/// Awards are keyed by bidder, and a result is stored only by the message
/// that completes the conversation.
pub open spec fn contract_net_consistent(m: ContractNetModel) -> bool {
    &&& bidders_distinct(m.accepted)
    &&& m.result is Some ==> m.state == ContractNetState::Completed
}

/// A Contract Net conversation.
///
/// Results are keyed by contractor; only the message that completes the
/// conversation stores one, so there is at most one and it is held as an
/// `Option`.
#[derive(Debug)]
pub struct ContractNetProtocol {
    state: ContractNetState,
    base: ConversationBase,
    task_description: Option<Vec<u8>>,
    expected_participants: usize,
    proposals: Vec<Proposal>,
    accepted: Vec<Proposal>,
    result: Option<(String, Vec<u8>)>,
}

/// The model after an accepted performative moves the conversation to `next`,
/// at time `now`.
pub open spec fn contract_net_after(old: ContractNetModel, msg: AclView, next: ContractNetState, now: i64) -> ContractNetModel {
    let p = msg.performative;
    ContractNetModel {
        state: next,
        history: old.history.push(msg),
        task_description: if p == Performative::Cfp { Some(msg.content) } else { old.task_description },
        proposals: match msg.sender {
            Some(s) if p == Performative::Propose =>
                old.proposals.push(ProposalView { bidder: s, content: msg.content, received_at: now }),
            _ => old.proposals,
        },
        participants: match msg.sender {
            Some(s) if p == Performative::Propose && !has_participant_named(old.participants, s.name) =>
                old.participants.push(s),
            _ => old.participants,
        },
        result: match msg.sender {
            Some(s) if p == Performative::InformDone || p == Performative::InformResult =>
                Some((s.name, msg.content)),
            _ => old.result,
        },
        ..old
    }
}

/// What processing reports once the conversation is in state `s` with this
/// result stored.
pub open spec fn contract_net_report(s: ContractNetState, result: Option<(Seq<char>, Seq<u8>)>, r: ProcessResult) -> bool {
    if s == ContractNetState::Completed {
        r matches ProcessResult::Complete(d) && d.metadata@ == Map::<Seq<char>, Seq<char>>::empty()
            && match result {
                Some(x) => d.result matches Some(c) && c@ == x.1,
                None => d.result is None,
            }
    } else if contract_net_failed(s) {
        r matches ProcessResult::Failed(m) && m@ == "Contract net failed"@
    } else {
        r is Continue
    }
}

impl View for ContractNetProtocol {
    type V = ContractNetModel;

    closed spec fn view(&self) -> ContractNetModel {
        ContractNetModel {
            state: self.state,
            conversation_id: self.base.conversation_id@,
            role: self.base.role,
            participants: agents_view(self.base.participants@),
            history: messages_view(self.base.messages@),
            task_description: match self.task_description {
                Some(t) => Some(t@),
                None => None,
            },
            expected_participants: self.expected_participants,
            proposals: proposals_view(self.proposals@),
            accepted: proposals_view(self.accepted@),
            result: match self.result {
                Some(x) => Some((x.0@, x.1@)),
                None => None,
            },
        }
    }
}

impl ContractNetProtocol {
    /// The conversation's invariant.
    pub open spec fn wf(&self) -> bool {
        contract_net_consistent(self@)
    }

    /// A new conversation in this role, with a fresh conversation id.
    pub fn new(role: Role) -> (p: Self)
        ensures
            p@.state == ContractNetState::NotStarted,
            p@.role == role,
            p@.participants.len() == 0,
            p@.history.len() == 0,
            p@.task_description is None,
            p@.expected_participants == 0,
            p@.proposals.len() == 0,
            p@.accepted.len() == 0,
            p@.result is None,
            p.wf(),
    {
        let base = ConversationBase::new(uuid_v4_text(), role);
        let p = ContractNetProtocol {
            state: ContractNetState::NotStarted,
            base,
            task_description: None,
            expected_participants: 0,
            proposals: Vec::new(),
            accepted: Vec::new(),
            result: None,
        };
        proof {
            assert(agents_view(p.base.participants@) =~= Seq::<AgentIdView>::empty());
            assert(messages_view(p.base.messages@) =~= Seq::<AclView>::empty());
            assert(proposals_view(p.proposals@) =~= Seq::<ProposalView>::empty());
            assert(proposals_view(p.accepted@) =~= Seq::<ProposalView>::empty());
        }
        p
    }

    /// Set the number of participants expected to bid.
    pub fn with_expected_participants(self, count: usize) -> (p: Self)
        ensures
            p@ == (ContractNetModel { expected_participants: count, ..self@ }),
            self.wf() ==> p.wf(),
    {
        let mut p = self;
        p.expected_participants = count;
        p
    }

    /// The bids received so far, in order.
    pub fn proposals(&self) -> (r: &[Proposal])
        ensures
            proposals_view(r@) == self@.proposals,
    {
        self.proposals.as_slice()
    }

    /// The current state.
    pub fn state(&self) -> (s: ContractNetState)
        ensures
            s == self@.state,
    {
        self.state
    }

    /// Award the first bid from `bidder_name`: record it as accepted (in place
    /// of an earlier award to the same bidder) and return a copy; `None`, and
    /// no change, if that bidder has not bid.
    pub fn accept_proposal(&mut self, bidder_name: &str) -> (r: Option<Proposal>)
        requires
            old(self).wf(),
        ensures
            final(self).wf(),
            match first_bid_from(old(self)@.proposals, bidder_name@) {
                Some(i) => r matches Some(p) && p@ == old(self)@.proposals[i]
                    && final(self)@ == (ContractNetModel {
                        accepted: keyed_bid_insert(old(self)@.accepted, old(self)@.proposals[i]),
                        ..old(self)@
                    }),
                None => r is None && final(self)@ == old(self)@,
            },
    {
        let ghost ps = proposals_view(self.proposals@);
        let ghost s0 = self@;
        assert(ps.subrange(0, ps.len() as int) =~= ps);
        let mut i: usize = 0;
        while i < self.proposals.len()
            invariant
                i <= self.proposals@.len(),
                ps == proposals_view(self.proposals@),
                self@ == s0,
                s0 == old(self)@,
                self.wf(),
                first_bid_from(ps, bidder_name@) == offset_index(first_bid_from(ps.subrange(i as int, ps.len() as int), bidder_name@), i as int),
            decreases self.proposals@.len() - i,
        {
            let ghost sub = ps.subrange(i as int, ps.len() as int);
            assert(sub.drop_first() =~= ps.subrange(i + 1, ps.len() as int));
            assert(sub[0] == ps[i as int]);
            if str_eq(self.proposals[i].bidder.name.as_str(), bidder_name) {
                let found = self.proposals[i].duplicate();
                let stored = self.proposals[i].duplicate();
                self.insert_accepted(stored);
                return Some(found);
            }
            i = i + 1;
        }
        assert(ps.subrange(i as int, ps.len() as int) =~= Seq::<ProposalView>::empty());
        None
    }

    /// Record `p` as accepted, keyed by its bidder's name.
    fn insert_accepted(&mut self, p: Proposal)
        requires
            old(self).wf(),
        ensures
            final(self).wf(),
            final(self)@ == (ContractNetModel {
                accepted: keyed_bid_insert(old(self)@.accepted, p@),
                ..old(self)@
            }),
    {
        let ghost acc = proposals_view(self.accepted@);
        let ghost s0 = self@;
        let mut i: usize = 0;
        while i < self.accepted.len()
            invariant
                i <= self.accepted@.len(),
                acc == proposals_view(self.accepted@),
                self@ == s0,
                s0 == old(self)@,
                contract_net_consistent(s0),
                forall|j: int| 0 <= j < i ==> (#[trigger] acc[j]).bidder.name != p@.bidder.name,
            decreases self.accepted@.len() - i,
        {
            if self.accepted[i].bidder.name == p.bidder.name {
                let ghost k = i as int;
                let mut accepted: Vec<Proposal> = Vec::new();
                std::mem::swap(&mut accepted, &mut self.accepted);
                accepted.set(i, p);
                proof {
                    let after = proposals_view(accepted@);
                    assert(has_bid_from(acc, p@.bidder.name)) by {
                        assert(acc[k].bidder.name == p@.bidder.name);
                    }
                    assert forall|j: int| 0 <= j < acc.len() implies
                        (#[trigger] after[j]) == (if acc[j].bidder.name == p@.bidder.name { p@ } else { acc[j] }) by {
                        if j != k {
                            assert(acc[j].bidder.name != acc[k].bidder.name);
                        }
                    }
                    assert(after =~= keyed_bid_insert(acc, p@));
                    assert(bidders_distinct(after)) by {
                        assert forall|a: int, b: int| 0 <= a < after.len() && 0 <= b < after.len() && a != b
                            implies (#[trigger] after[a]).bidder.name != (#[trigger] after[b]).bidder.name by {
                            assert(acc[a].bidder.name != acc[b].bidder.name);
                        }
                    }
                }
                std::mem::swap(&mut accepted, &mut self.accepted);
                return;
            }
            i = i + 1;
        }
        let mut accepted: Vec<Proposal> = Vec::new();
        std::mem::swap(&mut accepted, &mut self.accepted);
        accepted.push(p);
        proof {
            let after = proposals_view(accepted@);
            assert(after =~= acc.push(p@));
            assert(!has_bid_from(acc, p@.bidder.name));
            assert(bidders_distinct(after)) by {
                assert forall|a: int, b: int| 0 <= a < after.len() && 0 <= b < after.len() && a != b
                    implies (#[trigger] after[a]).bidder.name != (#[trigger] after[b]).bidder.name by {
                    if a < acc.len() && b < acc.len() {
                        assert(acc[a] == after[a] && acc[b] == after[b]);
                    } else if a < acc.len() {
                        assert(acc[a] == after[a]);
                    } else {
                        assert(acc[b] == after[b]);
                    }
                }
            }
        }
        std::mem::swap(&mut accepted, &mut self.accepted);
    }

    /// The state a performative leads to, or the invalid-transition error.
    pub fn validate_transition(&self, performative: Performative) -> (r: Result<ContractNetState, ProtocolError>)
        ensures
            self@.state == ContractNetState::InExecution && performative == Performative::Failure
                ==> r == Ok::<ContractNetState, ProtocolError>(ContractNetState::Failed),
            match contract_net_next(self@.state, performative) {
                Some(n) => r == Ok::<ContractNetState, ProtocolError>(n),
                None => r matches Err(e)
                    && is_invalid_transition(e, contract_net_state_name(self@.state), performative_name(performative)),
            },
    {
        match (self.state, performative) {
            (ContractNetState::NotStarted, Performative::Cfp) => Ok(ContractNetState::CfpSent),
            (ContractNetState::CfpSent, Performative::Propose) => Ok(ContractNetState::ProposalsReceived),
            (ContractNetState::CfpSent, Performative::Refuse) => Ok(ContractNetState::ProposalsReceived),
            (ContractNetState::ProposalsReceived, Performative::Propose) => Ok(ContractNetState::ProposalsReceived),
            (ContractNetState::ProposalsReceived, Performative::Refuse) => Ok(ContractNetState::ProposalsReceived),
            (ContractNetState::ProposalsReceived, Performative::AcceptProposal) => Ok(ContractNetState::InExecution),
            (ContractNetState::ProposalsReceived, Performative::RejectProposal) => Ok(ContractNetState::Rejected),
            (ContractNetState::InExecution, Performative::InformDone) => Ok(ContractNetState::Completed),
            (ContractNetState::InExecution, Performative::InformResult) => Ok(ContractNetState::Completed),
            (ContractNetState::InExecution, Performative::Failure) => Ok(ContractNetState::Failed),
            (state, perf) => Err(invalid_transition(state.as_str(), perf)),
        }
    }

    /// Process a message received at time `now`: check the transition, record
    /// the message, keep the call's task, a bid (and its bidder as a
    /// participant) or the contractor's result, move to the next state and
    /// report.
    pub fn process_at(&mut self, msg: AclMessage, now: i64) -> (r: Result<ProcessResult, ProtocolError>)
        ensures
            old(self).wf() ==> final(self).wf(),
            match contract_net_next(old(self)@.state, msg.performative) {
                Some(n) => r matches Ok(pr)
                    && final(self)@ == contract_net_after(old(self)@, msg@, n, now)
                    && contract_net_report(n, final(self)@.result, pr),
                None => r matches Err(e)
                    && is_invalid_transition(e, contract_net_state_name(old(self)@.state), performative_name(msg.performative))
                    && final(self)@ == old(self)@,
            },
            old(self)@.state == ContractNetState::InExecution && msg.performative == Performative::Failure ==> {
                &&& final(self)@.state == ContractNetState::Failed
                &&& r matches Ok(ProcessResult::Failed(m)) && m@ == "Contract net failed"@
            },
    {
        let next = match self.validate_transition(msg.performative) {
            Ok(n) => n,
            Err(e) => {
                return Err(e);
            },
        };
        let ghost old_model = self@;
        let ghost m = msg@;
        let performative = msg.performative;
        let sender = copy_agent_opt(&msg.sender);
        let content = vstd::slice::slice_to_vec(msg.content.as_slice());
        self.base.record_message(msg);
        proof {
            assert(messages_view(self.base.messages@) =~= old_model.history.push(m));
        }
        self.state = next;
        match performative {
            Performative::Cfp => {
                self.task_description = Some(content);
            },
            Performative::Propose => {
                match sender {
                    Some(s) => {
                        let bid = Proposal { bidder: s.duplicate(), content, received_at: now };
                        self.proposals.push(bid);
                        proof {
                            assert(proposals_view(self.proposals@) =~= old_model.proposals.push(bid@));
                        }
                        self.base.add_participant(s);
                    },
                    None => {},
                }
            },
            Performative::InformDone | Performative::InformResult => {
                match sender {
                    Some(s) => {
                        self.result = Some((s.name, content));
                    },
                    None => {},
                }
            },
            _ => {},
        }
        let report = if self.state == ContractNetState::Completed {
            let result = match &self.result {
                Some(x) => Some(vstd::slice::slice_to_vec(x.1.as_slice())),
                None => None,
            };
            ProcessResult::Complete(CompletionData { result, metadata: StrMap::new() })
        } else if self.state == ContractNetState::Failed || self.state == ContractNetState::Rejected {
            ProcessResult::Failed(owned("Contract net failed"))
        } else {
            ProcessResult::Continue
        };
        Ok(report)
    }
}

impl ProtocolStateMachine for ContractNetProtocol {
    fn protocol_type(&self) -> (t: ProtocolType)
        ensures
            t == ProtocolType::ProtocolContractNet,
    {
        ProtocolType::ProtocolContractNet
    }

    fn state_name(&self) -> (r: &str)
        ensures
            r@ == contract_net_state_name(self@.state),
    {
        self.state.as_str()
    }

    fn validate(&self, msg: &AclMessage) -> (r: Result<(), ProtocolError>)
        ensures
            contract_net_next(self@.state, msg.performative) is Some ==> r is Ok,
            contract_net_next(self@.state, msg.performative) is None ==> (r matches Err(e)
                && is_invalid_transition(e, contract_net_state_name(self@.state), performative_name(msg.performative))),
    {
        match self.validate_transition(msg.performative) {
            Ok(_) => Ok(()),
            Err(e) => Err(e),
        }
    }

    fn process(&mut self, msg: AclMessage) -> (r: Result<ProcessResult, ProtocolError>)
        ensures
            old(self).wf() ==> final(self).wf(),
            match contract_net_next(old(self)@.state, msg.performative) {
                Some(n) => r matches Ok(pr)
                    && (exists|now: i64| final(self)@ == #[trigger] contract_net_after(old(self)@, msg@, n, now))
                    && contract_net_report(n, final(self)@.result, pr),
                None => r matches Err(e)
                    && is_invalid_transition(e, contract_net_state_name(old(self)@.state), performative_name(msg.performative))
                    && final(self)@ == old(self)@,
            },
            old(self)@.state == ContractNetState::InExecution && msg.performative == Performative::Failure ==> {
                &&& final(self)@.state == ContractNetState::Failed
                &&& r matches Ok(ProcessResult::Failed(m)) && m@ == "Contract net failed"@
            },
    {
        let now = wall_clock_millis();
        let ghost m = msg@;
        let r = self.process_at(msg, now);
        proof {
            if contract_net_next(old(self)@.state, m.performative) is Some {
                let n = contract_net_next(old(self)@.state, m.performative).unwrap();
                assert(final(self)@ == contract_net_after(old(self)@, m, n, now));
            }
        }
        r
    }

    fn is_complete(&self) -> (r: bool)
        ensures
            r == contract_net_complete(self@.state),
    {
        self.state == ContractNetState::Completed || self.state == ContractNetState::Failed
            || self.state == ContractNetState::Rejected
    }

    fn is_failed(&self) -> (r: bool)
        ensures
            r == contract_net_failed(self@.state),
    {
        self.state == ContractNetState::Failed || self.state == ContractNetState::Rejected
    }

    fn expected_performatives(&self) -> (r: Vec<Performative>)
        ensures
            r@ == contract_net_expected(self@.state),
    {
        let r = match self.state {
            ContractNetState::NotStarted => vec![Performative::Cfp],
            ContractNetState::CfpSent => vec![Performative::Propose, Performative::Refuse],
            ContractNetState::ProposalsReceived => vec![
                Performative::Propose,
                Performative::Refuse,
                Performative::AcceptProposal,
                Performative::RejectProposal,
            ],
            ContractNetState::InExecution => vec![
                Performative::InformDone,
                Performative::InformResult,
                Performative::Failure,
            ],
            _ => Vec::new(),
        };
        assert(r@ =~= contract_net_expected(self@.state));
        r
    }

    fn serialize_state(&self) -> (r: Result<Vec<u8>, ProtocolError>)
        ensures
            r matches Ok(b) && b@ == vstd::utf8::encode_utf8(contract_net_state_name(self@.state)),
    {
        Ok(str_bytes(self.state.as_str()))
    }

    fn message_history(&self) -> (r: &[AclMessage])
        ensures
            messages_view(r@) == self@.history,
    {
        self.base.messages.as_slice()
    }
}

} // verus!
