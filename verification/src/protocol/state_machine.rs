//! What every protocol state machine shares: errors, processing results,
//! roles, the conversation record, and reply construction.
use vstd::prelude::*;
use crate::acl::{
    agent_opt, agents_view, copy_text_opt, performative_name, protocol_type_name,
    text_opt, uuid_v4_text, AclMessage, AgentId, AgentIdView, Performative, ProtocolType,
};
use crate::clock::wall_clock_millis;
use crate::strmap::StrMap;
use crate::text::{concat, owned};

verus! {

/// Why a protocol refused or failed a message.
#[derive(Debug)]
pub enum ProtocolError {
    InvalidTransition { from: String, to: String },
    ValidationFailed(String),
    NotSupported(ProtocolType),
    MissingConversationId,
    UnknownConversation(String),
    Timeout,
    Cancelled,
    SerializationError(String),
}

/// The human-readable text of an error.
pub open spec fn protocol_error_text(e: ProtocolError) -> Seq<char> {
    match e {
        ProtocolError::InvalidTransition { from, to } =>
            "Invalid state transition from "@ + from@ + " to "@ + to@,
        ProtocolError::ValidationFailed(m) => "Message validation failed: "@ + m@,
        ProtocolError::NotSupported(p) => "Protocol not supported: "@ + protocol_type_name(p),
        ProtocolError::MissingConversationId => "Missing conversation ID"@,
        ProtocolError::UnknownConversation(c) => "Unknown conversation: "@ + c@,
        ProtocolError::Timeout => "Timeout waiting for response"@,
        ProtocolError::Cancelled => "Protocol cancelled"@,
        ProtocolError::SerializationError(m) => "Serialization error: "@ + m@,
    }
}

impl ProtocolError {
    /// The error as text.
    pub fn message(&self) -> (r: String)
        ensures
            r@ == protocol_error_text(*self),
    {
        match self {
            ProtocolError::InvalidTransition { from, to } => {
                let a = concat("Invalid state transition from ", from.as_str());
                let b = concat(a.as_str(), " to ");
                concat(b.as_str(), to.as_str())
            },
            ProtocolError::ValidationFailed(m) => concat("Message validation failed: ", m.as_str()),
            ProtocolError::NotSupported(p) => concat("Protocol not supported: ", p.name()),
            ProtocolError::MissingConversationId => owned("Missing conversation ID"),
            ProtocolError::UnknownConversation(c) => concat("Unknown conversation: ", c.as_str()),
            ProtocolError::Timeout => owned("Timeout waiting for response"),
            ProtocolError::Cancelled => owned("Protocol cancelled"),
            ProtocolError::SerializationError(m) => concat("Serialization error: ", m.as_str()),
        }
    }
}

/// The error for a performative that the current state does not accept.
pub open spec fn is_invalid_transition(e: ProtocolError, from: Seq<char>, to: Seq<char>) -> bool {
    e matches ProtocolError::InvalidTransition { from: f, to: t } && f@ == from && t@ == to
}

/// An invalid-transition error from a state name to a performative's name.
pub fn invalid_transition(from: &str, performative: Performative) -> (e: ProtocolError)
    ensures
        is_invalid_transition(e, from@, performative_name(performative)),
{
    ProtocolError::InvalidTransition { from: owned(from), to: owned(performative.name()) }
}

/// Data returned when a protocol completes.
#[derive(Debug)]
pub struct CompletionData {
    /// The outcome, if any.
    pub result: Option<Vec<u8>>,
    /// Metadata about the completion.
    pub metadata: StrMap,
}

impl Default for CompletionData {
    fn default() -> (d: Self)
        ensures
            d.result is None,
            d.metadata@ == Map::<Seq<char>, Seq<char>>::empty(),
    {
        CompletionData { result: None, metadata: StrMap::new() }
    }
}

/// What processing a message led to.
#[derive(Debug)]
pub enum ProcessResult {
    /// Wait for more messages.
    Continue,
    /// Send this reply.
    Respond(AclMessage),
    /// The protocol completed.
    Complete(CompletionData),
    /// The protocol failed.
    Failed(String),
}

/// A protocol state machine: state transitions checked against incoming
/// messages.
pub trait ProtocolStateMachine {
    /// The protocol this machine runs.
    fn protocol_type(&self) -> ProtocolType;

    /// The current state's name.
    fn state_name(&self) -> &str;

    /// Whether the current state accepts this message.
    fn validate(&self, msg: &AclMessage) -> Result<(), ProtocolError>;

    /// Take a message and move to the next state.
    fn process(&mut self, msg: AclMessage) -> Result<ProcessResult, ProtocolError>;

    /// Whether the protocol is in a terminal state.
    fn is_complete(&self) -> bool;

    /// Whether the protocol ended in failure.
    fn is_failed(&self) -> bool;

    /// The performatives the current state accepts.
    fn expected_performatives(&self) -> Vec<Performative>;

    /// The state, as bytes, for migration.
    fn serialize_state(&self) -> Result<Vec<u8>, ProtocolError>;

    /// The messages processed so far.
    fn message_history(&self) -> &[AclMessage];
}

/// A party's role in a conversation.
#[derive(Clone, Copy, Debug, PartialEq, Eq, Structural)]
pub enum Role {
    /// Started the protocol.
    Initiator,
    /// Answers the initiator.
    Participant,
    /// Mediates between parties.
    Broker,
}

/// Whether some identifier in `ps` has this name.
pub open spec fn has_participant_named(ps: Seq<AgentIdView>, name: Seq<char>) -> bool {
    exists|i: int| 0 <= i < ps.len() && (#[trigger] ps[i]).name == name
}

/// No two identifiers in `ps` share a name.
pub open spec fn names_distinct(ps: Seq<AgentIdView>) -> bool {
    forall|i: int, j: int| 0 <= i < ps.len() && 0 <= j < ps.len() && i != j
        ==> (#[trigger] ps[i]).name != (#[trigger] ps[j]).name
}

/// The record of a conversation.
#[derive(Debug)]
pub struct ConversationBase {
    pub conversation_id: String,
    pub role: Role,
    pub participants: Vec<AgentId>,
    pub messages: Vec<AclMessage>,
    /// Start time, in milliseconds since the epoch.
    pub start_time: i64,
    /// Deadline for completion, in milliseconds since the epoch.
    pub deadline: Option<i64>,
}

impl ConversationBase {
    /// A new conversation started now.
    pub fn new(conversation_id: String, role: Role) -> (b: Self)
        ensures
            b.conversation_id@ == conversation_id@,
            b.role == role,
            b.participants@.len() == 0,
            b.messages@.len() == 0,
            b.deadline is None,
    {
        Self::started(conversation_id, role, wall_clock_millis())
    }

    /// A new conversation started at `start_time`.
    pub fn started(conversation_id: String, role: Role, start_time: i64) -> (b: Self)
        ensures
            b.conversation_id@ == conversation_id@,
            b.role == role,
            b.participants@.len() == 0,
            b.messages@.len() == 0,
            b.start_time == start_time,
            b.deadline is None,
    {
        ConversationBase {
            conversation_id,
            role,
            participants: Vec::new(),
            messages: Vec::new(),
            start_time,
            deadline: None,
        }
    }

    /// Add a participant, unless one with the same name is already there.
    pub fn add_participant(&mut self, agent: AgentId)
        ensures
            has_participant_named(agents_view(old(self).participants@), agent@.name)
                ==> agents_view(final(self).participants@) == agents_view(old(self).participants@),
            !has_participant_named(agents_view(old(self).participants@), agent@.name)
                ==> agents_view(final(self).participants@) == agents_view(old(self).participants@).push(agent@),
            names_distinct(agents_view(old(self).participants@))
                ==> names_distinct(agents_view(final(self).participants@)),
            final(self).messages@ == old(self).messages@,
            final(self).conversation_id == old(self).conversation_id,
            final(self).role == old(self).role,
            final(self).start_time == old(self).start_time,
            final(self).deadline == old(self).deadline,
    {
        let ghost before = agents_view(self.participants@);
        let mut i: usize = 0;
        while i < self.participants.len()
            invariant
                i <= self.participants@.len(),
                before == agents_view(self.participants@),
                forall|j: int| 0 <= j < i ==> (#[trigger] before[j]).name != agent@.name,
            decreases self.participants@.len() - i,
        {
            if self.participants[i].name == agent.name {
                assert(before[i as int].name == agent@.name);
                return;
            }
            i = i + 1;
        }
        self.participants.push(agent);
        proof {
            let after = agents_view(self.participants@);
            assert(after =~= before.push(agent@));
            assert forall|a: int, b: int|
                0 <= a < after.len() && 0 <= b < after.len() && a != b && names_distinct(before)
                implies (#[trigger] after[a]).name != (#[trigger] after[b]).name by {
                if a < before.len() && b < before.len() {
                    assert(before[a] == after[a]);
                    assert(before[b] == after[b]);
                }
            }
        }
    }

    /// Append a message to the history.
    pub fn record_message(&mut self, msg: AclMessage)
        ensures
            final(self).messages@ == old(self).messages@.push(msg),
            final(self).participants@ == old(self).participants@,
            final(self).conversation_id == old(self).conversation_id,
            final(self).role == old(self).role,
            final(self).start_time == old(self).start_time,
            final(self).deadline == old(self).deadline,
    {
        self.messages.push(msg);
    }

    /// Whether the deadline has passed by now.
    pub fn is_expired(&self) -> (r: bool)
        ensures
            self.deadline is None ==> !r,
    {
        self.is_expired_at(wall_clock_millis())
    }

    /// Whether the deadline has passed at time `now`.
    pub fn is_expired_at(&self, now: i64) -> (r: bool)
        ensures
            r == (match self.deadline {
                Some(d) => now > d,
                None => false,
            }),
    {
        match self.deadline {
            Some(d) => now > d,
            None => false,
        }
    }
}

/// The sender a reply carries: the first receiver of the original.
pub open spec fn reply_sender(original: AclMessage) -> Option<AgentIdView> {
    if original.receivers@.len() > 0 {
        Some(original.receivers@[0]@)
    } else {
        None
    }
}

/// The receivers a reply goes to: the original's sender, if any.
pub open spec fn reply_receivers(original: AclMessage) -> Seq<AgentIdView> {
    match original.sender {
        Some(s) => seq![s@],
        None => Seq::empty(),
    }
}

/// A reply to `original` with this performative and content: back to the
/// original's sender, from its first receiver, in the same conversation.
pub fn create_response(original: &AclMessage, performative: Performative, content: Vec<u8>) -> (r: AclMessage)
    ensures
        r.performative == performative,
        agent_opt(r.sender) == reply_sender(*original),
        agents_view(r.receivers@) == reply_receivers(*original),
        r.reply_to is None,
        r.protocol == original.protocol,
        text_opt(r.conversation_id) == text_opt(original.conversation_id),
        text_opt(r.in_reply_to) == Some(original.message_id@),
        r.reply_with is None,
        r.reply_by is None,
        text_opt(r.language) == text_opt(original.language),
        text_opt(r.encoding) == text_opt(original.encoding),
        text_opt(r.ontology) == text_opt(original.ontology),
        r.content@ == content@,
        r.user_properties@ == Map::<Seq<char>, Seq<char>>::empty(),
{
    let sender = if original.receivers.len() > 0 {
        Some(original.receivers[0].duplicate())
    } else {
        None
    };
    let mut receivers: Vec<AgentId> = Vec::new();
    match &original.sender {
        Some(s) => {
            receivers.push(s.duplicate());
        },
        None => {},
    }
    proof {
        assert(agents_view(receivers@) =~= reply_receivers(*original));
    }
    AclMessage {
        message_id: uuid_v4_text(),
        performative,
        sender,
        receivers,
        reply_to: None,
        protocol: original.protocol,
        conversation_id: copy_text_opt(&original.conversation_id),
        in_reply_to: Some(original.message_id.clone()),
        reply_with: None,
        reply_by: None,
        language: copy_text_opt(&original.language),
        encoding: copy_text_opt(&original.encoding),
        ontology: copy_text_opt(&original.ontology),
        content,
        user_properties: StrMap::new(),
    }
}

} // verus!
