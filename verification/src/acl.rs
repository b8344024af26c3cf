//! FIPA-ACL messages: agent identifiers, performatives, interaction-protocol
//! tags and the message envelope that protocols and content handling act on.
use vstd::prelude::*;
use crate::strmap::StrMap;
use crate::text::{copy_strings, owned};

verus! {

/// An agent identifier: a name, transport addresses and name resolvers.
#[derive(Debug)]
pub struct AgentId {
    pub name: String,
    pub addresses: Vec<String>,
    pub resolvers: Vec<String>,
}

/// An agent identifier as plain values.
pub struct AgentIdView {
    pub name: Seq<char>,
    pub addresses: Seq<String>,
    pub resolvers: Seq<String>,
}

impl View for AgentId {
    type V = AgentIdView;

    open spec fn view(&self) -> AgentIdView {
        AgentIdView { name: self.name@, addresses: self.addresses@, resolvers: self.resolvers@ }
    }
}

impl AgentId {
    /// An identifier with this name and no addresses or resolvers.
    pub fn named(name: &str) -> (a: Self)
        ensures
            a@.name == name@,
            a@.addresses.len() == 0,
            a@.resolvers.len() == 0,
    {
        AgentId { name: owned(name), addresses: Vec::new(), resolvers: Vec::new() }
    }

    /// An identifier equal to this one.
    pub fn duplicate(&self) -> (a: Self)
        ensures
            a@ == self@,
    {
        AgentId {
            name: self.name.clone(),
            addresses: copy_strings(&self.addresses),
            resolvers: copy_strings(&self.resolvers),
        }
    }
}

/// Copies of the identifiers in `v`, in order.
pub fn copy_agents(v: &Vec<AgentId>) -> (r: Vec<AgentId>)
    ensures
        r@.len() == v@.len(),
        forall|i: int| 0 <= i < v@.len() ==> (#[trigger] r@[i])@ == v@[i]@,
{
    let mut r: Vec<AgentId> = Vec::new();
    let mut i: usize = 0;
    while i < v.len()
        invariant
            i <= v@.len(),
            r@.len() == i,
            forall|j: int| 0 <= j < i ==> (#[trigger] r@[j])@ == v@[j]@,
        decreases v@.len() - i,
    {
        r.push(v[i].duplicate());
        i = i + 1;
    }
    r
}

/// The FIPA communicative acts, with the platform's `InformDone` and
/// `InformResult` refinements of `Inform`.
#[derive(Clone, Copy, Debug, PartialEq, Eq, Structural)]
pub enum Performative {
    Unspecified,
    AcceptProposal,
    Agree,
    Cancel,
    Cfp,
    Confirm,
    Disconfirm,
    Failure,
    Inform,
    InformIf,
    InformRef,
    NotUnderstood,
    Propagate,
    Propose,
    Proxy,
    QueryIf,
    QueryRef,
    Refuse,
    RejectProposal,
    Request,
    RequestWhen,
    RequestWhenever,
    Subscribe,
    InformDone,
    InformResult,
}

/// The name of a performative, as its variant is written.
pub open spec fn performative_name(p: Performative) -> Seq<char> {
    match p {
        Performative::Unspecified => "Unspecified"@,
        Performative::AcceptProposal => "AcceptProposal"@,
        Performative::Agree => "Agree"@,
        Performative::Cancel => "Cancel"@,
        Performative::Cfp => "Cfp"@,
        Performative::Confirm => "Confirm"@,
        Performative::Disconfirm => "Disconfirm"@,
        Performative::Failure => "Failure"@,
        Performative::Inform => "Inform"@,
        Performative::InformIf => "InformIf"@,
        Performative::InformRef => "InformRef"@,
        Performative::NotUnderstood => "NotUnderstood"@,
        Performative::Propagate => "Propagate"@,
        Performative::Propose => "Propose"@,
        Performative::Proxy => "Proxy"@,
        Performative::QueryIf => "QueryIf"@,
        Performative::QueryRef => "QueryRef"@,
        Performative::Refuse => "Refuse"@,
        Performative::RejectProposal => "RejectProposal"@,
        Performative::Request => "Request"@,
        Performative::RequestWhen => "RequestWhen"@,
        Performative::RequestWhenever => "RequestWhenever"@,
        Performative::Subscribe => "Subscribe"@,
        Performative::InformDone => "InformDone"@,
        Performative::InformResult => "InformResult"@,
    }
}

impl Performative {
    /// The variant's name, as `{:?}` writes it.
    pub fn name(&self) -> (r: &'static str)
        ensures
            r@ == performative_name(*self),
    {
        match self {
            Performative::Unspecified => "Unspecified",
            Performative::AcceptProposal => "AcceptProposal",
            Performative::Agree => "Agree",
            Performative::Cancel => "Cancel",
            Performative::Cfp => "Cfp",
            Performative::Confirm => "Confirm",
            Performative::Disconfirm => "Disconfirm",
            Performative::Failure => "Failure",
            Performative::Inform => "Inform",
            Performative::InformIf => "InformIf",
            Performative::InformRef => "InformRef",
            Performative::NotUnderstood => "NotUnderstood",
            Performative::Propagate => "Propagate",
            Performative::Propose => "Propose",
            Performative::Proxy => "Proxy",
            Performative::QueryIf => "QueryIf",
            Performative::QueryRef => "QueryRef",
            Performative::Refuse => "Refuse",
            Performative::RejectProposal => "RejectProposal",
            Performative::Request => "Request",
            Performative::RequestWhen => "RequestWhen",
            Performative::RequestWhenever => "RequestWhenever",
            Performative::Subscribe => "Subscribe",
            Performative::InformDone => "InformDone",
            Performative::InformResult => "InformResult",
        }
    }
}

/// Interaction protocols a conversation can follow.
#[derive(Clone, Copy, Debug, PartialEq, Eq, Structural)]
pub enum ProtocolType {
    ProtocolUnspecified,
    ProtocolRequest,
    ProtocolQuery,
    ProtocolContractNet,
    ProtocolSubscribe,
    ProtocolPropose,
    ProtocolBrokering,
}

/// The name of a protocol tag, as its variant is written.
pub open spec fn protocol_type_name(p: ProtocolType) -> Seq<char> {
    match p {
        ProtocolType::ProtocolUnspecified => "ProtocolUnspecified"@,
        ProtocolType::ProtocolRequest => "ProtocolRequest"@,
        ProtocolType::ProtocolQuery => "ProtocolQuery"@,
        ProtocolType::ProtocolContractNet => "ProtocolContractNet"@,
        ProtocolType::ProtocolSubscribe => "ProtocolSubscribe"@,
        ProtocolType::ProtocolPropose => "ProtocolPropose"@,
        ProtocolType::ProtocolBrokering => "ProtocolBrokering"@,
    }
}

impl ProtocolType {
    /// The variant's name, as `{:?}` writes it.
    pub fn name(&self) -> (r: &'static str)
        ensures
            r@ == protocol_type_name(*self),
    {
        match self {
            ProtocolType::ProtocolUnspecified => "ProtocolUnspecified",
            ProtocolType::ProtocolRequest => "ProtocolRequest",
            ProtocolType::ProtocolQuery => "ProtocolQuery",
            ProtocolType::ProtocolContractNet => "ProtocolContractNet",
            ProtocolType::ProtocolSubscribe => "ProtocolSubscribe",
            ProtocolType::ProtocolPropose => "ProtocolPropose",
            ProtocolType::ProtocolBrokering => "ProtocolBrokering",
        }
    }
}

/// The views of a list of identifiers.
pub open spec fn agents_view(v: Seq<AgentId>) -> Seq<AgentIdView> {
    v.map_values(|a: AgentId| a@)
}

/// The shape of a UUID in hyphenated text form: 36 characters, with hyphens
/// at positions 8, 13, 18 and 23.
pub open spec fn uuid_text_shape(s: Seq<char>) -> bool {
    &&& s.len() == 36
    &&& s[8] == '-'
    &&& s[13] == '-'
    &&& s[18] == '-'
    &&& s[23] == '-'
}

/// Calls `uuid::Uuid::new_v4()` and renders it with `to_string()`, which
/// writes the hyphenated form (36 characters, hyphens at positions 8, 13, 18
/// and 23). The identifier is random: nothing is claimed of its digits.
#[verifier::external_body]
pub(crate) fn uuid_v4_text() -> (s: String)
    ensures
        uuid_text_shape(s@),
{
    uuid::Uuid::new_v4().to_string()
}

/// An ACL message envelope.
#[derive(Debug)]
pub struct AclMessage {
    pub message_id: String,
    pub performative: Performative,
    pub sender: Option<AgentId>,
    pub receivers: Vec<AgentId>,
    pub reply_to: Option<AgentId>,
    pub protocol: Option<ProtocolType>,
    pub conversation_id: Option<String>,
    pub in_reply_to: Option<String>,
    pub reply_with: Option<String>,
    pub reply_by: Option<i64>,
    pub language: Option<String>,
    pub encoding: Option<String>,
    pub ontology: Option<String>,
    pub content: Vec<u8>,
    pub user_properties: StrMap,
}

/// An ACL message as plain values.
pub struct AclView {
    pub message_id: Seq<char>,
    pub performative: Performative,
    pub sender: Option<AgentIdView>,
    pub receivers: Seq<AgentIdView>,
    pub reply_to: Option<AgentIdView>,
    pub protocol: Option<ProtocolType>,
    pub conversation_id: Option<Seq<char>>,
    pub in_reply_to: Option<Seq<char>>,
    pub reply_with: Option<Seq<char>>,
    pub reply_by: Option<i64>,
    pub language: Option<Seq<char>>,
    pub encoding: Option<Seq<char>>,
    pub ontology: Option<Seq<char>>,
    pub content: Seq<u8>,
    pub user_properties: Map<Seq<char>, Seq<char>>,
}

impl View for AclMessage {
    type V = AclView;

    open spec fn view(&self) -> AclView {
        AclView {
            message_id: self.message_id@,
            performative: self.performative,
            sender: agent_opt(self.sender),
            receivers: agents_view(self.receivers@),
            reply_to: agent_opt(self.reply_to),
            protocol: self.protocol,
            conversation_id: text_opt(self.conversation_id),
            in_reply_to: text_opt(self.in_reply_to),
            reply_with: text_opt(self.reply_with),
            reply_by: self.reply_by,
            language: text_opt(self.language),
            encoding: text_opt(self.encoding),
            ontology: text_opt(self.ontology),
            content: self.content@,
            user_properties: self.user_properties@,
        }
    }
}

impl AclMessage {
    /// A message equal to this one.
    pub fn duplicate(&self) -> (m: Self)
        ensures
            m@ == self@,
    {
        let receivers = copy_agents(&self.receivers);
        proof {
            assert(agents_view(receivers@) =~= agents_view(self.receivers@));
        }
        AclMessage {
            message_id: self.message_id.clone(),
            performative: self.performative,
            sender: copy_agent_opt(&self.sender),
            receivers,
            reply_to: copy_agent_opt(&self.reply_to),
            protocol: self.protocol,
            conversation_id: copy_text_opt(&self.conversation_id),
            in_reply_to: copy_text_opt(&self.in_reply_to),
            reply_with: copy_text_opt(&self.reply_with),
            reply_by: self.reply_by,
            language: copy_text_opt(&self.language),
            encoding: copy_text_opt(&self.encoding),
            ontology: copy_text_opt(&self.ontology),
            content: vstd::slice::slice_to_vec(self.content.as_slice()),
            user_properties: self.user_properties.clone(),
        }
    }
}

/// The views of a list of messages.
pub open spec fn messages_view(v: Seq<AclMessage>) -> Seq<AclView> {
    v.map_values(|m: AclMessage| m@)
}

/// The view of an optional identifier.
pub open spec fn agent_opt(a: Option<AgentId>) -> Option<AgentIdView> {
    match a {
        Some(x) => Some(x@),
        None => None,
    }
}

/// The view of an optional text.
pub open spec fn text_opt(s: Option<String>) -> Option<Seq<char>> {
    match s {
        Some(x) => Some(x@),
        None => None,
    }
}

/// A copy of an optional identifier.
pub fn copy_agent_opt(a: &Option<AgentId>) -> (r: Option<AgentId>)
    ensures
        agent_opt(r) == agent_opt(*a),
{
    match a {
        Some(x) => Some(x.duplicate()),
        None => None,
    }
}

/// A copy of an optional text.
pub fn copy_text_opt(s: &Option<String>) -> (r: Option<String>)
    ensures
        text_opt(r) == text_opt(*s),
{
    match s {
        Some(x) => Some(x.clone()),
        None => None,
    }
}

} // verus!
