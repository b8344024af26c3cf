//! Agent identity: a FIPA AID whose name is a UUID, the agent's type, a
//! display-only friendly name, and uuid ⇄ friendly-name aliases.
//!
//! A UUID is held as its 128-bit value (big-endian, as `Uuid::as_u128` gives
//! it). Ephemeral agents mint a fresh instance UUID at spawn; persistent ones
//! reload theirs, which happens at the edge.
use vstd::prelude::*;
use crate::fmt::hex_fixed;
use crate::strmap::StrMap;
use crate::text::push_char;

verus! {

/// Calls `uuid::Uuid::new_v4()` and takes `as_u128()`: a random version-4
/// UUID. Nothing is claimed of the value.
#[verifier::external_body]
fn uuid_v4_value() -> (v: u128) {
    uuid::Uuid::new_v4().as_u128()
}

/// Calls `uuid::Uuid::from_u128(v).simple().to_string()`. The simple form is
/// the 16 big-endian bytes as 32 lowercase hex digits, which is `v` in hex,
/// zero-padded to 32 digits.
#[verifier::external_body]
fn uuid_simple_text(v: u128) -> (s: String)
    ensures
        s@ == hex_fixed(v as nat, 32),
{
    uuid::Uuid::from_u128(v).simple().to_string()
}

/// The kind of an agent: a stable UUID and a description.
#[derive(Debug, PartialEq, Eq)]
pub struct AgentType {
    pub id: u128,
    pub desc: String,
}

/// The bundle `HEAD` type header, with an optional friendly name.
#[derive(Debug)]
pub struct Header {
    pub type_id: u128,
    pub desc: String,
    pub name: Option<String>,
}

/// A running agent's identity.
#[derive(Debug)]
pub struct AgentId {
    /// The AID name: this running instance.
    pub instance: u128,
    pub agent_type: AgentType,
    /// Display-only friendly name.
    pub name: Option<String>,
}

proof fn lemma_hex_fixed_len(n: nat, width: nat)
    ensures
        hex_fixed(n, width).len() == width,
    decreases width,
{
    if width > 0 {
        lemma_hex_fixed_len(n / 16, (width - 1) as nat);
    }
}

/// The canonical id text of an instance: 32 lowercase hex digits.
pub open spec fn id_text(instance: u128) -> Seq<char> {
    hex_fixed(instance as nat, 32)
}

/// The log label of an identity: its friendly name, else the first 8 digits
/// of its id.
pub open spec fn label_text(a: AgentId) -> Seq<char> {
    match a.name {
        Some(n) => n@,
        None => id_text(a.instance).take(8),
    }
}

impl AgentId {
    /// The identity of instance `instance` of the header's type.
    pub fn with_instance(instance: u128, header: &Header) -> (a: Self)
        ensures
            a.instance == instance,
            a.agent_type.id == header.type_id,
            a.agent_type.desc@ == header.desc@,
            a.name == header.name,
    {
        AgentId {
            instance,
            agent_type: AgentType { id: header.type_id, desc: header.desc.clone() },
            name: match &header.name {
                Some(n) => Some(n.clone()),
                None => None,
            },
        }
    }

    /// A fresh instance of the header's type, under a new random UUID.
    pub fn spawn(header: &Header) -> (a: Self)
        ensures
            a.agent_type.id == header.type_id,
            a.agent_type.desc@ == header.desc@,
            a.name == header.name,
    {
        Self::with_instance(uuid_v4_value(), header)
    }

    /// The id text: the instance UUID as 32 lowercase hex digits.
    pub fn id(&self) -> (s: String)
        ensures
            s@ == id_text(self.instance),
    {
        uuid_simple_text(self.instance)
    }

    /// The label for logs: the friendly name, else the first 8 digits of the
    /// id.
    pub fn label(&self) -> (s: String)
        ensures
            s@ == label_text(*self),
    {
        match &self.name {
            Some(n) => n.clone(),
            None => {
                let id = self.id();
                proof {
                    lemma_hex_fixed_len(self.instance as nat, 32);
                }
                let mut s = String::new();
                let mut i: usize = 0;
                while i < 8
                    invariant
                        id@.len() == 32,
                        i <= 8,
                        s@ == id@.take(i as int),
                    decreases 8 - i,
                {
                    push_char(&mut s, id.as_str().get_char(i));
                    assert(id@.take(i + 1) =~= id@.take(i as int).push(id@[i as int]));
                    i = i + 1;
                }
                s
            },
        }
    }
}

/// Aliases as plain values: name to id, and id to name.
pub struct AliasesView {
    pub by_name: Map<Seq<char>, Seq<char>>,
    pub by_id: Map<Seq<char>, Seq<char>>,
}

/// The aliases after binding `name` and `id` to each other.
pub open spec fn aliases_bind(a: AliasesView, name: Seq<char>, id: Seq<char>) -> AliasesView {
    AliasesView { by_name: a.by_name.insert(name, id), by_id: a.by_id.insert(id, name) }
}

/// uuid ⇄ friendly-name aliases, for display only.
#[derive(Debug)]
pub struct Aliases {
    by_name: StrMap,
    by_id: StrMap,
}

impl View for Aliases {
    type V = AliasesView;

    closed spec fn view(&self) -> AliasesView {
        AliasesView { by_name: self.by_name@, by_id: self.by_id@ }
    }
}

impl Aliases {
    /// No aliases.
    pub fn new() -> (a: Self)
        ensures
            a@.by_name == Map::<Seq<char>, Seq<char>>::empty(),
            a@.by_id == Map::<Seq<char>, Seq<char>>::empty(),
    {
        Aliases { by_name: StrMap::new(), by_id: StrMap::new() }
    }

    /// Bind a friendly name and an id to each other.
    pub fn bind(&mut self, name: &str, id: &str)
        ensures
            final(self)@ == aliases_bind(old(self)@, name@, id@),
    {
        self.by_name.insert(name, id);
        self.by_id.insert(id, name);
    }

    /// The id bound to a friendly name.
    pub fn id_of(&self, name: &str) -> (r: Option<&str>)
        ensures
            self@.by_name.contains_key(name@) ==> (r matches Some(v) && v@ == self@.by_name[name@]),
            !self@.by_name.contains_key(name@) ==> r is None,
    {
        match self.by_name.get(name) {
            Some(v) => Some(v.as_str()),
            None => None,
        }
    }

    /// The friendly name bound to an id.
    pub fn name_of(&self, id: &str) -> (r: Option<&str>)
        ensures
            self@.by_id.contains_key(id@) ==> (r matches Some(v) && v@ == self@.by_id[id@]),
            !self@.by_id.contains_key(id@) ==> r is None,
    {
        match self.by_id.get(id) {
            Some(v) => Some(v.as_str()),
            None => None,
        }
    }

    /// An id for humans: its friendly name if known, else the id itself.
    pub fn label<'a>(&'a self, id: &'a str) -> (r: &'a str)
        ensures
            r@ == if self@.by_id.contains_key(id@) { self@.by_id[id@] } else { id@ },
    {
        match self.name_of(id) {
            Some(n) => n,
            None => id,
        }
    }
}

/// After binding a name and an id, each looks up the other, and the id's
/// label is the name.
pub proof fn law_bind_then_lookup(a: AliasesView, name: Seq<char>, id: Seq<char>)
    ensures
        aliases_bind(a, name, id).by_name.contains_key(name),
        aliases_bind(a, name, id).by_name[name] == id,
        aliases_bind(a, name, id).by_id.contains_key(id),
        aliases_bind(a, name, id).by_id[id] == name,
{
}

} // verus!
