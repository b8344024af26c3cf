//! Snapshot records for persistence: snapshot ids and metadata (with an
//! integrity checksum), agent, conversation, message, service and platform
//! snapshots.
use vstd::prelude::*;
use std::collections::hash_map::DefaultHasher;
use std::hash::Hasher;
use vstd::std_specs::hash::DefaultHasherAdditionalSpecFns;
use crate::clock::unix_time_secs;
use crate::fmt::{decimal, hex_fixed, hex_fixed_string, lemma_parse_decimal, parse_u64, parse_u64_spec, pow16, push_decimal};
use crate::strmap::StrMap;
use crate::text::{find_char, owned, str_eq};

verus! {

/// Snapshot errors.
#[derive(Clone, Debug)]
pub enum SnapshotError {
    SerializationFailed(String),
    DeserializationFailed(String),
    Corrupted(String),
    NotFound(String),
    VersionMismatch { expected: u32, actual: u32 },
}

/// Current snapshot format version.
pub const SNAPSHOT_VERSION: u32 = 1;

/// Calls `rand::random::<u32>()`; nothing is claimed of the value.
#[verifier::external_body]
fn random_u32() -> (r: u32) {
    rand::random::<u32>()
}

/// Unique snapshot identifier.
#[derive(Clone, Debug, PartialEq, Eq)]
pub struct SnapshotId {
    /// Sequential id.
    pub id: u64,
    /// Creation time (seconds since the epoch).
    pub timestamp: u64,
    /// Unique suffix for disambiguation.
    pub suffix: String,
}

/// 16 to the 8th.
proof fn lemma_pow16_8()
    ensures
        pow16(8) == 4294967296,
        pow16(16) == 18446744073709551616,
{
    reveal_with_fuel(pow16, 17);
}

/// Index of the first `c` in `s`, if any.
pub open spec fn first_index(s: Seq<char>, c: char) -> Option<int> {
    if exists|i: int| 0 <= i < s.len() && s[i] == c {
        Some(choose|i: int| 0 <= i < s.len() && s[i] == c && forall|j: int| 0 <= j < i ==> s[j] != c)
    } else {
        None
    }
}

proof fn lemma_first_index(s: Seq<char>, c: char, p: int)
    requires
        0 <= p < s.len(),
        s[p] == c,
        forall|j: int| 0 <= j < p ==> s[j] != c,
    ensures
        first_index(s, c) == Some(p),
{
    let k = choose|i: int| 0 <= i < s.len() && s[i] == c && forall|j: int| 0 <= j < i ==> s[j] != c;
    assert(0 <= p < s.len() && s[p] == c && forall|j: int| 0 <= j < p ==> s[j] != c);
    if k < p {
        assert(s[k] != c);
    } else if k > p {
        assert(s[p] != c);
    }
}

/// The text of a snapshot file name: decimal timestamp, `_`, suffix.
pub open spec fn filename_spec(timestamp: u64, suffix: Seq<char>) -> Seq<char> {
    decimal(timestamp as nat) + "_"@ + suffix
}

/// What a file name parses to: the timestamp before the first `_` and the
/// text after it up to the next `_`.
pub open spec fn from_filename_spec(s: Seq<char>) -> Option<(u64, Seq<char>)> {
    match first_index(s, '_') {
        None => None,
        Some(p) => {
            let rest = s.skip(p + 1);
            let seg = match first_index(rest, '_') {
                Some(q) => rest.take(q),
                None => rest,
            };
            match parse_u64_spec(s.take(p)) {
                Some(t) => Some((t, seg)),
                None => None,
            }
        },
    }
}

/// A file name made from an id parses back to its timestamp and suffix,
/// for every suffix without an underscore.
pub proof fn law_filename_roundtrip(timestamp: u64, suffix: Seq<char>)
    requires
        forall|i: int| 0 <= i < suffix.len() ==> suffix[i] != '_',
    ensures
        from_filename_spec(filename_spec(timestamp, suffix)) == Some((timestamp, suffix)),
{
    let d = decimal(timestamp as nat);
    let s = filename_spec(timestamp, suffix);
    lemma_parse_decimal(timestamp);
    reveal_strlit("_");
    assert(s[d.len() as int] == '_');
    assert forall|j: int| 0 <= j < d.len() implies s[j] != '_' by {
        assert(s[j] == d[j]);
    }
    lemma_first_index(s, '_', d.len() as int);
    assert(s.take(d.len() as int) =~= d);
    assert(s.skip(d.len() + 1int) =~= suffix);
    if exists|i: int| 0 <= i < suffix.len() && suffix[i] == '_' {
        let i = choose|i: int| 0 <= i < suffix.len() && suffix[i] == '_';
        assert(suffix[i] != '_');
    }
}

impl SnapshotId {
    /// A new id: this sequence number, the current time, a random suffix.
    pub fn new(sequence: u64) -> (s: Self)
        ensures
            s.id == sequence,
            exists|r: u32| s.suffix@ == hex_fixed(r as nat, 8),
    {
        Self::from_parts(sequence, unix_time_secs(), random_u32())
    }

    /// An id from a sequence number, a time and a random number (rendered as
    /// eight lowercase hex digits).
    pub fn from_parts(sequence: u64, timestamp: u64, random: u32) -> (s: Self)
        ensures
            s.id == sequence,
            s.timestamp == timestamp,
            s.suffix@ == hex_fixed(random as nat, 8),
    {
        proof {
            lemma_pow16_8();
        }
        SnapshotId { id: sequence, timestamp, suffix: hex_fixed_string(random as u64, 8) }
    }

    /// An equal copy of this id.
    pub fn duplicate(&self) -> (s: Self)
        ensures
            s == *self,
    {
        SnapshotId { id: self.id, timestamp: self.timestamp, suffix: self.suffix.clone() }
    }

    /// A disabled/placeholder id.
    pub fn disabled() -> (s: Self)
        ensures
            s.id == 0 && s.timestamp == 0 && s.suffix@ == "disabled"@,
    {
        SnapshotId { id: 0, timestamp: 0, suffix: owned("disabled") }
    }

    /// Whether this is a disabled id.
    pub fn is_disabled(&self) -> (r: bool)
        ensures
            r == (self.suffix@ == "disabled"@),
    {
        str_eq(self.suffix.as_str(), "disabled")
    }

    /// A filename-safe text: `<timestamp>_<suffix>`.
    pub fn to_filename(&self) -> (r: String)
        ensures
            r@ == filename_spec(self.timestamp, self.suffix@),
    {
        let mut r = String::new();
        push_decimal(&mut r, self.timestamp);
        r.append("_");
        r.append(self.suffix.as_str());
        r
    }

    /// Parse a file name made by [`SnapshotId::to_filename`]; the sequence
    /// number is not part of it and comes back as `0`.
    pub fn from_filename(filename: &str) -> (r: Option<Self>)
        ensures
            match from_filename_spec(filename@) {
                Some((t, seg)) => r matches Some(id) && id.id == 0 && id.timestamp == t && id.suffix@ == seg,
                None => r is None,
            },
    {
        let p = match find_char(filename, '_') {
            Some(p) => p,
            None => {
                proof {
                    if exists|i: int| 0 <= i < filename@.len() && filename@[i] == '_' {
                        let i = choose|i: int| 0 <= i < filename@.len() && filename@[i] == '_';
                        assert(filename@[i] != '_');
                    }
                }
                return None;
            },
        };
        proof {
            lemma_first_index(filename@, '_', p as int);
        }
        let n = filename.unicode_len();
        let head = filename.substring_char(0, p);
        let rest = filename.substring_char(p + 1, n);
        assert(head@ =~= filename@.take(p as int));
        assert(rest@ =~= filename@.skip(p + 1));
        let seg = match find_char(rest, '_') {
            Some(q) => {
                proof {
                    lemma_first_index(rest@, '_', q as int);
                }
                let s = rest.substring_char(0, q);
                assert(s@ =~= rest@.take(q as int));
                s
            },
            None => {
                proof {
                    if exists|i: int| 0 <= i < rest@.len() && rest@[i] == '_' {
                        let i = choose|i: int| 0 <= i < rest@.len() && rest@[i] == '_';
                        assert(rest@[i] != '_');
                    }
                }
                rest
            },
        };
        match parse_u64(head) {
            Some(timestamp) => Some(SnapshotId { id: 0, timestamp, suffix: owned(seg) }),
            None => None,
        }
    }

    /// The display text: `snap-<id>-<suffix>`.
    pub fn display_text(&self) -> (r: String)
        ensures
            r@ == "snap-"@ + decimal(self.id as nat) + "-"@ + self.suffix@,
    {
        let mut r = owned("snap-");
        push_decimal(&mut r, self.id);
        r.append("-");
        r.append(self.suffix.as_str());
        r
    }
}

/// The bytes of `n`, least significant first.
pub open spec fn le64(n: u64) -> Seq<u8> {
    seq![(n % 256) as u8, ((n / 256) % 256) as u8, ((n / 65536) % 256) as u8, ((n / 16777216) % 256) as u8,
        ((n / 4294967296) % 256) as u8, ((n / 1099511627776) % 256) as u8, ((n / 281474976710656) % 256) as u8,
        ((n / 72057594037927936) % 256) as u8]
}

/// The default hasher's digest of a byte slice: its length written first,
/// then the bytes. A slice's length goes in as a `usize` in native byte
/// order, so this (8 bytes, least significant first) is the digest on the
/// 64-bit little-endian targets the node runs on; on other targets the
/// checksums differ.
pub open spec fn data_hash(data: Seq<u8>) -> u64 {
    DefaultHasher::spec_finish(seq![le64(data.len() as u64), data])
}

/// The checksum text of some data: its digest as 16 lowercase hex digits.
pub open spec fn checksum_text(data: Seq<u8>) -> Seq<char> {
    hex_fixed(data_hash(data) as nat, 16)
}

fn digest(data: &[u8]) -> (h: u64)
    ensures
        h == data_hash(data@),
{
    let n = data.len() as u64;
    let mut prefix: Vec<u8> = Vec::new();
    prefix.push((n % 256) as u8);
    prefix.push(((n / 256) % 256) as u8);
    prefix.push(((n / 65536) % 256) as u8);
    prefix.push(((n / 16777216) % 256) as u8);
    prefix.push(((n / 4294967296) % 256) as u8);
    prefix.push(((n / 1099511627776) % 256) as u8);
    prefix.push(((n / 281474976710656) % 256) as u8);
    prefix.push(((n / 72057594037927936) % 256) as u8);
    assert(prefix@ =~= le64(n));
    let mut hasher = DefaultHasher::new();
    hasher.write(prefix.as_slice());
    hasher.write(data);
    assert(hasher@ =~= seq![le64(data@.len() as u64), data@]);
    hasher.finish()
}

/// Snapshot metadata.
#[derive(Clone, Debug)]
pub struct SnapshotMetadata {
    /// Snapshot format version.
    pub version: u32,
    /// Creation time (seconds since the epoch).
    pub created_at: u64,
    /// Agent name, if any.
    pub agent_name: Option<String>,
    /// Snapshot id.
    pub snapshot_id: SnapshotId,
    /// Size in bytes of the serialized data.
    pub size_bytes: u64,
    /// Whether the snapshot is compressed.
    pub compressed: bool,
    /// Checksum for integrity verification.
    pub checksum: Option<String>,
    /// Additional metadata.
    pub extra: StrMap,
}

impl SnapshotMetadata {
    /// Metadata for the current time.
    pub fn now() -> (m: Self)
        ensures
            m.version == SNAPSHOT_VERSION && m.agent_name is None && m.size_bytes == 0 && !m.compressed
                && m.checksum is None && m.extra@ == Map::<Seq<char>, Seq<char>>::empty()
                && m.snapshot_id.id == 0 && m.snapshot_id.timestamp == 0 && m.snapshot_id.suffix@ == "disabled"@,
    {
        Self::created(unix_time_secs())
    }

    /// Metadata created at `created_at` (seconds since the epoch).
    pub fn created(created_at: u64) -> (m: Self)
        ensures
            m.version == SNAPSHOT_VERSION && m.created_at == created_at && m.agent_name is None
                && m.size_bytes == 0 && !m.compressed && m.checksum is None
                && m.extra@ == Map::<Seq<char>, Seq<char>>::empty()
                && m.snapshot_id.id == 0 && m.snapshot_id.timestamp == 0 && m.snapshot_id.suffix@ == "disabled"@,
    {
        SnapshotMetadata {
            version: SNAPSHOT_VERSION,
            created_at,
            agent_name: None,
            snapshot_id: SnapshotId::disabled(),
            size_bytes: 0,
            compressed: false,
            checksum: None,
            extra: StrMap::new(),
        }
    }

    /// Set the agent name.
    pub fn with_agent(self, name: &str) -> (m: Self)
        ensures
            m.agent_name matches Some(a) && a@ == name@,
            m == (SnapshotMetadata { agent_name: m.agent_name, ..self }),
    {
        let mut m = self;
        m.agent_name = Some(owned(name));
        m
    }

    /// Set the snapshot id.
    pub fn with_id(self, id: SnapshotId) -> (m: Self)
        ensures
            m == (SnapshotMetadata { snapshot_id: id, ..self }),
    {
        let mut m = self;
        m.snapshot_id = id;
        m
    }

    /// Add extra metadata.
    pub fn with_extra(self, key: &str, value: &str) -> (m: Self)
        ensures
            m.extra@ == self.extra@.insert(key@, value@),
            m == (SnapshotMetadata { extra: m.extra, ..self }),
    {
        let mut m = self;
        m.extra.insert(key, value);
        m
    }

    /// Compute and set the checksum of `data`.
    pub fn with_checksum(self, data: &[u8]) -> (m: Self)
        ensures
            m.checksum matches Some(c) && c@ == checksum_text(data@),
            m == (SnapshotMetadata { checksum: m.checksum, ..self }),
            checksum_verifies(m, data@),
    {
        proof {
            lemma_pow16_8();
        }
        let mut m = self;
        m.checksum = Some(hex_fixed_string(digest(data), 16));
        m
    }

    /// Whether `data` matches the checksum (`true` when there is none).
    pub fn verify_checksum(&self, data: &[u8]) -> (r: bool)
        ensures
            r == checksum_verifies(*self, data@),
    {
        match &self.checksum {
            Some(expected) => {
                proof {
                    lemma_pow16_8();
                }
                let actual = hex_fixed_string(digest(data), 16);
                str_eq(actual.as_str(), expected.as_str())
            },
            None => true,
        }
    }
}

/// Whether metadata's checksum (if it has one) is that of `data`.
pub open spec fn checksum_verifies(m: SnapshotMetadata, data: Seq<u8>) -> bool {
    match m.checksum {
        Some(c) => c@ == checksum_text(data),
        None => true,
    }
}

/// Conversation state snapshot.
#[derive(Clone, Debug)]
pub struct ConversationSnapshot {
    pub conversation_id: String,
    pub protocol: String,
    pub state: String,
    pub role: String,
    pub participants: Vec<String>,
    pub message_ids: Vec<String>,
    pub state_data: Vec<u8>,
    pub started_at: u64,
    pub last_activity: u64,
}

impl ConversationSnapshot {
    /// A conversation snapshot started now.
    pub fn new(conversation_id: &str, protocol: &str) -> (c: Self)
        ensures
            c.conversation_id@ == conversation_id@ && c.protocol@ == protocol@,
            c.state@ == "unknown"@ && c.role@ == "unknown"@,
            c.participants@.len() == 0 && c.message_ids@.len() == 0 && c.state_data@.len() == 0,
            c.started_at == c.last_activity,
    {
        Self::started(conversation_id, protocol, unix_time_secs())
    }

    /// A conversation snapshot started at `now`.
    pub fn started(conversation_id: &str, protocol: &str, now: u64) -> (c: Self)
        ensures
            c.conversation_id@ == conversation_id@ && c.protocol@ == protocol@,
            c.state@ == "unknown"@ && c.role@ == "unknown"@,
            c.participants@.len() == 0 && c.message_ids@.len() == 0 && c.state_data@.len() == 0,
            c.started_at == now && c.last_activity == now,
    {
        ConversationSnapshot {
            conversation_id: owned(conversation_id),
            protocol: owned(protocol),
            state: owned("unknown"),
            role: owned("unknown"),
            participants: Vec::new(),
            message_ids: Vec::new(),
            state_data: Vec::new(),
            started_at: now,
            last_activity: now,
        }
    }

    /// Set the current state.
    pub fn with_state(self, state: &str) -> (c: Self)
        ensures
            c.state@ == state@,
            c == (ConversationSnapshot { state: c.state, ..self }),
    {
        let mut c = self;
        c.state = owned(state);
        c
    }

    /// Set the role.
    pub fn with_role(self, role: &str) -> (c: Self)
        ensures
            c.role@ == role@,
            c == (ConversationSnapshot { role: c.role, ..self }),
    {
        let mut c = self;
        c.role = owned(role);
        c
    }

    /// Add a participant.
    pub fn with_participant(self, participant: &str) -> (c: Self)
        ensures
            c.participants@.len() == self.participants@.len() + 1,
            c.participants@.drop_last() == self.participants@,
            c.participants@.last()@ == participant@,
            c == (ConversationSnapshot { participants: c.participants, ..self }),
    {
        let mut c = self;
        c.participants.push(owned(participant));
        assert(c.participants@.drop_last() =~= self.participants@);
        c
    }
}

/// Message snapshot (for pending messages).
#[derive(Clone, Debug)]
pub struct MessageSnapshot {
    pub message_id: String,
    pub sender: String,
    pub receiver: String,
    pub performative: String,
    pub content: Vec<u8>,
    pub conversation_id: Option<String>,
    pub timestamp: u64,
}

impl MessageSnapshot {
    /// A message snapshot taken now.
    pub fn new(message_id: &str, sender: &str, receiver: &str) -> (m: Self)
        ensures
            m.message_id@ == message_id@ && m.sender@ == sender@ && m.receiver@ == receiver@,
            m.performative@ == "unknown"@ && m.content@.len() == 0 && m.conversation_id is None,
    {
        Self::taken(message_id, sender, receiver, unix_time_secs())
    }

    /// A message snapshot taken at `now`.
    pub fn taken(message_id: &str, sender: &str, receiver: &str, now: u64) -> (m: Self)
        ensures
            m.message_id@ == message_id@ && m.sender@ == sender@ && m.receiver@ == receiver@,
            m.performative@ == "unknown"@ && m.content@.len() == 0 && m.conversation_id is None,
            m.timestamp == now,
    {
        MessageSnapshot {
            message_id: owned(message_id),
            sender: owned(sender),
            receiver: owned(receiver),
            performative: owned("unknown"),
            content: Vec::new(),
            conversation_id: None,
            timestamp: now,
        }
    }
}

/// Agent state snapshot.
#[derive(Clone, Debug)]
pub struct AgentSnapshot {
    pub id: SnapshotId,
    pub agent_name: String,
    pub metadata: SnapshotMetadata,
    pub wasm_state: Vec<u8>,
    pub conversations: Vec<ConversationSnapshot>,
    pub pending_messages: Vec<MessageSnapshot>,
}

impl AgentSnapshot {
    /// A snapshot of an agent's state, taken now.
    pub fn new(agent_name: &str, wasm_state: Vec<u8>) -> (s: Self)
        ensures
            s.agent_name@ == agent_name@ && s.wasm_state == wasm_state,
            s.id.id == 0 && s.metadata.snapshot_id == s.id,
            s.metadata.agent_name matches Some(a) && a@ == agent_name@,
            s.conversations@.len() == 0 && s.pending_messages@.len() == 0,
    {
        let id = SnapshotId::new(0);
        let metadata = SnapshotMetadata::now().with_agent(agent_name).with_id(id.duplicate());
        AgentSnapshot { id, agent_name: owned(agent_name), metadata, wasm_state, conversations: Vec::new(), pending_messages: Vec::new() }
    }

    /// Add a conversation.
    pub fn with_conversation(self, conversation: ConversationSnapshot) -> (s: Self)
        ensures
            s.conversations@ == self.conversations@.push(conversation),
            s == (AgentSnapshot { conversations: s.conversations, ..self }),
    {
        let mut s = self;
        s.conversations.push(conversation);
        s
    }

    /// Add a pending message.
    pub fn with_pending_message(self, message: MessageSnapshot) -> (s: Self)
        ensures
            s.pending_messages@ == self.pending_messages@.push(message),
            s == (AgentSnapshot { pending_messages: s.pending_messages, ..self }),
    {
        let mut s = self;
        s.pending_messages.push(message);
        s
    }
}

/// Service registration snapshot.
#[derive(Clone, Debug)]
pub struct ServiceSnapshot {
    pub name: String,
    pub service_type: Option<String>,
    pub provider: String,
    pub protocols: Vec<String>,
    pub ontologies: Vec<String>,
    pub properties: StrMap,
    pub registered_at: u64,
}

impl ServiceSnapshot {
    /// A service registered now.
    pub fn new(name: &str, provider: &str) -> (s: Self)
        ensures
            s.name@ == name@ && s.provider@ == provider@ && s.service_type is None,
            s.protocols@.len() == 0 && s.ontologies@.len() == 0,
            s.properties@ == Map::<Seq<char>, Seq<char>>::empty(),
    {
        Self::registered(name, provider, unix_time_secs())
    }

    /// A service registered at `now`.
    pub fn registered(name: &str, provider: &str, now: u64) -> (s: Self)
        ensures
            s.name@ == name@ && s.provider@ == provider@ && s.service_type is None,
            s.protocols@.len() == 0 && s.ontologies@.len() == 0,
            s.properties@ == Map::<Seq<char>, Seq<char>>::empty(),
            s.registered_at == now,
    {
        ServiceSnapshot {
            name: owned(name),
            service_type: None,
            provider: owned(provider),
            protocols: Vec::new(),
            ontologies: Vec::new(),
            properties: StrMap::new(),
            registered_at: now,
        }
    }

    /// Set the service type.
    pub fn with_type(self, service_type: &str) -> (s: Self)
        ensures
            s.service_type matches Some(t) && t@ == service_type@,
            s == (ServiceSnapshot { service_type: s.service_type, ..self }),
    {
        let mut s = self;
        s.service_type = Some(owned(service_type));
        s
    }

    /// Add a protocol.
    pub fn with_protocol(self, protocol: &str) -> (s: Self)
        ensures
            s.protocols@.len() == self.protocols@.len() + 1,
            s.protocols@.drop_last() == self.protocols@,
            s.protocols@.last()@ == protocol@,
            s == (ServiceSnapshot { protocols: s.protocols, ..self }),
    {
        let mut s = self;
        s.protocols.push(owned(protocol));
        assert(s.protocols@.drop_last() =~= self.protocols@);
        s
    }
}

/// Cluster configuration snapshot.
#[derive(Clone, Debug)]
pub struct ClusterConfig {
    pub cluster_name: String,
    pub peers: Vec<String>,
    pub leader_id: Option<String>,
    pub term: u64,
}

/// Platform-wide snapshot.
#[derive(Clone, Debug)]
pub struct PlatformSnapshot {
    pub version: u32,
    pub platform_name: String,
    pub created_at: u64,
    pub node_id: Option<String>,
    pub cluster_config: Option<ClusterConfig>,
    pub agent_names: Vec<String>,
    pub config: StrMap,
}

impl PlatformSnapshot {
    /// A platform snapshot created now.
    pub fn new(platform_name: &str) -> (s: Self)
        ensures
            s.version == SNAPSHOT_VERSION && s.platform_name@ == platform_name@,
            s.node_id is None && s.cluster_config is None && s.agent_names@.len() == 0,
            s.config@ == Map::<Seq<char>, Seq<char>>::empty(),
    {
        Self::created(platform_name, unix_time_secs())
    }

    /// A platform snapshot created at `now`.
    pub fn created(platform_name: &str, now: u64) -> (s: Self)
        ensures
            s.version == SNAPSHOT_VERSION && s.platform_name@ == platform_name@,
            s.node_id is None && s.cluster_config is None && s.agent_names@.len() == 0,
            s.config@ == Map::<Seq<char>, Seq<char>>::empty(),
            s.created_at == now,
    {
        PlatformSnapshot {
            version: SNAPSHOT_VERSION,
            platform_name: owned(platform_name),
            created_at: now,
            node_id: None,
            cluster_config: None,
            agent_names: Vec::new(),
            config: StrMap::new(),
        }
    }

    /// Set the node id.
    pub fn with_node_id(self, node_id: &str) -> (s: Self)
        ensures
            s.node_id matches Some(n) && n@ == node_id@,
            s == (PlatformSnapshot { node_id: s.node_id, ..self }),
    {
        let mut s = self;
        s.node_id = Some(owned(node_id));
        s
    }

    /// Add an agent name.
    pub fn with_agent(self, agent_name: &str) -> (s: Self)
        ensures
            s.agent_names@.len() == self.agent_names@.len() + 1,
            s.agent_names@.drop_last() == self.agent_names@,
            s.agent_names@.last()@ == agent_name@,
            s == (PlatformSnapshot { agent_names: s.agent_names, ..self }),
    {
        let mut s = self;
        s.agent_names.push(owned(agent_name));
        assert(s.agent_names@.drop_last() =~= self.agent_names@);
        s
    }

    /// Set a configuration value.
    pub fn with_config(self, key: &str, value: &str) -> (s: Self)
        ensures
            s.config@ == self.config@.insert(key@, value@),
            s == (PlatformSnapshot { config: s.config, ..self }),
    {
        let mut s = self;
        s.config.insert(key, value);
        s
    }
}

} // verus!
