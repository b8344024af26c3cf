//! Agent migration payloads: a state snapshot signed by the origin node, and
//! the key handoff that authorizes the destination node for the agent at a
//! new epoch. Encoding them for the wire happens at the edge.
use vstd::prelude::*;
use vstd::utf8::encode_utf8;
use crate::crypto::{code_hash, ed25519_accepts, ed25519_public, ed25519_signature, hex_text, sha256_digest, verify, NodeCrypto};
use crate::adapters::{is_reserved_sender, reserved_senders};
use crate::guard::bytes_eq;
use crate::manifest::{first_ungranted, fits, granted_caps, over_budget_field, FitError, Grant, Manifest, NodeProfile};
use crate::text::{owned, str_bytes, str_eq};
use crate::wire::{be64, put_be64, put_bytes};

verus! {

/// A signed, state-based migration payload for one wasm agent.
#[derive(Debug)]
pub struct AgentSnapshot {
    /// The migrating agent's instance UUID.
    pub uuid: String,
    /// The new location epoch.
    pub epoch: u64,
    /// The agent's wasm module; empty when the destination fetches it by hash.
    pub code: Vec<u8>,
    /// SHA-256 hex of the module; always present and signed.
    pub code_hash: String,
    /// The agent's serialized state.
    pub state: Vec<u8>,
    /// Anti-replay nonce.
    pub nonce: Vec<u8>,
    /// The origin node's public key.
    pub origin_pub: Vec<u8>,
    /// The origin node's signature over everything above but the module.
    pub sig: Vec<u8>,
}

/// The bytes a snapshot's signature covers: the UUID, a zero byte, the epoch
/// (64-bit big-endian), the code hash, the state, the nonce and the origin
/// key. The module itself is covered through its hash.
pub open spec fn snapshot_signing_bytes(
    uuid: Seq<char>,
    epoch: u64,
    code_hash: Seq<char>,
    state: Seq<u8>,
    nonce: Seq<u8>,
    origin_pub: Seq<u8>,
) -> Seq<u8> {
    encode_utf8(uuid) + seq![0u8] + be64(epoch) + encode_utf8(code_hash) + state + nonce + origin_pub
}

/// Whether a snapshot verifies: a 64-byte signature and a 32-byte key, any
/// inlined module matching its hash, and the signature accepted.
pub open spec fn snapshot_verifies(s: AgentSnapshot) -> bool {
    &&& s.sig@.len() == 64
    &&& s.origin_pub@.len() == 32
    &&& (s.code@.len() != 0 ==> hex_text(sha256_digest(s.code@)) == s.code_hash@)
    &&& ed25519_accepts(
        s.origin_pub@,
        snapshot_signing_bytes(s.uuid@, s.epoch, s.code_hash@, s.state@, s.nonce@, s.origin_pub@),
        s.sig@,
    )
}

impl AgentSnapshot {
    /// A snapshot signed by the origin node `key`, with a fresh nonce.
    pub fn sealed(uuid: &str, epoch: u64, code: Vec<u8>, state: Vec<u8>, key: &NodeCrypto) -> (s: Self)
        ensures
            s.uuid@ == uuid@,
            s.epoch == epoch,
            s.code@ == code@,
            s.code_hash@ == hex_text(sha256_digest(code@)),
            s.state@ == state@,
            s.nonce@.len() == 16,
            s.origin_pub@ == ed25519_public(key@),
            s.sig@ == ed25519_signature(
                key@,
                snapshot_signing_bytes(s.uuid@, epoch, s.code_hash@, state@, s.nonce@, s.origin_pub@),
            ),
            snapshot_verifies(s),
    {
        let hash = code_hash(code.as_slice());
        let nonce = key.nonce();
        let origin = key.public_key();
        let mut s = AgentSnapshot {
            uuid: owned(uuid),
            epoch,
            code,
            code_hash: hash,
            state,
            nonce: vstd::slice::slice_to_vec(nonce.as_slice()),
            origin_pub: vstd::slice::slice_to_vec(origin.as_slice()),
            sig: Vec::new(),
        };
        let sb = s.signing_bytes();
        let sig = key.sign(sb.as_slice());
        s.sig = vstd::slice::slice_to_vec(sig.as_slice());
        s
    }

    /// The bytes the signature covers.
    pub fn signing_bytes(&self) -> (b: Vec<u8>)
        ensures
            b@ == snapshot_signing_bytes(self.uuid@, self.epoch, self.code_hash@, self.state@, self.nonce@, self.origin_pub@),
    {
        let mut b: Vec<u8> = Vec::new();
        put_bytes(&mut b, str_bytes(self.uuid.as_str()).as_slice());
        b.push(0u8);
        put_be64(&mut b, self.epoch);
        put_bytes(&mut b, str_bytes(self.code_hash.as_str()).as_slice());
        put_bytes(&mut b, self.state.as_slice());
        put_bytes(&mut b, self.nonce.as_slice());
        put_bytes(&mut b, self.origin_pub.as_slice());
        assert(b@ =~= snapshot_signing_bytes(self.uuid@, self.epoch, self.code_hash@, self.state@, self.nonce@, self.origin_pub@));
        b
    }

    /// Verify the origin signature, and that an inlined module matches its
    /// content address.
    pub fn verify(&self) -> (ok: bool)
        ensures
            ok == snapshot_verifies(*self),
    {
        if self.sig.len() != 64 || self.origin_pub.len() != 32 {
            return false;
        }
        if self.code.len() != 0 {
            let h = code_hash(self.code.as_slice());
            if !str_eq(h.as_str(), self.code_hash.as_str()) {
                return false;
            }
        }
        let pk: [u8; 32] = copy_32(self.origin_pub.as_slice());
        let sg: [u8; 64] = copy_64(self.sig.as_slice());
        verify(&pk, self.signing_bytes().as_slice(), &sg)
    }
}

/// The first 32 bytes as an array.
pub(crate) fn copy_32(b: &[u8]) -> (a: [u8; 32])
    requires
        b@.len() == 32,
    ensures
        a@ == b@,
{
    let mut a = [0u8; 32];
    let mut i: usize = 0;
    while i < 32
        invariant
            i <= 32,
            b@.len() == 32,
            a@.len() == 32,
            forall|j: int| 0 <= j < i ==> a@[j] == b@[j],
        decreases 32 - i,
    {
        a.set(i, b[i]);
        i = i + 1;
    }
    assert(a@ =~= b@);
    a
}

/// The first 64 bytes as an array.
pub(crate) fn copy_64(b: &[u8]) -> (a: [u8; 64])
    requires
        b@.len() == 64,
    ensures
        a@ == b@,
{
    let mut a = [0u8; 64];
    let mut i: usize = 0;
    while i < 64
        invariant
            i <= 64,
            b@.len() == 64,
            a@.len() == 64,
            forall|j: int| 0 <= j < i ==> a@[j] == b@[j],
        decreases 64 - i,
    {
        a.set(i, b[i]);
        i = i + 1;
    }
    assert(a@ =~= b@);
    a
}

/// A key handoff: the origin node authorizes a destination node key for an
/// agent at a new epoch.
#[derive(Debug)]
pub struct Handoff {
    pub agent: String,
    /// The currently authorized node key.
    pub from_pub: Vec<u8>,
    /// The destination node key being authorized.
    pub to_pub: Vec<u8>,
    pub epoch: u64,
    /// Signature by `from_pub` over the fields above.
    pub sig: Vec<u8>,
}

/// The bytes a handoff's signature covers: the agent, a zero byte, both keys
/// and the epoch (64-bit big-endian).
pub open spec fn handoff_signing_bytes(agent: Seq<char>, from_pub: Seq<u8>, to_pub: Seq<u8>, epoch: u64) -> Seq<u8> {
    encode_utf8(agent) + seq![0u8] + from_pub + to_pub + be64(epoch)
}

/// Whether a handoff verifies: a 64-byte signature and a 32-byte key, and the
/// signature accepted under `from_pub`.
pub open spec fn handoff_verifies(h: Handoff) -> bool {
    &&& h.sig@.len() == 64
    &&& h.from_pub@.len() == 32
    &&& ed25519_accepts(h.from_pub@, handoff_signing_bytes(h.agent@, h.from_pub@, h.to_pub@, h.epoch), h.sig@)
}

impl Handoff {
    /// A handoff signed by the origin node's key.
    pub fn sealed(agent: &str, to_pub: Vec<u8>, epoch: u64, from_key: &NodeCrypto) -> (h: Self)
        ensures
            h.agent@ == agent@,
            h.from_pub@ == ed25519_public(from_key@),
            h.to_pub@ == to_pub@,
            h.epoch == epoch,
            h.sig@ == ed25519_signature(from_key@, handoff_signing_bytes(agent@, h.from_pub@, to_pub@, epoch)),
            handoff_verifies(h),
    {
        let from_pub = from_key.public_key();
        let mut h = Handoff {
            agent: owned(agent),
            from_pub: vstd::slice::slice_to_vec(from_pub.as_slice()),
            to_pub,
            epoch,
            sig: Vec::new(),
        };
        let sb = h.signing_bytes();
        let sig = from_key.sign(sb.as_slice());
        h.sig = vstd::slice::slice_to_vec(sig.as_slice());
        h
    }

    /// The bytes the signature covers.
    pub fn signing_bytes(&self) -> (b: Vec<u8>)
        ensures
            b@ == handoff_signing_bytes(self.agent@, self.from_pub@, self.to_pub@, self.epoch),
    {
        let mut b: Vec<u8> = Vec::new();
        put_bytes(&mut b, str_bytes(self.agent.as_str()).as_slice());
        b.push(0u8);
        put_bytes(&mut b, self.from_pub.as_slice());
        put_bytes(&mut b, self.to_pub.as_slice());
        put_be64(&mut b, self.epoch);
        assert(b@ =~= handoff_signing_bytes(self.agent@, self.from_pub@, self.to_pub@, self.epoch));
        b
    }

    /// Verify that the handoff is signed by `from_pub`.
    pub fn verify(&self) -> (ok: bool)
        ensures
            ok == handoff_verifies(*self),
    {
        if self.sig.len() != 64 || self.from_pub.len() != 32 {
            return false;
        }
        let pk: [u8; 32] = copy_32(self.from_pub.as_slice());
        let sg: [u8; 64] = copy_64(self.sig.as_slice());
        verify(&pk, self.signing_bytes().as_slice(), &sg)
    }
}

/// The full move payload: a snapshot, the key handoff, and the origin node's
/// address for fetching a module the snapshot left out.
#[derive(Debug)]
pub struct MigratePayload {
    pub snapshot: AgentSnapshot,
    pub handoff: Handoff,
    pub from_addr: String,
}

/// Why a node refuses a migrated agent.
#[derive(Debug)]
pub enum MigrateRefusal {
    /// The snapshot's or the handoff's signature does not verify.
    BadSignature,
    /// The handoff is not to this node, or does not match the snapshot.
    NotForMe,
    /// The agent id is a reserved system id.
    Reserved,
    /// An agent born here has that id.
    Collision,
    /// The snapshot is not signed by the key trusted for the agent.
    BadOrigin,
    /// The epoch does not advance past the last one seen for the agent.
    Replay,
    /// The carried manifest is missing or unreadable.
    BadManifest,
    /// The manifest does not fit this node's profile.
    Unfit(FitError),
}

/// Whether a handoff goes with a snapshot and to the key `me`.
pub open spec fn handoff_matches(snap: AgentSnapshot, ho: Handoff, me: Seq<u8>) -> bool {
    &&& ho.to_pub@ == me
    &&& ho.agent@ == snap.uuid@
    &&& ho.epoch == snap.epoch
    &&& ho.from_pub@ == snap.origin_pub@
}

/// Whether a migrated agent passes every check before the manifest fit: both
/// signatures, the handoff for this node, no reserved id, no collision with a
/// local agent, the trusted origin key, and an advancing epoch.
pub open spec fn migration_checks(
    snap: AgentSnapshot,
    ho: Handoff,
    me: Seq<u8>,
    collides: bool,
    known_key: Option<Seq<u8>>,
    last_epoch: Option<u64>,
) -> bool {
    &&& snapshot_verifies(snap) && handoff_verifies(ho)
    &&& handoff_matches(snap, ho, me)
    &&& !reserved_senders().contains(snap.uuid@)
    &&& !collides
    &&& (known_key matches Some(k) ==> k == snap.origin_pub@)
    &&& (last_epoch matches Some(e) ==> snap.epoch > e)
}

/// Decide whether this node (key `me`) takes a migrated agent, and with what
/// authority. `collides` says an agent born here has the id; `known_key` is
/// the node key trusted for the agent, `last_epoch` the last epoch seen for
/// it, and `manifest` the carried manifest when it could be read. The checks
/// run in order; the first that fails is the refusal.
pub fn check_migration(
    snap: &AgentSnapshot,
    ho: &Handoff,
    me: &[u8; 32],
    collides: bool,
    known_key: Option<[u8; 32]>,
    last_epoch: Option<u64>,
    profile: &NodeProfile,
    manifest: Option<&Manifest>,
) -> (r: Result<Grant, MigrateRefusal>)
    ensures
        !(snapshot_verifies(*snap) && handoff_verifies(*ho)) ==> r matches Err(MigrateRefusal::BadSignature),
        snapshot_verifies(*snap) && handoff_verifies(*ho) && !handoff_matches(*snap, *ho, me@)
            ==> r matches Err(MigrateRefusal::NotForMe),
        snapshot_verifies(*snap) && handoff_verifies(*ho) && handoff_matches(*snap, *ho, me@)
            && reserved_senders().contains(snap.uuid@) ==> r matches Err(MigrateRefusal::Reserved),
        snapshot_verifies(*snap) && handoff_verifies(*ho) && handoff_matches(*snap, *ho, me@)
            && !reserved_senders().contains(snap.uuid@) && collides ==> r matches Err(MigrateRefusal::Collision),
        snapshot_verifies(*snap) && handoff_verifies(*ho) && handoff_matches(*snap, *ho, me@)
            && !reserved_senders().contains(snap.uuid@) && !collides
            && (known_key matches Some(k) && k@ != snap.origin_pub@) ==> r matches Err(MigrateRefusal::BadOrigin),
        snapshot_verifies(*snap) && handoff_verifies(*ho) && handoff_matches(*snap, *ho, me@)
            && !reserved_senders().contains(snap.uuid@) && !collides
            && (known_key matches Some(k) ==> k@ == snap.origin_pub@)
            && (last_epoch matches Some(e) && snap.epoch <= e) ==> r matches Err(MigrateRefusal::Replay),
        migration_checks(*snap, *ho, me@, collides, match known_key { Some(k) => Some(k@), None => None }, last_epoch)
            && manifest is None ==> r matches Err(MigrateRefusal::BadManifest),
        migration_checks(*snap, *ho, me@, collides, match known_key { Some(k) => Some(k@), None => None }, last_epoch)
            ==> match manifest {
                Some(m) => !fits(*profile, *m) ==> (r matches Err(MigrateRefusal::Unfit(e))
                    && (first_ungranted(m.grants@, profile.caps@) matches Some(i)
                        ==> e == FitError::Ungranted(m.grants@[i]))
                    && (first_ungranted(m.grants@, profile.caps@) is None
                        ==> (over_budget_field(m.budget, profile.ceiling) matches Some(f)
                            && e matches FitError::OverBudget(name) && name@ == f))),
                None => true,
            },
        (r is Ok) <==> (migration_checks(*snap, *ho, me@, collides, match known_key { Some(k) => Some(k@), None => None }, last_epoch)
            && (manifest matches Some(m) && fits(*profile, *m))),
        r matches Ok(g) ==> (manifest matches Some(m) && g.caps@.to_set() == granted_caps(*m)
            && g.caps@.no_duplicates() && g.budget == m.budget),
{
    if !snap.verify() || !ho.verify() {
        return Err(MigrateRefusal::BadSignature);
    }
    if !bytes_eq(ho.to_pub.as_slice(), me.as_slice()) || !str_eq(ho.agent.as_str(), snap.uuid.as_str())
        || ho.epoch != snap.epoch || !bytes_eq(ho.from_pub.as_slice(), snap.origin_pub.as_slice())
    {
        return Err(MigrateRefusal::NotForMe);
    }
    if is_reserved_sender(snap.uuid.as_str()) {
        return Err(MigrateRefusal::Reserved);
    }
    if collides {
        return Err(MigrateRefusal::Collision);
    }
    if let Some(k) = known_key {
        if !bytes_eq(k.as_slice(), snap.origin_pub.as_slice()) {
            return Err(MigrateRefusal::BadOrigin);
        }
    }
    if let Some(e) = last_epoch {
        if snap.epoch <= e {
            return Err(MigrateRefusal::Replay);
        }
    }
    let m = match manifest {
        Some(m) => m,
        None => return Err(MigrateRefusal::BadManifest),
    };
    match profile.fit(m) {
        Ok(g) => Ok(g),
        Err(e) => Err(MigrateRefusal::Unfit(e)),
    }
}

} // verus!
