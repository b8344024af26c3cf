//! The node signing oracle: an Ed25519 identity whose secret never leaves
//! this type, detached signature verification, and content hashing.
//!
//! The key is held as its 32-byte secret seed. Reading it from and writing it
//! to disk happens at the edge.
use vstd::prelude::*;
use crate::adapters::Crypto;
use crate::fmt::hex_fixed;
use crate::wire::put_bytes;

verus! {

/// The Ed25519 public key of a 32-byte secret seed.
pub uninterp spec fn ed25519_public(seed: Seq<u8>) -> Seq<u8>;

/// The Ed25519 signature of `msg` under a 32-byte secret seed (Ed25519
/// signing is deterministic).
pub uninterp spec fn ed25519_signature(seed: Seq<u8>, msg: Seq<u8>) -> Seq<u8>;

/// Whether Ed25519 strict verification accepts `sig` on `msg` under the
/// 32-byte public key `pk`.
pub uninterp spec fn ed25519_accepts(pk: Seq<u8>, msg: Seq<u8>, sig: Seq<u8>) -> bool;

/// The SHA-256 digest of `data`.
pub uninterp spec fn sha256_digest(data: Seq<u8>) -> Seq<u8>;

/// Calls `rand::rng().fill_bytes` on 32 bytes: fresh OS-seeded randomness.
/// Nothing is claimed of the bytes.
#[verifier::external_body]
fn random_bytes_32() -> (b: [u8; 32]) {
    let mut seed = [0u8; 32];
    rand::RngCore::fill_bytes(&mut rand::rng(), &mut seed);
    seed
}

/// Calls `rand::rng().fill_bytes` on 16 bytes. Nothing is claimed of them.
#[verifier::external_body]
fn random_bytes_16() -> (b: [u8; 16]) {
    let mut n = [0u8; 16];
    rand::RngCore::fill_bytes(&mut rand::rng(), &mut n);
    n
}

/// Calls `SigningKey::from_bytes(seed).verifying_key().to_bytes()`: the
/// public key of the seed, a function of the seed alone.
#[verifier::external_body]
fn public_of_seed(seed: &[u8; 32]) -> (pk: [u8; 32])
    ensures
        pk@ == ed25519_public(seed@),
{
    ed25519_dalek::SigningKey::from_bytes(seed).verifying_key().to_bytes()
}

/// Calls `Signer::sign` on `SigningKey::from_bytes(seed)` and takes
/// `to_bytes()`: the deterministic Ed25519 signature of `msg`, which (as
/// ed25519-dalek documents for a signature made with a key) verifies under
/// that key's public key.
#[verifier::external_body]
fn sign_with_seed(seed: &[u8; 32], msg: &[u8]) -> (sig: [u8; 64])
    ensures
        sig@ == ed25519_signature(seed@, msg@),
        ed25519_accepts(ed25519_public(seed@), msg@, sig@),
{
    ed25519_dalek::Signer::sign(&ed25519_dalek::SigningKey::from_bytes(seed), msg).to_bytes()
}

/// Calls `VerifyingKey::from_bytes(pubkey)` and, when that succeeds,
/// `verify_strict(msg, &Signature::from_bytes(sig))`; `false` for a key that
/// does not decode. The answer is a function of the three inputs.
#[verifier::external_body]
fn ed25519_verify_strict(pubkey: &[u8; 32], msg: &[u8], sig: &[u8; 64]) -> (ok: bool)
    ensures
        ok == ed25519_accepts(pubkey@, msg@, sig@),
{
    match ed25519_dalek::VerifyingKey::from_bytes(pubkey) {
        Ok(vk) => vk.verify_strict(msg, &ed25519_dalek::Signature::from_bytes(sig)).is_ok(),
        Err(_) => false,
    }
}

/// Calls `Sha256::digest(data)`: the 32-byte SHA-256 digest.
#[verifier::external_body]
fn sha256(data: &[u8]) -> (d: Vec<u8>)
    ensures
        d@ == sha256_digest(data@),
        d@.len() == 32,
{
    <sha2::Sha256 as sha2::Digest>::digest(data).to_vec()
}

/// Each byte as two lowercase hex digits.
pub open spec fn hex_text(b: Seq<u8>) -> Seq<char>
    decreases b.len(),
{
    if b.len() == 0 {
        Seq::empty()
    } else {
        hex_text(b.drop_last()) + hex_fixed(b.last() as nat, 2)
    }
}

/// Calls `hex::encode(data)`, which writes each byte as two lowercase hex
/// digits, in order.
#[verifier::external_body]
fn hex_encode(data: &[u8]) -> (s: String)
    ensures
        s@ == hex_text(data@),
{
    hex::encode(data)
}

/// SHA-256 of `bytes` as lowercase hex: the content address of a module.
pub fn code_hash(bytes: &[u8]) -> (s: String)
    ensures
        s@ == hex_text(sha256_digest(bytes@)),
{
    let d = sha256(bytes);
    hex_encode(d.as_slice())
}

/// The SHA-256 hash of an agent snapshot: over its module bytes followed by
/// its memory bytes.
pub fn snapshot_hash(module: &[u8], memory: &[u8]) -> (r: Vec<u8>)
    ensures
        r@ == sha256_digest(module@ + memory@),
        r@.len() == 32,
{
    let mut all: Vec<u8> = Vec::new();
    put_bytes(&mut all, module);
    put_bytes(&mut all, memory);
    assert(all@ =~= module@ + memory@);
    sha256(all.as_slice())
}

/// A node's Ed25519 identity.
pub struct NodeCrypto {
    seed: [u8; 32],
}

impl View for NodeCrypto {
    type V = Seq<u8>;

    /// The secret seed.
    closed spec fn view(&self) -> Seq<u8> {
        self.seed@
    }
}

impl NodeCrypto {
    /// A fresh identity from OS entropy.
    pub fn generate() -> (k: Self)
        ensures
            k@.len() == 32,
    {
        Self::from_seed(random_bytes_32())
    }

    /// The identity with this secret seed.
    pub fn from_seed(seed: [u8; 32]) -> (k: Self)
        ensures
            k@ == seed@,
    {
        NodeCrypto { seed }
    }

    /// The secret seed, for persisting the identity.
    pub fn seed(&self) -> (s: [u8; 32])
        ensures
            s@ == self@,
    {
        self.seed
    }

    /// The public key, safe to share.
    pub fn public_key(&self) -> (pk: [u8; 32])
        ensures
            pk@ == ed25519_public(self@),
    {
        public_of_seed(&self.seed)
    }

    /// The detached signature over `msg`; it verifies under this identity's
    /// public key.
    pub fn sign(&self, msg: &[u8]) -> (sig: [u8; 64])
        ensures
            sig@ == ed25519_signature(self@, msg@),
            ed25519_accepts(ed25519_public(self@), msg@, sig@),
    {
        sign_with_seed(&self.seed, msg)
    }

    /// A fresh 16-byte anti-replay nonce.
    pub fn nonce(&self) -> (n: [u8; 16])
        ensures
            n@.len() == 16,
    {
        random_bytes_16()
    }
}

impl Crypto for NodeCrypto {
    fn public_key(&self) -> (pk: [u8; 32])
        ensures
            pk@ == ed25519_public(self@),
    {
        NodeCrypto::public_key(self)
    }

    fn sign(&self, msg: &[u8]) -> (sig: [u8; 64])
        ensures
            sig@ == ed25519_signature(self@, msg@),
            ed25519_accepts(ed25519_public(self@), msg@, sig@),
    {
        NodeCrypto::sign(self, msg)
    }

    fn nonce(&self) -> [u8; 16] {
        NodeCrypto::nonce(self)
    }
}

/// Verify a detached Ed25519 signature; no secret needed.
pub fn verify(pubkey: &[u8; 32], msg: &[u8], sig: &[u8; 64]) -> (ok: bool)
    ensures
        ok == ed25519_accepts(pubkey@, msg@, sig@),
{
    ed25519_verify_strict(pubkey, msg, sig)
}

} // verus!
