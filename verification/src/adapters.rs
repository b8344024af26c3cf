//! Platform adapters: the seams that let one node kernel run on several
//! profiles (transport, signing oracle, clock, agent state store, wasm
//! execution), the reserved-sender policy, and the namespaced store key.
use vstd::prelude::*;
use vstd::utf8::{encode_utf8, encode_utf8_decode_utf8};
use crate::text::{str_bytes, str_eq};
use crate::wire::{be32, lemma_be32_roundtrip, put_be32, put_bytes};

verus! {

/// Sender ids the node and agents trust internally; they must be rejected if
/// they ever arrive as a message `from` over the wire.
pub const RESERVED_SENDERS: [&'static str; 9] =
    ["ams", "df", "pa", "llm", "node", "crypto", "boot", "resolver", "result"];

/// The reserved sender ids.
pub open spec fn reserved_senders() -> Seq<Seq<char>> {
    seq!["ams"@, "df"@, "pa"@, "llm"@, "node"@, "crypto"@, "boot"@, "resolver"@, "result"@]
}

/// Whether `from` is a reserved system sender that must never originate on
/// the wire.
pub fn is_reserved_sender(from: &str) -> (r: bool)
    ensures
        r == reserved_senders().contains(from@),
{
    let names = RESERVED_SENDERS;
    let ghost want = reserved_senders();
    assert(names@.len() == 9);
    assert forall|i: int| 0 <= i < 9 implies (#[trigger] names@[i])@ == want[i] by {}
    let mut i: usize = 0;
    while i < 9
        invariant
            i <= 9,
            names@.len() == 9,
            want == reserved_senders(),
            forall|j: int| 0 <= j < 9 ==> (#[trigger] names@[j])@ == want[j],
            forall|j: int| 0 <= j < i ==> want[j] != from@,
        decreases 9 - i,
    {
        if str_eq(names[i], from) {
            assert(want[i as int] == from@);
            return true;
        }
        i = i + 1;
    }
    proof {
        if want.contains(from@) {
            let j = choose|j: int| 0 <= j < want.len() && want[j] == from@;
            assert(want[j] != from@);
        }
    }
    false
}

/// Length-bounded message transport between nodes.
pub trait Transport {
    /// Send one framed message to `addr`.
    fn send(&self, addr: &str, frame: &[u8]) -> Result<(), String>;
}

/// The node signing oracle: keys stay on the node side.
pub trait Crypto {
    fn public_key(&self) -> [u8; 32];
    fn sign(&self, msg: &[u8]) -> [u8; 64];
    fn nonce(&self) -> [u8; 16];
}

/// Wall and monotonic clock.
pub trait Clock {
    /// Milliseconds since the epoch.
    fn now_ms(&self) -> u64;
    /// Nanoseconds on a monotonic clock.
    fn mono_ns(&self) -> u128;
}

/// Agent-scoped durable key-value store; keys are confined to the agent's
/// namespace.
pub trait StateStore {
    fn get(&self, ns: &str, key: &str) -> Result<Option<Vec<u8>>, String>;
    fn put(&self, ns: &str, key: &str, val: &[u8]) -> Result<(), String>;
    fn del(&self, ns: &str, key: &str) -> Result<(), String>;
}

/// Resource limits a wasm engine enforces per agent.
#[derive(Clone, Copy, Debug)]
pub struct Limits {
    /// Per-call CPU budget (fuel).
    pub fuel: u64,
    /// Linear-memory ceiling in bytes.
    pub mem_bytes: usize,
}

/// An instantiated wasm module: the typed entry points an agent runtime
/// drives.
pub trait EngineModule {
    /// Reset the per-call fuel budget.
    fn refuel(&mut self, fuel: u64);
    /// Call an exported `() -> ()` function.
    fn call_void(&mut self, func: &str) -> Result<(), String>;
    /// Call an exported `() -> i32` function.
    fn call_i32(&mut self, func: &str) -> Result<i32, String>;
    /// Call an export taking byte slices; `Ok(false)` if it is absent.
    fn call_io(&mut self, func: &str, args: &[&[u8]]) -> Result<bool, String>;
    /// Call an export returning bytes; empty if it is absent.
    fn call_packed(&mut self, func: &str) -> Result<Vec<u8>, String>;
}

/// The stored key of `key` in namespace `ns`: the namespace's UTF-8 length
/// (32-bit big-endian), the namespace, then the key.
pub open spec fn scoped_key_bytes(ns: Seq<char>, key: Seq<char>) -> Seq<u8> {
    be32(encode_utf8(ns).len() as u32) + encode_utf8(ns) + encode_utf8(key)
}

/// The stored key of `key` in namespace `ns`.
pub fn scoped_key(ns: &str, key: &str) -> (k: Vec<u8>)
    requires
        encode_utf8(ns@).len() < 4294967296,
    ensures
        k@ == scoped_key_bytes(ns@, key@),
{
    let nsb = str_bytes(ns);
    let kb = str_bytes(key);
    let mut k: Vec<u8> = Vec::new();
    put_be32(&mut k, nsb.len() as u32);
    put_bytes(&mut k, nsb.as_slice());
    put_bytes(&mut k, kb.as_slice());
    assert(k@ =~= scoped_key_bytes(ns@, key@));
    k
}

/// Two (namespace, key) pairs share a stored key only if they are the same
/// pair: no key reaches into another namespace.
pub proof fn law_scoped_keys_never_collide(ns1: Seq<char>, k1: Seq<char>, ns2: Seq<char>, k2: Seq<char>)
    requires
        encode_utf8(ns1).len() < 4294967296,
        encode_utf8(ns2).len() < 4294967296,
        scoped_key_bytes(ns1, k1) == scoped_key_bytes(ns2, k2),
    ensures
        ns1 == ns2,
        k1 == k2,
{
    let a = scoped_key_bytes(ns1, k1);
    let n1 = encode_utf8(ns1).len() as u32;
    let n2 = encode_utf8(ns2).len() as u32;
    lemma_be32_roundtrip(n1);
    lemma_be32_roundtrip(n2);
    assert(a.subrange(0, 4) =~= be32(n1));
    assert(a.subrange(0, 4) =~= be32(n2));
    assert(n1 == n2);
    assert(a.subrange(4, 4 + n1) =~= encode_utf8(ns1));
    assert(a.subrange(4, 4 + n2) =~= encode_utf8(ns2));
    assert(a.skip(4 + n1) =~= encode_utf8(k1));
    assert(a.skip(4 + n2) =~= encode_utf8(k2));
    encode_utf8_decode_utf8(ns1);
    encode_utf8_decode_utf8(ns2);
    encode_utf8_decode_utf8(k1);
    encode_utf8_decode_utf8(k2);
}

} // verus!
