use fipa_wasm_agents::adapters::Crypto;
use fipa_wasm_agents::crypto::{code_hash, verify, NodeCrypto};
use fipa_wasm_agents::migrate::{AgentSnapshot, Handoff};

#[test]
fn sign_verify_roundtrip() {
    let k = NodeCrypto::generate();
    let msg = b"obj(reserve, LtG)";
    let sig = k.sign(msg);
    assert!(verify(&k.public_key(), msg, &sig));
}

#[test]
fn tamper_or_wrong_key_fails() {
    let k = NodeCrypto::generate();
    let other = NodeCrypto::generate();
    let sig = k.sign(b"hello");
    assert!(!verify(&k.public_key(), b"hell0", &sig));
    assert!(!verify(&other.public_key(), b"hello", &sig));
}

#[test]
fn tampered_snapshot_is_rejected() {
    let k = NodeCrypto::generate();
    let mut snap = AgentSnapshot::sealed("CTR", 1, vec![0xaa], vec![0, 0, 0, 7], &k);
    snap.state = vec![9, 9, 9, 9];
    assert!(!snap.verify());
    let mut snap2 = AgentSnapshot::sealed("CTR", 1, vec![0xaa], vec![7], &k);
    snap2.code = vec![0xff];
    assert!(!snap2.verify());
}

#[test]
fn sealed_snapshot_verifies_and_keeps_its_fields() {
    let k = NodeCrypto::generate();
    let snap = AgentSnapshot::sealed("CTR", 1, vec![0xaa, 0xbb], vec![0, 0, 0, 7], &k);
    assert!(snap.verify());
    assert_eq!(snap.code, vec![0xaa, 0xbb]);
    assert_eq!(snap.state, vec![0, 0, 0, 7]);
    assert_eq!(snap.epoch, 1);
    assert_eq!(snap.nonce.len(), 16);
    assert_eq!(snap.origin_pub, k.public_key().to_vec());
    let mut fetched = AgentSnapshot::sealed("CTR", 2, vec![1, 2, 3], vec![], &k);
    fetched.code = vec![];
    assert!(fetched.verify());
}

#[test]
fn code_hash_is_sha256_hex() {
    assert_eq!(code_hash(b""), "e3b0c44298fc1c149afbf4c8996fb92427ae41e4649b934ca495991b7852b855");
    assert_eq!(code_hash(b"abc"), "ba7816bf8f01cfea414140de5dae2223b00361a396177a9cb410ff61f20015ad");
}

#[test]
fn handoffs_verify_only_untampered() {
    let from = NodeCrypto::from_seed([7u8; 32]);
    let to = NodeCrypto::generate();
    let h = Handoff::sealed("agent-1", to.public_key().to_vec(), 3, &from);
    assert!(h.verify());
    assert_eq!(h.from_pub, from.public_key().to_vec());
    let mut bad = Handoff::sealed("agent-1", to.public_key().to_vec(), 3, &from);
    bad.epoch = 4;
    assert!(!bad.verify());
    let mut short = Handoff::sealed("agent-1", vec![], 3, &from);
    short.sig.pop();
    assert!(!short.verify());
    assert_eq!(from.seed(), [7u8; 32]);
    let again = NodeCrypto::from_seed(from.seed());
    assert_eq!(again.public_key(), from.public_key());
    assert_eq!(again.sign(b"x"), from.sign(b"x"));
}

#[test]
fn handoff_signing_bytes_layout() {
    let from = NodeCrypto::from_seed([1u8; 32]);
    let h = Handoff::sealed("ab", vec![9], 258, &from);
    let b = h.signing_bytes();
    assert_eq!(&b[..3], &[b'a', b'b', 0]);
    assert_eq!(&b[3..35], &from.public_key()[..]);
    assert_eq!(&b[35..], &[9, 0, 0, 0, 0, 0, 0, 1, 2]);
}

#[test]
fn snapshot_sign_verify_roundtrip() {
    let k = NodeCrypto::generate();
    let snap = AgentSnapshot::sealed("CTR", 1, vec![0xaa, 0xbb], vec![0, 0, 0, 7], &k);
    assert!(snap.verify());
    assert_eq!(snap.code, vec![0xaa, 0xbb]);
    assert_eq!(snap.state, vec![0, 0, 0, 7]);
    assert_eq!(snap.epoch, 1);
    assert_eq!(snap.code_hash, code_hash(&[0xaa, 0xbb]));
}

#[test]
fn crypto_trait_answers_as_the_node_key() {
    let k = NodeCrypto::from_seed([3u8; 32]);
    assert_eq!(Crypto::public_key(&k), k.public_key());
    assert_eq!(Crypto::sign(&k, b"m").to_vec(), k.sign(b"m").to_vec());
    assert!(verify(&Crypto::public_key(&k), b"m", &Crypto::sign(&k, b"m")));
    assert_ne!(NodeCrypto::from_seed([4u8; 32]).public_key(), k.public_key());
}

#[test]
fn snapshot_hash_is_sha256_of_module_then_memory() {
    let h = fipa_wasm_agents::crypto::snapshot_hash(b"ab", b"c");
    assert_eq!(h.len(), 32);
    // SHA-256("abc")
    assert_eq!(h[0], 0xba);
    assert_eq!(h[1], 0x78);
    assert_eq!(h[31], 0xad);
    assert_eq!(h, fipa_wasm_agents::crypto::snapshot_hash(b"", b"abc"));
    assert_ne!(h, fipa_wasm_agents::crypto::snapshot_hash(b"abc", b"d"));
}
