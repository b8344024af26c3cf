use fipa_wasm_agents::guard::{admit_connection, infer_slot_free};
use fipa_wasm_agents::crypto::NodeCrypto;
use fipa_wasm_agents::guard::{
    bytes_eq, fault_events, handoff_authorizes, net_allows, wire_admit, FaultVerdict, KeyBook, RateWindows, ReplayGuard, Supervision,
    MAX_FAULTS, NONCE_WINDOW, RATE_WINDOW_MS,
};
use fipa_wasm_agents::migrate::Handoff;

fn signed(k: &NodeCrypto, msg: &[u8]) -> (Vec<u8>, Vec<u8>) {
    (k.sign(msg).to_vec(), k.public_key().to_vec())
}

#[test]
fn wire_admit_accepts_sealed_self_message_and_rejects_tamper() {
    let k = NodeCrypto::generate();
    let (sig, pk) = signed(&k, b"to=x from=agent-uuid body=");
    assert!(wire_admit("agent-uuid", &sig, &pk, b"to=x from=agent-uuid body="));
    assert!(!wire_admit("agent-uuid", &sig, &pk, b"to=x from=agent-uuid body=evil"));
}

#[test]
fn wire_admit_rejects_reserved_senders() {
    let k = NodeCrypto::generate();
    for who in ["ams", "df", "pa", "llm", "boot"] {
        let (sig, pk) = signed(&k, who.as_bytes());
        assert!(!wire_admit(who, &sig, &pk, who.as_bytes()), "reserved '{who}' must be rejected");
    }
}

#[test]
fn wire_admit_rejects_malformed_signatures() {
    let k = NodeCrypto::generate();
    let (sig, pk) = signed(&k, b"m");
    assert!(!wire_admit("x", &sig[..63], &pk, b"m"));
    assert!(!wire_admit("x", &sig, &pk[..31], b"m"));
}

#[test]
fn authorize_is_tofu_and_rejects_impersonation() {
    let (k1, k2) = (NodeCrypto::generate(), NodeCrypto::generate());
    let mut book = KeyBook::new();
    assert!(book.authorize("X", k1.public_key(), false));
    assert!(book.authorize("X", k1.public_key(), false));
    assert!(!book.authorize("X", k2.public_key(), false));
    assert_eq!(book.key_of("X"), Some(k1.public_key()));
    assert_eq!(book.key_of("Y"), None);
}

#[test]
fn handoff_authorizes_a_key_change() {
    let (ka, kb) = (NodeCrypto::generate(), NodeCrypto::generate());
    let mut book = KeyBook::new();
    assert!(book.authorize("X", ka.public_key(), false));
    assert!(!book.authorize("X", kb.public_key(), false));
    let ho = Handoff::sealed("X", kb.public_key().to_vec(), 1, &ka);
    let ok = handoff_authorizes(&ho, None, "X", &ka.public_key(), &kb.public_key());
    assert!(ok);
    assert!(book.authorize("X", kb.public_key(), ok));
    assert!(book.authorize("X", kb.public_key(), false));
    assert_eq!(book.key_of("X"), Some(kb.public_key()));
}

#[test]
fn handoff_with_mismatched_epoch_is_rejected() {
    let (ka, kb) = (NodeCrypto::generate(), NodeCrypto::generate());
    let ho = Handoff::sealed("X", kb.public_key().to_vec(), 1, &ka);
    assert!(!handoff_authorizes(&ho, Some(2), "X", &ka.public_key(), &kb.public_key()));
    assert!(handoff_authorizes(&ho, Some(1), "X", &ka.public_key(), &kb.public_key()));
    // the wrong agent, or the wrong keys, are not authorized either
    assert!(!handoff_authorizes(&ho, Some(1), "Y", &ka.public_key(), &kb.public_key()));
    assert!(!handoff_authorizes(&ho, Some(1), "X", &kb.public_key(), &kb.public_key()));
}

#[test]
fn msg_rate_is_capped_per_window() {
    let mut w = RateWindows::new();
    assert!(w.allow("W", Some(3), 10_000));
    assert!(w.allow("W", Some(3), 10_001));
    assert!(w.allow("W", Some(3), 10_002));
    assert!(!w.allow("W", Some(3), 10_999));
    // a new window starts a full window later
    assert!(w.allow("W", Some(3), 10_000 + RATE_WINDOW_MS));
    // native/infra agents (no limit) and a zero limit are never throttled
    for _ in 0..100 {
        assert!(w.allow("seed", None, 10_000));
        assert!(w.allow("z", Some(0), 10_000));
    }
}

#[test]
fn replayed_envelope_is_dropped() {
    let mut g = ReplayGuard::new();
    assert!(g.check_fresh("X", b"nonce-1"));
    assert!(!g.check_fresh("X", b"nonce-1"));
    assert!(g.check_fresh("Y", b"nonce-1"));
    assert!(g.check_fresh("X", b"nonce-2"));
    // messages without a nonce are not checked
    assert!(g.check_fresh("X", b""));
    assert!(g.check_fresh("X", b""));
}

#[test]
fn replay_guard_forgets_beyond_its_window() {
    let mut g = ReplayGuard::new();
    assert!(g.check_fresh("X", &0u32.to_be_bytes()));
    for i in 1..=NONCE_WINDOW as u32 {
        assert!(g.check_fresh("X", &i.to_be_bytes()));
    }
    // the oldest pair has been forgotten; the newest is still remembered
    assert!(g.check_fresh("X", &0u32.to_be_bytes()));
    assert!(!g.check_fresh("X", &(NONCE_WINDOW as u32).to_be_bytes()));
}

#[test]
fn supervision_quarantines_after_repeated_faults() {
    let mut s = Supervision::new();
    assert_eq!(MAX_FAULTS, 3);
    assert_eq!(s.record("boom", false), FaultVerdict::Fault(1));
    assert_eq!(s.record("boom", false), FaultVerdict::Fault(2));
    assert!(!s.is_quarantined("boom"));
    assert_eq!(s.record("boom", false), FaultVerdict::Quarantined(3));
    assert!(s.is_quarantined("boom"));
    assert_eq!(s.record("boom", true), FaultVerdict::Cleared);
    assert_eq!(s.faults("boom"), 0);
    assert!(s.is_quarantined("boom"));
}

#[test]
fn supervision_success_resets_the_count() {
    let mut s = Supervision::new();
    assert_eq!(s.record("a", false), FaultVerdict::Fault(1));
    assert_eq!(s.record("a", false), FaultVerdict::Fault(2));
    assert_eq!(s.record("a", true), FaultVerdict::Cleared);
    assert_eq!(s.record("a", false), FaultVerdict::Fault(1));
    assert!(!s.is_quarantined("a"));
    assert_eq!(s.faults("unknown"), 0);
}

#[test]
fn net_scope_none_reaches_only_local_agents() {
    assert!(!net_allows(Some("none"), false));
    assert!(net_allows(Some("none"), true));
    assert!(net_allows(Some("platform"), false));
    assert!(net_allows(None, false));
}

#[test]
fn bytes_eq_compares_content() {
    assert!(bytes_eq(b"abc", b"abc"));
    assert!(!bytes_eq(b"abc", b"abd"));
    assert!(!bytes_eq(b"abc", b"ab"));
}

#[test]
fn supervised_faults_are_audited() {
    let none = fault_events("a", FaultVerdict::Cleared, "boom");
    assert!(none.is_empty());
    let one = fault_events("a", FaultVerdict::Fault(1), "boom");
    assert_eq!(one.len(), 1);
    assert_eq!((one[0].agent.as_str(), one[0].kind.as_str(), one[0].detail.as_str()), ("a", "fault", "boom"));
    let two = fault_events("a", FaultVerdict::Quarantined(3), "boom");
    assert_eq!(two.len(), 2);
    assert_eq!(two[1].kind, "quarantined");
    assert_eq!(two[1].detail, "fault threshold exceeded");
}

#[test]
fn connection_and_inference_caps() {
    assert!(admit_connection(0, None));
    assert!(admit_connection(63, Some(7)));
    assert!(!admit_connection(64, None));
    assert!(!admit_connection(10, Some(8)));
    assert!(infer_slot_free(31));
    assert!(!infer_slot_free(32));
}
