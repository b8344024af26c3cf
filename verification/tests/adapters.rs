use fipa_wasm_agents::adapters::{is_reserved_sender, scoped_key, RESERVED_SENDERS};

#[test]
fn reserved_senders_are_flagged() {
    assert!(is_reserved_sender("ams"));
    assert!(is_reserved_sender("boot"));
    assert!(is_reserved_sender("llm"));
    assert!(!is_reserved_sender("7f3a9c2e"));
}

#[test]
fn every_reserved_id_is_flagged_and_near_misses_are_not() {
    for id in RESERVED_SENDERS {
        assert!(is_reserved_sender(id));
    }
    assert!(!is_reserved_sender("Ams"));
    assert!(!is_reserved_sender("ams "));
    assert!(!is_reserved_sender(""));
}

#[test]
fn namespace_boundary_cannot_be_escaped() {
    assert_ne!(scoped_key("a", "x"), scoped_key("", "ax"));
    assert_ne!(scoped_key("a", "x"), scoped_key("ax", ""));
    assert_eq!(scoped_key("ns", "k"), vec![0, 0, 0, 2, b'n', b's', b'k']);
}
