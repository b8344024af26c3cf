use fipa_wasm_agents::ams::Ams;
use fipa_wasm_agents::resolve::{resolve, Resolution};

// A two-level AMS: `leaf` refers up to `root`, which is authoritative.
fn amses() -> Vec<(String, Ams)> {
    let mut root = Ams::new();
    root.bind("bookSeller", "127.0.0.1:9001");
    let mut leaf = Ams::new();
    leaf.set_upstream("root");
    vec![("root".to_string(), root), ("leaf".to_string(), leaf)]
}

#[test]
fn direct() {
    let m = amses();
    assert_eq!(resolve(&m, "root", "bookSeller", false, 8), Resolution::Found("127.0.0.1:9001".into()));
}

#[test]
fn iterative_returns_the_referral() {
    let m = amses();
    assert_eq!(resolve(&m, "leaf", "bookSeller", false, 8), Resolution::Referral("root".into()));
}

#[test]
fn recursive_chases_the_referral() {
    let m = amses();
    assert_eq!(resolve(&m, "leaf", "bookSeller", true, 8), Resolution::Found("127.0.0.1:9001".into()));
}

#[test]
fn unknown_is_not_found() {
    let m = amses();
    assert_eq!(resolve(&m, "leaf", "ghost", true, 8), Resolution::NotFound);
}

#[test]
fn referral_loop_stops_at_the_hop_limit() {
    let mut a = Ams::new();
    a.set_upstream("b");
    let mut b = Ams::new();
    b.set_upstream("a");
    let m = vec![("a".to_string(), a), ("b".to_string(), b)];
    assert_eq!(resolve(&m, "a", "x", true, 16), Resolution::NotFound);
    assert_eq!(resolve(&m, "a", "x", false, 16), Resolution::Referral("b".into()));
}

#[test]
fn unknown_ams_zero_hops_and_empty_address_are_not_found() {
    let mut m = amses();
    assert_eq!(resolve(&m, "nowhere", "bookSeller", true, 8), Resolution::NotFound);
    assert_eq!(resolve(&m, "root", "bookSeller", true, 0), Resolution::NotFound);
    // one hop reaches only the leaf's referral
    assert_eq!(resolve(&m, "leaf", "bookSeller", true, 1), Resolution::NotFound);
    m[0].1.bind("empty", "");
    assert_eq!(resolve(&m, "root", "empty", true, 8), Resolution::NotFound);
}
