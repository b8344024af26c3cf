use fipa_wasm_agents::consensus::ConsensusState;

#[test]
fn consensus_state_starts_at_term_zero() {
    let s = ConsensusState::new("n1".to_string());
    assert_eq!(s.term, 0);
    assert_eq!(s.node_id, "n1");
    assert!(s.leader_id.is_none() && s.voted_for.is_none());
    assert_eq!(ConsensusState::default().node_id, "default");
}

#[test]
fn one_vote_per_term() {
    let mut s = ConsensusState::new("n".to_string());
    assert!(s.vote(1, "a"));
    assert_eq!(s.term, 1);
    assert!(s.vote(1, "a"));
    assert!(!s.vote(1, "b"));
    assert_eq!(s.voted_for.as_deref(), Some("a"));
    // a newer term brings a new vote
    assert!(s.vote(2, "b"));
    assert_eq!(s.term, 2);
    // an older term is refused
    assert!(!s.vote(1, "c"));
    assert_eq!(s.term, 2);
}

#[test]
fn same_term_first_vote_is_granted() {
    let mut s = ConsensusState::new("n".to_string());
    assert!(s.vote(0, "x"));
    assert_eq!(s.voted_for.as_deref(), Some("x"));
}

#[test]
fn append_adopts_newer_terms_and_refuses_older() {
    let mut s = ConsensusState::new("n".to_string());
    assert!(s.vote(3, "a"));
    assert!(!s.append("old-leader", 2));
    assert_eq!(s.leader_id.as_deref(), Some("old-leader"));
    assert_eq!(s.term, 3);
    assert!(s.append("a", 3));
    assert_eq!(s.voted_for.as_deref(), Some("a"));
    assert!(s.append("b", 5));
    assert_eq!(s.term, 5);
    assert!(s.voted_for.is_none());
    assert_eq!(s.leader_id.as_deref(), Some("b"));
}

#[test]
fn snapshot_adopts_newer_terms() {
    let mut s = ConsensusState::new("n".to_string());
    assert!(s.vote(4, "a"));
    assert!(s.install_snapshot(2));
    assert_eq!(s.term, 4);
    assert_eq!(s.voted_for.as_deref(), Some("a"));
    assert!(s.install_snapshot(7));
    assert_eq!(s.term, 7);
    assert!(s.voted_for.is_none());
}

#[test]
fn standalone_service_defaults() {
    let c = fipa_wasm_agents::service::StandaloneServiceConfig::default();
    assert_eq!(c.node_id, "1");
    assert_eq!(c.node_name, "node-1");
    assert_eq!(c.grpc_addr, "0.0.0.0:9000");
}
