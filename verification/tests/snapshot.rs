use fipa_wasm_agents::snapshot::{
    AgentSnapshot, ConversationSnapshot, PlatformSnapshot, ServiceSnapshot, SnapshotId, SnapshotMetadata,
};

#[test]
fn test_snapshot_id_creation() {
    let id = SnapshotId::new(1);
    assert_eq!(id.id, 1);
    assert!(!id.is_disabled());
}

#[test]
fn test_snapshot_id_disabled() {
    let id = SnapshotId::disabled();
    assert!(id.is_disabled());
}

#[test]
fn test_snapshot_id_filename() {
    let id = SnapshotId::new(1);
    let filename = id.to_filename();
    assert!(filename.contains('_'));

    let parsed = SnapshotId::from_filename(&filename);
    assert!(parsed.is_some());
}

#[test]
fn test_metadata_checksum() {
    let data = b"test data";
    let metadata = SnapshotMetadata::now().with_checksum(data);

    assert!(metadata.checksum.is_some());
    assert!(metadata.verify_checksum(data));
    assert!(!metadata.verify_checksum(b"different data"));
}

#[test]
fn test_platform_snapshot() {
    let snapshot = PlatformSnapshot::new("test-platform")
        .with_node_id("node-1")
        .with_agent("agent-1")
        .with_agent("agent-2")
        .with_config("key", "value");

    assert_eq!(snapshot.platform_name, "test-platform");
    assert_eq!(snapshot.agent_names.len(), 2);
    assert_eq!(snapshot.config.get("key"), Some(&"value".to_string()));
}

#[test]
fn test_service_snapshot() {
    let service = ServiceSnapshot::new("calculator", "calc-agent")
        .with_type("computation")
        .with_protocol("fipa-request");

    assert_eq!(service.name, "calculator");
    assert_eq!(service.provider, "calc-agent");
    assert_eq!(service.service_type, Some("computation".to_string()));
}

#[test]
fn snapshot_id_text_forms_are_exact() {
    let id = SnapshotId::from_parts(7, 1700000000, 0xdeadbeef);
    assert_eq!(id.suffix, "deadbeef");
    assert_eq!(id.to_filename(), "1700000000_deadbeef");
    assert_eq!(id.display_text(), "snap-7-deadbeef");
    let back = SnapshotId::from_filename("1700000000_deadbeef").unwrap();
    assert_eq!((back.id, back.timestamp, back.suffix.as_str()), (0, 1700000000, "deadbeef"));
    assert!(SnapshotId::from_filename("nounderscore").is_none());
    assert!(SnapshotId::from_filename("12x_abc").is_none());
    assert_eq!(SnapshotId::from_parts(1, 2, 5).suffix, "00000005");
}

#[test]
fn metadata_without_checksum_verifies_anything() {
    let m = SnapshotMetadata::created(5);
    assert!(m.checksum.is_none());
    assert!(m.verify_checksum(b"anything"));
    let c = m.with_checksum(b"x").checksum.unwrap();
    assert_eq!(c.len(), 16);
    assert!(c.chars().all(|ch| ch.is_ascii_hexdigit() && !ch.is_ascii_uppercase()));
}

#[test]
fn agent_snapshot_collects_conversations() {
    let s = AgentSnapshot::new("test-agent", vec![1, 2, 3, 4]).with_conversation(
        ConversationSnapshot::new("conv-1", "request").with_state("awaiting-response").with_role("initiator"),
    );
    assert_eq!(s.agent_name, "test-agent");
    assert_eq!(s.wasm_state, vec![1, 2, 3, 4]);
    assert_eq!(s.conversations.len(), 1);
    assert_eq!(s.conversations[0].state, "awaiting-response");
}
