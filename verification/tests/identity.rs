use fipa_wasm_agents::identity::{AgentId, Aliases, Header};

fn header() -> Header {
    Header { type_id: 0xaa, desc: "book-selling service".into(), name: Some("bookSeller".into()) }
}

#[test]
fn spawn_mints_a_fresh_unique_instance() {
    let a = AgentId::spawn(&header());
    let b = AgentId::spawn(&header());
    assert_ne!(a.instance, b.instance);
    assert_eq!(a.agent_type.desc, "book-selling service");
    assert_eq!(a.label(), "bookSeller");
}

#[test]
fn aliases_render_uuids_readably() {
    let seller = AgentId::spawn(&header());
    let mut a = Aliases::new();
    a.bind("bookSeller", &seller.id());
    assert_eq!(a.id_of("bookSeller"), Some(seller.id().as_str()));
    assert_eq!(a.name_of(&seller.id()), Some("bookSeller"));
    assert_eq!(a.label(&seller.id()), "bookSeller");
    assert_eq!(a.label("unknown-uuid"), "unknown-uuid");
}

#[test]
fn id_is_the_simple_uuid_form() {
    let h = Header { type_id: 1, desc: "d".into(), name: None };
    let a = AgentId::with_instance(0xa1a2a3a4b1b2c1c2d1d2d3d4d5d6d7d8, &h);
    assert_eq!(a.id(), "a1a2a3a4b1b2c1c2d1d2d3d4d5d6d7d8");
    assert_eq!(a.label(), "a1a2a3a4");
    let small = AgentId::with_instance(0x2a, &h);
    assert_eq!(small.id(), "0000000000000000000000000000002a");
    assert_eq!(small.agent_type.id, 1);
}

#[test]
fn rebinding_moves_both_directions() {
    let mut a = Aliases::new();
    a.bind("n", "1");
    a.bind("n", "2");
    assert_eq!(a.id_of("n"), Some("2"));
    assert_eq!(a.name_of("1"), Some("n"));
    assert_eq!(a.name_of("2"), Some("n"));
    assert_eq!(a.id_of("missing"), None);
}
