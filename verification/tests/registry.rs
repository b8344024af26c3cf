use fipa_wasm_agents::registry::ActorRegistry;

#[test]
fn registry_knows_local_and_remote_agents() {
    let mut r = ActorRegistry::new("node-1".to_string());
    r.register_local("alice");
    r.register_remote("bob", "node-2");
    assert!(r.is_local("alice"));
    assert!(!r.is_local("bob"));
    assert_eq!(r.get_agent_node("alice"), Some("node-1".to_string()));
    assert_eq!(r.get_agent_node("bob"), Some("node-2".to_string()));
    assert_eq!(r.get_agent_node("carol"), None);
    r.deregister_remote("bob");
    assert_eq!(r.get_agent_node("bob"), None);
    r.deregister_local("alice");
    assert!(!r.is_local("alice"));
    assert_eq!(r.get_agent_node("alice"), None);
}

#[test]
fn local_agent_wins_over_a_remote_record() {
    let mut r = ActorRegistry::new("here".to_string());
    r.register_remote("a", "there");
    r.register_local("a");
    assert_eq!(r.get_agent_node("a"), Some("here".to_string()));
}

#[test]
fn service_providers_in_registration_order() {
    let mut r = ActorRegistry::new("n".to_string());
    assert!(r.find_service_providers("calc").is_empty());
    r.register_service("calc", "b");
    r.register_service("calc", "a");
    r.register_service("calc", "b");
    r.register_service("other", "z");
    assert_eq!(r.find_service_providers("calc"), vec!["b".to_string(), "a".to_string(), "b".to_string()]);
    assert_eq!(r.find_service_providers("other"), vec!["z".to_string()]);
}
