use fipa_wasm_agents::address::{AddressError, AddressResolver, AgentAddress, PlatformAddress};

#[test]
fn test_agent_address_local() {
    let addr = AgentAddress::local("my-agent");
    assert_eq!(addr.name, "my-agent");
    assert!(addr.is_local());
    assert!(!addr.is_remote());
}

#[test]
fn test_agent_address_remote() {
    let addr = AgentAddress::remote("my-agent", "other-platform");
    assert_eq!(addr.name, "my-agent");
    assert!(addr.is_remote());
    assert!(!addr.is_local());
    assert_eq!(addr.qualified_name(), "my-agent@other-platform");
}

#[test]
fn test_agent_address_parse() {
    let addr = AgentAddress::parse("agent1").unwrap();
    assert_eq!(addr.name, "agent1");
    assert!(addr.is_local());

    let addr = AgentAddress::parse("agent1@platform1").unwrap();
    assert_eq!(addr.name, "agent1");
    assert_eq!(addr.platform, Some("platform1".to_string()));

    let addr = AgentAddress::parse("agent1@http://platform.example.com").unwrap();
    assert_eq!(addr.name, "agent1");
    assert_eq!(addr.addresses, vec!["http://platform.example.com"]);
}

#[test]
fn test_agent_address_parse_errors() {
    assert!(AgentAddress::parse("").is_err());
    assert!(AgentAddress::parse("@platform").is_err());
}

#[test]
fn test_platform_address() {
    let platform = PlatformAddress::new("test-platform")
        .with_http("http://platform.example.com:8080")
        .with_grpc("grpc://platform.example.com:9090")
        .with_ams("ams@http://platform.example.com:8080")
        .with_df("df@http://platform.example.com:8080");

    assert_eq!(platform.name, "test-platform");
    assert_eq!(platform.http_addresses.len(), 1);
    assert_eq!(platform.grpc_addresses.len(), 1);
    assert!(platform.ams_address.is_some());
}

#[test]
fn test_platform_all_addresses() {
    let platform = PlatformAddress::new("test")
        .with_http("http://a.com")
        .with_http("http://b.com")
        .with_grpc("grpc://c.com");

    let addrs = platform.all_addresses();
    assert_eq!(addrs.len(), 3);
}

#[test]
fn test_address_resolver() {
    let mut resolver = AddressResolver::new("local-platform");

    let local = PlatformAddress::new("local-platform").with_http("http://localhost:8080").local();
    resolver.register_local(local);

    let remote = PlatformAddress::new("remote-platform").with_http("http://remote.example.com:8080");
    resolver.register_platform(remote);

    let platforms = resolver.list_platforms();
    assert_eq!(platforms.len(), 2);

    let addr = AgentAddress::remote("agent1", "remote-platform");
    let resolved = resolver.resolve(&addr).unwrap();
    assert_eq!(resolved, vec!["http://remote.example.com:8080"]);
}

#[test]
fn test_resolver_is_local() {
    let resolver = AddressResolver::new("my-platform");

    assert!(resolver.is_local(&AgentAddress::local("agent1")));
    assert!(resolver.is_local(&AgentAddress::remote("agent1", "my-platform")));
    assert!(!resolver.is_local(&AgentAddress::remote("agent1", "other-platform")));
}

#[test]
fn test_agent_cache() {
    let mut resolver = AddressResolver::new("local");

    let platform = PlatformAddress::new("platform1").with_http("http://platform1.example.com");
    resolver.register_platform(platform);

    resolver.register_agent("agent1", "platform1");

    let found = resolver.find_agent("agent1");
    assert_eq!(found, Some("platform1".to_string()));

    let not_found = resolver.find_agent("agent2");
    assert_eq!(not_found, None);
}

#[test]
fn resolver_errors_and_fallbacks() {
    let mut resolver = AddressResolver::new("here");
    let unknown = resolver.resolve(&AgentAddress::remote("a", "nowhere"));
    assert!(matches!(unknown, Err(AddressError::UnknownPlatform(p)) if p == "nowhere"));
    assert_eq!(resolver.resolve(&AgentAddress::local("a")).unwrap(), Vec::<String>::new());
    let direct = AgentAddress::local("a").with_address("http://x");
    assert_eq!(resolver.resolve(&direct).unwrap(), vec!["http://x"]);
    resolver.register_platform(PlatformAddress::new("grpc-only").with_grpc("grpc://g"));
    assert_eq!(resolver.resolve(&AgentAddress::remote("a", "grpc-only")).unwrap(), vec!["grpc://g"]);
    resolver.register_platform(PlatformAddress::new("empty"));
    assert!(resolver.resolve(&AgentAddress::remote("a", "empty")).is_err());
    assert!(resolver.unregister_platform("grpc-only"));
    assert!(!resolver.unregister_platform("grpc-only"));
    assert!(resolver.get_platform("grpc-only").is_none());
    assert_eq!(resolver.local_platform(), "here");
}

#[test]
fn register_local_marks_and_keys_by_local_name() {
    let mut resolver = AddressResolver::new("home");
    resolver.register_local(PlatformAddress::new("whatever").with_http("http://h"));
    let p = resolver.get_platform("home").unwrap();
    assert!(p.is_local);
    assert_eq!(p.name, "whatever");
    assert_eq!(resolver.resolve(&AgentAddress::remote("a", "home")).unwrap(), vec!["http://h"]);
}

#[test]
fn address_error_messages() {
    assert_eq!(AddressError::InvalidFormat("x".to_string()).message(), "Invalid address format: x");
    assert_eq!(AddressError::NoTransportAddress.message(), "No transport address available");
}

#[test]
fn touch_at_sets_only_last_seen() {
    let mut p = PlatformAddress::new_at("p", 5).with_http("http://h");
    p.touch_at(42);
    assert_eq!(p.last_seen, 42);
    assert_eq!(p.name, "p");
    assert_eq!(p.http_addresses, vec!["http://h".to_string()]);
    p.touch();
    assert_eq!(p.name, "p");
    assert_eq!(p.http_addresses, vec!["http://h".to_string()]);
}

#[test]
fn qualified_names_parse_back() {
    for a in [
        AgentAddress::local("a1"),
        AgentAddress::remote("a1", "platform-x"),
        AgentAddress::local("a1").with_address("http://h:1/acc"),
    ] {
        assert_eq!(AgentAddress::parse(&a.qualified_name()).unwrap(), a);
    }
}
