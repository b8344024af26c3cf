use fipa_wasm_agents::address::AddressError;
use fipa_wasm_agents::interplatform::{can_handle, http_destination, http_mtp_schemes, MtpRegistry, HTTP_MTP_NAME, DeliveryResult, InterplatformConfig, InterplatformError, MtpConfig, MtpError, MtpStats};

#[test]
fn test_config_default() {
    let config = InterplatformConfig::default();
    assert!(config.enable_http_mtp);
    assert_eq!(config.http_port, 8080);
    assert_eq!(config.max_retries, 3);
}

#[test]
fn test_mtp_config_default() {
    let config = MtpConfig::default();
    assert!(config.enabled);
    assert_eq!(config.connection_timeout_secs, 30);
}

#[test]
fn test_delivery_result_success() {
    let result = DeliveryResult::success("msg-1".to_string());
    assert!(result.success);
    assert!(result.error.is_none());
}

#[test]
fn test_delivery_result_failed() {
    let result = DeliveryResult::failed("msg-1".to_string(), "Connection refused".to_string());
    assert!(!result.success);
    assert!(result.error.is_some());
}

#[test]
fn config_defaults_in_full() {
    let c = InterplatformConfig::default();
    assert_eq!(c.platform_name, "fipa-platform");
    assert_eq!(c.listen_addresses, vec!["0.0.0.0:8080"]);
    assert_eq!(c.connection_timeout_secs, 30);
    assert_eq!(c.message_timeout_secs, 60);
    assert_eq!(c.retry_delay_ms, 1000);
    assert!(c.enable_buffering);
    assert_eq!(c.max_buffer_size, 1000);
    let m = MtpConfig::default();
    assert_eq!(m.max_message_size, 10 * 1024 * 1024);
    assert_eq!(m.read_timeout_secs, 60);
    assert_eq!(m.extra.len(), 0);
    let s = MtpStats::default();
    assert_eq!(s.messages_sent + s.bytes_received + s.active_connections as u64, 0);
}

#[test]
fn delivery_results_carry_their_fields() {
    let ok = DeliveryResult::success_at("m".to_string(), 77);
    assert_eq!(ok.delivered_at, 77);
    let bad = DeliveryResult::failed("m".to_string(), "refused".to_string());
    assert_eq!(bad.delivered_at, 0);
    assert_eq!(bad.error.as_deref(), Some("refused"));
}

#[test]
fn error_messages_nest() {
    let e: InterplatformError = MtpError::SendFailed("pipe".to_string()).into();
    assert_eq!(e.message(), "MTP error: Send failed: pipe");
    let a: InterplatformError = AddressError::AgentNotFound("x".to_string()).into();
    assert_eq!(a.message(), "Address error: Agent not found: x");
    assert_eq!(InterplatformError::Timeout.message(), "Timeout");
    assert_eq!(MtpError::NotActive.message(), "MTP not active");
}

#[test]
fn http_destination_forms() {
    assert_eq!(http_destination("http://p.example.com:8080/acc").unwrap(), "http://p.example.com:8080/acc");
    assert_eq!(http_destination("http://p.example.com").unwrap(), "http://p.example.com/acc");
    assert_eq!(http_destination("https://p.example.com//").unwrap(), "https://p.example.com/acc");
    assert_eq!(http_destination("agent@http://p.example.com:8080").unwrap(), "http://p.example.com:8080/acc");
    assert_eq!(http_destination("a@b@http://x").unwrap_err().message(), "Invalid address: Cannot parse HTTP address from: a@b@http://x");
    match http_destination("ftp://x") {
        Err(MtpError::InvalidAddress(m)) => assert_eq!(m, "Cannot parse HTTP address from: ftp://x"),
        other => panic!("unexpected {other:?}"),
    }
}

#[test]
fn can_handle_matches_scheme_prefixes() {
    let schemes = vec!["http".to_string(), "https".to_string()];
    assert!(can_handle(&schemes, "http://host/acc"));
    assert!(can_handle(&schemes, "https://host"));
    assert!(!can_handle(&schemes, "iiop://host"));
    assert!(!can_handle(&schemes, "http:/host"));
    assert!(!can_handle(&vec![], "http://host"));
}

#[test]
fn mtp_registry_defaults_to_the_first_registered() {
    let mut r: MtpRegistry<u32> = MtpRegistry::new();
    assert!(r.default_mtp().is_none());
    assert!(r.find_for_address("http://x").is_none());
    r.register("http", 1);
    r.register("iiop", 2);
    assert_eq!(r.default_mtp(), Some(&1));
    assert_eq!(r.get("iiop"), Some(&2));
    assert_eq!(r.get("smtp"), None);
    assert!(r.set_default("iiop"));
    assert!(!r.set_default("smtp"));
    assert_eq!(r.default_mtp(), Some(&2));
    let mut names = r.list();
    names.sort();
    assert_eq!(names, vec!["http".to_string(), "iiop".to_string()]);
}

#[test]
fn mtp_registry_finds_by_scheme_or_falls_back() {
    let mut r: MtpRegistry<&str> = MtpRegistry::new();
    r.register("http", "H");
    r.register("iiop", "I");
    assert_eq!(r.find_for_address("https://platform.example.com"), Some(&"H"));
    assert_eq!(r.find_for_address("iiop://x"), Some(&"I"));
    // no scheme match: the default
    assert_eq!(r.find_for_address("smtp://mail"), Some(&"H"));
    // no `://`: the whole address is the scheme
    assert_eq!(r.find_for_address("iiop"), Some(&"I"));
    // registering a name again replaces the transport
    r.register("http", "H2");
    assert_eq!(r.get("http"), Some(&"H2"));
}

#[test]
fn test_http_mtp_can_handle() {
    assert_eq!(HTTP_MTP_NAME, "http");
    let schemes = http_mtp_schemes();
    assert_eq!(schemes, vec!["http".to_string(), "https".to_string()]);
    assert!(can_handle(&schemes, "http://platform.example.com"));
    assert!(can_handle(&schemes, "https://platform.example.com:8443"));
    assert!(!can_handle(&schemes, "iiop://platform.example.com"));
}

#[test]
fn test_parse_destination() {
    // Direct URL
    let url = http_destination("http://platform.example.com:8080").unwrap();
    assert_eq!(url, "http://platform.example.com:8080/acc");

    // URL with /acc already
    let url = http_destination("http://platform.example.com/acc").unwrap();
    assert_eq!(url, "http://platform.example.com/acc");

    // Agent@URL format
    let url = http_destination("agent1@http://platform.example.com").unwrap();
    assert_eq!(url, "http://platform.example.com/acc");
}

#[test]
fn test_mtp_registry() {
    let registry: MtpRegistry<u32> = MtpRegistry::new();
    assert!(registry.list().is_empty());
    assert!(registry.default_mtp().is_none());
}
