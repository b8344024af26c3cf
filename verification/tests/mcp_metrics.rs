use fipa_wasm_agents::mcp::{ServerCapabilities, ServerInfo};
use fipa_wasm_agents::metrics::{AgentMetrics, ConsensusMetrics, MessageMetrics, WasmMetrics};

#[test]
fn test_server_info_default() {
    let info = ServerInfo::default();
    assert_eq!(info.name, "fipa-mcp");
    assert!(!info.version.is_empty());
}

#[test]
fn test_metric_names() {
    assert!(AgentMetrics::SPAWNED_TOTAL.starts_with("fipa_"));
    assert!(MessageMetrics::SENT_TOTAL.starts_with("fipa_"));
    assert!(ConsensusMetrics::COMMITS_TOTAL.starts_with("fipa_"));
}

#[test]
fn metric_names_are_the_exported_ones() {
    assert_eq!(AgentMetrics::ACTIVE, "fipa_agents_active");
    assert_eq!(MessageMetrics::LATENCY_SECONDS, "fipa_message_latency_seconds");
    assert_eq!(WasmMetrics::FUEL_CONSUMED, "fipa_wasm_fuel_consumed");
}

#[test]
fn capabilities_default_to_none() {
    let c = ServerCapabilities::default();
    assert!(c.tools.is_none() && c.resources.is_none() && c.prompts.is_none());
    assert_eq!(ServerInfo::default().version, "0.1.0");
}
