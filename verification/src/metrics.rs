//! Metric names. Recording a metric is a side effect on the process-wide
//! recorder and happens at the edge; the names are shared here.
use vstd::prelude::*;

verus! {

/// Agent metrics.
pub struct AgentMetrics;

impl AgentMetrics {
    pub const SPAWNED_TOTAL: &'static str = "fipa_agents_spawned_total";
    pub const STOPPED_TOTAL: &'static str = "fipa_agents_stopped_total";
    pub const ACTIVE: &'static str = "fipa_agents_active";
    pub const MIGRATIONS_TOTAL: &'static str = "fipa_agent_migrations_total";
}

/// Message metrics.
pub struct MessageMetrics;

impl MessageMetrics {
    pub const SENT_TOTAL: &'static str = "fipa_messages_sent_total";
    pub const RECEIVED_TOTAL: &'static str = "fipa_messages_received_total";
    pub const LATENCY_SECONDS: &'static str = "fipa_message_latency_seconds";
}

/// Consensus metrics.
pub struct ConsensusMetrics;

impl ConsensusMetrics {
    pub const COMMITS_TOTAL: &'static str = "fipa_consensus_commits_total";
    pub const ELECTIONS_TOTAL: &'static str = "fipa_consensus_elections_total";
    pub const LEADER_CHANGES_TOTAL: &'static str = "fipa_consensus_leader_changes_total";
    pub const TERM: &'static str = "fipa_consensus_term";
}

/// WASM execution metrics.
pub struct WasmMetrics;

impl WasmMetrics {
    pub const EXECUTION_SECONDS: &'static str = "fipa_wasm_execution_seconds";
    pub const FUEL_CONSUMED: &'static str = "fipa_wasm_fuel_consumed";
}

} // verus!
