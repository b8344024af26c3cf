use fipa_wasm_agents::executor::{Executor, Mounted, NodeMessage, SendVerdict};
use fipa_wasm_agents::guard::FaultVerdict;
use fipa_wasm_agents::router::{AgentRuntime, OutboundIntent};

/// Sends one message to `to` on every delivery; fails when `fail` is set.
struct Relay {
    to: Vec<String>,
    fail: bool,
    out: Vec<OutboundIntent>,
}

impl AgentRuntime for Relay {
    fn init(&mut self) -> Result<(), String> {
        Ok(())
    }
    fn config(&mut self, _from: &str, unl: &[u8], _body: &[u8]) -> Result<(), String> {
        for t in &self.to {
            self.out.push(OutboundIntent { receiver: t.clone(), unl: unl.to_vec(), body: Vec::new() });
        }
        if self.fail { Err("boom".into()) } else { Ok(()) }
    }
    fn take_sends(&mut self) -> Vec<OutboundIntent> {
        std::mem::take(&mut self.out)
    }
}

fn agent(uuid: &str, alias: &str, to: &[&str]) -> Mounted<Relay> {
    Mounted {
        uuid: uuid.into(),
        alias: alias.into(),
        runtime: Relay { to: to.iter().map(|s| s.to_string()).collect(), fail: false, out: Vec::new() },
        active: true,
        msg_limit: None,
        net: None,
    }
}

fn msg(from: &str, to: &str) -> NodeMessage {
    NodeMessage { from: from.into(), from_addr: "peer:1".into(), to: to.into(), unl: b"obj(go, x)".to_vec(), body: Vec::new() }
}

#[test]
fn pump_delivers_and_stamps_wire_sends() {
    let mut ex = Executor::new("node:9");
    ex.mount(agent("u-a", "a", &["remote"]));
    let out = ex.pump(msg("client", "a"), 100, 0);
    assert_eq!(out.taken, 1);
    assert_eq!(out.delivered, vec![("u-a".to_string(), FaultVerdict::Cleared)]);
    assert_eq!(out.wire.len(), 1);
    assert_eq!((out.wire[0].from.as_str(), out.wire[0].from_addr.as_str(), out.wire[0].to.as_str()), ("u-a", "node:9", "remote"));
    assert_eq!(out.checks[0].verdict, SendVerdict::Admitted);
    assert_eq!(ex.route("client"), Some("peer:1".to_string()));
}

#[test]
fn pump_routes_co_located_sends_in_process() {
    let mut ex = Executor::new("node:9");
    ex.mount(agent("u-a", "a", &["b"]));
    ex.mount(agent("u-b", "b", &[]));
    let out = ex.pump(msg("client", "u-a"), 100, 0);
    assert_eq!(out.delivered.len(), 2);
    assert_eq!(out.delivered[1].0, "u-b");
    assert!(out.wire.is_empty());
    let nowhere = ex.pump(msg("client", "ghost"), 100, 0);
    assert_eq!(nowhere.unrouted.len(), 1);
    assert!(nowhere.delivered.is_empty());
}

#[test]
fn pump_budget_bounds_a_message_loop() {
    let mut ex = Executor::new("n");
    ex.mount(agent("u-a", "a", &["b"]));
    ex.mount(agent("u-b", "b", &["a"]));
    let out = ex.pump(msg("client", "a"), 10, 0);
    assert_eq!(out.taken, 9);
    assert_eq!(out.delivered.len(), 9);
    assert_eq!(out.rest.len(), 1);
}

#[test]
fn pump_quarantines_a_faulting_agent_and_holds_inactive_ones() {
    let mut ex = Executor::new("n");
    let mut bad = agent("u-bad", "bad", &[]);
    bad.runtime.fail = true;
    ex.mount(bad);
    assert_eq!(ex.pump(msg("c", "bad"), 100, 0).delivered[0].1, FaultVerdict::Fault(1));
    assert_eq!(ex.pump(msg("c", "bad"), 100, 0).delivered[0].1, FaultVerdict::Fault(2));
    assert_eq!(ex.pump(msg("c", "bad"), 100, 0).delivered[0].1, FaultVerdict::Quarantined(3));
    assert!(ex.is_quarantined("u-bad"));
    let out = ex.pump(msg("c", "bad"), 100, 0);
    assert!(out.delivered.is_empty());
    assert_eq!(out.quarantined_drops, vec!["u-bad".to_string()]);
    let mut idle = agent("u-new", "new", &[]);
    idle.active = false;
    ex.mount(idle);
    let held = ex.pump(msg("c", "new"), 100, 0);
    assert!(held.delivered.is_empty());
    assert_eq!(held.held.len(), 1);
    assert_eq!(held.taken, 1);
    ex.set_active("u-new", true);
    assert_eq!(ex.pump(msg("c", "new"), 100, 0).delivered.len(), 1);
}

#[test]
fn pump_gates_sends_on_rate_then_scope() {
    let mut ex = Executor::new("n");
    let mut chatty = agent("u-a", "a", &["far", "far"]);
    chatty.msg_limit = Some(1);
    ex.mount(chatty);
    let out = ex.pump(msg("c", "a"), 100, 5000);
    assert_eq!(out.checks.len(), 2);
    assert_eq!(out.checks[0].verdict, SendVerdict::Admitted);
    assert_eq!(out.checks[1].verdict, SendVerdict::DeniedRate);
    assert_eq!(out.wire.len(), 1);

    let mut ex = Executor::new("n");
    let mut scoped = agent("u-s", "s", &["far", "b"]);
    scoped.net = Some("none".into());
    ex.mount(scoped);
    ex.mount(agent("u-b", "b", &[]));
    let out = ex.pump(msg("c", "s"), 100, 0);
    assert_eq!(out.checks[0].verdict, SendVerdict::DeniedNet);
    assert_eq!(out.checks[1].verdict, SendVerdict::Admitted);
    assert!(out.wire.is_empty());
    assert_eq!(out.delivered.len(), 2);
}

#[test]
fn pump_records_what_each_run_sent_and_accounts_for_every_message() {
    let mut ex = Executor::new("n");
    ex.mount(agent("u-a", "a", &["b", "far"]));
    ex.mount(agent("u-b", "b", &[]));
    let out = ex.pump(msg("c", "a"), 100, 0);
    assert_eq!(out.delivered[0].0, "u-a");
    assert_eq!(out.sent[0], vec!["b".to_string(), "far".to_string()]);
    assert_eq!(out.sent[1], Vec::<String>::new());
    assert_eq!(out.checks.len(), 2);
    assert_eq!((out.checks[0].agent.as_str(), out.checks[0].receiver.as_str()), ("u-a", "b"));
    assert!(out.checks[0].to_local && !out.checks[1].to_local);
    // the initial message and the one local send were both taken
    assert_eq!(out.taken, 2);
    assert_eq!(out.wire.len(), 1);
    assert!(out.rest.is_empty());
    let once = ex.pump(msg("c", "a"), 1, 0);
    assert_eq!(once.taken, 0);
    assert_eq!(once.rest.len(), 1);
}
