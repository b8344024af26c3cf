use fipa_wasm_agents::acl::{AclMessage, AgentId, Performative, ProtocolType};
use fipa_wasm_agents::protocol::brokering::{BrokeringProtocol, BrokeringState, ProviderStatus};
use fipa_wasm_agents::protocol::contract_net::{ContractNetProtocol, ContractNetState};
use fipa_wasm_agents::protocol::state_machine::{
    create_response, ConversationBase, ProcessResult, ProtocolError, ProtocolStateMachine, Role,
};
use fipa_wasm_agents::strmap::StrMap;

fn agent(name: &str) -> AgentId {
    AgentId { name: name.into(), addresses: vec![], resolvers: vec![] }
}

fn msg(p: Performative, sender: Option<&str>, content: &[u8]) -> AclMessage {
    AclMessage {
        message_id: "m1".into(),
        performative: p,
        sender: sender.map(agent),
        receivers: vec![agent("me")],
        reply_to: None,
        protocol: Some(ProtocolType::ProtocolContractNet),
        conversation_id: Some("c1".into()),
        in_reply_to: None,
        reply_with: Some("r1".into()),
        reply_by: None,
        language: Some("fipa-sl".into()),
        encoding: None,
        ontology: None,
        content: content.to_vec(),
        user_properties: StrMap::new(),
    }
}

#[test]
fn test_brokering_basics() {
    let protocol = BrokeringProtocol::new_as_broker();
    assert_eq!(protocol.state(), BrokeringState::NotStarted);
}

#[test]
fn test_add_providers() {
    let mut protocol = BrokeringProtocol::new_as_broker();
    protocol.add_provider(AgentId { name: "provider1".into(), addresses: vec![], resolvers: vec![] });
    protocol.add_provider(AgentId { name: "provider2".into(), addresses: vec![], resolvers: vec![] });
    assert_eq!(protocol.providers().len(), 2);
}

#[test]
fn test_consolidation() {
    let mut protocol = BrokeringProtocol::new_as_broker();
    for p in [Performative::Proxy, Performative::Request, Performative::Agree] {
        protocol.process(msg(p, Some("someone"), b"")).unwrap();
    }
    assert_eq!(protocol.state(), BrokeringState::WaitingResponses);
    protocol.add_provider(AgentId { name: "provider1".into(), addresses: vec![], resolvers: vec![] });
    protocol.update_provider("provider1", ProviderStatus::Completed, Some(b"result1".to_vec()));
    protocol.consolidate().unwrap();
    assert_eq!(protocol.results().len(), 1);
    assert_eq!(protocol.state(), BrokeringState::Completed);
}

#[test]
fn brokering_full_flow_reports_json_results() {
    let mut b = BrokeringProtocol::new_as_broker();
    b.add_provider(agent("p1"));
    b.add_provider(agent("p2"));
    assert!(matches!(b.process(msg(Performative::Proxy, Some("init"), b"ask")), Ok(ProcessResult::Continue)));
    b.process(msg(Performative::Request, Some("me"), b"")).unwrap();
    b.process(msg(Performative::Agree, Some("p1"), b"")).unwrap();
    b.process(msg(Performative::Refuse, Some("p2"), b"")).unwrap();
    assert!(b.all_responded() == false);
    b.process(msg(Performative::InformResult, Some("p1"), &[1, 200])).unwrap();
    assert_eq!(b.state(), BrokeringState::Consolidating);
    assert_eq!(b.successful_count(), 1);
    assert!(b.all_responded());
    match b.process(msg(Performative::Inform, Some("me"), b"")).unwrap() {
        ProcessResult::Complete(d) => assert_eq!(d.result.unwrap(), b"[[1,200]]".to_vec()),
        _ => panic!("expected completion"),
    }
    assert!(b.is_complete() && !b.is_failed());
    assert_eq!(b.state_name(), "completed");
    assert_eq!(b.message_history().len(), 6);
    assert_eq!(b.serialize_state().unwrap(), b"completed".to_vec());
}

#[test]
fn brokering_failure_cancel_and_invalid() {
    let mut b = BrokeringProtocol::new_as_initiator();
    let e = b.process(msg(Performative::Inform, None, b"")).unwrap_err();
    assert!(matches!(&e, ProtocolError::InvalidTransition { from, to } if from == "not_started" && to == "Inform"));
    assert_eq!(e.message(), "Invalid state transition from not_started to Inform");
    assert!(matches!(b.process(msg(Performative::Cancel, None, b"")), Ok(ProcessResult::Failed(m)) if m == "Brokering cancelled"));
    assert!(b.is_failed());
    let mut c = BrokeringProtocol::new_as_broker();
    assert!(matches!(c.process(msg(Performative::Failure, None, b"")), Ok(ProcessResult::Failed(m)) if m == "Brokering failed"));
    let mut d = BrokeringProtocol::new_as_broker();
    assert!(d.consolidate().is_err());
    assert_eq!(d.expected_performatives(), vec![Performative::Proxy]);
    assert_eq!(d.protocol_type(), ProtocolType::ProtocolBrokering);
}

#[test]
fn consolidation_without_results_fails() {
    let mut b = BrokeringProtocol::new_as_broker();
    for p in [Performative::Proxy, Performative::Request, Performative::Refuse] {
        b.process(msg(p, Some("x"), b"")).unwrap();
    }
    b.add_provider(agent("p"));
    b.update_provider("p", ProviderStatus::Completed, None);
    b.consolidate().unwrap();
    assert_eq!(b.state(), BrokeringState::Failed);
    assert!(b.results().is_empty());
}

#[test]
fn contract_net_happy_path() {
    let mut cn = ContractNetProtocol::new(Role::Initiator).with_expected_participants(2);
    assert_eq!(cn.expected_performatives(), vec![Performative::Cfp]);
    assert!(matches!(cn.process(msg(Performative::Cfp, Some("boss"), b"task")), Ok(ProcessResult::Continue)));
    cn.process(msg(Performative::Propose, Some("bidder1"), b"10")).unwrap();
    cn.process(msg(Performative::Propose, Some("bidder2"), b"12")).unwrap();
    cn.process(msg(Performative::Refuse, Some("bidder3"), b"")).unwrap();
    assert_eq!(cn.proposals().len(), 2);
    let won = cn.accept_proposal("bidder2").unwrap();
    assert_eq!(won.content, b"12".to_vec());
    assert!(cn.accept_proposal("nobody").is_none());
    cn.process(msg(Performative::AcceptProposal, Some("boss"), b"")).unwrap();
    assert_eq!(cn.state(), ContractNetState::InExecution);
    match cn.process(msg(Performative::InformResult, Some("bidder2"), b"done")).unwrap() {
        ProcessResult::Complete(d) => assert_eq!(d.result, Some(b"done".to_vec())),
        _ => panic!("expected completion"),
    }
    assert!(cn.is_complete() && !cn.is_failed());
    assert!(cn.validate(&msg(Performative::Propose, Some("late"), b"")).is_err());
    assert_eq!(cn.message_history().len(), 6);
}

#[test]
fn contract_net_rejection_and_failure() {
    let mut cn = ContractNetProtocol::new(Role::Participant);
    cn.process(msg(Performative::Cfp, None, b"")).unwrap();
    cn.process(msg(Performative::Refuse, Some("b"), b"")).unwrap();
    assert!(matches!(cn.process(msg(Performative::RejectProposal, None, b"")), Ok(ProcessResult::Failed(m)) if m == "Contract net failed"));
    assert!(cn.is_failed());
    assert_eq!(cn.state_name(), "rejected");
    let e = cn.process(msg(Performative::Cfp, None, b"")).unwrap_err();
    assert!(matches!(e, ProtocolError::InvalidTransition { from, to } if from == "rejected" && to == "Cfp"));
}

#[test]
fn conversation_base_dedupes_participants_and_checks_deadlines() {
    let mut b = ConversationBase::started("conv".into(), Role::Broker, 1000);
    b.add_participant(agent("a"));
    b.add_participant(agent("b"));
    b.add_participant(agent("a"));
    assert_eq!(b.participants.len(), 2);
    b.record_message(msg(Performative::Inform, None, b""));
    assert_eq!(b.messages.len(), 1);
    assert!(!b.is_expired_at(5000));
    b.deadline = Some(2000);
    assert!(!b.is_expired_at(2000));
    assert!(b.is_expired_at(2001));
}

#[test]
fn responses_go_back_to_the_sender() {
    let original = msg(Performative::Request, Some("asker"), b"q");
    let r = create_response(&original, Performative::Agree, b"ok".to_vec());
    assert_eq!(r.performative, Performative::Agree);
    assert_eq!(r.sender.unwrap().name, "me");
    assert_eq!(r.receivers.len(), 1);
    assert_eq!(r.receivers[0].name, "asker");
    assert_eq!(r.in_reply_to.as_deref(), Some("m1"));
    assert_eq!(r.conversation_id.as_deref(), Some("c1"));
    assert_eq!(r.language.as_deref(), Some("fipa-sl"));
    assert_eq!(r.content, b"ok".to_vec());
    assert!(!r.message_id.is_empty());
}

#[test]
fn protocol_error_texts() {
    assert_eq!(ProtocolError::NotSupported(ProtocolType::ProtocolQuery).message(), "Protocol not supported: ProtocolQuery");
    assert_eq!(ProtocolError::Timeout.message(), "Timeout waiting for response");
    assert_eq!(ProtocolError::UnknownConversation("x".into()).message(), "Unknown conversation: x");
}

#[test]
fn responses_get_hyphenated_uuid_message_ids() {
    let original = msg(Performative::Request, Some("asker"), b"q");
    let r = create_response(&original, Performative::Agree, b"ok".to_vec());
    assert_eq!(r.message_id.len(), 36);
    for k in [8, 13, 18, 23] {
        assert_eq!(r.message_id.as_bytes()[k], b'-');
    }
}
