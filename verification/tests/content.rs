use fipa_wasm_agents::acl::{AclMessage, AgentId, Performative, ProtocolType};
use fipa_wasm_agents::block::{BlockFile, TAG_DATA, TAG_UNL};
use fipa_wasm_agents::content::{is_unl, message_data, not_understood, set_message_content, CONTENT_LANGUAGE};
use fipa_wasm_agents::strmap::StrMap;

fn message(language: Option<&str>, content: Vec<u8>) -> AclMessage {
    AclMessage {
        message_id: "m".into(),
        performative: Performative::Inform,
        sender: Some(AgentId { name: "s".into(), addresses: vec![], resolvers: vec![] }),
        receivers: vec![],
        reply_to: None,
        protocol: Some(ProtocolType::ProtocolRequest),
        conversation_id: Some("conv".into()),
        in_reply_to: None,
        reply_with: Some("rw".into()),
        reply_by: None,
        language: language.map(str::to_string),
        encoding: None,
        ontology: None,
        content,
        user_properties: StrMap::new(),
    }
}

#[test]
fn unl_language_is_recognized_exactly() {
    assert_eq!(CONTENT_LANGUAGE, "UNL");
    assert!(is_unl(&message(Some("UNL"), vec![])));
    assert!(!is_unl(&message(Some("unl"), vec![])));
    assert!(!is_unl(&message(None, vec![])));
}

#[test]
fn data_block_is_extracted_from_block_content_only() {
    let blocks = BlockFile::new().with(TAG_UNL, b"agt(x, y)".to_vec()).with(TAG_DATA, vec![4, 5]).encode();
    assert_eq!(message_data(&message(Some("UNL"), blocks)), vec![4, 5]);
    let no_data = BlockFile::new().with(TAG_UNL, b"u".to_vec()).encode();
    assert!(message_data(&message(None, no_data)).is_empty());
    assert!(message_data(&message(None, b"plain text".to_vec())).is_empty());
    assert!(message_data(&message(None, b"FBLK\x09".to_vec())).is_empty());
}

#[test]
fn not_understood_threads_back_to_the_sender() {
    let m = message(Some("UNL"), b"agt(x, y)".to_vec());
    let r = not_understood(&m, "me");
    assert!(r.message_id.starts_with("nu-"));
    assert_eq!(r.performative, Performative::NotUnderstood);
    assert_eq!(r.sender.as_ref().unwrap().name, "me");
    assert_eq!(r.receivers.len(), 1);
    assert_eq!(r.receivers[0].name, "s");
    assert_eq!(r.conversation_id.as_deref(), Some("conv"));
    assert_eq!(r.in_reply_to.as_deref(), Some("rw"));
    assert_eq!(r.protocol, Some(ProtocolType::ProtocolRequest));
    assert!(r.language.is_none() && r.content.is_empty());
}

#[test]
fn attached_content_carries_unl_and_data_blocks() {
    let mut m = message(None, b"old".to_vec());
    set_message_content(&mut m, b"agt(greet, you)".to_vec(), b"payload");
    assert!(is_unl(&m));
    assert_eq!(m.encoding.as_deref(), Some("application/x-fipa-blocks"));
    assert_eq!(message_data(&m), b"payload".to_vec());
    let blocks = BlockFile::decode(&m.content).unwrap();
    assert_eq!(blocks.get(TAG_UNL), Some(&b"agt(greet, you)"[..]));
    assert_eq!(m.message_id, "m");
}
