//! Message content: the content-language seam, the UNL language tag, the
//! data block of a block-container message, and the `not-understood` reply.
use vstd::prelude::*;
use crate::acl::{
    agent_opt, agents_view, copy_agent_opt, copy_text_opt, text_opt, uuid_v4_text, AclMessage,
    AgentId, AgentIdView, Performative,
};
use crate::block::{decode_spec, encode_file, first_with_tag, magic, BlockFile, TAG_DATA, TAG_UNL};
use crate::strmap::StrMap;
use crate::text::{concat, owned, str_eq};

verus! {

/// Vets a message's content before the agent acts on it. A verifier handles
/// the content languages it knows and passes everything else.
pub trait ContentVerifier {
    /// `Ok(())` to deliver the message; `Err(reason)` to answer it with
    /// `not-understood`.
    fn verify(&self, msg: &AclMessage) -> Result<(), String>;
}

/// The content-language tag of UNL messages.
pub const CONTENT_LANGUAGE: &'static str = "UNL";

/// Whether the message declares UNL as its content language.
pub fn is_unl(msg: &AclMessage) -> (r: bool)
    ensures
        r == (text_opt(msg.language) == Some("UNL"@)),
{
    match &msg.language {
        Some(l) => str_eq(l.as_str(), "UNL"),
        None => false,
    }
}

/// Attach content as a block container: a `UNL ` block with the serialized
/// UNL list `unl`, then a `DATA` block with `data`; the message is marked as
/// UNL in the block encoding. Nothing else of the message changes.
pub fn set_message_content(msg: &mut AclMessage, unl: Vec<u8>, data: &[u8])
    ensures
        final(msg).content@ == encode_file(seq![(TAG_UNL@, unl@), (TAG_DATA@, data@)]),
        text_opt(final(msg).language) == Some("UNL"@),
        text_opt(final(msg).encoding) == Some("application/x-fipa-blocks"@),
        final(msg).message_id == old(msg).message_id,
        final(msg).performative == old(msg).performative,
        final(msg).sender == old(msg).sender,
        final(msg).receivers == old(msg).receivers,
        final(msg).conversation_id == old(msg).conversation_id,
        final(msg).ontology == old(msg).ontology,
        final(msg).reply_to == old(msg).reply_to,
        final(msg).protocol == old(msg).protocol,
        final(msg).in_reply_to == old(msg).in_reply_to,
        final(msg).reply_with == old(msg).reply_with,
        final(msg).reply_by == old(msg).reply_by,
        final(msg).user_properties == old(msg).user_properties,
{
    let ghost u = unl@;
    let blocks = BlockFile::new().with(TAG_UNL, unl).with(TAG_DATA, vstd::slice::slice_to_vec(data));
    msg.content = blocks.encode();
    proof {
        assert(blocks@ =~= seq![(TAG_UNL@, u), (TAG_DATA@, data@)]);
    }
    msg.language = Some(owned(CONTENT_LANGUAGE));
    msg.encoding = Some(owned("application/x-fipa-blocks"));
}

/// The `DATA` block of content that is a block container; empty for other
/// content, a container that does not decode, or one without that block.
pub open spec fn message_data_of(content: Seq<u8>) -> Seq<u8> {
    if content.len() >= 4 && content.take(4) == magic() {
        match decode_spec(content) {
            Ok(bs) => match first_with_tag(bs, TAG_DATA@) {
                Some(i) => bs[i].1,
                None => Seq::empty(),
            },
            Err(_) => Seq::empty(),
        }
    } else {
        Seq::empty()
    }
}

/// The `DATA` block of a message's content.
pub fn message_data(msg: &AclMessage) -> (r: Vec<u8>)
    ensures
        r@ == message_data_of(msg.content@),
{
    if BlockFile::is_block_container(msg.content.as_slice()) {
        match BlockFile::decode(msg.content.as_slice()) {
            Ok(b) => match b.get(TAG_DATA) {
                Some(d) => vstd::slice::slice_to_vec(d),
                None => Vec::new(),
            },
            Err(_) => Vec::new(),
        }
    } else {
        Vec::new()
    }
}

/// The receivers of a reply: the original's sender, if any.
pub open spec fn back_to_sender(msg: AclMessage) -> Seq<AgentIdView> {
    match msg.sender {
        Some(s) => seq![s@],
        None => Seq::empty(),
    }
}

/// The `not-understood` reply to a message that could not be vetted: from
/// `from`, back to the sender, in the same conversation, answering the
/// message's reply-with; no content and no content language. Its id is `nu-`
/// and a fresh UUID.
pub fn not_understood(msg: &AclMessage, from: &str) -> (r: AclMessage)
    ensures
        r.message_id@.take(3) == "nu-"@,
        r.performative == Performative::NotUnderstood,
        agent_opt(r.sender) == Some(AgentIdView { name: from@, addresses: Seq::empty(), resolvers: Seq::empty() }),
        agents_view(r.receivers@) == back_to_sender(*msg),
        r.reply_to is None,
        r.protocol == msg.protocol,
        text_opt(r.conversation_id) == text_opt(msg.conversation_id),
        text_opt(r.in_reply_to) == text_opt(msg.reply_with),
        r.reply_with is None,
        r.reply_by is None,
        r.language is None,
        r.encoding is None,
        r.ontology is None,
        r.content@.len() == 0,
        r.user_properties@ == Map::<Seq<char>, Seq<char>>::empty(),
{
    let id = uuid_v4_text();
    let message_id = concat("nu-", id.as_str());
    proof {
        reveal_strlit("nu-");
        assert(message_id@.take(3) =~= "nu-"@);
    }
    let sender = AgentId::named(from);
    proof {
        assert(sender@.addresses =~= Seq::<String>::empty());
        assert(sender@.resolvers =~= Seq::<String>::empty());
    }
    let mut receivers: Vec<AgentId> = Vec::new();
    match copy_agent_opt(&msg.sender) {
        Some(s) => {
            receivers.push(s);
        },
        None => {},
    }
    proof {
        assert(agents_view(receivers@) =~= back_to_sender(*msg));
    }
    AclMessage {
        message_id,
        performative: Performative::NotUnderstood,
        sender: Some(sender),
        receivers,
        reply_to: None,
        protocol: msg.protocol,
        conversation_id: copy_text_opt(&msg.conversation_id),
        in_reply_to: copy_text_opt(&msg.reply_with),
        reply_with: None,
        reply_by: None,
        language: None,
        encoding: None,
        ontology: None,
        content: Vec::new(),
        user_properties: StrMap::new(),
    }
}

} // verus!
