//! The platform agents' messages on the wire: reading a message body (with
//! its verb and subject, taken from the UNL sentence by the host) into the
//! agents' events, and writing their actions as `(to, unl, body)`.
use vstd::prelude::*;
use crate::address::{opt_text, texts};
use crate::ams::{locate_spec, Ams, Located};
use crate::ba::{Book, BuyerAction, BuyerEvent};
use crate::bs::{SellerAction, SellerEvent};
use crate::df::{offer_spec, providers_of, Df};
use crate::escrow::{refusal_text, Escrow, HoldState, Refusal, SettleOutcome};
use crate::json::{
    body_array_len, body_item_str_field, body_item_u64_field, body_str_field, body_str_list,
    body_u64_field, json_array_len, json_item_str_field, json_item_u64_field, json_obj_s,
    json_obj_ss, json_obj_su, json_obj_sus, json_str_array, json_str_field, json_str_list,
    json_u64_field, obj_s, obj_ss, obj_su, obj_sus, str_array,
};
use crate::text::{concat, owned, str_eq};

verus! {

/// An outgoing message: recipient, UNL sentence, body.
pub type Outgoing = (String, String, Vec<u8>);

/// An outgoing message as plain values.
pub open spec fn out_view(o: Outgoing) -> (Seq<char>, Seq<char>, Seq<u8>) {
    (o.0@, o.1@, o.2@)
}

/// Outgoing messages as plain values.
pub open spec fn outs_view(v: Seq<Outgoing>) -> Seq<(Seq<char>, Seq<char>, Seq<u8>)> {
    v.map_values(|o: Outgoing| out_view(o))
}

/// The UNL sentence `obj(kind, subject)`.
pub open spec fn obj_unl(kind: Seq<char>, subject: Seq<char>) -> Seq<char> {
    "obj("@ + kind + ", "@ + subject + ")"@
}

fn make_unl(kind: &str, subject: &str) -> (r: String)
    ensures
        r@ == obj_unl(kind@, subject@),
{
    let a = concat("obj(", kind);
    let b = concat(a.as_str(), ", ");
    let c = concat(b.as_str(), subject);
    concat(c.as_str(), ")")
}

/// Books as plain values.
pub open spec fn books_view(v: Seq<Book>) -> Seq<(Seq<char>, u64)> {
    v.map_values(|b: Book| (b.title@, b.price))
}

/// Whether every item of the array `body` (of `n` items) has a string title
/// and a `u64` price.
pub open spec fn items_are_books(body: Seq<u8>, n: nat) -> bool {
    forall|i: nat| i < n ==> (#[trigger] json_item_str_field(body, i, "title"@)) is Some
        && json_item_u64_field(body, i, "price"@) is Some
}

/// The books a catalog body lists: an array of objects each with a string
/// `title` and a `u64` `price`; anything else lists none.
pub open spec fn catalog_books(body: Seq<u8>) -> Seq<(Seq<char>, u64)> {
    match json_array_len(body) {
        Some(n) => if items_are_books(body, n) {
            Seq::new(n, |i: int| (json_item_str_field(body, i as nat, "title"@)->0, json_item_u64_field(body, i as nat, "price"@)->0))
        } else {
            Seq::empty()
        },
        None => Seq::empty(),
    }
}

fn read_books(body: &[u8]) -> (r: Vec<Book>)
    ensures
        books_view(r@) == catalog_books(body@),
{
    let n = match body_array_len(body) {
        Some(n) => n,
        None => {
            assert(books_view(Seq::<Book>::empty()) =~= Seq::<(Seq<char>, u64)>::empty());
            return Vec::new();
        },
    };
    let mut r: Vec<Book> = Vec::new();
    let mut i: usize = 0;
    while i < n
        invariant
            i <= n,
            json_array_len(body@) == Some(n as nat),
            r@.len() == i,
            forall|j: int| 0 <= j < i ==> (#[trigger] books_view(r@)[j]) == (
                json_item_str_field(body@, j as nat, "title"@)->0, json_item_u64_field(body@, j as nat, "price"@)->0),
            forall|j: nat| j < i ==> (#[trigger] json_item_str_field(body@, j, "title"@)) is Some
                && json_item_u64_field(body@, j, "price"@) is Some,
        decreases n - i,
    {
        let t = body_item_str_field(body, i, "title");
        let p = body_item_u64_field(body, i, "price");
        match (t, p) {
            (Some(title), Some(price)) => {
                let ghost before = r@;
                let ghost tv = title@;
                assert(tv == json_item_str_field(body@, i as nat, "title"@)->0);
                assert(price == json_item_u64_field(body@, i as nat, "price"@)->0);
                r.push(Book { title, price });
                proof {
                    assert(books_view(r@)[i as int] == (r@[i as int].title@, r@[i as int].price));
                    assert(r@[i as int].title@ == tv);
                    assert forall|j: int| 0 <= j <= i implies (#[trigger] books_view(r@)[j]) == (
                        json_item_str_field(body@, j as nat, "title"@)->0, json_item_u64_field(body@, j as nat, "price"@)->0) by {
                        if j < i {
                            assert(r@[j] == before[j]);
                            assert(books_view(before)[j] == (before[j].title@, before[j].price));
                        }
                    }
                }
            },
            _ => {
                proof {
                    assert(!items_are_books(body@, n as nat)) by {
                        assert(i < n);
                    }
                    assert(books_view(Seq::<Book>::empty()) =~= Seq::<(Seq<char>, u64)>::empty());
                }
                return Vec::new();
            },
        }
        i = i + 1;
    }
    proof {
        assert(items_are_books(body@, n as nat));
        assert(books_view(r@) =~= catalog_books(body@));
    }
    r
}

/// The buyer's event for a message with verb `verb` and body `body`.
pub open spec fn buyer_event_of(verb: Seq<char>, body: Seq<u8>, ev: BuyerEvent) -> bool {
    if verb == "start"@ {
        ev is Start
    } else if verb == "provide"@ {
        ev matches BuyerEvent::Provide(ps) && texts(ps@) == match json_str_list(body) {
            Some(l) => l,
            None => Seq::empty(),
        }
    } else if verb == "at"@ {
        ev matches BuyerEvent::At(a) && opt_text(a) == json_str_field(body, "address"@)
    } else if verb == "catalog"@ {
        ev matches BuyerEvent::Catalog(bs) && books_view(bs@) == catalog_books(body)
    } else if verb == "receipt"@ {
        ev matches BuyerEvent::Receipt(s) && s@ == match json_str_field(body, "status"@) {
            Some(t) => t,
            None => Seq::empty(),
        }
    } else if verb == "deliver"@ {
        ev is Deliver
    } else if verb == "deny"@ {
        ev matches BuyerEvent::Deny(r) && opt_text(r) == json_str_field(body, "reason"@)
    } else {
        ev is Other
    }
}

/// The buyer's event for a message with verb `verb`: the providers, address,
/// books, receipt status or refusal reason its body carries.
pub fn buyer_event(verb: &str, body: &[u8]) -> (ev: BuyerEvent)
    ensures
        buyer_event_of(verb@, body@, ev),
{
    if str_eq(verb, "start") {
        BuyerEvent::Start
    } else if str_eq(verb, "provide") {
        match body_str_list(body) {
            Some(l) => BuyerEvent::Provide(l),
            None => {
                assert(texts(Seq::<String>::empty()) =~= Seq::<Seq<char>>::empty());
                BuyerEvent::Provide(Vec::new())
            },
        }
    } else if str_eq(verb, "at") {
        BuyerEvent::At(body_str_field(body, "address"))
    } else if str_eq(verb, "catalog") {
        BuyerEvent::Catalog(read_books(body))
    } else if str_eq(verb, "receipt") {
        match body_str_field(body, "status") {
            Some(s) => BuyerEvent::Receipt(s),
            None => BuyerEvent::Receipt(String::new()),
        }
    } else if str_eq(verb, "deliver") {
        BuyerEvent::Deliver
    } else if str_eq(verb, "deny") {
        BuyerEvent::Deny(body_str_field(body, "reason"))
    } else {
        BuyerEvent::Other
    }
}

/// The body of a buyer's message.
pub open spec fn buyer_body(act: BuyerAction) -> Seq<u8> {
    match act {
        BuyerAction::Locate(agent) => json_obj_s("agent"@, agent@),
        BuyerAction::Reserve { seller, amount } => json_obj_su("seller"@, seller@, "amount"@, amount),
        BuyerAction::Failed(why) => vstd::utf8::encode_utf8(why@),
        _ => Seq::empty(),
    }
}

/// The message for a buyer action: its recipient and UNL, with the located
/// agent or the reservation terms as JSON, or the failure reason as text.
pub fn buyer_message(act: &BuyerAction) -> (m: Outgoing)
    ensures
        m.0@ == match *act {
            BuyerAction::Seek => "df"@,
            BuyerAction::Locate(_) => "ams"@,
            BuyerAction::AskCatalog(s) => s@,
            BuyerAction::Reserve { .. } => "pa"@,
            BuyerAction::Bought => "result"@,
            BuyerAction::Failed(_) => "result"@,
        },
        m.1@ == match *act {
            BuyerAction::Seek => "obj(seek, bookselling)"@,
            BuyerAction::Locate(_) => "obj(locate, agent)"@,
            BuyerAction::AskCatalog(_) => "obj(catalog, systemdynamics)"@,
            BuyerAction::Reserve { .. } => "obj(reserve, LtG)"@,
            BuyerAction::Bought => "obj(bought, LtG)"@,
            BuyerAction::Failed(_) => "obj(failed, x)"@,
        },
        m.2@ == buyer_body(*act),
{
    let body = match act {
        BuyerAction::Locate(agent) => obj_s("agent", agent.as_str()),
        BuyerAction::Reserve { seller, amount } => obj_su("seller", seller.as_str(), "amount", *amount),
        BuyerAction::Failed(why) => crate::text::str_bytes(why.as_str()),
        _ => Vec::new(),
    };
    (act.to(), act.unl(), body)
}

/// The seller's event for a message with verb `verb` about `subject`.
pub open spec fn seller_event_of(verb: Seq<char>, subject: Seq<char>, body: Seq<u8>, ev: SellerEvent) -> bool {
    if verb == "catalog"@ {
        ev is Catalog
    } else if verb == "receipt"@ {
        ev matches SellerEvent::Receipt { order, status, buyer } && order@ == subject
            && status@ == match json_str_field(body, "status"@) {
                Some(t) => t,
                None => Seq::empty(),
            }
            && opt_text(buyer) == json_str_field(body, "buyer"@)
    } else {
        ev is Other
    }
}

/// The seller's event for a message with verb `verb` about `subject`: a
/// receipt carries the order, its status and the buyer.
pub fn seller_event(verb: &str, subject: &str, body: &[u8]) -> (ev: SellerEvent)
    ensures
        seller_event_of(verb@, subject@, body@, ev),
{
    if str_eq(verb, "catalog") {
        SellerEvent::Catalog
    } else if str_eq(verb, "receipt") {
        let status = match body_str_field(body, "status") {
            Some(s) => s,
            None => String::new(),
        };
        SellerEvent::Receipt { order: owned(subject), status, buyer: body_str_field(body, "buyer") }
    } else {
        SellerEvent::Other
    }
}

/// The JSON objects of a book list, comma-separated.
pub open spec fn book_objects(v: Seq<Book>) -> Seq<u8>
    decreases v.len(),
{
    if v.len() == 0 {
        Seq::empty()
    } else if v.len() == 1 {
        json_obj_su("title"@, v[0].title@, "price"@, v[0].price)
    } else {
        book_objects(v.drop_last()) + seq![44u8] + json_obj_su("title"@, v.last().title@, "price"@, v.last().price)
    }
}

/// A book list as a JSON array of `{title, price}` objects, as serde_json
/// writes a list: `[`, the items separated by `,`, `]`.
pub open spec fn books_json(v: Seq<Book>) -> Seq<u8> {
    seq![91u8] + book_objects(v) + seq![93u8]
}

fn write_books(books: &Vec<Book>) -> (r: Vec<u8>)
    ensures
        r@ == books_json(books@),
{
    let mut r: Vec<u8> = Vec::new();
    r.push(91u8);
    let mut i: usize = 0;
    while i < books.len()
        invariant
            i <= books@.len(),
            r@ == seq![91u8] + book_objects(books@.take(i as int)),
        decreases books@.len() - i,
    {
        let o = obj_su("title", books[i].title.as_str(), "price", books[i].price);
        let ghost before = r@;
        if i > 0 {
            r.push(44u8);
        }
        crate::wire::put_bytes(&mut r, o.as_slice());
        proof {
            let t = books@.take(i as int + 1);
            assert(t.drop_last() =~= books@.take(i as int));
            assert(t.last() == books@[i as int]);
            if i == 0 {
                assert(t.len() == 1);
                assert(r@ =~= seq![91u8] + book_objects(t));
            } else {
                assert(r@ =~= seq![91u8] + book_objects(t));
            }
        }
        i = i + 1;
    }
    r.push(93u8);
    assert(books@.take(i as int) =~= books@);
    r
}

/// The message for a seller action: the catalog (as JSON) goes back to
/// `asker`, an acceptance to PA, a delivery to the buyer.
pub fn seller_message(act: &SellerAction, asker: &str) -> (m: Outgoing)
    ensures
        m.1@ == match *act {
            SellerAction::Catalog(_) => "obj(catalog, systemdynamics)"@,
            SellerAction::Accept(o) => "obj(accept, "@ + o@ + ")"@,
            SellerAction::Deliver { order, .. } => "obj(deliver, "@ + order@ + ")"@,
        },
        match *act {
            SellerAction::Catalog(books) => m.0@ == asker@ && m.2@ == books_json(books@),
            SellerAction::Accept(_) => m.0@ == "pa"@ && m.2@.len() == 0,
            SellerAction::Deliver { buyer, .. } => m.0@ == buyer@ && m.2@.len() == 0,
        },
{
    match act {
        SellerAction::Catalog(books) => (owned(asker), act.unl(), write_books(books)),
        SellerAction::Accept(_) => (owned("pa"), act.unl(), Vec::new()),
        SellerAction::Deliver { buyer, .. } => (buyer.clone(), act.unl(), Vec::new()),
    }
}


/// One message with an empty body.
fn bare(to: &str, unl: String) -> (r: Vec<Outgoing>)
    ensures
        outs_view(r@) == seq![(to@, unl@, Seq::<u8>::empty())],
{
    let mut r: Vec<Outgoing> = Vec::new();
    r.push((owned(to), unl, Vec::new()));
    assert(outs_view(r@) =~= seq![(to@, unl@, Seq::<u8>::empty())]);
    r
}

/// One message.
fn one(to: String, unl: String, body: Vec<u8>) -> (r: Vec<Outgoing>)
    ensures
        outs_view(r@) == seq![(to@, unl@, body@)],
{
    let mut r: Vec<Outgoing> = Vec::new();
    r.push((to, unl, body));
    assert(outs_view(r@) =~= seq![(to@, unl@, body@)]);
    r
}

/// Two messages.
fn two(a: Outgoing, b: Outgoing) -> (r: Vec<Outgoing>)
    ensures
        outs_view(r@) == seq![out_view(a), out_view(b)],
{
    let ghost (va, vb) = (out_view(a), out_view(b));
    let mut r: Vec<Outgoing> = Vec::new();
    r.push(a);
    r.push(b);
    assert(outs_view(r@) =~= seq![va, vb]);
    r
}

/// The AMS's reply to a `locate` of `agent` from `from`.
pub open spec fn locate_reply(a: crate::ams::AmsView, from: Seq<char>, agent: Seq<char>) -> (Seq<char>, Seq<char>, Seq<u8>) {
    if a.records.contains_key(agent) {
        (from, "obj(at, agent)"@, json_obj_ss("agent"@, agent, "address"@, a.records[agent]))
    } else {
        match a.upstream {
            Some(u) => (from, "obj(refer, agent)"@, json_obj_ss("agent"@, agent, "ams"@, u)),
            None => (from, "obj(at, agent)"@, json_obj_s("agent"@, agent)),
        }
    }
}

/// Handle a message to the AMS with verb `verb` from `from`: `bind` binds the
/// sender's own id to the address in the body and answers `bound` or
/// `refuse`; `locate` answers where the agent named in the body is (no reply
/// when the body names none); other verbs get no reply.
pub fn ams_request(ams: &mut Ams, verb: &str, from: &str, body: &[u8]) -> (out: Vec<Outgoing>)
    ensures
        verb@ == "bind"@ ==> {
            let agent = json_str_field(body@, "agent"@);
            let address = json_str_field(body@, "address"@);
            let bound = agent matches Some(a) && address is Some && a == from@;
            &&& outs_view(out@) == seq![(from@, if bound { "obj(bound, agent)"@ } else { "obj(refuse, agent)"@ }, Seq::<u8>::empty())]
            &&& bound ==> final(ams)@ == (crate::ams::AmsView { records: old(ams)@.records.insert(from@, address->0), ..old(ams)@ })
            &&& !bound ==> final(ams)@ == old(ams)@
        },
        verb@ == "locate"@ ==> final(ams)@ == old(ams)@ && match json_str_field(body@, "agent"@) {
            Some(a) => outs_view(out@) == seq![locate_reply(old(ams)@, from@, a)],
            None => out@.len() == 0,
        },
        verb@ != "bind"@ && verb@ != "locate"@ ==> out@.len() == 0 && final(ams)@ == old(ams)@,
{
    proof {
        reveal_strlit("bind");
        reveal_strlit("locate");
        assert("locate"@[0] != "bind"@[0]);
    }
    if str_eq(verb, "bind") {
        let agent = body_str_field(body, "agent");
        let address = body_str_field(body, "address");
        let ag: Option<&str> = match &agent {
            Some(a) => Some(a.as_str()),
            None => None,
        };
        let ad: Option<&str> = match &address {
            Some(a) => Some(a.as_str()),
            None => None,
        };
        let bound = ams.request_bind(from, ag, ad);
        let unl = if bound { owned("obj(bound, agent)") } else { owned("obj(refuse, agent)") };
        bare(from, unl)
    } else if str_eq(verb, "locate") {
        let agent = match body_str_field(body, "agent") {
            Some(a) => a,
            None => {
                return Vec::new();
            },
        };
        let (unl, b) = match ams.locate(agent.as_str()) {
            Located::At(addr) => (owned("obj(at, agent)"), obj_ss("agent", agent.as_str(), "address", addr.as_str())),
            Located::Refer(up) => (owned("obj(refer, agent)"), obj_ss("agent", agent.as_str(), "ams", up.as_str())),
            Located::NotFound => (owned("obj(at, agent)"), obj_s("agent", agent.as_str())),
        };
        one(owned(from), unl, b)
    } else {
        Vec::new()
    }
}

/// Handle a message to the DF about `service` from `from`: `offer` registers
/// the sender (answering `registered` or `refuse`), `seek` answers with the
/// providers as a JSON list; other verbs get no reply.
pub fn df_request(df: &mut Df, verb: &str, service: &str, from: &str) -> (out: Vec<Outgoing>)
    ensures
        verb@ == "offer"@ ==> {
            let (reg, after) = offer_spec(old(df)@, from@, service@);
            &&& final(df)@ == after
            &&& outs_view(out@) == seq![(from@, obj_unl(if reg { "registered"@ } else { "refuse"@ }, service@), Seq::<u8>::empty())]
        },
        verb@ == "seek"@ ==> final(df)@ == old(df)@
            && outs_view(out@) == seq![(from@, obj_unl("provide"@, service@), json_str_array(providers_of(old(df)@, service@)))],
        verb@ != "offer"@ && verb@ != "seek"@ ==> out@.len() == 0 && final(df)@ == old(df)@,
{
    proof {
        reveal_strlit("offer");
        reveal_strlit("seek");
        assert("offer"@[0] != "seek"@[0]);
    }
    if str_eq(verb, "offer") {
        let reg = df.offer(from, service);
        let unl = if reg { make_unl("registered", service) } else { make_unl("refuse", service) };
        bare(from, unl)
    } else if str_eq(verb, "seek") {
        let providers = df.providers(service);
        one(owned(from), make_unl("provide", service), str_array(&providers))
    } else {
        Vec::new()
    }
}

/// How the escrow answers a reservation of `amount` for `seller` by `buyer`.
pub open spec fn reserve_result(e: Escrow, order: Seq<char>, buyer: Seq<char>, seller: Option<Seq<char>>, amount: Option<u64>) -> Result<(), Refusal> {
    if e.hold_of(order) is Some {
        Err(Refusal::DuplicateOrder)
    } else if seller is None || amount is None {
        Err(Refusal::BadRequest)
    } else if amount == Some(0u64) {
        Err(Refusal::BadAmount)
    } else if e.balance_of(buyer) < amount->0 {
        Err(Refusal::Insufficient)
    } else {
        Ok(())
    }
}

/// PA's replies to a reservation: `held` receipts to the buyer and (naming
/// the buyer) to the seller, or a refusal to the buyer.
pub open spec fn reserve_replies(r: Result<(), Refusal>, order: Seq<char>, buyer: Seq<char>, seller: Option<Seq<char>>, amount: Option<u64>)
    -> Seq<(Seq<char>, Seq<char>, Seq<u8>)>
{
    match r {
        Ok(_) => seq![
            (buyer, obj_unl("receipt"@, order), json_obj_su("status"@, "held"@, "amount"@, amount->0)),
            (seller->0, obj_unl("receipt"@, order), json_obj_sus("status"@, "held"@, "amount"@, amount->0, "buyer"@, buyer)),
        ],
        Err(x) => seq![(buyer, obj_unl("deny"@, order), json_obj_s("reason"@, refusal_text(x)))],
    }
}

/// PA's replies to an accept (`to_seller`) or a deny of `order` by `from`:
/// nothing for an unknown order, a refusal to an unauthorized sender,
/// `paid` or `cancelled` receipts to both parties when the order is settled
/// now or was already settled the same way, and nothing when it was settled
/// the other way (a paid order is not cancelled, nor a cancelled one paid).
pub open spec fn settle_replies(h: Option<crate::escrow::HoldView>, order: Seq<char>, from: Seq<char>, to_seller: bool)
    -> Seq<(Seq<char>, Seq<char>, Seq<u8>)>
{
    match h {
        None => Seq::empty(),
        Some(h) => {
            let allowed = if to_seller { from == h.seller } else { from == h.buyer || from == h.seller };
            let status = if to_seller { "paid"@ } else { "cancelled"@ };
            let done = if to_seller { HoldState::Paid } else { HoldState::Cancelled };
            if !allowed {
                seq![(from, obj_unl("deny"@, order), json_obj_s("reason"@, "unauthorized"@))]
            } else if h.state != HoldState::Held && h.state != done {
                Seq::empty()
            } else {
                seq![
                    (h.buyer, obj_unl("receipt"@, order), json_obj_su("status"@, status, "amount"@, h.amount)),
                    (h.seller, obj_unl("receipt"@, order), json_obj_su("status"@, status, "amount"@, h.amount)),
                ]
            }
        },
    }
}

/// What settling `order` by `from` does to the escrow: an authorized
/// settlement of a held order pays the seller (`to_seller`) or refunds the
/// buyer and closes the hold; anything else changes nothing.
pub open spec fn settle_effect(e0: Escrow, e1: Escrow, order: Seq<char>, from: Seq<char>, to_seller: bool) -> bool {
    match e0.hold_of(order) {
        Some(h) => {
            let allowed = if to_seller { from == h.seller } else { from == h.buyer || from == h.seller };
            let payee = if to_seller { h.seller } else { h.buyer };
            if allowed && h.state == HoldState::Held {
                &&& e1.balance_of(payee) == e0.balance_of(payee) + h.amount
                &&& forall|b: Seq<char>| b != payee ==> #[trigger] e1.balance_of(b) == e0.balance_of(b)
                &&& e1.hold_of(order) == Some(crate::escrow::HoldView {
                    state: if to_seller { HoldState::Paid } else { HoldState::Cancelled },
                    ..h
                })
                &&& forall|o: Seq<char>| o != order ==> #[trigger] e1.hold_of(o) == e0.hold_of(o)
            } else {
                e1.same_as(e0)
            }
        },
        None => e1.same_as(e0),
    }
}

fn receipt(to: &str, order: &str, status: &str, amount: u64) -> (m: Outgoing)
    ensures
        out_view(m) == (to@, obj_unl("receipt"@, order@), json_obj_su("status"@, status@, "amount"@, amount)),
{
    (owned(to), make_unl("receipt", order), obj_su("status", status, "amount", amount))
}

/// Handle a message to the payment agent: `reserve`, `accept` or `deny` of
/// `order` by `from`, with the reservation terms (`seller`, `amount`) in the
/// body. Settling must leave the payee's balance within a `u64`.
pub fn pa_request(pa: &mut Escrow, verb: &str, order: &str, from: &str, body: &[u8]) -> (out: Vec<Outgoing>)
    requires
        old(pa).wf(),
        verb@ == "accept"@ ==> old(pa).settle_fits(order@, from@, true),
        verb@ == "deny"@ ==> old(pa).settle_fits(order@, from@, false),
    ensures
        final(pa).wf(),
        verb@ == "reserve"@ ==> {
            let seller = json_str_field(body@, "seller"@);
            let amount = json_u64_field(body@, "amount"@);
            let r = reserve_result(*old(pa), order@, from@, seller, amount);
            &&& outs_view(out@) == reserve_replies(r, order@, from@, seller, amount)
            &&& r is Err ==> final(pa).same_as(*old(pa))
            &&& r is Ok ==> {
                &&& final(pa).balance_of(from@) == old(pa).balance_of(from@) - amount->0
                &&& forall|b: Seq<char>| b != from@ ==> #[trigger] final(pa).balance_of(b) == old(pa).balance_of(b)
                &&& final(pa).hold_of(order@) == Some(crate::escrow::HoldView {
                    buyer: from@, seller: seller->0, amount: amount->0, state: HoldState::Held })
                &&& forall|o: Seq<char>| o != order@ ==> #[trigger] final(pa).hold_of(o) == old(pa).hold_of(o)
            }
        },
        verb@ == "accept"@ ==> outs_view(out@) == settle_replies(old(pa).hold_of(order@), order@, from@, true)
            && settle_effect(*old(pa), *final(pa), order@, from@, true),
        verb@ == "deny"@ ==> outs_view(out@) == settle_replies(old(pa).hold_of(order@), order@, from@, false)
            && settle_effect(*old(pa), *final(pa), order@, from@, false),
        verb@ != "reserve"@ && verb@ != "accept"@ && verb@ != "deny"@ ==> out@.len() == 0 && final(pa).same_as(*old(pa)),
{
    proof {
        reveal_strlit("reserve");
        reveal_strlit("accept");
        reveal_strlit("deny");
        assert("reserve"@[0] != "accept"@[0] && "reserve"@[0] != "deny"@[0] && "accept"@[0] != "deny"@[0]);
    }
    if str_eq(verb, "reserve") {
        let seller = body_str_field(body, "seller");
        let amount = body_u64_field(body, "amount");
        let sl: Option<&str> = match &seller {
            Some(s) => Some(s.as_str()),
            None => None,
        };
        let r = pa.reserve(order, from, sl, amount);
        match r {
            Ok(()) => {
                let a = match amount {
                    Some(a) => a,
                    None => 0,
                };
                let s = match &seller {
                    Some(s) => s.as_str(),
                    None => "",
                };
                let first = receipt(from, order, "held", a);
                let second = (owned(s), make_unl("receipt", order), obj_sus("status", "held", "amount", a, "buyer", from));
                two(first, second)
            },
            Err(x) => one(owned(from), make_unl("deny", order), obj_s("reason", x.reason())),
        }
    } else if str_eq(verb, "accept") || str_eq(verb, "deny") {
        let to_seller = str_eq(verb, "accept");
        let outcome = if to_seller { pa.accept(order, from) } else { pa.cancel(order, from) };
        let status = if to_seller { "paid" } else { "cancelled" };
        match outcome {
            SettleOutcome::UnknownOrder => Vec::new(),
            SettleOutcome::NotHeld(st) => {
                let repeat = if to_seller { st == HoldState::Paid } else { st == HoldState::Cancelled };
                match pa.hold(order) {
                    Some(h) if repeat => two(
                        receipt(h.buyer.as_str(), order, status, h.amount),
                        receipt(h.seller.as_str(), order, status, h.amount),
                    ),
                    _ => Vec::new(),
                }
            },
            SettleOutcome::Unauthorized => one(owned(from), make_unl("deny", order), obj_s("reason", Refusal::Unauthorized.reason())),
            SettleOutcome::Settled(st) => two(
                receipt(st.buyer.as_str(), order, status, st.amount),
                receipt(st.seller.as_str(), order, status, st.amount),
            ),
        }
    } else {
        Vec::new()
    }
}

} // verus!
