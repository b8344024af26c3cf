use fipa_wasm_agents::ams::{Ams, Located};
use fipa_wasm_agents::ba::{Book, Buyer, BuyerAction, BuyerEvent, BuyerState};
use fipa_wasm_agents::bs::{Seller, SellerAction, SellerEvent};
use fipa_wasm_agents::df::{Df, DEFAULT_MAX_PROVIDERS_PER_SERVICE, DEFAULT_MAX_SERVICES};
use fipa_wasm_agents::escrow::{Escrow, HoldState, Refusal, SettleOutcome};
use fipa_wasm_agents::replies::{ams_request, buyer_event, buyer_message, df_request, pa_request, seller_event, seller_message};

// ---- AMS ----

#[test]
fn bind_then_locate_is_direct() {
    let mut ams = Ams::new();
    assert!(ams.request_bind("S", Some("S"), Some("127.0.0.1:9001")));
    assert_eq!(ams.locate("S"), Located::At("127.0.0.1:9001".to_string()));
}

#[test]
fn bind_of_another_agent_is_refused() {
    let mut ams = Ams::new();
    let out = ams_request(&mut ams, "bind", "attacker", br#"{"agent":"V","address":"6.6.6.6:9000"}"#);
    assert_eq!(out[0].1, "obj(refuse, agent)");
    assert!(ams.address("V").is_none());
}

#[test]
fn bind_without_address_is_refused() {
    let mut ams = Ams::new();
    assert!(!ams.request_bind("S", Some("S"), None));
    assert!(!ams.request_bind("S", None, Some("1.2.3.4:1")));
    assert!(ams.address("S").is_none());
}

#[test]
fn locate_unknown_with_upstream_refers() {
    let mut ams = Ams::new();
    ams.set_upstream("ams-root");
    assert_eq!(ams.locate("S"), Located::Refer("ams-root".to_string()));
}

#[test]
fn locate_unknown_no_upstream_is_not_found() {
    let ams = Ams::new();
    assert_eq!(ams.locate("ghost"), Located::NotFound);
}

#[test]
fn ams_seed_from_data_block() {
    let mut ams = Ams::new();
    ams.seed(&vec![("bookSeller".to_string(), "10.0.0.1:9001".to_string())], Some("ams-root"));
    assert_eq!(ams.address("bookSeller"), Some("10.0.0.1:9001"));
    assert_eq!(ams.locate("other"), Located::Refer("ams-root".to_string()));
}

#[test]
fn ams_seed_without_upstream_keeps_it() {
    let mut ams = Ams::new();
    ams.set_upstream("up");
    ams.seed(&vec![("a".to_string(), "1".to_string()), ("a".to_string(), "2".to_string())], None);
    assert_eq!(ams.address("a"), Some("2"));
    assert_eq!(ams.locate("b"), Located::Refer("up".to_string()));
}

#[test]
fn ams_bind_replaces_address() {
    let mut ams = Ams::new();
    ams.bind("S", "1");
    ams.bind("S", "2");
    assert_eq!(ams.address("S"), Some("2"));
}

// ---- DF ----

#[test]
fn register_then_search() {
    let mut df = Df::new();
    assert!(df.offer("bookSeller", "bookselling"));
    assert_eq!(df.providers("bookselling"), vec!["bookSeller".to_string()]);
}

#[test]
fn search_unknown_is_empty_not_error() {
    let df = Df::new();
    assert!(df.providers("nothing").is_empty());
}

#[test]
fn register_is_idempotent() {
    let mut df = Df::new();
    assert!(df.offer("bookSeller", "bookselling"));
    assert!(df.offer("bookSeller", "bookselling"));
    assert_eq!(df.providers("bookselling").len(), 1);
}

#[test]
fn offer_is_capped_per_service() {
    let mut df = Df::new().with_limits(16, 4);
    for i in 0..4 {
        assert!(df.offer(&format!("p{i}"), "svc"));
    }
    assert!(!df.offer("extra", "svc"));
    assert_eq!(df.providers("svc").len(), 4);
    // a provider already listed is still accepted at the cap
    assert!(df.offer("p2", "svc"));
    assert_eq!(df.providers("svc").len(), 4);
}

#[test]
fn offer_is_capped_per_registry() {
    let mut df = Df::new().with_limits(2, 4);
    assert!(df.offer("a", "s1"));
    assert!(df.offer("a", "s2"));
    assert!(!df.offer("a", "s3"));
    assert!(df.providers("s3").is_empty());
    // known services still take new providers
    assert!(df.offer("b", "s1"));
}

#[test]
fn zero_provider_cap_enters_the_service_empty() {
    let mut df = Df::new().with_limits(1, 0);
    assert!(!df.offer("a", "s1"));
    assert!(df.providers("s1").is_empty());
    // the entry now takes the only service slot
    assert!(!df.offer("a", "s2"));
}

#[test]
fn providers_come_sorted() {
    let mut df = Df::new();
    for p in ["zeta", "alpha", "Mid", "beta", "alpha2", "al"] {
        assert!(df.offer(p, "svc"));
    }
    assert_eq!(
        df.providers("svc"),
        vec!["Mid", "al", "alpha", "alpha2", "beta", "zeta"]
            .into_iter()
            .map(String::from)
            .collect::<Vec<_>>()
    );
}

#[test]
fn df_seed_from_data_block() {
    let mut df = Df::new();
    df.seed(&vec![("bookselling".to_string(), vec!["bookSeller".to_string()])]);
    assert_eq!(df.providers("bookselling"), vec!["bookSeller".to_string()]);
}

#[test]
fn df_seed_merges_and_ignores_caps() {
    let mut df = Df::new().with_limits(1, 1);
    assert!(df.offer("x", "s"));
    df.seed(&vec![
        ("s".to_string(), vec!["b".to_string(), "a".to_string()]),
        ("t".to_string(), vec![]),
        ("s".to_string(), vec!["x".to_string()]),
    ]);
    assert_eq!(df.providers("s"), vec!["a", "b", "x"].into_iter().map(String::from).collect::<Vec<_>>());
    assert!(df.providers("t").is_empty());
}

#[test]
fn df_default_caps() {
    assert_eq!(DEFAULT_MAX_SERVICES, 4096);
    assert_eq!(DEFAULT_MAX_PROVIDERS_PER_SERVICE, 256);
    let mut df = Df::default();
    for i in 0..256 {
        assert!(df.offer(&format!("p{i}"), "svc"));
    }
    assert!(!df.offer("one-more", "svc"));
}

// ---- Buyer ----

fn book(title: &str, price: u64) -> Book {
    Book { title: title.to_string(), price }
}

#[test]
fn start_seeks_a_bookseller() {
    let mut ba = Buyer::new();
    let act = ba.on_event(BuyerEvent::Start).unwrap();
    assert_eq!(act.to(), "df");
    assert_eq!(act.unl(), "obj(seek, bookselling)");
    assert_eq!(ba.state(), BuyerState::Provider);
}

#[test]
fn deny_aborts_with_reason() {
    let mut ba = Buyer::new();
    let act = ba.on_event(buyer_event("deny", br#"{"reason":"insufficient"}"#)).unwrap();
    let out = buyer_message(&act);
    assert_eq!(out.0, "result");
    assert_eq!(out.2, b"insufficient".to_vec());
    assert_eq!(act, BuyerAction::Failed("insufficient".to_string()));
    assert_eq!(ba.state(), BuyerState::Failed);
}

#[test]
fn deny_without_reason_says_denied() {
    let mut ba = Buyer::new();
    assert_eq!(ba.on_event(BuyerEvent::Deny(None)), Some(BuyerAction::Failed("denied".to_string())));
}

#[test]
fn buyer_runs_the_whole_purchase() {
    let mut ba = Buyer::new();
    assert_eq!(ba.on_event(BuyerEvent::Start), Some(BuyerAction::Seek));
    assert_eq!(
        ba.on_event(BuyerEvent::Provide(vec!["bookSeller".to_string(), "other".to_string()])),
        Some(BuyerAction::Locate("bookSeller".to_string()))
    );
    assert_eq!(ba.seller(), "bookSeller");
    assert_eq!(
        ba.on_event(BuyerEvent::At(Some("127.0.0.1:9001".to_string()))),
        Some(BuyerAction::AskCatalog("bookSeller".to_string()))
    );
    let reserve = ba.on_event(BuyerEvent::Catalog(vec![book("Other", 500), book("LtG", 999), book("LtG", 1)]));
    assert_eq!(reserve, Some(BuyerAction::Reserve { seller: "bookSeller".to_string(), amount: 999 }));
    assert_eq!(reserve.unwrap().unl(), "obj(reserve, LtG)");
    assert_eq!(ba.on_event(BuyerEvent::Receipt("paid".to_string())), None);
    assert_eq!(ba.state(), BuyerState::Held);
    assert_eq!(ba.on_event(BuyerEvent::Receipt("held".to_string())), None);
    assert_eq!(ba.state(), BuyerState::Delivery);
    let done = ba.on_event(BuyerEvent::Deliver).unwrap();
    assert_eq!(done, BuyerAction::Bought);
    assert_eq!(done.unl(), "obj(bought, LtG)");
    assert_eq!(ba.state(), BuyerState::Done);
    // finished: other events are ignored
    assert_eq!(ba.on_event(BuyerEvent::Start), None);
    assert_eq!(ba.state(), BuyerState::Done);
}

#[test]
fn buyer_failures_name_their_reason() {
    let mut ba = Buyer::new();
    ba.on_event(BuyerEvent::Start);
    assert_eq!(ba.on_event(BuyerEvent::Provide(vec![])), Some(BuyerAction::Failed("no-provider".to_string())));

    let mut ba = Buyer::new();
    ba.on_event(BuyerEvent::Start);
    ba.on_event(BuyerEvent::Provide(vec!["s".to_string()]));
    assert_eq!(ba.on_event(BuyerEvent::At(None)), Some(BuyerAction::Failed("no-address".to_string())));

    let mut ba = Buyer::new();
    ba.on_event(BuyerEvent::Start);
    ba.on_event(BuyerEvent::Provide(vec!["s".to_string()]));
    ba.on_event(BuyerEvent::At(Some("a".to_string())));
    assert_eq!(
        ba.on_event(BuyerEvent::Catalog(vec![book("Other", 500)])),
        Some(BuyerAction::Failed("book-not-found".to_string()))
    );
    assert_eq!(ba.state(), BuyerState::Failed);
}

#[test]
fn buyer_ignores_out_of_turn_replies() {
    let mut ba = Buyer::new();
    assert_eq!(ba.on_event(BuyerEvent::Deliver), None);
    assert_eq!(ba.on_event(BuyerEvent::Other), None);
    assert_eq!(ba.state(), BuyerState::Init);
}

// ---- Seller ----

#[test]
fn catalog_lists_ltg() {
    let mut bs = Seller::new(true);
    match bs.on_event(SellerEvent::Catalog) {
        Some(SellerAction::Catalog(books)) => {
            assert!(books.iter().any(|b| b.title == "LtG" && b.price == 999));
            assert_eq!(books.len(), 2);
        }
        other => panic!("unexpected {other:?}"),
    }
    let without = Seller::new(false).catalog();
    assert_eq!(without.len(), 1);
    assert_eq!(without[0].title, "Other");
}

#[test]
fn held_reserves_and_accepts() {
    let mut bs = Seller::new(true);
    let act = bs.on_event(SellerEvent::Receipt {
        order: "LtG".to_string(),
        status: "held".to_string(),
        buyer: Some("BA".to_string()),
    });
    let act = act.unwrap();
    assert!(matches!(&act, SellerAction::Accept(o) if o == "LtG"));
    assert_eq!(act.unl(), "obj(accept, LtG)");
}

#[test]
fn paid_ships_to_buyer() {
    let mut bs = Seller::new(true);
    bs.on_event(SellerEvent::Receipt { order: "LtG".into(), status: "held".into(), buyer: Some("BA".into()) });
    let act = bs.on_event(SellerEvent::Receipt { order: "LtG".into(), status: "paid".into(), buyer: None }).unwrap();
    assert!(matches!(&act, SellerAction::Deliver { buyer, order } if buyer == "BA" && order == "LtG"));
    assert_eq!(act.unl(), "obj(deliver, LtG)");
}

#[test]
fn cancelled_releases_the_reservation() {
    let mut bs = Seller::new(true);
    bs.on_event(SellerEvent::Receipt { order: "LtG".into(), status: "held".into(), buyer: Some("BA".into()) });
    assert!(bs.on_event(SellerEvent::Receipt { order: "LtG".into(), status: "cancelled".into(), buyer: None }).is_none());
    assert!(bs.on_event(SellerEvent::Receipt { order: "LtG".into(), status: "paid".into(), buyer: None }).is_none());
}

// ---- Escrow (PA) ----

fn funded() -> Escrow {
    let mut pa = Escrow::new();
    pa.credit("BA", 10000);
    pa
}

#[test]
fn reserve_holds_and_notifies_both() {
    let mut pa = funded();
    let out = pa_request(&mut pa, "reserve", "LtG", "BA", br#"{"seller":"bookSeller","amount":999}"#);
    assert_eq!(out.len(), 2);
    assert!(out.iter().any(|m| m.0 == "BA" && status(&m.2) == "held"));
    assert!(out.iter().any(|m| m.0 == "bookSeller" && status(&m.2) == "held"));
    assert_eq!(pa.balance("BA"), 9001);
    assert_eq!(pa.hold_state("LtG"), Some(HoldState::Held));
    assert_eq!(pa.total(), 10000);
}

#[test]
fn reserve_insufficient_is_denied() {
    let mut pa = funded();
    let r = pa.reserve("LtG", "BA", Some("bookSeller"), Some(99999));
    assert_eq!(r, Err(Refusal::Insufficient));
    assert_eq!(r.unwrap_err().reason(), "insufficient");
    assert_eq!(pa.balance("BA"), 10000);
}

#[test]
fn duplicate_reserve_is_rejected() {
    let mut pa = funded();
    pa.reserve("LtG", "BA", Some("bookSeller"), Some(999)).unwrap();
    let r = pa.reserve("LtG", "BA", Some("bookSeller"), Some(999));
    assert_eq!(r.unwrap_err().reason(), "duplicate-order");
    assert_eq!(pa.balance("BA"), 9001);
}

#[test]
fn reserve_bad_terms_are_refused() {
    let mut pa = funded();
    assert_eq!(pa.reserve("o", "BA", None, Some(1)), Err(Refusal::BadRequest));
    assert_eq!(pa.reserve("o", "BA", Some("s"), None), Err(Refusal::BadRequest));
    assert_eq!(pa.reserve("o", "BA", Some("s"), Some(0)), Err(Refusal::BadAmount));
    assert_eq!(Refusal::BadAmount.reason(), "bad-amount");
    assert_eq!(Refusal::BadRequest.reason(), "bad-request");
    assert_eq!(pa.hold_state("o"), None);
}

#[test]
fn accept_by_seller_releases_funds() {
    let mut pa = funded();
    pa.reserve("LtG", "BA", Some("bookSeller"), Some(999)).unwrap();
    match pa.accept("LtG", "bookSeller") {
        SettleOutcome::Settled(s) => {
            assert_eq!(s.buyer, "BA");
            assert_eq!(s.seller, "bookSeller");
            assert_eq!(s.amount, 999);
        }
        other => panic!("unexpected {other:?}"),
    }
    assert_eq!(pa.balance("bookSeller"), 999);
    assert_eq!(pa.hold_state("LtG"), Some(HoldState::Paid));
    // accepting again pays nothing more and sends no receipts
    assert!(matches!(pa.accept("LtG", "bookSeller"), SettleOutcome::NotHeld(HoldState::Paid)));
    assert!(matches!(pa.cancel("LtG", "BA"), SettleOutcome::NotHeld(HoldState::Paid)));
    assert_eq!(pa.balance("BA"), 9001);
    assert_eq!(pa.balance("bookSeller"), 999);
    assert_eq!(pa.total(), 10000);
}

#[test]
fn accept_by_non_seller_is_unauthorized() {
    let mut pa = funded();
    pa.reserve("LtG", "BA", Some("bookSeller"), Some(999)).unwrap();
    assert!(matches!(pa.accept("LtG", "attacker"), SettleOutcome::Unauthorized));
    assert_eq!(Refusal::Unauthorized.reason(), "unauthorized");
    assert_eq!(pa.balance("bookSeller"), 0);
    assert_eq!(pa.hold_state("LtG"), Some(HoldState::Held));
}

#[test]
fn deny_by_buyer_refunds() {
    let mut pa = funded();
    pa.reserve("LtG", "BA", Some("bookSeller"), Some(999)).unwrap();
    assert!(matches!(pa.cancel("LtG", "BA"), SettleOutcome::Settled(_)));
    assert_eq!(pa.balance("BA"), 10000);
    assert_eq!(pa.hold_state("LtG"), Some(HoldState::Cancelled));
    // a cancelled hold can no longer be paid
    assert!(matches!(pa.accept("LtG", "bookSeller"), SettleOutcome::NotHeld(HoldState::Cancelled)));
    assert_eq!(pa.balance("bookSeller"), 0);
}

#[test]
fn deny_by_stranger_is_unauthorized() {
    let mut pa = funded();
    pa.reserve("LtG", "BA", Some("bookSeller"), Some(999)).unwrap();
    assert!(matches!(pa.cancel("LtG", "eve"), SettleOutcome::Unauthorized));
    assert!(matches!(pa.cancel("LtG", "bookSeller"), SettleOutcome::Settled(_)));
    assert_eq!(pa.balance("BA"), 10000);
}

#[test]
fn accept_unknown_order_is_ignored() {
    let mut pa = funded();
    assert!(matches!(pa.accept("ghost", "bookSeller"), SettleOutcome::UnknownOrder));
    assert!(matches!(pa.cancel("ghost", "BA"), SettleOutcome::UnknownOrder));
}

#[test]
fn seed_ledger_from_data() {
    let mut pa = Escrow::new();
    pa.seed_balance("BA", 500);
    assert_eq!(pa.balance("BA"), 500);
    pa.seed_balance("BA", 700);
    assert_eq!(pa.balance("BA"), 700);
    assert_eq!(pa.total(), 700);
}

#[test]
fn holds_are_readable_and_credit_is_per_account() {
    let mut pa = Escrow::new();
    pa.credit("A", u64::MAX);
    pa.credit("B", u64::MAX);
    assert_eq!(pa.balance("A"), u64::MAX);
    assert_eq!(pa.balance("B"), u64::MAX);
    assert_eq!(pa.reserve("o", "A", Some("S"), Some(5)), Ok(()));
    let h = pa.hold("o").unwrap();
    assert_eq!((h.buyer.as_str(), h.seller.as_str(), h.amount, h.state), ("A", "S", 5, HoldState::Held));
    assert!(pa.hold("none").is_none());
    assert!(matches!(pa.cancel("o", "S"), SettleOutcome::Settled(_)));
    assert_eq!(pa.balance("A"), u64::MAX);
    assert!(matches!(pa.cancel("o", "A"), SettleOutcome::NotHeld(HoldState::Cancelled)));
}

fn status(body: &[u8]) -> String {
    let v: serde_json::Value = serde_json::from_slice(body).unwrap();
    v["status"].as_str().unwrap_or_default().to_string()
}

#[test]
fn pa_messages_carry_exact_json_bodies() {
    let mut pa = funded();
    let out = pa_request(&mut pa, "reserve", "LtG", "BA", br#"{"seller":"bookSeller","amount":999}"#);
    assert_eq!(out[0], ("BA".to_string(), "obj(receipt, LtG)".to_string(), br#"{"amount":999,"status":"held"}"#.to_vec()));
    assert_eq!(out[1], ("bookSeller".to_string(), "obj(receipt, LtG)".to_string(), br#"{"amount":999,"buyer":"BA","status":"held"}"#.to_vec()));
    let out = pa_request(&mut pa, "reserve", "X", "BA", br#"{"seller":"s","amount":99999}"#);
    assert_eq!(out, vec![("BA".to_string(), "obj(deny, X)".to_string(), br#"{"reason":"insufficient"}"#.to_vec())]);
    let out = pa_request(&mut pa, "reserve", "Y", "BA", br#"{"amount":5}"#);
    assert_eq!(out[0].2, br#"{"reason":"bad-request"}"#.to_vec());
    let out = pa_request(&mut pa, "accept", "LtG", "eve", b"");
    assert_eq!(out, vec![("eve".to_string(), "obj(deny, LtG)".to_string(), br#"{"reason":"unauthorized"}"#.to_vec())]);
    let out = pa_request(&mut pa, "accept", "LtG", "bookSeller", b"");
    assert_eq!(out.len(), 2);
    assert!(out.iter().all(|m| status(&m.2) == "paid"));
    assert_eq!(pa.balance("bookSeller"), 999);
    // a repeated accept re-sends the paid receipts and pays nothing more
    let again = pa_request(&mut pa, "accept", "LtG", "bookSeller", b"");
    assert_eq!(again, out);
    assert_eq!(pa.balance("bookSeller"), 999);
    // a paid order is not cancelled, and nothing is sent
    assert!(pa_request(&mut pa, "deny", "LtG", "BA", b"").is_empty());
    assert!(pa_request(&mut pa, "accept", "ghost", "bookSeller", b"").is_empty());
    assert!(pa_request(&mut pa, "other", "LtG", "BA", b"").is_empty());
}

#[test]
fn ams_locate_replies_carry_the_agent() {
    let mut ams = Ams::new();
    let out = ams_request(&mut ams, "bind", "S", br#"{"agent":"S","address":"127.0.0.1:9001"}"#);
    assert_eq!(out[0].1, "obj(bound, agent)");
    let out = ams_request(&mut ams, "locate", "BA", br#"{"agent":"S"}"#);
    assert_eq!(out, vec![("BA".to_string(), "obj(at, agent)".to_string(), br#"{"address":"127.0.0.1:9001","agent":"S"}"#.to_vec())]);
    assert!(ams_request(&mut ams, "locate", "BA", br#"{"agent":7}"#).is_empty());
    let out = ams_request(&mut ams, "locate", "BA", br#"{"agent":"ghost"}"#);
    assert_eq!(out[0].2, br#"{"agent":"ghost"}"#.to_vec());
    ams.set_upstream("ams-root");
    let out = ams_request(&mut ams, "locate", "BA", br#"{"agent":"ghost"}"#);
    assert_eq!(out[0].1, "obj(refer, agent)");
    assert_eq!(out[0].2, br#"{"agent":"ghost","ams":"ams-root"}"#.to_vec());
}

#[test]
fn buyer_reads_bodies_into_events() {
    match buyer_event("provide", br#"["s1","s2"]"#) {
        BuyerEvent::Provide(p) => assert_eq!(p, vec!["s1".to_string(), "s2".to_string()]),
        other => panic!("unexpected {other:?}"),
    }
    match buyer_event("provide", br#"{"x":1}"#) {
        BuyerEvent::Provide(p) => assert!(p.is_empty()),
        other => panic!("unexpected {other:?}"),
    }
    match buyer_event("catalog", br#"[{"title":"LtG","price":12},{"title":"B","price":3}]"#) {
        BuyerEvent::Catalog(b) => {
            assert_eq!(b.len(), 2);
            assert_eq!((b[0].title.as_str(), b[0].price), ("LtG", 12));
        }
        other => panic!("unexpected {other:?}"),
    }
    match buyer_event("catalog", br#"[{"title":"LtG","price":12},{"title":"B"}]"#) {
        BuyerEvent::Catalog(b) => assert!(b.is_empty()),
        other => panic!("unexpected {other:?}"),
    }
    assert!(matches!(buyer_event("at", br#"{"address":"a:1"}"#), BuyerEvent::At(Some(_))));
    assert!(matches!(buyer_event("at", b"nope"), BuyerEvent::At(None)));
    assert!(matches!(buyer_event("start", b""), BuyerEvent::Start));
    assert!(matches!(buyer_event("what", b""), BuyerEvent::Other));
    let out = buyer_message(&BuyerAction::Reserve { seller: "S".to_string(), amount: 4 });
    assert_eq!(out, ("pa".to_string(), "obj(reserve, LtG)".to_string(), br#"{"amount":4,"seller":"S"}"#.to_vec()));
    let out = buyer_message(&BuyerAction::Locate("S".to_string()));
    assert_eq!(out.2, br#"{"agent":"S"}"#.to_vec());
}

#[test]
fn seller_reads_receipts_and_writes_its_catalog() {
    match seller_event("receipt", "LtG", br#"{"status":"held","buyer":"BA"}"#) {
        SellerEvent::Receipt { order, status, buyer } => {
            assert_eq!((order.as_str(), status.as_str(), buyer.as_deref()), ("LtG", "held", Some("BA")));
        }
        other => panic!("unexpected {other:?}"),
    }
    let mut bs = Seller::new(true);
    let act = bs.on_event(seller_event("catalog", "x", b"")).unwrap();
    let out = seller_message(&act, "BA");
    assert_eq!(out.0, "BA");
    let v: serde_json::Value = serde_json::from_slice(&out.2).unwrap();
    assert_eq!(v[0]["title"], "LtG");
    let back = buyer_event("catalog", &out.2);
    assert!(matches!(back, BuyerEvent::Catalog(ref b) if b[0].title == "LtG"));
}

#[test]
fn df_replies_list_providers_as_json() {
    let mut df = Df::new();
    let out = df_request(&mut df, "offer", "books", "S1");
    assert_eq!(out[0].1, "obj(registered, books)");
    let out = df_request(&mut df, "seek", "books", "BA");
    assert_eq!(out[0], ("BA".to_string(), "obj(provide, books)".to_string(), br#"["S1"]"#.to_vec()));
}
