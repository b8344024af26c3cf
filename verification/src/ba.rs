//! The buyer agent: the book-buying conversation as a state machine.
//!
//! The buyer finds a seller (DF), resolves it (AMS), browses its catalog,
//! reserves payment (PA) and takes delivery. Each reply moves it one step;
//! a deny aborts the purchase whatever the state. The buyer's verdict goes to
//! `result`. Reading messages into events and writing actions out as messages
//! is the host's part.
use vstd::prelude::*;
use crate::text::{owned, str_eq};

verus! {

/// Where the buyer is in the purchase.
#[derive(Clone, Copy, Debug, PartialEq, Eq, Structural)]
pub enum BuyerState {
    Init,
    Provider,
    Address,
    Catalog,
    Held,
    Delivery,
    Done,
    Failed,
}

/// A book in a catalog.
#[derive(Clone, Debug)]
pub struct Book {
    pub title: String,
    pub price: u64,
}

/// A message to the buyer: its verb, with what its body carries.
#[derive(Debug)]
pub enum BuyerEvent {
    /// `start`: begin the purchase.
    Start,
    /// `provide`: the providers that DF found.
    Provide(Vec<String>),
    /// `at`: AMS's answer, with the address if it has one.
    At(Option<String>),
    /// `catalog`: the seller's books.
    Catalog(Vec<Book>),
    /// `receipt`: a payment receipt with its status.
    Receipt(String),
    /// `deliver`: the book arrives.
    Deliver,
    /// `deny`: a refusal, with its reason if given.
    Deny(Option<String>),
    /// Any other verb.
    Other,
}

/// What the buyer sends.
#[derive(Debug, PartialEq, Eq)]
pub enum BuyerAction {
    /// Ask DF for booksellers.
    Seek,
    /// Ask AMS where this agent is.
    Locate(String),
    /// Ask this seller for its catalog.
    AskCatalog(String),
    /// Ask PA to reserve this amount for this seller.
    Reserve { seller: String, amount: u64 },
    /// Report the purchase done.
    Bought,
    /// Report the purchase failed, with the reason.
    Failed(String),
}

/// The title the buyer wants.
pub open spec fn wanted_title() -> Seq<char> {
    "LtG"@
}

/// The index of the first book titled `t`, if any.
pub open spec fn first_titled(books: Seq<Book>, t: Seq<char>) -> Option<int> {
    if exists|i: int| 0 <= i < books.len() && books[i].title@ == t {
        Some(choose|i: int| 0 <= i < books.len() && books[i].title@ == t
            && forall|j: int| 0 <= j < i ==> books[j].title@ != t)
    } else {
        None
    }
}

/// The buyer's state and the seller it learned.
pub struct BuyerView {
    pub st: BuyerState,
    pub seller: Seq<char>,
}

/// Whether `act` is a failure report with reason `why`.
pub open spec fn fails_with(act: Option<BuyerAction>, why: Seq<char>) -> bool {
    act matches Some(BuyerAction::Failed(r)) && r@ == why
}

/// One step of the conversation: from `b` on event `ev`, the buyer moves to
/// `after` and sends `act`.
pub open spec fn buyer_step(b: BuyerView, ev: BuyerEvent, after: BuyerView, act: Option<BuyerAction>) -> bool {
    match ev {
        BuyerEvent::Deny(reason) => {
            &&& after == BuyerView { st: BuyerState::Failed, ..b }
            &&& fails_with(act, match reason { Some(r) => r@, None => "denied"@ })
        },
        BuyerEvent::Start if b.st == BuyerState::Init => {
            &&& after == BuyerView { st: BuyerState::Provider, ..b }
            &&& act == Some(BuyerAction::Seek)
        },
        BuyerEvent::Provide(ps) if b.st == BuyerState::Provider => {
            if ps@.len() > 0 {
                &&& after == BuyerView { st: BuyerState::Address, seller: ps@[0]@ }
                &&& act matches Some(BuyerAction::Locate(p)) && p@ == ps@[0]@
            } else {
                &&& after == BuyerView { st: BuyerState::Failed, ..b }
                &&& fails_with(act, "no-provider"@)
            }
        },
        BuyerEvent::At(addr) if b.st == BuyerState::Address => {
            if addr is Some {
                &&& after == BuyerView { st: BuyerState::Catalog, ..b }
                &&& act matches Some(BuyerAction::AskCatalog(s)) && s@ == b.seller
            } else {
                &&& after == BuyerView { st: BuyerState::Failed, ..b }
                &&& fails_with(act, "no-address"@)
            }
        },
        BuyerEvent::Catalog(books) if b.st == BuyerState::Catalog => {
            match first_titled(books@, wanted_title()) {
                Some(i) => {
                    &&& after == BuyerView { st: BuyerState::Held, ..b }
                    &&& act matches Some(BuyerAction::Reserve { seller, amount })
                        && seller@ == b.seller && amount == books@[i].price
                },
                None => {
                    &&& after == BuyerView { st: BuyerState::Failed, ..b }
                    &&& fails_with(act, "book-not-found"@)
                },
            }
        },
        BuyerEvent::Receipt(status) if b.st == BuyerState::Held => {
            &&& after == (if status@ == "held"@ { BuyerView { st: BuyerState::Delivery, ..b } } else { b })
            &&& act is None
        },
        BuyerEvent::Deliver if b.st == BuyerState::Delivery => {
            &&& after == BuyerView { st: BuyerState::Done, ..b }
            &&& act == Some(BuyerAction::Bought)
        },
        _ => {
            &&& after == b
            &&& act is None
        },
    }
}

/// The buyer agent.
#[derive(Debug)]
pub struct Buyer {
    st: BuyerState,
    seller: String,
}

impl View for Buyer {
    type V = BuyerView;

    closed spec fn view(&self) -> BuyerView {
        BuyerView { st: self.st, seller: self.seller@ }
    }
}

impl Default for Buyer {
    fn default() -> (b: Self)
        ensures
            b@.st == BuyerState::Init,
            b@.seller == Seq::<char>::empty(),
    {
        Buyer::new()
    }
}

/// The first book titled `t`.
fn find_title(books: &Vec<Book>, t: &str) -> (r: Option<usize>)
    ensures
        r matches Some(k) ==> k < books@.len() && first_titled(books@, t@) == Some(k as int),
        r is None ==> first_titled(books@, t@) is None,
{
    let mut i: usize = 0;
    while i < books.len()
        invariant
            i <= books@.len(),
            forall|j: int| 0 <= j < i ==> books@[j].title@ != t@,
        decreases books@.len() - i,
    {
        if str_eq(books[i].title.as_str(), t) {
            proof {
                let k = choose|k: int| 0 <= k < books@.len() && books@[k].title@ == t@
                    && forall|j: int| 0 <= j < k ==> books@[j].title@ != t@;
                if k < i {
                    assert(books@[k].title@ != t@);
                }
                if i < k {
                    assert(books@[i as int].title@ != t@);
                }
            }
            return Some(i);
        }
        i = i + 1;
    }
    None
}

impl Buyer {
    /// A buyer about to start.
    pub fn new() -> (b: Self)
        ensures
            b@.st == BuyerState::Init,
            b@.seller == Seq::<char>::empty(),
    {
        Buyer { st: BuyerState::Init, seller: String::new() }
    }

    /// Where the buyer is.
    pub fn state(&self) -> (s: BuyerState)
        ensures
            s == self@.st,
    {
        self.st
    }

    /// The seller the buyer learned from DF.
    pub fn seller(&self) -> (s: &str)
        ensures
            s@ == self@.seller,
    {
        self.seller.as_str()
    }

    /// Take one event; answers what to send, if anything.
    pub fn on_event(&mut self, ev: BuyerEvent) -> (act: Option<BuyerAction>)
        ensures
            buyer_step(old(self)@, ev, final(self)@, act),
    {
        if let BuyerEvent::Deny(reason) = &ev {
            let why = match reason {
                Some(r) => owned(r.as_str()),
                None => owned("denied"),
            };
            self.st = BuyerState::Failed;
            return Some(BuyerAction::Failed(why));
        }
        match (self.st, &ev) {
            (BuyerState::Init, BuyerEvent::Start) => {
                self.st = BuyerState::Provider;
                Some(BuyerAction::Seek)
            },
            (BuyerState::Provider, BuyerEvent::Provide(ps)) => {
                if ps.len() > 0 {
                    self.seller = ps[0].clone();
                    self.st = BuyerState::Address;
                    Some(BuyerAction::Locate(ps[0].clone()))
                } else {
                    self.st = BuyerState::Failed;
                    Some(BuyerAction::Failed(owned("no-provider")))
                }
            },
            (BuyerState::Address, BuyerEvent::At(addr)) => {
                if addr.is_some() {
                    self.st = BuyerState::Catalog;
                    Some(BuyerAction::AskCatalog(self.seller.clone()))
                } else {
                    self.st = BuyerState::Failed;
                    Some(BuyerAction::Failed(owned("no-address")))
                }
            },
            (BuyerState::Catalog, BuyerEvent::Catalog(books)) => {
                match find_title(books, "LtG") {
                    Some(i) => {
                        self.st = BuyerState::Held;
                        Some(BuyerAction::Reserve { seller: self.seller.clone(), amount: books[i].price })
                    },
                    None => {
                        self.st = BuyerState::Failed;
                        Some(BuyerAction::Failed(owned("book-not-found")))
                    },
                }
            },
            (BuyerState::Held, BuyerEvent::Receipt(status)) => {
                if str_eq(status.as_str(), "held") {
                    self.st = BuyerState::Delivery;
                }
                None
            },
            (BuyerState::Delivery, BuyerEvent::Deliver) => {
                self.st = BuyerState::Done;
                Some(BuyerAction::Bought)
            },
            _ => None,
        }
    }
}

impl BuyerAction {
    /// The recipient: DF, AMS, the seller, PA or `result`.
    pub fn to(&self) -> (r: String)
        ensures
            r@ == match *self {
                BuyerAction::Seek => "df"@,
                BuyerAction::Locate(_) => "ams"@,
                BuyerAction::AskCatalog(s) => s@,
                BuyerAction::Reserve { .. } => "pa"@,
                BuyerAction::Bought => "result"@,
                BuyerAction::Failed(_) => "result"@,
            },
    {
        match self {
            BuyerAction::Seek => owned("df"),
            BuyerAction::Locate(_) => owned("ams"),
            BuyerAction::AskCatalog(s) => s.clone(),
            BuyerAction::Reserve { .. } => owned("pa"),
            BuyerAction::Bought => owned("result"),
            BuyerAction::Failed(_) => owned("result"),
        }
    }

    /// The message's UNL sentence.
    pub fn unl(&self) -> (r: String)
        ensures
            r@ == match *self {
                BuyerAction::Seek => "obj(seek, bookselling)"@,
                BuyerAction::Locate(_) => "obj(locate, agent)"@,
                BuyerAction::AskCatalog(_) => "obj(catalog, systemdynamics)"@,
                BuyerAction::Reserve { .. } => "obj(reserve, LtG)"@,
                BuyerAction::Bought => "obj(bought, LtG)"@,
                BuyerAction::Failed(_) => "obj(failed, x)"@,
            },
    {
        match self {
            BuyerAction::Seek => owned("obj(seek, bookselling)"),
            BuyerAction::Locate(_) => owned("obj(locate, agent)"),
            BuyerAction::AskCatalog(_) => owned("obj(catalog, systemdynamics)"),
            BuyerAction::Reserve { .. } => owned("obj(reserve, LtG)"),
            BuyerAction::Bought => owned("obj(bought, LtG)"),
            BuyerAction::Failed(_) => owned("obj(failed, x)"),
        }
    }
}

/// A deny aborts the purchase from any state, reporting its reason.
pub proof fn law_deny_aborts(b: BuyerView, reason: Option<String>, after: BuyerView, act: Option<BuyerAction>)
    requires
        buyer_step(b, BuyerEvent::Deny(reason), after, act),
    ensures
        after.st == BuyerState::Failed,
        act matches Some(BuyerAction::Failed(_)),
{
}

/// Once the purchase is over, only a deny changes anything, and nothing
/// else is sent.
pub proof fn law_finished_is_quiet(b: BuyerView, ev: BuyerEvent, after: BuyerView, act: Option<BuyerAction>)
    requires
        b.st == BuyerState::Done || b.st == BuyerState::Failed,
        !(ev is Deny),
        buyer_step(b, ev, after, act),
    ensures
        after == b,
        act is None,
{
}

/// The buyer pays only the listed price of the wanted book, and only to the
/// seller that DF named.
pub proof fn law_reserve_matches_catalog(b: BuyerView, ev: BuyerEvent, after: BuyerView, seller: String, amount: u64)
    requires
        buyer_step(b, ev, after, Some(BuyerAction::Reserve { seller, amount })),
    ensures
        b.st == BuyerState::Catalog,
        seller@ == b.seller,
        ev matches BuyerEvent::Catalog(books) && first_titled(books@, wanted_title()) matches Some(i)
            && books@[i].price == amount,
{
}

} // verus!
