//! The seller agent: the catalog, and fulfilment around the payment escrow.
//!
//! Asked for its catalog, the seller lists its books. When the escrow holds
//! payment for an order it reserves the book for the buyer and accepts; when
//! the payment is released it ships to that buyer; when the hold is
//! cancelled it releases the reservation.
use vstd::prelude::*;
use crate::ba::Book;
use crate::strmap::StrMap;
use crate::text::{concat, owned, str_eq};

verus! {

/// A message to the seller: its verb, with what its body carries.
#[derive(Debug)]
pub enum SellerEvent {
    /// `catalog`: list the books.
    Catalog,
    /// `receipt` for an order: the escrow's status, and the buyer if named.
    Receipt { order: String, status: String, buyer: Option<String> },
    /// Any other verb.
    Other,
}

/// What the seller sends.
#[derive(Debug)]
pub enum SellerAction {
    /// The catalog, to whoever asked.
    Catalog(Vec<Book>),
    /// Accept the held payment for the order (to PA).
    Accept(String),
    /// Ship the order to the buyer.
    Deliver { buyer: String, order: String },
}

/// A seller as plain values: whether it stocks the wanted book, and the
/// buyer of each reserved order.
pub struct SellerView {
    pub has_ltg: bool,
    pub reserved: Map<Seq<char>, Seq<char>>,
}

/// The books the seller lists, as title and price.
pub open spec fn catalog_spec(has_ltg: bool) -> Seq<(Seq<char>, u64)> {
    if has_ltg {
        seq![("LtG"@, 999u64), ("Other"@, 500u64)]
    } else {
        seq![("Other"@, 500u64)]
    }
}

/// The titles and prices of a list of books.
pub open spec fn book_entries(b: Seq<Book>) -> Seq<(Seq<char>, u64)> {
    b.map_values(|x: Book| (x.title@, x.price))
}

/// One step of the seller: from `s` on `ev`, it moves to `after` and sends
/// `act`.
pub open spec fn seller_step(s: SellerView, ev: SellerEvent, after: SellerView, act: Option<SellerAction>) -> bool {
    match ev {
        SellerEvent::Catalog => {
            &&& after == s
            &&& act matches Some(SellerAction::Catalog(books)) && book_entries(books@) == catalog_spec(s.has_ltg)
        },
        SellerEvent::Receipt { order, status, buyer } => {
            if status@ == "held"@ {
                match buyer {
                    Some(b) => {
                        &&& after == SellerView { reserved: s.reserved.insert(order@, b@), ..s }
                        &&& act matches Some(SellerAction::Accept(o)) && o@ == order@
                    },
                    None => after == s && act is None,
                }
            } else if status@ == "paid"@ {
                &&& after == s
                &&& if s.reserved.contains_key(order@) {
                    act matches Some(SellerAction::Deliver { buyer: b, order: o })
                        && b@ == s.reserved[order@] && o@ == order@
                } else {
                    act is None
                }
            } else if status@ == "cancelled"@ {
                &&& after == SellerView { reserved: s.reserved.remove(order@), ..s }
                &&& act is None
            } else {
                after == s && act is None
            }
        },
        SellerEvent::Other => after == s && act is None,
    }
}

/// The seller agent.
#[derive(Debug)]
pub struct Seller {
    has_ltg: bool,
    buyers: StrMap,
}

impl View for Seller {
    type V = SellerView;

    closed spec fn view(&self) -> SellerView {
        SellerView { has_ltg: self.has_ltg, reserved: self.buyers@ }
    }
}

impl Default for Seller {
    fn default() -> (s: Self)
        ensures
            s@.has_ltg,
            s@.reserved == Map::<Seq<char>, Seq<char>>::empty(),
    {
        Seller::new(true)
    }
}

impl Seller {
    /// A seller with no reservations; `has_ltg` says whether it stocks the
    /// wanted book.
    pub fn new(has_ltg: bool) -> (s: Self)
        ensures
            s@.has_ltg == has_ltg,
            s@.reserved == Map::<Seq<char>, Seq<char>>::empty(),
    {
        Seller { has_ltg, buyers: StrMap::new() }
    }

    /// The books this seller lists.
    pub fn catalog(&self) -> (books: Vec<Book>)
        ensures
            book_entries(books@) == catalog_spec(self@.has_ltg),
    {
        let mut books: Vec<Book> = Vec::new();
        if self.has_ltg {
            books.push(Book { title: owned("LtG"), price: 999 });
        }
        books.push(Book { title: owned("Other"), price: 500 });
        proof {
            assert(book_entries(books@) =~= catalog_spec(self@.has_ltg));
        }
        books
    }

    /// Take one event; answers what to send, if anything.
    pub fn on_event(&mut self, ev: SellerEvent) -> (act: Option<SellerAction>)
        ensures
            seller_step(old(self)@, ev, final(self)@, act),
    {
        match &ev {
            SellerEvent::Catalog => Some(SellerAction::Catalog(self.catalog())),
            SellerEvent::Receipt { order, status, buyer } => {
                if str_eq(status.as_str(), "held") {
                    match buyer {
                        Some(b) => {
                            self.buyers.insert(order.as_str(), b.as_str());
                            Some(SellerAction::Accept(order.clone()))
                        },
                        None => None,
                    }
                } else if str_eq(status.as_str(), "paid") {
                    match self.buyers.get(order.as_str()) {
                        Some(b) => Some(SellerAction::Deliver { buyer: b.clone(), order: order.clone() }),
                        None => None,
                    }
                } else if str_eq(status.as_str(), "cancelled") {
                    self.buyers.remove(order.as_str());
                    None
                } else {
                    None
                }
            },
            SellerEvent::Other => None,
        }
    }
}

impl SellerAction {
    /// The message's UNL sentence.
    pub fn unl(&self) -> (r: String)
        ensures
            r@ == match *self {
                SellerAction::Catalog(_) => "obj(catalog, systemdynamics)"@,
                SellerAction::Accept(o) => "obj(accept, "@ + o@ + ")"@,
                SellerAction::Deliver { order, .. } => "obj(deliver, "@ + order@ + ")"@,
            },
    {
        match self {
            SellerAction::Catalog(_) => owned("obj(catalog, systemdynamics)"),
            SellerAction::Accept(o) => {
                let r = concat("obj(accept, ", o.as_str());
                concat(r.as_str(), ")")
            },
            SellerAction::Deliver { order, .. } => {
                let r = concat("obj(deliver, ", order.as_str());
                concat(r.as_str(), ")")
            },
        }
    }
}

/// Once the escrow holds payment for an order, its release ships that order
/// to the buyer the hold named.
pub proof fn law_paid_ships_to_holder(
    s: SellerView,
    order: String,
    buyer: String,
    held_status: String,
    paid_status: String,
    mid: SellerView,
    accept: Option<SellerAction>,
    after: SellerView,
    act: Option<SellerAction>,
)
    requires
        held_status@ == "held"@,
        paid_status@ == "paid"@,
        seller_step(s, SellerEvent::Receipt { order, status: held_status, buyer: Some(buyer) }, mid, accept),
        seller_step(mid, SellerEvent::Receipt { order, status: paid_status, buyer: None }, after, act),
    ensures
        act matches Some(SellerAction::Deliver { buyer: b, order: o }) && b@ == buyer@ && o@ == order@,
{
    reveal_strlit("held");
    reveal_strlit("paid");
    assert("paid"@[0] != "held"@[0]);
    assert(mid.reserved.contains_key(order@));
}

/// After a cancelled hold, a release ships nothing for that order.
pub proof fn law_cancelled_ships_nothing(
    s: SellerView,
    order: String,
    cancel_status: String,
    paid_status: String,
    mid: SellerView,
    none: Option<SellerAction>,
    after: SellerView,
    act: Option<SellerAction>,
)
    requires
        cancel_status@ == "cancelled"@,
        paid_status@ == "paid"@,
        seller_step(s, SellerEvent::Receipt { order, status: cancel_status, buyer: None }, mid, none),
        seller_step(mid, SellerEvent::Receipt { order, status: paid_status, buyer: None }, after, act),
    ensures
        act is None,
{
    reveal_strlit("held");
    reveal_strlit("paid");
    reveal_strlit("cancelled");
    assert("paid"@[0] != "held"@[0]);
    assert("cancelled"@.len() != "held"@.len());
    assert("cancelled"@.len() != "paid"@.len());
    assert(!mid.reserved.contains_key(order@));
}

} // verus!
