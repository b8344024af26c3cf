//! Escrow settlement between a buyer and a seller: a ledger of balances and
//! holds that reserve a buyer's funds, then release them to the seller on
//! accept or back to the buyer on deny. The money in the system (balances
//! plus funds on hold) only changes by crediting an account.
use vstd::prelude::*;
use crate::keyed::{find_key, key_index, keys_of, lemma_key_index, lemma_push_distinct};
use crate::text::{owned, str_eq};

verus! {

/// The state of an escrow hold.
#[derive(Clone, Copy, Debug, PartialEq, Eq, Structural)]
pub enum HoldState {
    Held,
    Paid,
    Cancelled,
}

/// An escrow hold.
#[derive(Debug)]
pub struct Hold {
    pub buyer: String,
    pub seller: String,
    pub amount: u64,
    pub state: HoldState,
}

/// A hold as plain values.
pub struct HoldView {
    pub buyer: Seq<char>,
    pub seller: Seq<char>,
    pub amount: u64,
    pub state: HoldState,
}

impl View for Hold {
    type V = HoldView;

    open spec fn view(&self) -> HoldView {
        HoldView { buyer: self.buyer@, seller: self.seller@, amount: self.amount, state: self.state }
    }
}

/// Why a reservation was refused.
#[derive(Clone, Copy, Debug, PartialEq, Eq, Structural)]
pub enum Refusal {
    /// An order with this id is already held.
    DuplicateOrder,
    /// The terms name no seller or no amount.
    BadRequest,
    /// The amount is zero.
    BadAmount,
    /// The buyer's balance is below the amount.
    Insufficient,
    /// The sender may not settle this order.
    Unauthorized,
}

/// The reason text a refusal is reported with.
pub open spec fn refusal_text(r: Refusal) -> Seq<char> {
    match r {
        Refusal::DuplicateOrder => "duplicate-order"@,
        Refusal::BadRequest => "bad-request"@,
        Refusal::BadAmount => "bad-amount"@,
        Refusal::Insufficient => "insufficient"@,
        Refusal::Unauthorized => "unauthorized"@,
    }
}

impl Refusal {
    /// The reason text.
    pub fn reason(&self) -> (r: &'static str)
        ensures
            r@ == refusal_text(*self),
    {
        match self {
            Refusal::DuplicateOrder => "duplicate-order",
            Refusal::BadRequest => "bad-request",
            Refusal::BadAmount => "bad-amount",
            Refusal::Insufficient => "insufficient",
            Refusal::Unauthorized => "unauthorized",
        }
    }
}

/// What settling an order led to: the parties to send receipts to, and the
/// amount.
#[derive(Debug)]
pub struct Settlement {
    pub buyer: String,
    pub seller: String,
    pub amount: u64,
}

/// The sum of the balances.
pub open spec fn ledger_total(s: Seq<(String, u64)>) -> nat
    decreases s.len(),
{
    if s.len() == 0 {
        0
    } else {
        ledger_total(s.drop_last()) + s.last().1 as nat
    }
}

/// The funds still on hold.
pub open spec fn held_total(s: Seq<(String, Hold)>) -> nat
    decreases s.len(),
{
    if s.len() == 0 {
        0
    } else {
        held_total(s.drop_last()) + if s.last().1.state == HoldState::Held { s.last().1.amount as nat } else { 0 }
    }
}

proof fn lemma_ledger_update(s: Seq<(String, u64)>, i: int, e: (String, u64))
    requires
        0 <= i < s.len(),
    ensures
        ledger_total(s.update(i, e)) + s[i].1 == ledger_total(s) + e.1,
        s[i].1 <= ledger_total(s),
    decreases s.len(),
{
    let u = s.update(i, e);
    if i == s.len() - 1 {
        assert(u.drop_last() =~= s.drop_last());
    } else {
        assert(u.drop_last() =~= s.drop_last().update(i, e));
        lemma_ledger_update(s.drop_last(), i, e);
    }
}

proof fn lemma_held_update(s: Seq<(String, Hold)>, i: int, e: (String, Hold))
    requires
        0 <= i < s.len(),
    ensures
        held_total(s.update(i, e)) + (if s[i].1.state == HoldState::Held { s[i].1.amount as nat } else { 0 })
            == held_total(s) + (if e.1.state == HoldState::Held { e.1.amount as nat } else { 0 }),
        (if s[i].1.state == HoldState::Held { s[i].1.amount as nat } else { 0 }) <= held_total(s),
    decreases s.len(),
{
    let u = s.update(i, e);
    if i == s.len() - 1 {
        assert(u.drop_last() =~= s.drop_last());
    } else {
        assert(u.drop_last() =~= s.drop_last().update(i, e));
        lemma_held_update(s.drop_last(), i, e);
    }
}

proof fn lemma_ledger_prefix(s: Seq<(String, u64)>, i: int)
    requires
        0 <= i <= s.len(),
    ensures
        ledger_total(s.take(i)) <= ledger_total(s),
    decreases s.len(),
{
    if i < s.len() {
        assert(s.drop_last().take(i) =~= s.take(i));
        lemma_ledger_prefix(s.drop_last(), i);
    } else {
        assert(s.take(i) =~= s);
    }
}

proof fn lemma_held_prefix(s: Seq<(String, Hold)>, i: int)
    requires
        0 <= i <= s.len(),
    ensures
        held_total(s.take(i)) <= held_total(s),
    decreases s.len(),
{
    if i < s.len() {
        assert(s.drop_last().take(i) =~= s.take(i));
        lemma_held_prefix(s.drop_last(), i);
    } else {
        assert(s.take(i) =~= s);
    }
}

/// What settling an order led to.
#[derive(Debug)]
pub enum SettleOutcome {
    /// No hold for the order; nothing happens.
    UnknownOrder,
    /// The sender may not settle this order.
    Unauthorized,
    /// The order is settled now: receipts go to both parties.
    Settled(Settlement),
    /// The order was settled before (paid or cancelled); holds only move one
    /// way, so nothing changes.
    NotHeld(HoldState),
}

/// A ledger of balances and escrow holds.
#[derive(Debug)]
pub struct Escrow {
    ledger: Vec<(String, u64)>,
    holds: Vec<(String, Hold)>,
}

impl Escrow {
    /// Accounts and orders are keyed.
    pub closed spec fn wf(&self) -> bool {
        &&& keys_of(self.ledger@).no_duplicates()
        &&& keys_of(self.holds@).no_duplicates()
    }

    /// Balances plus funds on hold.
    pub closed spec fn money(&self) -> nat {
        ledger_total(self.ledger@) + held_total(self.holds@)
    }

    /// The balance of an account (0 for an unknown one).
    pub closed spec fn balance_of(&self, account: Seq<char>) -> u64 {
        if keys_of(self.ledger@).contains(account) {
            self.ledger@[key_index(self.ledger@, account)].1
        } else {
            0
        }
    }

    /// The hold for an order.
    pub closed spec fn hold_of(&self, order: Seq<char>) -> Option<HoldView> {
        if keys_of(self.holds@).contains(order) {
            Some(self.holds@[key_index(self.holds@, order)].1@)
        } else {
            None
        }
    }

    /// No balances and no holds.
    pub fn new() -> (e: Self)
        ensures
            e.wf(),
            e.money() == 0,
            forall|a: Seq<char>| e.balance_of(a) == 0,
            forall|o: Seq<char>| e.hold_of(o) is None,
    {
        let e = Escrow { ledger: Vec::new(), holds: Vec::new() };
        assert(keys_of(e.ledger@) =~= Seq::<Seq<char>>::empty());
        assert(keys_of(e.holds@) =~= Seq::<Seq<char>>::empty());
        e
    }

    /// The balance of an account.
    pub fn balance(&self, account: &str) -> (b: u64)
        requires
            self.wf(),
        ensures
            b == self.balance_of(account@),
    {
        match find_key(&self.ledger, account) {
            Some(i) => self.ledger[i].1,
            None => 0,
        }
    }

    /// All the money on the books: balances plus funds on hold.
    pub fn total(&self) -> (t: u64)
        requires
            self.wf(),
            self.money() <= u64::MAX,
        ensures
            t == self.money(),
    {
        let mut sum: u64 = 0;
        let mut i: usize = 0;
        while i < self.ledger.len()
            invariant
                self.wf(),
                self.money() <= u64::MAX,
                i <= self.ledger@.len(),
                sum == ledger_total(self.ledger@.take(i as int)),
            decreases self.ledger@.len() - i,
        {
            proof {
                let t = self.ledger@.take(i as int + 1);
                assert(t.drop_last() =~= self.ledger@.take(i as int));
                lemma_ledger_prefix(self.ledger@, i as int + 1);
            }
            sum = sum + self.ledger[i].1;
            i = i + 1;
        }
        assert(self.ledger@.take(i as int) =~= self.ledger@);
        let mut j: usize = 0;
        while j < self.holds.len()
            invariant
                self.wf(),
                self.money() <= u64::MAX,
                j <= self.holds@.len(),
                sum == ledger_total(self.ledger@) + held_total(self.holds@.take(j as int)),
            decreases self.holds@.len() - j,
        {
            proof {
                let t = self.holds@.take(j as int + 1);
                assert(t.drop_last() =~= self.holds@.take(j as int));
                lemma_held_prefix(self.holds@, j as int + 1);
            }
            if self.holds[j].1.state == HoldState::Held {
                sum = sum + self.holds[j].1.amount;
            }
            j = j + 1;
        }
        assert(self.holds@.take(j as int) =~= self.holds@);
        sum
    }

    /// Seed an account: its balance becomes `amount`, replacing the old one.
    pub fn seed_balance(&mut self, account: &str, amount: u64)
        requires
            old(self).wf(),
        ensures
            final(self).wf(),
            final(self).money() == old(self).money() - old(self).balance_of(account@) + amount,
            final(self).balance_of(account@) == amount,
            forall|a: Seq<char>| a != account@ ==> #[trigger] final(self).balance_of(a) == old(self).balance_of(a),
            forall|o: Seq<char>| #[trigger] final(self).hold_of(o) == old(self).hold_of(o),
    {
        self.set_balance(account, amount);
    }

    /// The state of an order's hold.
    pub fn hold_state(&self, order: &str) -> (s: Option<HoldState>)
        requires
            self.wf(),
        ensures
            s == (match self.hold_of(order@) {
                Some(h) => Some(h.state),
                None => None::<HoldState>,
            }),
    {
        match find_key(&self.holds, order) {
            Some(i) => Some(self.holds[i].1.state),
            None => None,
        }
    }

    /// Set an account's balance.
    fn set_balance(&mut self, account: &str, amount: u64)
        requires
            old(self).wf(),
        ensures
            keys_of(final(self).ledger@).no_duplicates(),
            final(self).holds@ == old(self).holds@,
            final(self).balance_of(account@) == amount,
            forall|a: Seq<char>| a != account@ ==> #[trigger] final(self).balance_of(a) == old(self).balance_of(a),
            ledger_total(final(self).ledger@) + old(self).balance_of(account@) == ledger_total(old(self).ledger@) + amount,
            old(self).balance_of(account@) <= ledger_total(old(self).ledger@),
    {
        let ghost s = self.ledger@;
        match find_key(&self.ledger, account) {
            Some(i) => {
                let k = self.ledger[i].0.clone();
                let ghost e = (k, amount);
                self.ledger.set(i, (k, amount));
                proof {
                    let u = self.ledger@;
                    assert(u == s.update(i as int, e));
                    assert(keys_of(u) =~= keys_of(s));
                    lemma_ledger_update(s, i as int, e);
                    lemma_key_index(u, i as int);
                    assert forall|a: Seq<char>| a != account@ implies #[trigger] self.balance_of(a) == old(self).balance_of(a) by {
                        if keys_of(s).contains(a) {
                            let j = key_index(s, a);
                            lemma_key_index(s, j);
                            lemma_key_index(u, j);
                        }
                    }
                }
            },
            None => {
                let k = owned(account);
                self.ledger.push((k, amount));
                proof {
                    let u = self.ledger@;
                    lemma_push_distinct(s, u.last());
                    assert(u == s.push(u.last()));
                    assert(u.drop_last() =~= s);
                    lemma_key_index(u, s.len() as int);
                    assert forall|a: Seq<char>| a != account@ implies #[trigger] self.balance_of(a) == old(self).balance_of(a) by {
                        if keys_of(s).contains(a) {
                            let j = key_index(s, a);
                            lemma_key_index(s, j);
                            assert(u[j] == s[j]);
                            lemma_key_index(u, j);
                        } else {
                            assert(!keys_of(u).contains(a)) by {
                                if keys_of(u).contains(a) {
                                    let j = choose|j: int| 0 <= j < keys_of(u).len() && keys_of(u)[j] == a;
                                    if j < s.len() {
                                        assert(keys_of(s)[j] == a);
                                    }
                                }
                            }
                        }
                    }
                }
            },
        }
    }

    /// Add a hold under a new order id.
    fn add_hold(&mut self, order: &str, h: Hold)
        requires
            keys_of(old(self).holds@).no_duplicates(),
            !keys_of(old(self).holds@).contains(order@),
        ensures
            keys_of(final(self).holds@).no_duplicates(),
            final(self).ledger@ == old(self).ledger@,
            final(self).hold_of(order@) == Some(h@),
            forall|o: Seq<char>| o != order@ ==> #[trigger] final(self).hold_of(o) == old(self).hold_of(o),
            held_total(final(self).holds@) == held_total(old(self).holds@)
                + if h.state == HoldState::Held { h.amount as nat } else { 0 },
    {
        let ghost s = self.holds@;
        let ghost hv = h@;
        self.holds.push((owned(order), h));
        proof {
            let u = self.holds@;
            lemma_push_distinct(s, u.last());
            assert(u == s.push(u.last()));
            assert(u.drop_last() =~= s);
            lemma_key_index(u, s.len() as int);
            assert forall|o: Seq<char>| o != order@ implies #[trigger] self.hold_of(o) == old(self).hold_of(o) by {
                if keys_of(s).contains(o) {
                    let j = key_index(s, o);
                    lemma_key_index(s, j);
                    assert(u[j] == s[j]);
                    lemma_key_index(u, j);
                } else {
                    assert(!keys_of(u).contains(o)) by {
                        if keys_of(u).contains(o) {
                            let j = choose|j: int| 0 <= j < keys_of(u).len() && keys_of(u)[j] == o;
                            if j < s.len() {
                                assert(keys_of(s)[j] == o);
                            }
                        }
                    }
                }
            }
        }
    }

    /// Set the state of the hold at index `i`.
    fn set_hold_state(&mut self, i: usize, state: HoldState)
        requires
            keys_of(old(self).holds@).no_duplicates(),
            i < old(self).holds@.len(),
        ensures
            keys_of(final(self).holds@).no_duplicates(),
            final(self).ledger@ == old(self).ledger@,
            final(self).hold_of(old(self).holds@[i as int].0@)
                == Some(HoldView { state, ..old(self).holds@[i as int].1@ }),
            forall|o: Seq<char>| o != old(self).holds@[i as int].0@ ==> #[trigger] final(self).hold_of(o) == old(self).hold_of(o),
            held_total(final(self).holds@) + (if old(self).holds@[i as int].1.state == HoldState::Held { old(self).holds@[i as int].1.amount as nat } else { 0 })
                == held_total(old(self).holds@) + (if state == HoldState::Held { old(self).holds@[i as int].1.amount as nat } else { 0 }),
    {
        let ghost s = self.holds@;
        self.holds[i].1.state = state;
        proof {
            let u = self.holds@;
            assert(u =~= s.update(i as int, u[i as int]));
            lemma_held_update(s, i as int, u[i as int]);
            assert(keys_of(u) =~= keys_of(s));
            lemma_key_index(u, i as int);
            lemma_key_index(s, i as int);
            assert forall|o: Seq<char>| o != s[i as int].0@ implies #[trigger] self.hold_of(o) == old(self).hold_of(o) by {
                if keys_of(s).contains(o) {
                    let j = key_index(s, o);
                    lemma_key_index(s, j);
                    lemma_key_index(u, j);
                }
            }
        }
    }

    /// Reserve `amount` of the buyer's funds for an order to `seller`:
    /// refused for a known order, missing terms, a zero amount or an
    /// insufficient balance; otherwise the funds move from the buyer's
    /// balance into a new hold.
    pub fn reserve(&mut self, order: &str, buyer: &str, seller: Option<&str>, amount: Option<u64>) -> (r: Result<(), Refusal>)
        requires
            old(self).wf(),
        ensures
            final(self).wf(),
            final(self).money() == old(self).money(),
            old(self).hold_of(order@) is Some ==> r == Err::<(), Refusal>(Refusal::DuplicateOrder),
            old(self).hold_of(order@) is None && (seller is None || amount is None) ==> r == Err::<(), Refusal>(Refusal::BadRequest),
            old(self).hold_of(order@) is None && seller is Some && amount == Some(0u64) ==> r == Err::<(), Refusal>(Refusal::BadAmount),
            amount matches Some(a) ==> (old(self).hold_of(order@) is None && seller is Some && a > 0
                && old(self).balance_of(buyer@) < a ==> r == Err::<(), Refusal>(Refusal::Insufficient)),
            amount matches Some(a) ==> (old(self).hold_of(order@) is None && seller is Some
                && 0 < a <= old(self).balance_of(buyer@) ==> r is Ok),
            r is Err ==> forall|a: Seq<char>| #[trigger] final(self).balance_of(a) == old(self).balance_of(a),
            r is Err ==> forall|o: Seq<char>| #[trigger] final(self).hold_of(o) == old(self).hold_of(o),
            r is Ok ==> {
                &&& old(self).hold_of(order@) is None
                &&& seller matches Some(sl) && amount matches Some(a) && {
                    &&& 0 < a <= old(self).balance_of(buyer@)
                    &&& final(self).balance_of(buyer@) == old(self).balance_of(buyer@) - a
                    &&& final(self).hold_of(order@) == Some(HoldView { buyer: buyer@, seller: sl@, amount: a, state: HoldState::Held })
                }
                &&& forall|b: Seq<char>| b != buyer@ ==> #[trigger] final(self).balance_of(b) == old(self).balance_of(b)
                &&& forall|o: Seq<char>| o != order@ ==> #[trigger] final(self).hold_of(o) == old(self).hold_of(o)
            },
    {
        if find_key(&self.holds, order).is_some() {
            return Err(Refusal::DuplicateOrder);
        }
        let (sl, a) = match (seller, amount) {
            (Some(sl), Some(a)) => (sl, a),
            _ => {
                return Err(Refusal::BadRequest);
            },
        };
        if a == 0 {
            return Err(Refusal::BadAmount);
        }
        let bal = self.balance(buyer);
        if bal < a {
            return Err(Refusal::Insufficient);
        }
        let ghost s0 = *self;
        self.set_balance(buyer, bal - a);
        let ghost s1 = *self;
        let h = Hold { buyer: owned(buyer), seller: owned(sl), amount: a, state: HoldState::Held };
        assert(h@ == (HoldView { buyer: buyer@, seller: sl@, amount: a, state: HoldState::Held }));
        self.add_hold(order, h);
        assert(forall|b: Seq<char>| #[trigger] self.balance_of(b) == s1.balance_of(b));
        assert(forall|o: Seq<char>| #[trigger] s1.hold_of(o) == s0.hold_of(o));
        assert(self.balance_of(buyer@) == old(self).balance_of(buyer@) - a);
        assert(self.hold_of(order@) == Some(HoldView { buyer: buyer@, seller: sl@, amount: a, state: HoldState::Held }));
        Ok(())
    }

    /// Release an order's funds to its seller. Only the seller may accept;
    /// an order that is no longer on hold (paid or cancelled) is left as it
    /// is and answered with its state, with no receipts.
    pub fn accept(&mut self, order: &str, from: &str) -> (r: SettleOutcome)
        requires
            old(self).wf(),
            old(self).settle_fits(order@, from@, true),
        ensures
            final(self).wf(),
            final(self).money() == old(self).money(),
            match old(self).hold_of(order@) {
                None => r is UnknownOrder && final(self).same_as(*old(self)),
                Some(h) => if from@ != h.seller {
                    r is Unauthorized && final(self).same_as(*old(self))
                } else if h.state != HoldState::Held {
                    (r matches SettleOutcome::NotHeld(st) && st == h.state) && final(self).same_as(*old(self))
                } else {
                    &&& r matches SettleOutcome::Settled(st) && st.buyer@ == h.buyer && st.seller@ == h.seller && st.amount == h.amount
                    &&& final(self).balance_of(h.seller) == old(self).balance_of(h.seller) + h.amount
                    &&& forall|b: Seq<char>| b != h.seller ==> #[trigger] final(self).balance_of(b) == old(self).balance_of(b)
                    &&& final(self).hold_of(order@) == Some(HoldView { state: HoldState::Paid, ..h })
                    &&& forall|o: Seq<char>| o != order@ ==> #[trigger] final(self).hold_of(o) == old(self).hold_of(o)
                },
            },
    {
        self.settle(order, from, true)
    }

    /// Return an order's funds to its buyer. The buyer or the seller may
    /// deny; an order that is no longer on hold (paid or cancelled) is left
    /// as it is and answered with its state, with no receipts.
    pub fn cancel(&mut self, order: &str, from: &str) -> (r: SettleOutcome)
        requires
            old(self).wf(),
            old(self).settle_fits(order@, from@, false),
        ensures
            final(self).wf(),
            final(self).money() == old(self).money(),
            match old(self).hold_of(order@) {
                None => r is UnknownOrder && final(self).same_as(*old(self)),
                Some(h) => if from@ != h.buyer && from@ != h.seller {
                    r is Unauthorized && final(self).same_as(*old(self))
                } else if h.state != HoldState::Held {
                    (r matches SettleOutcome::NotHeld(st) && st == h.state) && final(self).same_as(*old(self))
                } else {
                    &&& r matches SettleOutcome::Settled(st) && st.buyer@ == h.buyer && st.seller@ == h.seller && st.amount == h.amount
                    &&& final(self).balance_of(h.buyer) == old(self).balance_of(h.buyer) + h.amount
                    &&& forall|b: Seq<char>| b != h.buyer ==> #[trigger] final(self).balance_of(b) == old(self).balance_of(b)
                    &&& final(self).hold_of(order@) == Some(HoldView { state: HoldState::Cancelled, ..h })
                    &&& forall|o: Seq<char>| o != order@ ==> #[trigger] final(self).hold_of(o) == old(self).hold_of(o)
                },
            },
    {
        self.settle(order, from, false)
    }

    /// Settling `order` on behalf of `from` (to the seller, or back to the
    /// buyer) leaves the payee's balance within a `u64`: where it would not,
    /// the settlement cannot be made.
    pub open spec fn settle_fits(&self, order: Seq<char>, from: Seq<char>, to_seller: bool) -> bool {
        match self.hold_of(order) {
            Some(h) => {
                let allowed = if to_seller { from == h.seller } else { from == h.buyer || from == h.seller };
                let payee = if to_seller { h.seller } else { h.buyer };
                allowed && h.state == HoldState::Held ==> self.balance_of(payee) + h.amount <= u64::MAX
            },
            None => true,
        }
    }

    /// The same balances and holds.
    pub open spec fn same_as(&self, other: Escrow) -> bool {
        &&& forall|b: Seq<char>| #[trigger] self.balance_of(b) == other.balance_of(b)
        &&& forall|o: Seq<char>| #[trigger] self.hold_of(o) == other.hold_of(o)
    }

    /// The hold for an order, with its parties, amount and state.
    pub fn hold(&self, order: &str) -> (r: Option<&Hold>)
        requires
            self.wf(),
        ensures
            match self.hold_of(order@) {
                Some(h) => r matches Some(x) && x@ == h,
                None => r is None,
            },
    {
        match find_key(&self.holds, order) {
            Some(i) => Some(&self.holds[i].1),
            None => None,
        }
    }

    fn settle(&mut self, order: &str, from: &str, to_seller: bool) -> (r: SettleOutcome)
        requires
            old(self).wf(),
            old(self).settle_fits(order@, from@, to_seller),
        ensures
            final(self).wf(),
            final(self).money() == old(self).money(),
            match old(self).hold_of(order@) {
                None => r is UnknownOrder && final(self).same_as(*old(self)),
                Some(h) => if (to_seller && from@ != h.seller) || (!to_seller && from@ != h.buyer && from@ != h.seller) {
                    r is Unauthorized && final(self).same_as(*old(self))
                } else if h.state != HoldState::Held {
                    (r matches SettleOutcome::NotHeld(st) && st == h.state) && final(self).same_as(*old(self))
                } else {
                    let payee = if to_seller { h.seller } else { h.buyer };
                    &&& r matches SettleOutcome::Settled(st) && st.buyer@ == h.buyer && st.seller@ == h.seller && st.amount == h.amount
                    &&& final(self).balance_of(payee) == old(self).balance_of(payee) + h.amount
                    &&& forall|b: Seq<char>| b != payee ==> #[trigger] final(self).balance_of(b) == old(self).balance_of(b)
                    &&& final(self).hold_of(order@) == Some(HoldView {
                        state: if to_seller { HoldState::Paid } else { HoldState::Cancelled },
                        ..h
                    })
                    &&& forall|o: Seq<char>| o != order@ ==> #[trigger] final(self).hold_of(o) == old(self).hold_of(o)
                },
            },
    {
        let i = match find_key(&self.holds, order) {
            Some(i) => i,
            None => {
                return SettleOutcome::UnknownOrder;
            },
        };
        let ghost h = self.holds@[i as int].1@;
        assert(old(self).hold_of(order@) == Some(h));
        let state = self.holds[i].1.state;
        let allowed = if to_seller {
            str_eq(from, self.holds[i].1.seller.as_str())
        } else {
            str_eq(from, self.holds[i].1.buyer.as_str()) || str_eq(from, self.holds[i].1.seller.as_str())
        };
        if !allowed {
            return SettleOutcome::Unauthorized;
        }
        if state != HoldState::Held {
            return SettleOutcome::NotHeld(state);
        }
        let buyer = self.holds[i].1.buyer.clone();
        let seller = self.holds[i].1.seller.clone();
        let amount = self.holds[i].1.amount;
        let payee = if to_seller { seller.as_str() } else { buyer.as_str() };
        let ghost s0 = *self;
        let bal = self.balance(payee);
        proof {
            lemma_held_update(self.holds@, i as int, self.holds@[i as int]);
        }
        self.set_balance(payee, bal + amount);
        let ghost s1 = *self;
        self.set_hold_state(i, if to_seller { HoldState::Paid } else { HoldState::Cancelled });
        proof {
            assert(s0.hold_of(order@) == Some(h));
            assert(forall|b: Seq<char>| #[trigger] self.balance_of(b) == s1.balance_of(b));
            assert(forall|o: Seq<char>| #[trigger] s1.hold_of(o) == s0.hold_of(o));
            assert(self.balance_of(payee@) == s0.balance_of(payee@) + amount);
        }
        SettleOutcome::Settled(Settlement { buyer, seller, amount })
    }

    /// Credit an account.
    pub fn credit(&mut self, account: &str, amount: u64)
        requires
            old(self).wf(),
            old(self).balance_of(account@) + amount <= u64::MAX,
        ensures
            final(self).wf(),
            final(self).money() == old(self).money() + amount,
            final(self).balance_of(account@) == old(self).balance_of(account@) + amount,
            forall|a: Seq<char>| a != account@ ==> #[trigger] final(self).balance_of(a) == old(self).balance_of(a),
            forall|o: Seq<char>| #[trigger] final(self).hold_of(o) == old(self).hold_of(o),
    {
        let b = self.balance(account);
        proof {
            let s = self.ledger@;
            if keys_of(s).contains(account@) {
                lemma_key_index(s, key_index(s, account@));
                lemma_ledger_update(s, key_index(s, account@), s[key_index(s, account@)]);
            }
        }
        self.set_balance(account, b + amount);
    }
}

} // verus!
