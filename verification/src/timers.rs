//! An agent's timers: each timer id with its deadline, bounded by the
//! agent's timer budget.
//!
//! Setting a known timer moves its deadline; a new timer takes a slot only
//! while a slot is free; cancelling frees it. Timers whose deadline has come
//! are taken out to fire.
use vstd::prelude::*;

verus! {

/// A timer request from an agent.
#[derive(Clone, Copy, Debug, PartialEq, Eq, Structural)]
pub enum TimerOp {
    /// Arm (or re-arm) timer `id` to fire `delay_ms` from now.
    Arm { id: u64, delay_ms: u64 },
    /// Disarm timer `id`.
    Cancel { id: u64 },
}

/// The ids of a list of (id, deadline) slots.
pub open spec fn timer_ids(s: Seq<(u64, u64)>) -> Seq<u64> {
    s.map_values(|p: (u64, u64)| p.0)
}

/// The index of timer `id` in a list of slots.
pub open spec fn timer_index(s: Seq<(u64, u64)>, id: u64) -> int {
    choose|i: int| 0 <= i < s.len() && s[i].0 == id
}

/// The deadlines that a list of slots (ids distinct) stands for.
pub open spec fn timer_map(s: Seq<(u64, u64)>) -> Map<u64, u64> {
    Map::new(|id: u64| timer_ids(s).contains(id), |id: u64| s[timer_index(s, id)].1)
}

/// `a + b`, or the largest `u64` when that overflows.
pub open spec fn sat_add(a: u64, b: u64) -> u64 {
    if a + b > u64::MAX { u64::MAX } else { (a + b) as u64 }
}

/// The timers after one request, with `budget` slots at time `now`.
pub open spec fn timer_step(m: Map<u64, u64>, op: TimerOp, budget: nat, now: u64) -> Map<u64, u64> {
    match op {
        TimerOp::Arm { id, delay_ms } => {
            if !m.contains_key(id) && m.dom().len() >= budget {
                m
            } else {
                m.insert(id, sat_add(now, delay_ms))
            }
        },
        TimerOp::Cancel { id } => m.remove(id),
    }
}

/// The timers after a list of requests, applied in order.
pub open spec fn timer_steps(m: Map<u64, u64>, ops: Seq<TimerOp>, budget: nat, now: u64) -> Map<u64, u64>
    decreases ops.len(),
{
    if ops.len() == 0 {
        m
    } else {
        timer_step(timer_steps(m, ops.drop_last(), budget, now), ops.last(), budget, now)
    }
}

/// The timers due at `now`.
pub open spec fn due_ids(m: Map<u64, u64>, now: u64) -> Set<u64> {
    Set::new(|id: u64| m.contains_key(id) && m[id] <= now)
}

proof fn lemma_timer_index(s: Seq<(u64, u64)>, i: int)
    requires
        timer_ids(s).no_duplicates(),
        0 <= i < s.len(),
    ensures
        timer_ids(s).contains(s[i].0),
        timer_index(s, s[i].0) == i,
{
    assert(timer_ids(s)[i] == s[i].0);
    let k = timer_index(s, s[i].0);
    if k != i {
        assert(timer_ids(s)[k] == timer_ids(s)[i]);
    }
}

proof fn lemma_timer_len(s: Seq<(u64, u64)>)
    requires
        timer_ids(s).no_duplicates(),
    ensures
        timer_map(s).dom().finite(),
        timer_map(s).dom().len() == s.len(),
{
    assert(timer_map(s).dom() =~= timer_ids(s).to_set());
    timer_ids(s).unique_seq_to_set();
}

proof fn lemma_timer_remove(s: Seq<(u64, u64)>, i: int)
    requires
        timer_ids(s).no_duplicates(),
        0 <= i < s.len(),
    ensures
        timer_ids(s.remove(i)).no_duplicates(),
        timer_map(s.remove(i)) == timer_map(s).remove(s[i].0),
{
    let r = s.remove(i);
    let ks = timer_ids(s);
    assert(timer_ids(r) =~= ks.remove(i));
    assert forall|a: int, b: int| 0 <= a < timer_ids(r).len() && 0 <= b < timer_ids(r).len() && a != b
        implies timer_ids(r)[a] != timer_ids(r)[b] by {
        let a2 = if a < i { a } else { a + 1 };
        let b2 = if b < i { b } else { b + 1 };
        assert(timer_ids(r)[a] == ks[a2]);
        assert(timer_ids(r)[b] == ks[b2]);
    }
    let id = s[i].0;
    lemma_timer_index(s, i);
    assert forall|k: u64| #[trigger] timer_map(r).contains_key(k) <==> timer_map(s).remove(id).contains_key(k) by {
        assert(ks[i] == id);
        if timer_ids(r).contains(k) {
            let j = choose|j: int| 0 <= j < timer_ids(r).len() && timer_ids(r)[j] == k;
            let j2 = if j < i { j } else { j + 1 };
            assert(r[j] == s[j2]);
            assert(ks[j2] == k);
            assert(j2 != i);
            assert(ks[j2] != ks[i]);
        }
        if timer_ids(s).contains(k) && k != id {
            let j = choose|j: int| 0 <= j < ks.len() && ks[j] == k;
            assert(j != i);
            let j2 = if j < i { j } else { j - 1 };
            assert(r[j2] == s[j]);
            assert(timer_ids(r)[j2] == k);
        }
    }
    assert forall|k: u64| #[trigger] timer_map(r).contains_key(k) implies timer_map(r)[k] == timer_map(s)[k] by {
        let j = timer_index(r, k);
        lemma_timer_index(r, j);
        let j2 = if j < i { j } else { j + 1 };
        assert(s[j2] == r[j]);
        lemma_timer_index(s, j2);
    }
    assert(timer_map(r) =~= timer_map(s).remove(id));
}

/// One agent's timers.
#[derive(Debug)]
pub struct TimerSlots {
    slots: Vec<(u64, u64)>,
}

impl View for TimerSlots {
    type V = Map<u64, u64>;

    closed spec fn view(&self) -> Map<u64, u64> {
        timer_map(self.slots@)
    }
}

impl TimerSlots {
    #[verifier::type_invariant]
    closed spec fn ids_distinct(self) -> bool {
        timer_ids(self.slots@).no_duplicates()
    }

    /// No timers.
    pub fn new() -> (t: Self)
        ensures
            t@ == Map::<u64, u64>::empty(),
    {
        let t = TimerSlots { slots: Vec::new() };
        assert(timer_ids(t.slots@) =~= Seq::<u64>::empty());
        assert(t@ =~= Map::<u64, u64>::empty());
        t
    }

    /// How many timers are armed.
    pub fn len(&self) -> (n: usize)
        ensures
            self@.dom().finite(),
            n == self@.dom().len(),
    {
        proof {
            use_type_invariant(self);
            lemma_timer_len(self.slots@);
        }
        self.slots.len()
    }

    /// The deadline of timer `id`, if armed.
    pub fn deadline(&self, id: u64) -> (r: Option<u64>)
        ensures
            match r {
                Some(d) => self@.contains_key(id) && self@[id] == d,
                None => !self@.contains_key(id),
            },
    {
        proof {
            use_type_invariant(self);
        }
        match self.position(id) {
            Some(i) => {
                proof {
                    lemma_timer_index(self.slots@, i as int);
                }
                Some(self.slots[i].1)
            },
            None => None,
        }
    }

    fn position(&self, id: u64) -> (r: Option<usize>)
        ensures
            match r {
                Some(i) => i < self.slots@.len() && self.slots@[i as int].0 == id,
                None => !timer_ids(self.slots@).contains(id),
            },
    {
        let mut i: usize = 0;
        while i < self.slots.len()
            invariant
                i <= self.slots@.len(),
                forall|j: int| 0 <= j < i ==> self.slots@[j].0 != id,
            decreases self.slots@.len() - i,
        {
            if self.slots[i].0 == id {
                return Some(i);
            }
            i = i + 1;
        }
        proof {
            if timer_ids(self.slots@).contains(id) {
                let j = choose|j: int| 0 <= j < timer_ids(self.slots@).len() && timer_ids(self.slots@)[j] == id;
                assert(self.slots@[j].0 == id);
            }
        }
        None
    }

    /// Apply one request, with `budget` slots, at time `now`.
    pub fn apply_op(&mut self, op: TimerOp, budget: usize, now: u64)
        ensures
            final(self)@ == timer_step(old(self)@, op, budget as nat, now),
    {
        proof {
            use_type_invariant(&*self);
            lemma_timer_len(self.slots@);
        }
        let mut slots: Vec<(u64, u64)> = Vec::new();
        std::mem::swap(&mut slots, &mut self.slots);
        let ghost s = slots@;
        let found = {
            let mut i: usize = 0;
            let id = match op {
                TimerOp::Arm { id, .. } => id,
                TimerOp::Cancel { id } => id,
            };
            while i < slots.len() && slots[i].0 != id
                invariant
                    slots@ == s,
                    i <= s.len(),
                    forall|j: int| 0 <= j < i ==> s[j].0 != id,
                decreases s.len() - i,
            {
                i = i + 1;
            }
            proof {
                if i == s.len() && timer_ids(s).contains(id) {
                    let j = choose|j: int| 0 <= j < timer_ids(s).len() && timer_ids(s)[j] == id;
                    assert(s[j].0 == id);
                }
            }
            if i < slots.len() { Some(i) } else { None }
        };
        match op {
            TimerOp::Arm { id, delay_ms } => {
                let deadline = now.saturating_add(delay_ms);
                match found {
                    Some(i) => {
                        slots.set(i, (id, deadline));
                        proof {
                            let u = slots@;
                            assert(timer_ids(u) =~= timer_ids(s));
                            lemma_timer_index(s, i as int);
                            lemma_timer_index(u, i as int);
                            assert forall|k: u64| k != id && #[trigger] timer_map(u).contains_key(k)
                                implies timer_map(u)[k] == timer_map(s)[k] by {
                                let j = timer_index(u, k);
                                lemma_timer_index(u, j);
                                lemma_timer_index(s, j);
                            }
                            assert(timer_map(u) =~= timer_map(s).insert(id, sat_add(now, delay_ms)));
                        }
                    },
                    None => {
                        if slots.len() < budget {
                            slots.push((id, deadline));
                            proof {
                                let u = slots@;
                                assert(timer_ids(u) =~= timer_ids(s).push(id));
                                assert(timer_ids(u).no_duplicates()) by {
                                    let ks = timer_ids(u);
                                    assert forall|a: int, b: int| 0 <= a < ks.len() && 0 <= b < ks.len() && a != b
                                        implies ks[a] != ks[b] by {
                                        if a < s.len() {
                                            assert(ks[a] == timer_ids(s)[a]);
                                        }
                                        if b < s.len() {
                                            assert(ks[b] == timer_ids(s)[b]);
                                        }
                                        if a == s.len() && b < s.len() {
                                            assert(timer_ids(s).contains(ks[b]));
                                        }
                                        if b == s.len() && a < s.len() {
                                            assert(timer_ids(s).contains(ks[a]));
                                        }
                                    }
                                }
                                lemma_timer_index(u, s.len() as int);
                                assert forall|k: u64| k != id && #[trigger] timer_map(s).contains_key(k)
                                    implies timer_map(u).contains_key(k) && timer_map(u)[k] == timer_map(s)[k] by {
                                    let j = timer_index(s, k);
                                    lemma_timer_index(s, j);
                                    assert(u[j] == s[j]);
                                    lemma_timer_index(u, j);
                                }
                                assert forall|k: u64| #[trigger] timer_map(u).contains_key(k)
                                    implies k == id || timer_map(s).contains_key(k) by {
                                    let j = choose|j: int| 0 <= j < timer_ids(u).len() && timer_ids(u)[j] == k;
                                    if j < s.len() {
                                        assert(timer_ids(s)[j] == k);
                                    }
                                }
                                assert(timer_map(u) =~= timer_map(s).insert(id, sat_add(now, delay_ms)));
                            }
                        }
                    },
                }
            },
            TimerOp::Cancel { id } => {
                match found {
                    Some(i) => {
                        proof {
                            lemma_timer_remove(s, i as int);
                        }
                        let _gone = slots.remove(i);
                    },
                    None => {
                        assert(timer_map(s).remove(id) =~= timer_map(s));
                    },
                }
            },
        }
        std::mem::swap(&mut slots, &mut self.slots);
    }

    /// Apply an agent's requests in order, with `budget` slots, at `now`.
    pub fn apply(&mut self, ops: &Vec<TimerOp>, budget: usize, now: u64)
        ensures
            final(self)@ == timer_steps(old(self)@, ops@, budget as nat, now),
    {
        let mut i: usize = 0;
        while i < ops.len()
            invariant
                i <= ops@.len(),
                self@ == timer_steps(old(self)@, ops@.take(i as int), budget as nat, now),
            decreases ops@.len() - i,
        {
            proof {
                assert(ops@.take(i + 1).drop_last() =~= ops@.take(i as int));
            }
            self.apply_op(ops[i], budget, now);
            i = i + 1;
        }
        proof {
            assert(ops@.take(ops@.len() as int) =~= ops@);
        }
    }

    /// Take out the timers due at `now`, returning their ids.
    pub fn take_due(&mut self, now: u64) -> (due: Vec<u64>)
        ensures
            due@.no_duplicates(),
            due@.to_set() == due_ids(old(self)@, now),
            final(self)@ == old(self)@.restrict(old(self)@.dom().difference(due_ids(old(self)@, now))),
    {
        proof {
            use_type_invariant(&*self);
        }
        let ghost m0 = self@;
        let mut slots: Vec<(u64, u64)> = Vec::new();
        std::mem::swap(&mut slots, &mut self.slots);
        let mut due: Vec<u64> = Vec::new();
        loop
            invariant
                timer_ids(slots@).no_duplicates(),
                due@.no_duplicates(),
                forall|k: u64| #[trigger] due@.contains(k) ==> due_ids(m0, now).contains(k) && !timer_map(slots@).contains_key(k),
                forall|k: u64| #[trigger] due_ids(m0, now).contains(k) ==> due@.contains(k) || (timer_map(slots@).contains_key(k) && timer_map(slots@)[k] == m0[k]),
                timer_map(slots@) == m0.restrict(m0.dom().difference(due@.to_set())),
            ensures
                timer_ids(slots@).no_duplicates(),
                due@.no_duplicates(),
                forall|k: u64| #[trigger] due@.contains(k) ==> due_ids(m0, now).contains(k),
                forall|k: u64| #[trigger] due_ids(m0, now).contains(k) ==> due@.contains(k),
                timer_map(slots@) == m0.restrict(m0.dom().difference(due@.to_set())),
            decreases slots@.len(),
        {
            let ghost s = slots@;
            let mut i: usize = 0;
            while i < slots.len() && slots[i].1 > now
                invariant
                    slots@ == s,
                    i <= s.len(),
                    forall|j: int| 0 <= j < i ==> s[j].1 > now,
                decreases s.len() - i,
            {
                i = i + 1;
            }
            if i == slots.len() {
                proof {
                    assert forall|k: u64| #[trigger] due_ids(m0, now).contains(k) implies due@.contains(k) by {
                        if !due@.contains(k) {
                            let j = timer_index(s, k);
                            lemma_timer_index(s, j);
                        }
                    }
                }
                break;
            }
            let id = slots[i].0;
            proof {
                lemma_timer_index(s, i as int);
                lemma_timer_remove(s, i as int);
                assert(timer_map(s).contains_key(id));
                assert(timer_map(s)[id] == s[i as int].1);
                assert(m0.restrict(m0.dom().difference(due@.to_set())).contains_key(id));
                assert(m0.contains_key(id) && m0[id] == s[i as int].1);
                assert(due_ids(m0, now).contains(id));
            }
            let _gone = slots.remove(i);
            let ghost d = due@;
            due.push(id);
            proof {
                assert(due@ == d.push(id));
                d.lemma_push_to_set_commute(id);
                assert(due@.to_set() =~= d.to_set().insert(id));
                assert(due@.no_duplicates()) by {
                    assert forall|a: int, b: int| 0 <= a < due@.len() && 0 <= b < due@.len() && a != b
                        implies due@[a] != due@[b] by {
                        if a == d.len() {
                            assert(d.contains(due@[b]));
                        }
                        if b == d.len() {
                            assert(d.contains(due@[a]));
                        }
                    }
                }
                assert forall|k: u64| #[trigger] due@.contains(k) implies due_ids(m0, now).contains(k) && !timer_map(slots@).contains_key(k) by {
                    if k != id {
                        let j = choose|j: int| 0 <= j < due@.len() && due@[j] == k;
                        assert(d[j] == k);
                        assert(d.contains(k));
                    }
                }
                assert forall|k: u64| #[trigger] due_ids(m0, now).contains(k) implies due@.contains(k) || (timer_map(slots@).contains_key(k) && timer_map(slots@)[k] == m0[k]) by {
                    if d.contains(k) {
                        let j = choose|j: int| 0 <= j < d.len() && d[j] == k;
                        assert(due@[j] == k);
                    } else if k == id {
                        assert(due@[d.len() as int] == k);
                    }
                }
                assert(timer_map(slots@) =~= m0.restrict(m0.dom().difference(due@.to_set())));
            }
        }
        std::mem::swap(&mut slots, &mut self.slots);
        proof {
            assert forall|k: u64| due@.to_set().contains(k) <==> due_ids(m0, now).contains(k) by {
                if due_ids(m0, now).contains(k) {
                    assert(due@.contains(k));
                }
            }
            assert(due@.to_set() =~= due_ids(m0, now));
        }
        due
    }
}

/// Timers never take more slots than the budget: within budget before a
/// request, within budget after it.
pub proof fn law_timers_within_budget(m: Map<u64, u64>, op: TimerOp, budget: nat, now: u64)
    requires
        m.dom().finite(),
        m.dom().len() <= budget,
    ensures
        timer_step(m, op, budget, now).dom().finite(),
        timer_step(m, op, budget, now).dom().len() <= budget,
{
}

/// A cancelled timer never fires.
pub proof fn law_cancelled_never_due(m: Map<u64, u64>, id: u64, budget: nat, now: u64, later: u64)
    ensures
        !due_ids(timer_step(m, TimerOp::Cancel { id }, budget, now), later).contains(id),
{
}

} // verus!
