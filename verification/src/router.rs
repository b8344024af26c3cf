//! The in-node message router, with an authenticated `from`.
//!
//! An agent emits messages that carry no sender; the router stamps each with
//! the id of the agent it just drained, so an agent cannot forge its
//! identity. Injecting a message with a claimed sender ([`Router::send`]) is
//! the trust boundary, which a node authenticates before calling it.
use vstd::prelude::*;
use std::collections::VecDeque;
use crate::text::{owned, str_eq};

verus! {

/// A message an agent emits: receiver, UNL and body, and no sender.
#[derive(Debug)]
pub struct OutboundIntent {
    pub receiver: String,
    pub unl: Vec<u8>,
    pub body: Vec<u8>,
}

/// How the node drives an agent, in process or out.
pub trait AgentRuntime {
    /// Run the agent's init.
    fn init(&mut self) -> Result<(), String>;
    /// Deliver `(unl, body)` from `from`.
    fn config(&mut self, from: &str, unl: &[u8], body: &[u8]) -> Result<(), String>;
    /// Take what the agent has emitted since the last call.
    fn take_sends(&mut self) -> Vec<OutboundIntent>;
}

/// A message in flight; `from` is the sender the router vouches for.
#[derive(Debug)]
pub struct Envelope {
    pub from: String,
    pub to: String,
    pub unl: Vec<u8>,
    pub body: Vec<u8>,
}

/// A message in flight as plain values.
pub struct EnvelopeView {
    pub from: Seq<char>,
    pub to: Seq<char>,
    pub unl: Seq<u8>,
    pub body: Seq<u8>,
}

impl View for Envelope {
    type V = EnvelopeView;

    open spec fn view(&self) -> EnvelopeView {
        EnvelopeView { from: self.from@, to: self.to@, unl: self.unl@, body: self.body@ }
    }
}

/// The views of a list of envelopes.
pub open spec fn envelopes_view(v: Seq<Envelope>) -> Seq<EnvelopeView> {
    v.map_values(|e: Envelope| e@)
}

/// A router as plain values: the local agents' ids, the queue, and what was
/// addressed to non-local recipients.
pub struct RouterView {
    pub ids: Seq<Seq<char>>,
    pub queue: Seq<EnvelopeView>,
    pub outbox: Seq<EnvelopeView>,
}

/// Every envelope in `q` came from `origin`, or carries as sender the id of
/// one of the local agents `ids`.
pub open spec fn vouched(q: Seq<EnvelopeView>, origin: Seq<EnvelopeView>, ids: Seq<Seq<char>>) -> bool {
    forall|i: int| 0 <= i < q.len() ==> origin.contains(#[trigger] q[i]) || ids.contains(q[i].from)
}

/// Every envelope in `q` carries `from` as its sender.
pub open spec fn all_from(q: Seq<EnvelopeView>, from: Seq<char>) -> bool {
    forall|i: int| 0 <= i < q.len() ==> (#[trigger] q[i]).from == from
}

/// One delivery: the front envelope of `a`'s queue goes to the local agent it
/// is addressed to, whose emissions (if any) join the back of the queue
/// stamped with that agent's id; or, addressed elsewhere, to the outbox.
pub open spec fn router_step(a: RouterView, b: RouterView) -> bool {
    &&& a.queue.len() > 0
    &&& b.ids == a.ids
    &&& if a.ids.contains(a.queue[0].to) {
        &&& b.outbox == a.outbox
        &&& b.queue.len() >= a.queue.len() - 1
        &&& b.queue.take(a.queue.len() - 1) == a.queue.skip(1)
        &&& all_from(b.queue.skip(a.queue.len() - 1), a.queue[0].to)
    } else {
        &&& b.outbox == a.outbox.push(a.queue[0])
        &&& b.queue == a.queue.skip(1)
    }
}

/// A run: each state is one delivery after the one before.
pub open spec fn is_run(t: Seq<RouterView>) -> bool {
    &&& t.len() >= 1
    &&& forall|i: int| 0 <= i < t.len() - 1 ==> #[trigger] router_step(t[i], t[i + 1])
}

/// How a run of at most `max` deliveries from `a` ends in `b`: `b` is the
/// state after the last delivery, when the queue is empty or the budget is
/// spent; envelopes not yet delivered stay queued.
pub open spec fn run_ends(a: RouterView, b: RouterView, max: nat) -> bool {
    exists|t: Seq<RouterView>| #[trigger] is_run(t) && t[0] == a && t.len() <= max + 1 && b == t.last()
        && (t.last().queue.len() == 0 || t.len() == max + 1)
}

/// Along a run from `a` whose queue holds nothing for a local agent, the
/// first `j` deliveries forward the first `j` envelopes to the outbox, in
/// order.
proof fn lemma_forward_run(t: Seq<RouterView>, a: RouterView, j: int)
    requires
        is_run(t),
        t[0] == a,
        0 <= j < t.len(),
        forall|i: int| 0 <= i < a.queue.len() ==> !a.ids.contains(#[trigger] a.queue[i].to),
    ensures
        j <= a.queue.len(),
        t[j].ids == a.ids,
        t[j].outbox == a.outbox + a.queue.take(j),
        t[j].queue == a.queue.skip(j),
    decreases j,
{
    if j == 0 {
        assert(a.queue.take(0) =~= Seq::<EnvelopeView>::empty());
        assert(a.outbox + a.queue.take(0) =~= a.outbox);
        assert(a.queue.skip(0) =~= a.queue);
    } else {
        lemma_forward_run(t, a, j - 1);
        let p = t[j - 1];
        let i = j - 1;
        assert(router_step(t[i], t[i + 1]));
        assert(t[i + 1] == t[j]);
        assert(p.queue.len() > 0);
        assert(p.queue[0] == a.queue[j - 1]);
        assert(!p.ids.contains(p.queue[0].to));
        assert(a.queue.take(j) =~= a.queue.take(j - 1).push(a.queue[j - 1]));
        assert(t[j].outbox =~= a.outbox + a.queue.take(j));
        assert(t[j].queue =~= a.queue.skip(j));
    }
}

/// A router whose queue holds nothing for a local agent forwards, in `run(k)`,
/// the first `k` queued envelopes (or all of them) to the outbox in order,
/// and keeps the rest queued in order; nothing is lost.
pub proof fn law_run_forwards_in_order(a: RouterView, b: RouterView, k: nat)
    requires
        run_ends(a, b, k),
        forall|i: int| 0 <= i < a.queue.len() ==> !a.ids.contains(#[trigger] a.queue[i].to),
    ensures
        ({
            let n = if k < a.queue.len() { k as int } else { a.queue.len() as int };
            &&& b.outbox == a.outbox + a.queue.take(n)
            &&& b.queue == a.queue.skip(n)
        }),
{
    let t = choose|t: Seq<RouterView>| #[trigger] is_run(t) && t[0] == a && t.len() <= k + 1 && b == t.last()
        && (t.last().queue.len() == 0 || t.len() == k + 1);
    let j = t.len() - 1;
    lemma_forward_run(t, a, j);
    if t.last().queue.len() == 0 {
        assert(a.queue.skip(j).len() == 0);
    }
}

/// Routes messages between local agents, stamping the sender.
pub struct Router<A: AgentRuntime> {
    agents: Vec<(String, A)>,
    queue: VecDeque<Envelope>,
    /// Messages addressed to non-local recipients.
    pub outbox: Vec<Envelope>,
}

impl<A: AgentRuntime> View for Router<A> {
    type V = RouterView;

    closed spec fn view(&self) -> RouterView {
        RouterView {
            ids: self.agents@.map_values(|p: (String, A)| p.0@),
            queue: envelopes_view(self.queue@),
            outbox: envelopes_view(self.outbox@),
        }
    }
}

/// Stamp each emission with `from`, appending to `queue`.
fn stamp_all(queue: &mut VecDeque<Envelope>, from: &str, sends: Vec<OutboundIntent>)
    ensures
        final(queue)@.len() == old(queue)@.len() + sends@.len(),
        envelopes_view(final(queue)@).take(old(queue)@.len() as int) == envelopes_view(old(queue)@),
        all_from(envelopes_view(final(queue)@).skip(old(queue)@.len() as int), from@),
        forall|i: int| 0 <= i < sends@.len() ==> {
            let e = #[trigger] envelopes_view(final(queue)@)[old(queue)@.len() + i];
            &&& e.to == sends@[i].receiver@
            &&& e.unl == sends@[i].unl@
            &&& e.body == sends@[i].body@
        },
{
    let ghost q0 = queue@;
    let ghost all = sends@;
    let mut sends = sends;
    let mut k: usize = 0;
    let total = sends.len();
    while k < total
        invariant
            k <= total,
            total == all.len(),
            sends@ == all.skip(k as int),
            queue@.len() == q0.len() + k,
            envelopes_view(queue@).take(q0.len() as int) == envelopes_view(q0),
            all_from(envelopes_view(queue@).skip(q0.len() as int), from@),
            forall|i: int| 0 <= i < k ==> {
                let e = #[trigger] envelopes_view(queue@)[q0.len() + i];
                &&& e.to == all[i].receiver@
                &&& e.unl == all[i].unl@
                &&& e.body == all[i].body@
            },
        decreases total - k,
    {
        let ghost before = queue@;
        let s = sends.remove(0);
        assert(sends@ =~= all.skip(k + 1));
        assert(s == all[k as int]);
        queue.push_back(Envelope { from: owned(from), to: s.receiver, unl: s.unl, body: s.body });
        proof {
            let v = envelopes_view(queue@);
            let vb = envelopes_view(before);
            assert(v.take(q0.len() as int) =~= vb.take(q0.len() as int));
            assert forall|i: int| 0 <= i < v.skip(q0.len() as int).len() implies
                (#[trigger] v.skip(q0.len() as int)[i]).from == from@ by {
                if i < k {
                    assert(v.skip(q0.len() as int)[i] == vb.skip(q0.len() as int)[i]);
                }
            }
            assert forall|i: int| 0 <= i < k + 1 implies {
                let e = #[trigger] envelopes_view(queue@)[q0.len() + i];
                &&& e.to == all[i].receiver@
                &&& e.unl == all[i].unl@
                &&& e.body == all[i].body@
            } by {
                if i < k {
                    assert(v[q0.len() + i] == vb[q0.len() + i]);
                }
            }
        }
        k = k + 1;
    }
}

/// The ids of a list of agents.
pub open spec fn agent_ids<A>(v: Seq<(String, A)>) -> Seq<Seq<char>> {
    v.map_values(|p: (String, A)| p.0@)
}

impl<A: AgentRuntime> Router<A> {
    /// Local agents have distinct ids.
    pub closed spec fn wf(&self) -> bool {
        agent_ids(self.agents@).no_duplicates()
    }

    /// A router with no agents and nothing queued.
    pub fn new() -> (r: Self)
        ensures
            r.wf(),
            r@.ids.len() == 0,
            r@.queue.len() == 0,
            r@.outbox.len() == 0,
    {
        let r = Router { agents: Vec::new(), queue: VecDeque::new(), outbox: Vec::new() };
        assert(agent_ids(r.agents@) =~= Seq::<Seq<char>>::empty());
        assert(envelopes_view(r.queue@) =~= Seq::<EnvelopeView>::empty());
        assert(envelopes_view(r.outbox@) =~= Seq::<EnvelopeView>::empty());
        r
    }

    /// Index of the local agent `id`.
    fn position(&self, id: &str) -> (r: Option<usize>)
        requires
            self.wf(),
        ensures
            match r {
                Some(i) => i < self@.ids.len() && self@.ids[i as int] == id@,
                None => !self@.ids.contains(id@),
            },
    {
        let ghost ids = self@.ids;
        let mut i: usize = 0;
        while i < self.agents.len()
            invariant
                i <= self.agents@.len(),
                ids == agent_ids(self.agents@),
                forall|j: int| 0 <= j < i ==> ids[j] != id@,
            decreases self.agents@.len() - i,
        {
            if str_eq(self.agents[i].0.as_str(), id) {
                return Some(i);
            }
            i = i + 1;
        }
        proof {
            if ids.contains(id@) {
                let j = choose|j: int| 0 <= j < ids.len() && ids[j] == id@;
                assert(ids[j] != id@);
            }
        }
        None
    }

    /// Add a local agent under `id` (in place of one with the same id), run
    /// its init, and queue what it emitted, stamped from `id`.
    pub fn add(&mut self, id: &str, agent: A)
        requires
            old(self).wf(),
        ensures
            final(self).wf(),
            final(self)@.ids == if old(self)@.ids.contains(id@) { old(self)@.ids } else { old(self)@.ids.push(id@) },
            final(self)@.queue.len() >= old(self)@.queue.len(),
            final(self)@.queue.take(old(self)@.queue.len() as int) == old(self)@.queue,
            all_from(final(self)@.queue.skip(old(self)@.queue.len() as int), id@),
            final(self)@.outbox == old(self)@.outbox,
    {
        let mut agent = agent;
        let _ = agent.init();
        let sends = agent.take_sends();
        stamp_all(&mut self.queue, id, sends);
        let ghost ids0 = agent_ids(self.agents@);
        match self.position(id) {
            Some(i) => {
                let _old = self.agents.remove(i);
                self.agents.insert(i, (owned(id), agent));
                assert(agent_ids(self.agents@) =~= ids0);
            },
            None => {
                self.agents.push((owned(id), agent));
                assert(agent_ids(self.agents@) =~= ids0.push(id@));
                assert(agent_ids(self.agents@).no_duplicates()) by {
                    let after = agent_ids(self.agents@);
                    assert forall|a: int, b: int| 0 <= a < after.len() && 0 <= b < after.len() && a != b
                        implies after[a] != after[b] by {
                        if a < ids0.len() && b < ids0.len() {
                            assert(after[a] == ids0[a] && after[b] == ids0[b]);
                        } else if a < ids0.len() {
                            assert(after[a] == ids0[a]);
                            assert(ids0.contains(after[a]));
                        } else {
                            assert(after[b] == ids0[b]);
                            assert(ids0.contains(after[b]));
                        }
                    }
                }
            },
        }
    }

    /// Inject a message with a claimed sender. This is the trust boundary:
    /// the node authenticates the external client before calling it.
    pub fn send(&mut self, from: &str, to: &str, unl: &[u8], body: &[u8])
        ensures
            final(self).wf() == old(self).wf(),
            final(self)@ == (RouterView {
                queue: old(self)@.queue.push(EnvelopeView { from: from@, to: to@, unl: unl@, body: body@ }),
                ..old(self)@
            }),
    {
        let e = Envelope {
            from: owned(from),
            to: owned(to),
            unl: vstd::slice::slice_to_vec(unl),
            body: vstd::slice::slice_to_vec(body),
        };
        let ghost before = self.queue@;
        self.queue.push_back(e);
        assert(envelopes_view(self.queue@) =~= envelopes_view(before).push(e@));
    }

    /// Deliver one envelope: to the local agent it is addressed to (queueing
    /// what that agent emits, stamped with its id, unless delivery failed),
    /// or to the outbox.
    fn deliver(&mut self, env: Envelope)
        requires
            old(self).wf(),
        ensures
            final(self).wf(),
            final(self)@.ids == old(self)@.ids,
            old(self)@.ids.contains(env@.to) ==> {
                &&& final(self)@.outbox == old(self)@.outbox
                &&& final(self)@.queue.len() >= old(self)@.queue.len()
                &&& final(self)@.queue.take(old(self)@.queue.len() as int) == old(self)@.queue
                &&& all_from(final(self)@.queue.skip(old(self)@.queue.len() as int), env@.to)
            },
            !old(self)@.ids.contains(env@.to) ==> {
                &&& final(self)@.queue == old(self)@.queue
                &&& final(self)@.outbox == old(self)@.outbox.push(env@)
            },
    {
        match self.position(env.to.as_str()) {
            Some(i) => {
                let ghost ids0 = agent_ids(self.agents@);
                let ghost q0 = envelopes_view(self.queue@);
                let (id, mut agent) = self.agents.remove(i);
                if agent.config(env.from.as_str(), env.unl.as_slice(), env.body.as_slice()).is_ok() {
                    let sends = agent.take_sends();
                    stamp_all(&mut self.queue, env.to.as_str(), sends);
                } else {
                    assert(envelopes_view(self.queue@).skip(q0.len() as int) =~= Seq::<EnvelopeView>::empty());
                    assert(envelopes_view(self.queue@).take(q0.len() as int) =~= q0);
                }
                self.agents.insert(i, (id, agent));
                assert(agent_ids(self.agents@) =~= ids0);
            },
            None => {
                let ghost before = self.outbox@;
                let ghost ev = env@;
                self.outbox.push(env);
                assert(envelopes_view(self.outbox@) =~= envelopes_view(before).push(ev));
            },
        }
    }

    /// Pump the queue until it is empty or `max_steps` messages have been
    /// delivered; what is not delivered stays queued, in order.
    /// Everything the router hands to the outbox or leaves queued was either
    /// already queued or carries as sender the id of a local agent, and
    /// nothing addressed to a local agent reaches the outbox.
    pub fn run(&mut self, max_steps: usize)
        requires
            old(self).wf(),
        ensures
            final(self).wf(),
            final(self)@.ids == old(self)@.ids,
            final(self)@.outbox.take(old(self)@.outbox.len() as int) == old(self)@.outbox,
            vouched(final(self)@.outbox.skip(old(self)@.outbox.len() as int), old(self)@.queue, old(self)@.ids),
            vouched(final(self)@.queue, old(self)@.queue, old(self)@.ids),
            forall|i: int| old(self)@.outbox.len() <= i < final(self)@.outbox.len()
                ==> !old(self)@.ids.contains(#[trigger] final(self)@.outbox[i].to),
            run_ends(old(self)@, final(self)@, max_steps as nat),
    {
        let ghost start = self@;
        let ghost mut trace: Seq<RouterView> = seq![start];
        let mut steps: usize = 0;
        assert(self@.outbox.take(start.outbox.len() as int) =~= start.outbox);
        assert(self@.outbox.skip(start.outbox.len() as int) =~= Seq::<EnvelopeView>::empty());
        assert forall|i: int| 0 <= i < self@.queue.len() implies
            start.queue.contains(#[trigger] self@.queue[i]) || start.ids.contains(self@.queue[i].from) by {
            assert(start.queue[i] == self@.queue[i]);
        }
        loop
            invariant_except_break
                trace.last() == self@,
            invariant
                is_run(trace),
                trace[0] == start,
                trace.len() == steps + 1,
                self.wf(),
                self@.ids == start.ids,
                start == old(self)@,
                steps <= max_steps,
                self@.outbox.len() >= start.outbox.len(),
                self@.outbox.take(start.outbox.len() as int) == start.outbox,
                vouched(self@.outbox.skip(start.outbox.len() as int), start.queue, start.ids),
                vouched(self@.queue, start.queue, start.ids),
                forall|i: int| start.outbox.len() <= i < self@.outbox.len()
                    ==> !start.ids.contains(#[trigger] self@.outbox[i].to),
            ensures
                self.wf(),
                self@.ids == start.ids,
                self@.outbox.len() >= start.outbox.len(),
                self@.outbox.take(start.outbox.len() as int) == start.outbox,
                vouched(self@.outbox.skip(start.outbox.len() as int), start.queue, start.ids),
                vouched(self@.queue, start.queue, start.ids),
                forall|i: int| start.outbox.len() <= i < self@.outbox.len()
                    ==> !start.ids.contains(#[trigger] self@.outbox[i].to),
                run_ends(start, self@, max_steps as nat),
            decreases max_steps - steps, self@.queue.len(),
        {
            let ghost before = self@;
            if steps >= max_steps {
                proof {
                    assert(is_run(trace) && trace[0] == start && trace.len() == max_steps + 1 && self@ == trace.last());
                }
                break;
            }
            let env = match self.queue.pop_front() {
                Some(e) => e,
                None => {
                    proof {
                        assert(is_run(trace) && trace[0] == start && trace.last().queue.len() == 0 && self@ == trace.last());
                    }
                    break;
                },
            };
            let ghost ev = env@;
            assert(ev == before.queue[0]);
            assert(envelopes_view(self.queue@) =~= before.queue.skip(1));
            steps = steps + 1;
            let ghost mid = self@;
            proof {
                assert forall|i: int| 0 <= i < mid.queue.len() implies
                    start.queue.contains(#[trigger] mid.queue[i]) || start.ids.contains(mid.queue[i].from) by {
                    assert(mid.queue[i] == before.queue[i + 1]);
                }
                assert(start.queue.contains(ev) || start.ids.contains(ev.from)) by {
                    assert(before.queue[0] == ev);
                }
            }
            self.deliver(env);
            proof {
                let after = self@;
                assert(mid.queue == before.queue.skip(1));
                assert(mid.outbox == before.outbox);
                assert(router_step(before, after));
                let t0 = trace;
                trace = trace.push(after);
                assert forall|i: int| 0 <= i < trace.len() - 1 implies #[trigger] router_step(trace[i], trace[i + 1]) by {
                    if i < t0.len() - 1 {
                        assert(trace[i] == t0[i] && trace[i + 1] == t0[i + 1]);
                    } else {
                        assert(trace[i] == before && trace[i + 1] == after);
                    }
                }
                let n0 = start.outbox.len() as int;
                if start.ids.contains(ev.to) {
                    assert(after.outbox == mid.outbox);
                    assert forall|i: int| 0 <= i < after.queue.len() implies
                        start.queue.contains(#[trigger] after.queue[i]) || start.ids.contains(after.queue[i].from) by {
                        if i < mid.queue.len() {
                            assert(after.queue[i] == after.queue.take(mid.queue.len() as int)[i]);
                        } else {
                            assert(after.queue[i] == after.queue.skip(mid.queue.len() as int)[i - mid.queue.len()]);
                        }
                    }
                } else {
                    assert(after.outbox == mid.outbox.push(ev));
                    assert(after.outbox.take(n0) =~= mid.outbox.take(n0));
                    assert forall|i: int| 0 <= i < after.outbox.skip(n0).len() implies
                        start.queue.contains(#[trigger] after.outbox.skip(n0)[i]) || start.ids.contains(after.outbox.skip(n0)[i].from) by {
                        if n0 + i < mid.outbox.len() {
                            assert(after.outbox.skip(n0)[i] == mid.outbox.skip(n0)[i]);
                        }
                    }
                    assert forall|i: int| n0 <= i < after.outbox.len()
                        implies !start.ids.contains(#[trigger] after.outbox[i].to) by {
                        if i < mid.outbox.len() {
                            assert(after.outbox[i] == mid.outbox[i]);
                        }
                    }
                }
            }
        }
    }
}

} // verus!
