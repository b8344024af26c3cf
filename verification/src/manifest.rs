//! The agent manifest (the bundle `HEAD`) and load-time gating.
//!
//! A node profile declares which capabilities it offers and the budget
//! ceilings it allows; [`NodeProfile::fit`] either returns the effective
//! [`Grant`] (core capabilities plus the requested ones the profile offers,
//! with the agent's budget) or a precise [`FitError`].
use vstd::prelude::*;
use crate::text::owned;

verus! {

/// A gated agent capability — a family of host calls an agent may use.
#[derive(Clone, Copy, Debug, PartialEq, Eq, Hash, Structural)]
pub enum Capability {
    Messaging,
    Log,
    Discovery,
    State,
    Time,
    Llm,
    Crypto,
    Spawn,
}

/// Whether every admitted agent receives the capability.
pub open spec fn is_core_spec(c: Capability) -> bool {
    c == Capability::Messaging || c == Capability::Log
}

impl Capability {
    /// Core capabilities every admitted agent receives regardless of grants.
    pub fn is_core(self) -> (r: bool)
        ensures
            r == is_core_spec(self),
    {
        match self {
            Capability::Messaging | Capability::Log => true,
            _ => false,
        }
    }
}

/// Which node shape an agent targets (advisory).
#[derive(Clone, Copy, Debug, PartialEq, Eq, Structural)]
pub enum Profile {
    Normal,
    Iot,
    Either,
}

/// The brain that runs the agent.
#[derive(Clone, Copy, Debug, PartialEq, Eq, Structural)]
pub enum Brain {
    Wasm,
    Native,
    Llm,
}

/// Resource budgets the node enforces.
#[derive(Clone, Debug, PartialEq)]
pub struct Budget {
    pub mem_kb: u64,
    pub fuel: u64,
    pub state_kb: u64,
    pub timers: u32,
    pub msg_per_s: u32,
    /// Network scope: `"none"` | `"platform"` | `"any"` | `"node:<id>,…"`.
    pub net: String,
}

impl Default for Budget {
    fn default() -> (b: Self)
        ensures
            b.mem_kb == 4096,
            b.fuel == 100000000,
            b.state_kb == 256,
            b.timers == 4,
            b.msg_per_s == 50,
            b.net@ == "platform"@,
    {
        Budget { mem_kb: 4096, fuel: 100000000, state_kb: 256, timers: 4, msg_per_s: 50, net: owned("platform") }
    }
}

fn clone_budget(b: &Budget) -> (r: Budget)
    ensures
        r == *b,
{
    Budget {
        mem_kb: b.mem_kb,
        fuel: b.fuel,
        state_kb: b.state_kb,
        timers: b.timers,
        msg_per_s: b.msg_per_s,
        net: b.net.clone(),
    }
}

/// The agent manifest — the bundle `HEAD`.
#[derive(Debug)]
pub struct Manifest {
    /// The agent type's UUID, as its 128-bit value.
    pub type_id: u128,
    pub desc: String,
    pub name: Option<String>,
    pub profile: Profile,
    pub brain: Brain,
    pub grants: Vec<Capability>,
    pub budget: Budget,
}

/// The effective, post-fit authority granted to an admitted agent. `caps`
/// holds each granted capability once.
#[derive(Clone, Debug)]
pub struct Grant {
    pub caps: Vec<Capability>,
    pub budget: Budget,
}

fn caps_contain(caps: &Vec<Capability>, cap: Capability) -> (r: bool)
    ensures
        r == caps@.contains(cap),
{
    let mut i: usize = 0;
    while i < caps.len()
        invariant
            i <= caps@.len(),
            forall|j: int| 0 <= j < i ==> caps@[j] != cap,
        decreases caps@.len() - i,
    {
        if caps[i] == cap {
            return true;
        }
        i = i + 1;
    }
    false
}

/// The eight capabilities, once each.
fn all_caps() -> (v: Vec<Capability>)
    ensures
        v@ == seq![Capability::Messaging, Capability::Log, Capability::Discovery, Capability::State,
            Capability::Time, Capability::Llm, Capability::Crypto, Capability::Spawn],
{
    let mut v: Vec<Capability> = Vec::new();
    v.push(Capability::Messaging);
    v.push(Capability::Log);
    v.push(Capability::Discovery);
    v.push(Capability::State);
    v.push(Capability::Time);
    v.push(Capability::Llm);
    v.push(Capability::Crypto);
    v.push(Capability::Spawn);
    v
}

impl Grant {
    /// Whether a capability is granted.
    pub fn granted(&self, cap: Capability) -> (r: bool)
        ensures
            r == self.caps@.contains(cap),
    {
        caps_contain(&self.caps, cap)
    }

    /// Full authority — for trusted, host-instantiated infrastructure agents.
    pub fn full() -> (g: Self)
        ensures
            forall|c: Capability| #[trigger] g.caps@.contains(c),
            g.caps@.no_duplicates(),
            g.budget.mem_kb == 4096 && g.budget.fuel == 100000000 && g.budget.state_kb == 256
                && g.budget.timers == 4 && g.budget.msg_per_s == 50 && g.budget.net@ == "platform"@,
    {
        let caps = all_caps();
        assert forall|c: Capability| #[trigger] caps@.contains(c) by {
            match c {
                Capability::Messaging => assert(caps@[0] == c),
                Capability::Log => assert(caps@[1] == c),
                Capability::Discovery => assert(caps@[2] == c),
                Capability::State => assert(caps@[3] == c),
                Capability::Time => assert(caps@[4] == c),
                Capability::Llm => assert(caps@[5] == c),
                Capability::Crypto => assert(caps@[6] == c),
                Capability::Spawn => assert(caps@[7] == c),
            }
        }
        Grant { caps, budget: Budget::default() }
    }
}

/// Why a manifest does not fit a node profile.
#[derive(Clone, Debug, PartialEq)]
pub enum FitError {
    /// The agent requested a capability this profile does not offer.
    Ungranted(Capability),
    /// A budget exceeds this profile's ceiling (the field's name).
    OverBudget(&'static str),
}

/// What a node profile provides: the capability set and budget ceilings.
#[derive(Clone, Debug)]
pub struct NodeProfile {
    pub profile: Profile,
    pub caps: Vec<Capability>,
    pub ceiling: Budget,
}

/// Index of the first requested capability the profile does not offer.
pub open spec fn first_ungranted(grants: Seq<Capability>, offered: Seq<Capability>) -> Option<int> {
    if exists|i: int| 0 <= i < grants.len() && !offered.contains(#[trigger] grants[i]) {
        Some(choose|i: int| 0 <= i < grants.len() && !offered.contains(#[trigger] grants[i])
            && forall|j: int| 0 <= j < i ==> offered.contains(#[trigger] grants[j]))
    } else {
        None
    }
}

/// The name of the first budget field above the ceiling, if any.
pub open spec fn over_budget_field(b: Budget, ceiling: Budget) -> Option<Seq<char>> {
    if b.mem_kb > ceiling.mem_kb {
        Some("mem_kb"@)
    } else if b.fuel > ceiling.fuel {
        Some("fuel"@)
    } else if b.state_kb > ceiling.state_kb {
        Some("state_kb"@)
    } else if b.timers > ceiling.timers {
        Some("timers"@)
    } else if b.msg_per_s > ceiling.msg_per_s {
        Some("msg_per_s"@)
    } else {
        None
    }
}

/// Whether a manifest fits a profile.
pub open spec fn fits(p: NodeProfile, m: Manifest) -> bool {
    first_ungranted(m.grants@, p.caps@) is None && over_budget_field(m.budget, p.ceiling) is None
}

/// The capabilities an admitted agent receives: what it asked for plus the core.
pub open spec fn granted_caps(m: Manifest) -> Set<Capability> {
    m.grants@.to_set().insert(Capability::Messaging).insert(Capability::Log)
}

proof fn lemma_first_ungranted(grants: Seq<Capability>, offered: Seq<Capability>, i: int)
    requires
        0 <= i < grants.len(),
        !offered.contains(grants[i]),
        forall|j: int| 0 <= j < i ==> offered.contains(#[trigger] grants[j]),
    ensures
        first_ungranted(grants, offered) == Some(i),
{
    let k = choose|k: int| 0 <= k < grants.len() && !offered.contains(#[trigger] grants[k])
        && forall|j: int| 0 <= j < k ==> offered.contains(#[trigger] grants[j]);
    assert(0 <= i < grants.len() && !offered.contains(grants[i]) && forall|j: int| 0 <= j < i ==> offered.contains(#[trigger] grants[j]));
    if k < i {
        assert(offered.contains(grants[k]));
    } else if k > i {
        assert(offered.contains(grants[i]));
    }
}

/// Every capability in an admitted agent's grant is core or was requested
/// and is offered by the profile; the core capabilities are always granted.
pub proof fn law_fit_grant_within_profile(p: NodeProfile, m: Manifest, c: Capability)
    requires
        fits(p, m),
    ensures
        granted_caps(m).contains(c) ==> is_core_spec(c) || (m.grants@.contains(c) && p.caps@.contains(c)),
        is_core_spec(c) ==> granted_caps(m).contains(c),
        !is_core_spec(c) && !m.grants@.contains(c) ==> !granted_caps(m).contains(c),
{
    if granted_caps(m).contains(c) && !is_core_spec(c) {
        assert(m.grants@.contains(c));
        let i = choose|i: int| 0 <= i < m.grants@.len() && m.grants@[i] == c;
        if !p.caps@.contains(c) {
            assert(!p.caps@.contains(m.grants@[i]));
            assert(exists|i: int| 0 <= i < m.grants@.len() && !p.caps@.contains(#[trigger] m.grants@[i]));
        }
    }
}

/// A manifest fits a profile exactly when the profile offers every
/// capability it requests and each of its budget fields (memory, fuel,
/// state, timers, message rate) is at most the profile's ceiling.
pub proof fn law_fit_respects_ceilings(p: NodeProfile, m: Manifest)
    ensures
        fits(p, m) <==> {
            &&& forall|i: int| 0 <= i < m.grants@.len() ==> p.caps@.contains(#[trigger] m.grants@[i])
            &&& m.budget.mem_kb <= p.ceiling.mem_kb
            &&& m.budget.fuel <= p.ceiling.fuel
            &&& m.budget.state_kb <= p.ceiling.state_kb
            &&& m.budget.timers <= p.ceiling.timers
            &&& m.budget.msg_per_s <= p.ceiling.msg_per_s
        },
{
}

impl NodeProfile {
    /// A full-featured node: every capability, generous ceilings.
    pub fn normal() -> (p: Self)
        ensures
            p.profile == Profile::Normal,
            p.caps@ == seq![Capability::Messaging, Capability::Log, Capability::Discovery, Capability::State,
                Capability::Time, Capability::Llm, Capability::Crypto, Capability::Spawn],
            p.ceiling.mem_kb == 1048576 && p.ceiling.fuel == u64::MAX && p.ceiling.state_kb == 1048576
                && p.ceiling.timers == 1024 && p.ceiling.msg_per_s == 100000 && p.ceiling.net@ == "any"@,
    {
        NodeProfile {
            profile: Profile::Normal,
            caps: all_caps(),
            ceiling: Budget {
                mem_kb: 1048576,
                fuel: u64::MAX,
                state_kb: 1048576,
                timers: 1024,
                msg_per_s: 100000,
                net: owned("any"),
            },
        }
    }

    /// A constrained edge node: no `Llm`, no `Spawn`; tiny budgets.
    pub fn iot() -> (p: Self)
        ensures
            p.profile == Profile::Iot,
            p.caps@ == seq![Capability::Messaging, Capability::Log, Capability::Discovery, Capability::State,
                Capability::Time, Capability::Crypto],
            p.ceiling.mem_kb == 512 && p.ceiling.fuel == 1000000 && p.ceiling.state_kb == 64
                && p.ceiling.timers == 4 && p.ceiling.msg_per_s == 50 && p.ceiling.net@ == "platform"@,
    {
        let mut caps: Vec<Capability> = Vec::new();
        caps.push(Capability::Messaging);
        caps.push(Capability::Log);
        caps.push(Capability::Discovery);
        caps.push(Capability::State);
        caps.push(Capability::Time);
        caps.push(Capability::Crypto);
        NodeProfile {
            profile: Profile::Iot,
            caps,
            ceiling: Budget { mem_kb: 512, fuel: 1000000, state_kb: 64, timers: 4, msg_per_s: 50, net: owned("platform") },
        }
    }

    /// Load-time fit: the effective grant, or the first reason the manifest
    /// does not fit (an unoffered capability, then budgets in field order).
    pub fn fit(&self, m: &Manifest) -> (r: Result<Grant, FitError>)
        ensures
            first_ungranted(m.grants@, self.caps@) matches Some(i)
                ==> r == Err::<Grant, FitError>(FitError::Ungranted(m.grants@[i])),
            first_ungranted(m.grants@, self.caps@) is None ==> (over_budget_field(m.budget, self.ceiling) matches Some(f)
                ==> (r matches Err(FitError::OverBudget(name)) && name@ == f)),
            fits(*self, *m) ==> (r matches Ok(g) && g.caps@.to_set() == granted_caps(*m)
                && g.caps@.no_duplicates() && g.budget == m.budget),
            r is Ok ==> {
                &&& fits(*self, *m)
                &&& m.budget.mem_kb <= self.ceiling.mem_kb
                &&& m.budget.fuel <= self.ceiling.fuel
                &&& m.budget.state_kb <= self.ceiling.state_kb
                &&& m.budget.timers <= self.ceiling.timers
                &&& m.budget.msg_per_s <= self.ceiling.msg_per_s
            },
    {
        let mut i: usize = 0;
        while i < m.grants.len()
            invariant
                i <= m.grants@.len(),
                forall|j: int| 0 <= j < i ==> self.caps@.contains(#[trigger] m.grants@[j]),
            decreases m.grants@.len() - i,
        {
            let c = m.grants[i];
            if !caps_contain(&self.caps, c) {
                proof {
                    lemma_first_ungranted(m.grants@, self.caps@, i as int);
                }
                return Err(FitError::Ungranted(c));
            }
            i = i + 1;
        }
        assert(first_ungranted(m.grants@, self.caps@) is None);
        let b = &m.budget;
        if b.mem_kb > self.ceiling.mem_kb {
            return Err(FitError::OverBudget("mem_kb"));
        }
        if b.fuel > self.ceiling.fuel {
            return Err(FitError::OverBudget("fuel"));
        }
        if b.state_kb > self.ceiling.state_kb {
            return Err(FitError::OverBudget("state_kb"));
        }
        if b.timers > self.ceiling.timers {
            return Err(FitError::OverBudget("timers"));
        }
        if b.msg_per_s > self.ceiling.msg_per_s {
            return Err(FitError::OverBudget("msg_per_s"));
        }
        let mut caps: Vec<Capability> = Vec::new();
        let mut k: usize = 0;
        while k < m.grants.len()
            invariant
                k <= m.grants@.len(),
                caps@.no_duplicates(),
                caps@.to_set() == m.grants@.take(k as int).to_set(),
            decreases m.grants@.len() - k,
        {
            let c = m.grants[k];
            proof {
                m.grants@.take(k as int).lemma_push_to_set_commute(c);
                assert(m.grants@.take(k + 1) == m.grants@.take(k as int).push(c));
            }
            if !caps_contain(&caps, c) {
                proof {
                    caps@.lemma_push_to_set_commute(c);
                }
                caps.push(c);
            } else {
                assert(caps@.to_set().contains(c));
                assert(caps@.to_set() =~= caps@.to_set().insert(c));
            }
            k = k + 1;
        }
        assert(m.grants@.take(m.grants@.len() as int) == m.grants@);
        if !caps_contain(&caps, Capability::Messaging) {
            proof {
                caps@.lemma_push_to_set_commute(Capability::Messaging);
            }
            caps.push(Capability::Messaging);
        } else {
            assert(caps@.to_set().contains(Capability::Messaging));
            assert(caps@.to_set() =~= caps@.to_set().insert(Capability::Messaging));
        }
        if !caps_contain(&caps, Capability::Log) {
            proof {
                caps@.lemma_push_to_set_commute(Capability::Log);
            }
            caps.push(Capability::Log);
        } else {
            assert(caps@.to_set().contains(Capability::Log));
            assert(caps@.to_set() =~= caps@.to_set().insert(Capability::Log));
        }
        Ok(Grant { caps, budget: clone_budget(&m.budget) })
    }
}

} // verus!
