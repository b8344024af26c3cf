//! Name resolution across AMSes: turning a chain of referrals into an
//! address.
//!
//! An AMS only answers directly or refers to its upstream. Resolution asks an
//! AMS and, on a referral, either returns it (iterative) or follows it
//! (recursive), within a hop limit that guards against referral loops.
use vstd::prelude::*;
use crate::ams::{Ams, AmsView, Located};
use crate::text::str_eq;

verus! {

/// The outcome of a resolution.
#[derive(Clone, Debug, PartialEq, Eq)]
pub enum Resolution {
    /// Resolved to an address.
    Found(String),
    /// A referral to another AMS (iterative mode only).
    Referral(String),
    /// Unknown agent, or a dead end.
    NotFound,
}

/// A resolution as plain values.
pub enum Resolved {
    Found(Seq<char>),
    Referral(Seq<char>),
    NotFound,
}

impl View for Resolution {
    type V = Resolved;

    open spec fn view(&self) -> Resolved {
        match self {
            Resolution::Found(a) => Resolved::Found(a@),
            Resolution::Referral(a) => Resolved::Referral(a@),
            Resolution::NotFound => Resolved::NotFound,
        }
    }
}

/// The index of the first AMS named `name`, if any.
pub open spec fn ams_index(amses: Seq<(String, Ams)>, name: Seq<char>) -> Option<int> {
    if exists|i: int| 0 <= i < amses.len() && amses[i].0@ == name {
        Some(choose|i: int| 0 <= i < amses.len() && amses[i].0@ == name
            && forall|j: int| 0 <= j < i ==> amses[j].0@ != name)
    } else {
        None
    }
}

/// What resolving `agent` from AMS `cur` gives, with `hops` questions left:
/// a record answers (an empty address counts as none); a referral is
/// returned, or followed when `recursive`; an unknown AMS, no record and no
/// upstream, or running out of hops is not-found.
pub open spec fn resolve_spec(amses: Seq<(String, Ams)>, cur: Seq<char>, agent: Seq<char>, recursive: bool, hops: nat) -> Resolved
    decreases hops,
{
    if hops == 0 {
        Resolved::NotFound
    } else {
        match ams_index(amses, cur) {
            None => Resolved::NotFound,
            Some(i) => {
                let a: AmsView = amses[i].1@;
                if a.records.contains_key(agent) {
                    if a.records[agent].len() > 0 {
                        Resolved::Found(a.records[agent])
                    } else {
                        Resolved::NotFound
                    }
                } else {
                    match a.upstream {
                        Some(up) => if recursive {
                            resolve_spec(amses, up, agent, recursive, (hops - 1) as nat)
                        } else {
                            Resolved::Referral(up)
                        },
                        None => Resolved::NotFound,
                    }
                }
            },
        }
    }
}

proof fn lemma_first_named(amses: Seq<(String, Ams)>, name: Seq<char>, w: int)
    requires
        0 <= w < amses.len(),
        amses[w].0@ == name,
    ensures
        exists|i: int| 0 <= i < amses.len() && amses[i].0@ == name
            && forall|j: int| 0 <= j < i ==> amses[j].0@ != name,
    decreases w,
{
    if exists|j: int| 0 <= j < w && amses[j].0@ == name {
        let j = choose|j: int| 0 <= j < w && amses[j].0@ == name;
        lemma_first_named(amses, name, j);
    } else {
        assert(forall|j: int| 0 <= j < w ==> amses[j].0@ != name);
    }
}

proof fn lemma_ams_index(amses: Seq<(String, Ams)>, name: Seq<char>)
    ensures
        ams_index(amses, name) matches Some(i) ==> 0 <= i < amses.len() && amses[i].0@ == name,
{
    if exists|i: int| 0 <= i < amses.len() && amses[i].0@ == name {
        let w = choose|i: int| 0 <= i < amses.len() && amses[i].0@ == name;
        lemma_first_named(amses, name, w);
    }
}

/// The first AMS named `name`.
fn find_ams(amses: &Vec<(String, Ams)>, name: &str) -> (r: Option<usize>)
    ensures
        r matches Some(k) ==> k < amses@.len() && ams_index(amses@, name@) == Some(k as int),
        r is None ==> ams_index(amses@, name@) is None,
{
    let mut i: usize = 0;
    while i < amses.len()
        invariant
            i <= amses@.len(),
            forall|j: int| 0 <= j < i ==> amses@[j].0@ != name@,
        decreases amses@.len() - i,
    {
        if str_eq(amses[i].0.as_str(), name) {
            proof {
                let k = choose|k: int| 0 <= k < amses@.len() && amses@[k].0@ == name@
                    && forall|j: int| 0 <= j < k ==> amses@[j].0@ != name@;
                if k < i {
                    assert(amses@[k].0@ != name@);
                }
                if i < k {
                    assert(amses@[i as int].0@ != name@);
                }
            }
            return Some(i);
        }
        i = i + 1;
    }
    None
}

/// Resolve `agent` starting at AMS `start`, asking the named AMSes in
/// `amses`; `recursive` follows referrals, otherwise the first referral is
/// returned. At most `max_hops` AMSes are asked.
pub fn resolve(amses: &Vec<(String, Ams)>, start: &str, agent: &str, recursive: bool, max_hops: usize) -> (r: Resolution)
    ensures
        r@ == resolve_spec(amses@, start@, agent@, recursive, max_hops as nat),
{
    let mut current: String = start.to_string();
    let mut hops: usize = max_hops;
    while hops > 0
        invariant
            resolve_spec(amses@, current@, agent@, recursive, hops as nat)
                == resolve_spec(amses@, start@, agent@, recursive, max_hops as nat),
        decreases hops,
    {
        let i = match find_ams(amses, current.as_str()) {
            Some(i) => i,
            None => return Resolution::NotFound,
        };
        match amses[i].1.locate(agent) {
            Located::At(addr) => {
                if addr.as_str().unicode_len() > 0 {
                    return Resolution::Found(addr);
                }
                return Resolution::NotFound;
            },
            Located::Refer(up) => {
                if !recursive {
                    return Resolution::Referral(up);
                }
                current = up;
            },
            Located::NotFound => return Resolution::NotFound,
        }
        hops = hops - 1;
    }
    Resolution::NotFound
}

/// Resolution never invents an address: what it finds is an AMS's record
/// for the agent.
pub proof fn law_found_is_recorded(amses: Seq<(String, Ams)>, cur: Seq<char>, agent: Seq<char>, recursive: bool, hops: nat, addr: Seq<char>)
    requires
        resolve_spec(amses, cur, agent, recursive, hops) == Resolved::Found(addr),
    ensures
        exists|i: int| 0 <= i < amses.len() && (#[trigger] amses[i].1@).records.contains_key(agent)
            && amses[i].1@.records[agent] == addr,
    decreases hops,
{
    lemma_ams_index(amses, cur);
    if hops > 0 {
        if let Some(i) = ams_index(amses, cur) {
            let a: AmsView = amses[i].1@;
            if a.records.contains_key(agent) {
                assert(amses[i].1@.records.contains_key(agent));
            } else if let Some(up) = a.upstream {
                if recursive {
                    law_found_is_recorded(amses, up, agent, recursive, (hops - 1) as nat, addr);
                }
            }
        }
    }
}

/// Recursive resolution never answers with a referral.
pub proof fn law_recursive_gives_no_referral(amses: Seq<(String, Ams)>, cur: Seq<char>, agent: Seq<char>, hops: nat)
    ensures
        !(resolve_spec(amses, cur, agent, true, hops) is Referral),
    decreases hops,
{
    if hops > 0 {
        if let Some(i) = ams_index(amses, cur) {
            let a: AmsView = amses[i].1@;
            if !a.records.contains_key(agent) {
                if let Some(up) = a.upstream {
                    law_recursive_gives_no_referral(amses, up, agent, (hops - 1) as nat);
                }
            }
        }
    }
}

} // verus!
