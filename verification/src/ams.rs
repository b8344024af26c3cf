//! The Agent Management System: the white pages, resolving an agent id to
//! its address.
//!
//! Asked where an agent is, the AMS answers directly when it holds a record,
//! refers to its upstream AMS otherwise, and reports not-found when it has
//! neither. An agent may bind only itself. Following referrals is the
//! resolver's concern, not the AMS's.
use vstd::prelude::*;
use crate::strmap::StrMap;
use crate::text::{owned, str_eq};

verus! {

/// An AMS as plain values: agent to address, and the upstream AMS.
pub struct AmsView {
    pub records: Map<Seq<char>, Seq<char>>,
    pub upstream: Option<Seq<char>>,
}

/// The answer to a locate request.
#[derive(Debug, PartialEq, Eq)]
pub enum Located {
    /// The agent is at this address.
    At(String),
    /// Ask this upstream AMS.
    Refer(String),
    /// Unknown agent and no upstream.
    NotFound,
}

/// The agent-to-address registry.
#[derive(Debug)]
pub struct Ams {
    records: StrMap,
    upstream: Option<String>,
}

impl View for Ams {
    type V = AmsView;

    closed spec fn view(&self) -> AmsView {
        AmsView {
            records: self.records@,
            upstream: match self.upstream {
                Some(u) => Some(u@),
                None => None,
            },
        }
    }
}

/// What locating an agent answers: its record, else a referral upstream,
/// else not-found.
pub open spec fn locate_spec(a: AmsView, agent: Seq<char>, r: Located) -> bool {
    if a.records.contains_key(agent) {
        r matches Located::At(addr) && addr@ == a.records[agent]
    } else {
        match a.upstream {
            Some(u) => r matches Located::Refer(up) && up@ == u,
            None => r is NotFound,
        }
    }
}

impl Ams {
    /// No records and no upstream.
    pub fn new() -> (a: Self)
        ensures
            a@.records == Map::<Seq<char>, Seq<char>>::empty(),
            a@.upstream is None,
    {
        Ams { records: StrMap::new(), upstream: None }
    }

    /// Record an agent's address (authoritative).
    pub fn bind(&mut self, agent: &str, address: &str)
        ensures
            final(self)@ == (AmsView { records: old(self)@.records.insert(agent@, address@), ..old(self)@ }),
    {
        self.records.insert(agent, address);
    }

    /// Set the upstream AMS used for referrals.
    pub fn set_upstream(&mut self, ams: &str)
        ensures
            final(self)@ == (AmsView { upstream: Some(ams@), ..old(self)@ }),
    {
        self.upstream = Some(owned(ams));
    }

    /// The address recorded for an agent.
    pub fn address(&self, agent: &str) -> (r: Option<&str>)
        ensures
            self@.records.contains_key(agent@) ==> (r matches Some(a) && a@ == self@.records[agent@]),
            !self@.records.contains_key(agent@) ==> r is None,
    {
        match self.records.get(agent) {
            Some(a) => Some(a.as_str()),
            None => None,
        }
    }

    /// A bind request from `from`: accepted, and recorded, only when it names
    /// an agent and an address and the agent is the sender itself.
    pub fn request_bind(&mut self, from: &str, agent: Option<&str>, address: Option<&str>) -> (bound: bool)
        ensures
            bound == (agent matches Some(a) && address is Some && a@ == from@),
            bound ==> final(self)@ == (AmsView {
                records: old(self)@.records.insert(from@, address->0@),
                ..old(self)@
            }),
            !bound ==> final(self)@ == old(self)@,
    {
        match (agent, address) {
            (Some(a), Some(addr)) => {
                if str_eq(a, from) {
                    self.records.insert(a, addr);
                    true
                } else {
                    false
                }
            },
            _ => false,
        }
    }

    /// Seed from the data block: every given record is added (later pairs
    /// win over earlier ones and over existing records), and the upstream is
    /// replaced only when one is given.
    pub fn seed(&mut self, records: &Vec<(String, String)>, upstream: Option<&str>)
        ensures
            final(self)@.records == old(self)@.records.union_prefer_right(
                crate::strmap::entries_map(records@)),
            final(self)@.upstream == (match upstream {
                Some(u) => Some(u@),
                None => old(self)@.upstream,
            }),
    {
        let mut i: usize = 0;
        while i < records.len()
            invariant
                i <= records.len(),
                self.records@ == old(self).records@.union_prefer_right(
                    crate::strmap::entries_map(records@.take(i as int))),
                self.upstream == old(self).upstream,
            decreases records.len() - i,
        {
            let (k, v) = &records[i];
            self.records.insert(k.as_str(), v.as_str());
            proof {
                let pre = records@.take(i as int);
                let next = records@.take(i as int + 1);
                assert(next.drop_last() =~= pre);
                assert(crate::strmap::entries_map(next) == crate::strmap::entries_map(pre).insert(k@, v@));
                assert(self.records@ =~= old(self).records@.union_prefer_right(
                    crate::strmap::entries_map(next)));
            }
            i = i + 1;
        }
        proof {
            assert(records@.take(records.len() as int) == records@);
        }
        match upstream {
            Some(u) => { self.upstream = Some(owned(u)); },
            None => {},
        }
    }

    /// Locate an agent.
    pub fn locate(&self, agent: &str) -> (r: Located)
        ensures
            locate_spec(self@, agent@, r),
    {
        match self.records.get(agent) {
            Some(addr) => Located::At(addr.clone()),
            None => match &self.upstream {
                Some(up) => Located::Refer(up.clone()),
                None => Located::NotFound,
            },
        }
    }
}

/// An agent that bound itself is then located at the address it bound.
pub proof fn law_bind_then_locate(a: AmsView, agent: Seq<char>, address: Seq<char>, r: Located)
    requires
        locate_spec(AmsView { records: a.records.insert(agent, address), ..a }, agent, r),
    ensures
        r matches Located::At(addr) && addr@ == address,
{
}

} // verus!
