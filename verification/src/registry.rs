//! The node's name registry: which agents run here, on which node the
//! others run, and which agents provide which service.
use vstd::prelude::*;
use crate::keyed::{keyed_map, keyed_put, keys_of, find_key};
use crate::order::texts;
use crate::strmap::StrMap;
use crate::text::{copy_strings, owned};

verus! {

/// A registry as plain values.
pub struct RegistryView {
    pub node_id: Seq<char>,
    pub local: Set<Seq<char>>,
    pub remote: Map<Seq<char>, Seq<char>>,
    pub services: Map<Seq<char>, Seq<Seq<char>>>,
}

/// The providers registered for a service, in registration order (none when
/// unknown).
pub open spec fn providers_in(v: RegistryView, service: Seq<char>) -> Seq<Seq<char>> {
    if v.services.contains_key(service) { v.services[service] } else { Seq::empty() }
}

/// The node an agent runs on: this one when it is local, else its recorded
/// remote node.
pub open spec fn node_of(v: RegistryView, agent: Seq<char>) -> Option<Seq<char>> {
    if v.local.contains(agent) {
        Some(v.node_id)
    } else if v.remote.contains_key(agent) {
        Some(v.remote[agent])
    } else {
        None
    }
}

/// Service to providers, in registration order.
#[derive(Debug)]
pub struct ServiceTable {
    entries: Vec<(String, Vec<String>)>,
}

impl View for ServiceTable {
    type V = Map<Seq<char>, Seq<Seq<char>>>;

    closed spec fn view(&self) -> Map<Seq<char>, Seq<Seq<char>>> {
        Map::new(
            |s: Seq<char>| keyed_map(self.entries@).contains_key(s),
            |s: Seq<char>| texts(keyed_map(self.entries@)[s]@),
        )
    }
}

impl ServiceTable {
    #[verifier::type_invariant]
    closed spec fn keys_distinct(self) -> bool {
        keys_of(self.entries@).no_duplicates()
    }

    /// No services.
    pub fn new() -> (t: Self)
        ensures
            t@ == Map::<Seq<char>, Seq<Seq<char>>>::empty(),
    {
        let t = ServiceTable { entries: Vec::new() };
        assert(keys_of(t.entries@) =~= Seq::<Seq<char>>::empty());
        assert(t@ =~= Map::<Seq<char>, Seq<Seq<char>>>::empty());
        t
    }

    /// The providers of `service` (none when unknown).
    pub fn providers(&self, service: &str) -> (r: Vec<String>)
        ensures
            texts(r@) == (if self@.contains_key(service@) { self@[service@] } else { Seq::empty() }),
    {
        proof {
            use_type_invariant(self);
        }
        match find_key(&self.entries, service) {
            Some(i) => copy_strings(&self.entries[i].1),
            None => {
                let r: Vec<String> = Vec::new();
                assert(texts(r@) =~= Seq::<Seq<char>>::empty());
                r
            },
        }
    }

    /// Append `agent` to the providers of `service`.
    pub fn push(&mut self, service: &str, agent: &str)
        ensures
            final(self)@ == old(self)@.insert(
                service@,
                (if old(self)@.contains_key(service@) { old(self)@[service@] } else { Seq::empty() }).push(agent@),
            ),
    {
        proof {
            use_type_invariant(&*self);
        }
        let mut list = self.providers(service);
        let ghost before = list@;
        list.push(owned(agent));
        proof {
            assert(texts(list@) =~= texts(before).push(agent@));
        }
        let mut entries: Vec<(String, Vec<String>)> = Vec::new();
        std::mem::swap(&mut entries, &mut self.entries);
        keyed_put(&mut entries, service, list);
        std::mem::swap(&mut entries, &mut self.entries);
        proof {
            assert(self@ =~= old(self)@.insert(
                service@,
                (if old(self)@.contains_key(service@) { old(self)@[service@] } else { Seq::empty() }).push(agent@),
            ));
        }
    }
}

/// The registry.
#[derive(Debug)]
pub struct ActorRegistry {
    node_id: String,
    local_agents: StrMap,
    remote_agents: StrMap,
    services: ServiceTable,
}

impl View for ActorRegistry {
    type V = RegistryView;

    closed spec fn view(&self) -> RegistryView {
        RegistryView {
            node_id: self.node_id@,
            local: self.local_agents@.dom(),
            remote: self.remote_agents@,
            services: self.services@,
        }
    }
}

impl ActorRegistry {
    /// An empty registry for node `node_id`.
    pub fn new(node_id: String) -> (r: Self)
        ensures
            r@.node_id == node_id@,
            r@.local == Set::<Seq<char>>::empty(),
            r@.remote == Map::<Seq<char>, Seq<char>>::empty(),
            r@.services == Map::<Seq<char>, Seq<Seq<char>>>::empty(),
    {
        let r = ActorRegistry {
            node_id,
            local_agents: StrMap::new(),
            remote_agents: StrMap::new(),
            services: ServiceTable::new(),
        };
        assert(r@.local =~= Set::<Seq<char>>::empty());
        r
    }

    /// Record an agent running on this node.
    pub fn register_local(&mut self, agent: &str)
        ensures
            final(self)@ == (RegistryView { local: old(self)@.local.insert(agent@), ..old(self)@ }),
    {
        self.local_agents.insert(agent, "");
        assert(self@.local =~= old(self)@.local.insert(agent@));
    }

    /// Forget a local agent.
    pub fn deregister_local(&mut self, agent: &str)
        ensures
            final(self)@ == (RegistryView { local: old(self)@.local.remove(agent@), ..old(self)@ }),
    {
        self.local_agents.remove(agent);
        assert(self@.local =~= old(self)@.local.remove(agent@));
    }

    /// Whether the agent runs on this node.
    pub fn is_local(&self, agent: &str) -> (r: bool)
        ensures
            r == self@.local.contains(agent@),
    {
        self.local_agents.contains_key(agent)
    }

    /// The node the agent runs on, if known.
    pub fn get_agent_node(&self, agent: &str) -> (r: Option<String>)
        ensures
            match node_of(self@, agent@) {
                Some(n) => r matches Some(s) && s@ == n,
                None => r is None,
            },
    {
        if self.local_agents.contains_key(agent) {
            return Some(self.node_id.clone());
        }
        match self.remote_agents.get(agent) {
            Some(n) => Some(n.clone()),
            None => None,
        }
    }

    /// Record the node a remote agent runs on.
    pub fn register_remote(&mut self, agent: &str, node_id: &str)
        ensures
            final(self)@ == (RegistryView { remote: old(self)@.remote.insert(agent@, node_id@), ..old(self)@ }),
    {
        self.remote_agents.insert(agent, node_id);
    }

    /// Forget a remote agent.
    pub fn deregister_remote(&mut self, agent: &str)
        ensures
            final(self)@ == (RegistryView { remote: old(self)@.remote.remove(agent@), ..old(self)@ }),
    {
        self.remote_agents.remove(agent);
    }

    /// Add `agent` to the providers of `service` (at the end; a repeat is
    /// listed again).
    pub fn register_service(&mut self, service: &str, agent: &str)
        ensures
            final(self)@ == (RegistryView {
                services: old(self)@.services.insert(service@, providers_in(old(self)@, service@).push(agent@)),
                ..old(self)@
            }),
    {
        self.services.push(service, agent);
    }

    /// The providers of `service`, in registration order.
    pub fn find_service_providers(&self, service: &str) -> (r: Vec<String>)
        ensures
            texts(r@) == providers_in(self@, service@),
    {
        self.services.providers(service)
    }
}

/// A registered provider is found by a search for its service, after every
/// provider registered before it.
pub proof fn law_register_then_find(v: RegistryView, service: Seq<char>, agent: Seq<char>)
    ensures
        providers_in(RegistryView {
            services: v.services.insert(service, providers_in(v, service).push(agent)),
            ..v
        }, service) == providers_in(v, service).push(agent),
{
}

} // verus!
