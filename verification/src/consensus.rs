//! A node's Raft consensus state and how it answers vote, append and
//! snapshot requests.
//!
//! A request from an older term is refused; a newer term is adopted. A node
//! votes at most once per term.
use vstd::prelude::*;
use crate::text::{owned, str_eq};

verus! {

/// The Raft state of a node.
#[derive(Clone, Debug)]
pub struct ConsensusState {
    /// The current term.
    pub term: u64,
    /// The current leader, if known.
    pub leader_id: Option<String>,
    /// This node.
    pub node_id: String,
    /// Who this node voted for in the current term.
    pub voted_for: Option<String>,
    pub commit_index: u64,
    pub last_applied: u64,
}

/// The consensus state as plain values.
pub struct ConsensusView {
    pub term: u64,
    pub leader_id: Option<Seq<char>>,
    pub node_id: Seq<char>,
    pub voted_for: Option<Seq<char>>,
    pub commit_index: u64,
    pub last_applied: u64,
}

/// The text of an optional string.
pub open spec fn opt_text(o: Option<String>) -> Option<Seq<char>> {
    match o {
        Some(s) => Some(s@),
        None => None,
    }
}

impl View for ConsensusState {
    type V = ConsensusView;

    open spec fn view(&self) -> ConsensusView {
        ConsensusView {
            term: self.term,
            leader_id: opt_text(self.leader_id),
            node_id: self.node_id@,
            voted_for: opt_text(self.voted_for),
            commit_index: self.commit_index,
            last_applied: self.last_applied,
        }
    }
}

/// How a vote request for `candidate` in `term` is answered, and the state
/// after: an older term is refused; a newer term is adopted with the vote
/// going to the candidate; in the current term the vote goes to the
/// candidate unless it already went to another.
pub open spec fn vote_spec(s: ConsensusView, term: u64, candidate: Seq<char>) -> (bool, ConsensusView) {
    if term < s.term {
        (false, s)
    } else if term > s.term {
        (true, ConsensusView { term, voted_for: Some(candidate), ..s })
    } else {
        match s.voted_for {
            None => (true, ConsensusView { voted_for: Some(candidate), ..s }),
            Some(v) => (v == candidate, s),
        }
    }
}

/// How an append from `leader` in `term` is answered, and the state after:
/// the sender is taken as leader in any case; an older term is refused; a
/// newer term is adopted, clearing the vote.
pub open spec fn append_spec(s: ConsensusView, leader: Seq<char>, term: u64) -> (bool, ConsensusView) {
    let s1 = ConsensusView { leader_id: Some(leader), ..s };
    if term < s.term {
        (false, s1)
    } else if term > s.term {
        (true, ConsensusView { term, voted_for: None, ..s1 })
    } else {
        (true, s1)
    }
}

/// The state after a snapshot from `term`: a newer term is adopted, clearing
/// the vote.
pub open spec fn snapshot_spec(s: ConsensusView, term: u64) -> ConsensusView {
    if term > s.term {
        ConsensusView { term, voted_for: None, ..s }
    } else {
        s
    }
}

impl Default for ConsensusState {
    fn default() -> (s: Self)
        ensures
            s@.term == 0,
            s@.node_id == "default"@,
            s@.leader_id is None,
            s@.voted_for is None,
            s@.commit_index == 0,
            s@.last_applied == 0,
    {
        ConsensusState::new(owned("default"))
    }
}

impl ConsensusState {
    /// Term 0, no leader, no vote, nothing committed.
    pub fn new(node_id: String) -> (s: Self)
        ensures
            s@.term == 0,
            s@.node_id == node_id@,
            s@.leader_id is None,
            s@.voted_for is None,
            s@.commit_index == 0,
            s@.last_applied == 0,
    {
        ConsensusState { term: 0, leader_id: None, node_id, voted_for: None, commit_index: 0, last_applied: 0 }
    }

    /// Answer a vote request; the reply carries `self.term` after the call.
    pub fn vote(&mut self, term: u64, candidate: &str) -> (granted: bool)
        ensures
            (granted, final(self)@) == vote_spec(old(self)@, term, candidate@),
    {
        if term < self.term {
            false
        } else if term > self.term {
            self.term = term;
            self.voted_for = Some(owned(candidate));
            true
        } else {
            match &self.voted_for {
                None => {
                    self.voted_for = Some(owned(candidate));
                    true
                },
                Some(v) => str_eq(v.as_str(), candidate),
            }
        }
    }

    /// Answer an append (heartbeat or replication); the reply carries
    /// `self.term` after the call.
    pub fn append(&mut self, leader: &str, term: u64) -> (success: bool)
        ensures
            (success, final(self)@) == append_spec(old(self)@, leader@, term),
    {
        self.leader_id = Some(owned(leader));
        if term < self.term {
            false
        } else {
            if term > self.term {
                self.term = term;
                self.voted_for = None;
            }
            true
        }
    }

    /// Take a snapshot from `term`; always accepted.
    pub fn install_snapshot(&mut self, term: u64) -> (success: bool)
        ensures
            success,
            final(self)@ == snapshot_spec(old(self)@, term),
    {
        if term > self.term {
            self.term = term;
            self.voted_for = None;
        }
        true
    }
}

/// The term never goes back, whatever the request.
pub proof fn law_term_never_decreases(s: ConsensusView, term: u64, who: Seq<char>)
    ensures
        vote_spec(s, term, who).1.term >= s.term,
        append_spec(s, who, term).1.term >= s.term,
        snapshot_spec(s, term).term >= s.term,
{
}

/// A node votes for at most one candidate per term: once its vote in a term
/// is granted, a different candidate in that term is refused.
pub proof fn law_one_vote_per_term(s: ConsensusView, term: u64, first: Seq<char>, second: Seq<char>)
    requires
        vote_spec(s, term, first).0,
        first != second,
    ensures
        !vote_spec(vote_spec(s, term, first).1, term, second).0,
        vote_spec(vote_spec(s, term, first).1, term, second).1 == vote_spec(s, term, first).1,
{
}

/// A request from an older term is refused and leaves term and vote as they
/// were.
pub proof fn law_stale_term_refused(s: ConsensusView, term: u64, who: Seq<char>)
    requires
        term < s.term,
    ensures
        !vote_spec(s, term, who).0,
        vote_spec(s, term, who).1 == s,
        !append_spec(s, who, term).0,
        append_spec(s, who, term).1.term == s.term,
        append_spec(s, who, term).1.voted_for == s.voted_for,
{
}

} // verus!
