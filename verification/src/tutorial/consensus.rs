//! A Raft-style node: followers start an election when the leader falls
//! silent, newer terms win, and votes go to the first candidate of a term.
use vstd::prelude::*;

use crate::clock::unix_seconds;
use crate::text::{opt_str, str_eq};

verus! {

/// The part a node plays.
#[derive(Debug, Clone, Copy, PartialEq, Eq, Structural)]
pub enum NodeRole {
    Follower,
    Candidate,
    Leader,
}

/// Seconds of silence after which a follower stands for election.
pub const ELECTION_TIMEOUT: u64 = 10;

/// The consensus state of one node.
pub struct RaftConsensus {
    pub node_id: String,
    pub role: NodeRole,
    pub current_term: u64,
    pub voted_for: Option<String>,
    pub last_heartbeat: u64,
}

/// Whether a follower that last heard from the leader at `last` stands for
/// election at `now` (the silence measured as a wrapping difference).
pub open spec fn election_due(role: NodeRole, last: u64, now: u64) -> bool {
    role == NodeRole::Follower && vstd::wrapping::u64_specs::wrapping_sub(now, last) > ELECTION_TIMEOUT
}

/// Whether a node in term `current`, having voted for `voted`, grants its
/// vote to `candidate` standing in `term`.
pub open spec fn vote_granted(current: u64, voted: Option<Seq<char>>, candidate: Seq<char>, term: u64) -> bool {
    term >= current && (voted is None || voted == Some(candidate))
}

impl RaftConsensus {
    /// A follower in term 0 that has voted for nobody and last heard from
    /// the leader at `now`.
    pub fn new_at(node_id: String, now: u64) -> (r: Self)
        ensures
            r.node_id == node_id,
            r.role == NodeRole::Follower,
            r.current_term == 0,
            r.voted_for is None,
            r.last_heartbeat == now,
    {
        RaftConsensus { node_id, role: NodeRole::Follower, current_term: 0, voted_for: None, last_heartbeat: now }
    }

    /// The same node, started at the current time.
    pub fn new(node_id: String) -> (r: Self)
        ensures
            r.node_id == node_id,
            r.role == NodeRole::Follower,
            r.current_term == 0,
            r.voted_for is None,
    {
        let now = unix_seconds();
        Self::new_at(node_id, now)
    }

    /// One tick of the election timer at `now`: a follower that has heard
    /// nothing for more than `ELECTION_TIMEOUT` seconds becomes a candidate
    /// in the next term. Returns whether it did.
    pub fn check_election_timeout(&mut self, now: u64) -> (r: bool)
        requires
            old(self).current_term < u64::MAX,
        ensures
            r == election_due(old(self).role, old(self).last_heartbeat, now),
            r ==> final(self).role == NodeRole::Candidate && final(self).current_term == old(self).current_term
                + 1,
            !r ==> final(self).role == old(self).role && final(self).current_term == old(self).current_term,
            final(self).current_term >= old(self).current_term,
            final(self).node_id == old(self).node_id,
            final(self).voted_for == old(self).voted_for,
            final(self).last_heartbeat == old(self).last_heartbeat,
    {
        if now.wrapping_sub(self.last_heartbeat) > ELECTION_TIMEOUT && self.role == NodeRole::Follower {
            self.role = NodeRole::Candidate;
            self.current_term = self.current_term + 1;
            true
        } else {
            false
        }
    }

    /// A heartbeat from `from` in `term`, received at `now`: the silence
    /// ends, and a newer term is adopted as a follower.
    pub fn handle_heartbeat_at(&mut self, from: &str, term: u64, now: u64)
        ensures
            final(self).last_heartbeat == now,
            term > old(self).current_term ==> final(self).current_term == term && final(self).role
                == NodeRole::Follower,
            term <= old(self).current_term ==> final(self).current_term == old(self).current_term
                && final(self).role == old(self).role,
            final(self).current_term >= old(self).current_term,
            final(self).node_id == old(self).node_id,
            final(self).voted_for == old(self).voted_for,
    {
        self.last_heartbeat = now;
        if term > self.current_term {
            self.current_term = term;
            self.role = NodeRole::Follower;
        }
    }

    /// A heartbeat received now.
    pub fn handle_heartbeat(&mut self, from: &str, term: u64)
        ensures
            term > old(self).current_term ==> final(self).current_term == term && final(self).role
                == NodeRole::Follower,
            term <= old(self).current_term ==> final(self).current_term == old(self).current_term
                && final(self).role == old(self).role,
            final(self).current_term >= old(self).current_term,
            final(self).node_id == old(self).node_id,
            final(self).voted_for == old(self).voted_for,
    {
        let now = unix_seconds();
        self.handle_heartbeat_at(from, term, now)
    }

    /// Whether this node votes for `candidate` standing in `term`: not for
    /// an older term, and only if it has voted for nobody or for the same
    /// candidate. The node's state is left as it is.
    pub fn request_vote(&self, candidate: &str, term: u64) -> (r: bool)
        ensures
            r == vote_granted(self.current_term, opt_str(self.voted_for), candidate@, term),
    {
        if term < self.current_term {
            return false;
        }
        match &self.voted_for {
            None => true,
            Some(v) => str_eq(v.as_str(), candidate),
        }
    }
}

} // verus!
