//! Leader election among validators: terms, votes, heartbeats and peers.
//! The engine here decides; the caller keeps it behind a lock, runs the
//! timers and delivers the events it returns.
use vstd::prelude::*;
use crate::keymap::{KeyMap, StrSet};
use crate::chain::types::Block;
use crate::text::push_str;

verus! {

/// The role of a node.
#[derive(Debug, Clone, Copy, PartialEq, Eq, Structural)]
pub enum ConsensusState {
    Follower,
    Candidate,
    Leader,
    Syncing,
}

/// A known peer.
pub struct PeerInfo {
    pub peer_id: String,
    pub address: String,
    pub version: String,
    pub block_height: u64,
    pub last_seen: u64,
    pub is_validator: bool,
}

/// A vote.
pub struct Vote {
    pub voter: String,
    pub candidate: String,
    pub term: u64,
    pub block_hash: Option<String>,
}

/// Settings of the engine; intervals in milliseconds.
pub struct ConsensusConfig {
    pub node_id: String,
    pub is_validator: bool,
    pub heartbeat_interval: u64,
    pub election_timeout: u64,
    pub min_validators: usize,
    pub max_block_size: usize,
}

/// `uuid::Uuid::new_v4`, hyphenated; which identifier comes out is not stated.
#[verifier::external_body]
pub(crate) fn fresh_uuid() -> (r: String)
{
    uuid::Uuid::new_v4().to_string()
}

impl Default for ConsensusConfig {
    /// A validator named `node_<fresh uuid>`, heartbeats every 3 s, elections
    /// after 10 s, at least 3 validators, blocks of at most 1000 transactions.
    fn default() -> (r: Self)
        ensures
            r.node_id@.len() >= 5,
            r.node_id@.take(5) == "node_"@,
            r.is_validator,
            r.heartbeat_interval == 3000,
            r.election_timeout == 10000,
            r.min_validators == 3,
            r.max_block_size == 1000,
    {
        let mut node_id = String::new();
        proof {
            reveal_strlit("node_");
        }
        push_str(&mut node_id, "node_");
        let id = fresh_uuid();
        push_str(&mut node_id, id.as_str());
        assert(node_id@.take(5) =~= "node_"@);
        ConsensusConfig {
            node_id,
            is_validator: true,
            heartbeat_interval: 3000,
            election_timeout: 10000,
            min_validators: 3,
            max_block_size: 1000,
        }
    }
}

/// What the engine announces.
pub enum ConsensusEvent {
    NewBlock(Block),
    StateChanged(ConsensusState),
    LeaderChanged(Option<String>),
    NeedSync { from_height: u64, target_height: u64 },
    ForkDetected { height: u64, hashes: Vec<String> },
}

/// The election state of a node.
pub struct ConsensusEngine {
    pub config: ConsensusConfig,
    pub state: ConsensusState,
    pub current_term: u64,
    pub voted_for: Option<String>,
    pub peers: KeyMap<String, PeerInfo>,
    pub validators: StrSet,
    /// Time of the last heartbeat, in milliseconds.
    pub last_heartbeat: u64,
    pub leader_id: Option<String>,
}

/// The view of an optional string.
pub open spec fn opt_view(o: Option<String>) -> Option<Seq<char>> {
    match o {
        Some(s) => Some(s@),
        None => None,
    }
}

impl ConsensusEngine {
    /// A follower at term 0 that has voted for nobody and knows no peer.
    pub fn new(config: ConsensusConfig) -> (r: Self)
        ensures
            r.config == config,
            r.state == ConsensusState::Follower,
            r.current_term == 0,
            r.voted_for is None,
            r.peers@ == Map::<Seq<char>, PeerInfo>::empty(),
            r.validators@ == Set::<Seq<char>>::empty(),
            r.last_heartbeat == 0,
            r.leader_id is None,
    {
        ConsensusEngine {
            config,
            state: ConsensusState::Follower,
            current_term: 0,
            voted_for: None,
            peers: KeyMap::new(),
            validators: StrSet::new(),
            last_heartbeat: 0,
            leader_id: None,
        }
    }

    /// The periodic check at time `now` (milliseconds): a follower that has
    /// heard no heartbeat for longer than the election timeout becomes a
    /// candidate for the next term, which is announced.
    pub fn check_heartbeat(&mut self, now: u64) -> (r: Option<ConsensusEvent>)
        requires
            old(self).current_term < u64::MAX,
        ensures
            ({
                let silent = vstd::wrapping::u64_specs::wrapping_sub(now, old(self).last_heartbeat);
                let starts = old(self).state == ConsensusState::Follower && silent > old(self).config.election_timeout;
                &&& starts ==> final(self).state == ConsensusState::Candidate && final(self).current_term
                    == old(self).current_term + 1 && (r matches Some(ConsensusEvent::StateChanged(s)) && s
                    == ConsensusState::Candidate)
                &&& !starts ==> r is None && final(self).state == old(self).state && final(self).current_term
                    == old(self).current_term
            }),
            final(self).voted_for == old(self).voted_for,
            final(self).leader_id == old(self).leader_id,
            final(self).last_heartbeat == old(self).last_heartbeat,
            final(self).config == old(self).config,
            final(self).peers == old(self).peers,
            final(self).validators == old(self).validators,
    {
        if self.state == ConsensusState::Follower && now.wrapping_sub(self.last_heartbeat) > self.config.election_timeout {
            self.state = ConsensusState::Candidate;
            self.current_term = self.current_term + 1;
            return Some(ConsensusEvent::StateChanged(ConsensusState::Candidate));
        }
        None
    }

    /// A heartbeat from `from` for `term`, heard at `now`: the time is kept;
    /// a newer term is adopted, with `from` as the leader and this node a
    /// follower, and the new leader is announced.
    pub fn handle_heartbeat(&mut self, from: &str, term: u64, height: u64, now: u64) -> (r: Option<ConsensusEvent>)
        ensures
            final(self).last_heartbeat == now,
            term > old(self).current_term ==> final(self).current_term == term && final(self).state
                == ConsensusState::Follower && opt_view(final(self).leader_id) == Some(from@)
                && (r matches Some(ConsensusEvent::LeaderChanged(Some(l))) && l@ == from@),
            term <= old(self).current_term ==> r is None && final(self).current_term == old(self).current_term
                && final(self).state == old(self).state && final(self).leader_id == old(self).leader_id,
            final(self).current_term >= old(self).current_term,
            final(self).voted_for == old(self).voted_for,
            final(self).config == old(self).config,
            final(self).peers == old(self).peers,
            final(self).validators == old(self).validators,
    {
        self.last_heartbeat = now;
        if term > self.current_term {
            self.current_term = term;
            self.state = ConsensusState::Follower;
            self.leader_id = Some(from.to_string());
            return Some(ConsensusEvent::LeaderChanged(Some(from.to_string())));
        }
        None
    }

    /// A vote request from `candidate` for `term`: refused for an older term
    /// or when the vote went to someone else; otherwise the vote goes to the
    /// candidate.
    pub fn handle_vote_request(&mut self, candidate: &str, term: u64) -> (r: bool)
        ensures
            r == grants(*old(self), candidate@, term),
            r ==> opt_view(final(self).voted_for) == Some(candidate@),
            !r ==> final(self).voted_for == old(self).voted_for,
            final(self).state == old(self).state,
            final(self).current_term == old(self).current_term,
            final(self).leader_id == old(self).leader_id,
            final(self).last_heartbeat == old(self).last_heartbeat,
            final(self).config == old(self).config,
            final(self).peers == old(self).peers,
            final(self).validators == old(self).validators,
    {
        if term < self.current_term {
            return false;
        }
        match &self.voted_for {
            Some(voted) => {
                if !crate::text::str_eq(voted.as_str(), candidate) {
                    return false;
                }
            },
            None => {},
        }
        self.voted_for = Some(candidate.to_string());
        true
    }

    /// A vote reply: a granted vote makes a validator the leader, which is
    /// announced (new role, then new leader).
    pub fn handle_vote_response(&mut self, from: &str, granted: bool) -> (r: Vec<ConsensusEvent>)
        ensures
            granted && old(self).config.is_validator ==> final(self).state == ConsensusState::Leader
                && opt_view(final(self).leader_id) == Some(old(self).config.node_id@) && r@.len() == 2
                && (r@[0] matches ConsensusEvent::StateChanged(s) && s == ConsensusState::Leader)
                && (r@[1] matches ConsensusEvent::LeaderChanged(Some(l)) && l@ == old(self).config.node_id@),
            !(granted && old(self).config.is_validator) ==> r@.len() == 0 && final(self).state == old(self).state
                && final(self).leader_id == old(self).leader_id,
            final(self).current_term == old(self).current_term,
            final(self).voted_for == old(self).voted_for,
            final(self).last_heartbeat == old(self).last_heartbeat,
            final(self).config == old(self).config,
            final(self).peers == old(self).peers,
            final(self).validators == old(self).validators,
    {
        let mut events: Vec<ConsensusEvent> = Vec::new();
        if !granted {
            return events;
        }
        if self.config.is_validator {
            self.state = ConsensusState::Leader;
            self.leader_id = Some(self.config.node_id.clone());
            events.push(ConsensusEvent::StateChanged(ConsensusState::Leader));
            events.push(ConsensusEvent::LeaderChanged(Some(self.config.node_id.clone())));
        }
        events
    }

    /// Records a peer (replacing one with the same id); a validator joins the validators.
    pub fn add_peer(&mut self, peer_info: PeerInfo)
        ensures
            final(self).peers@.contains_key(peer_info.peer_id@),
            final(self).peers@.dom() == old(self).peers@.dom().insert(peer_info.peer_id@),
            peer_info.is_validator ==> final(self).validators@ == old(self).validators@.insert(peer_info.peer_id@),
            !peer_info.is_validator ==> final(self).validators@ == old(self).validators@,
            final(self).state == old(self).state,
            final(self).current_term == old(self).current_term,
    {
        let id = peer_info.peer_id.clone();
        if peer_info.is_validator {
            self.validators.insert(id.as_str());
        }
        let ghost old_dom = self.peers@.dom();
        self.peers.insert(id, peer_info);
        assert(self.peers@.dom() =~= old_dom.insert(peer_info.peer_id@));
    }

    /// Forgets a peer, as a peer and as a validator.
    pub fn remove_peer(&mut self, peer_id: &str)
        ensures
            final(self).peers@ == old(self).peers@.remove(peer_id@),
            final(self).validators@ == old(self).validators@.remove(peer_id@),
            final(self).state == old(self).state,
            final(self).current_term == old(self).current_term,
    {
        self.peers.remove(&peer_id.to_string());
        self.validators.remove(peer_id);
    }

    pub fn get_state(&self) -> (r: ConsensusState)
        ensures
            r == self.state,
    {
        self.state
    }

    pub fn get_leader(&self) -> (r: Option<String>)
        ensures
            opt_view(r) == opt_view(self.leader_id),
    {
        match &self.leader_id {
            Some(l) => Some(l.clone()),
            None => None,
        }
    }
}

/// Whether a node in state `e` grants its vote to `candidate` for `term`.
pub open spec fn grants(e: ConsensusEngine, candidate: Seq<char>, term: u64) -> bool {
    term >= e.current_term && (e.voted_for is None || opt_view(e.voted_for) == Some(candidate))
}

/// Once a node has voted for a candidate, it refuses every other candidate,
/// whatever the term: a vote is given to one candidate only.
pub proof fn lemma_single_vote(e: ConsensusEngine, first: Seq<char>, second: Seq<char>, term: u64)
    requires
        opt_view(e.voted_for) == Some(first),
        first != second,
    ensures
        !grants(e, second, term),
{
}

} // verus!
