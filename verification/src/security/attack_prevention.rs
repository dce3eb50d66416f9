//! Protections against attacks on the network: connections per address,
//! block times, block sizes and reorganisation depth.
use vstd::prelude::*;
use crate::keymap::KeyMap;

verus! {

/// Kinds of attack.
#[derive(Debug, Clone, Copy, PartialEq, Eq, Structural)]
pub enum AttackType {
    MajorityAttack,
    DoubleSpend,
    SybilAttack,
    EclipseAttack,
    DustAttack,
    Timejacking,
    FastMining,
}

/// Limits of the protections.
pub struct AttackPreventionConfig {
    /// Seconds a block time may run ahead of the clock.
    pub max_time_drift: u64,
    pub min_block_interval: u64,
    pub max_block_size: usize,
    pub max_reorg_depth: u32,
    pub max_peers_per_ip: usize,
}

impl Default for AttackPreventionConfig {
    fn default() -> (r: Self)
        ensures
            r.max_time_drift == 7200,
            r.min_block_interval == 60,
            r.max_block_size == 2_000_000,
            r.max_reorg_depth == 100,
            r.max_peers_per_ip == 10,
    {
        AttackPreventionConfig {
            max_time_drift: 7200,
            min_block_interval: 60,
            max_block_size: 2_000_000,
            max_reorg_depth: 100,
            max_peers_per_ip: 10,
        }
    }
}

/// Counts connections per address and applies the limits.
pub struct AttackPreventionManager {
    config: AttackPreventionConfig,
    peer_ips: KeyMap<String, usize>,
}

impl AttackPreventionManager {
    /// The limits in force.
    pub closed spec fn limits(&self) -> AttackPreventionConfig {
        self.config
    }

    /// Connections recorded per address.
    pub closed spec fn connections(&self) -> Map<Seq<char>, usize> {
        self.peer_ips@
    }

    pub fn new(config: AttackPreventionConfig) -> (r: Self)
        ensures
            r.limits() == config,
            r.connections() == Map::<Seq<char>, usize>::empty(),
    {
        AttackPreventionManager { config, peer_ips: KeyMap::new() }
    }

    /// Whether `ip` may open another connection: fewer than the limit so far.
    pub fn check_peer_limit(&self, ip: &str) -> (r: bool)
        ensures
            r == (!self.connections().contains_key(ip@) || self.connections()[ip@] < self.limits().max_peers_per_ip),
    {
        match self.peer_ips.get(&ip.to_string()) {
            Some(count) => *count < self.config.max_peers_per_ip,
            None => true,
        }
    }

    /// Counts one more connection from `ip`.
    pub fn record_connection(&mut self, ip: &str)
        requires
            old(self).connections().contains_key(ip@) ==> old(self).connections()[ip@] < usize::MAX,
        ensures
            final(self).limits() == old(self).limits(),
            final(self).connections() == old(self).connections().insert(
                ip@,
                (if old(self).connections().contains_key(ip@) { old(self).connections()[ip@] + 1 } else { 1 }) as usize,
            ),
    {
        let key = ip.to_string();
        let current: usize = match self.peer_ips.get(&key) {
            Some(c) => *c,
            None => 0,
        };
        self.peer_ips.insert(key, current + 1);
    }

    /// Whether a block time is at most the drift ahead of `now` and not
    /// before the previous block's.
    pub fn validate_timestamp_at(&self, timestamp: u64, prev_timestamp: u64, now: u64) -> (r: bool)
        ensures
            r == (timestamp <= now + self.limits().max_time_drift && timestamp >= prev_timestamp),
    {
        if timestamp as u128 > now as u128 + self.config.max_time_drift as u128 {
            return false;
        }
        if timestamp < prev_timestamp {
            return false;
        }
        true
    }

    /// `validate_timestamp_at` against the clock.
    pub fn validate_timestamp(&self, timestamp: u64, prev_timestamp: u64) -> (r: bool)
        ensures
            r ==> timestamp >= prev_timestamp,
            timestamp < prev_timestamp ==> !r,
    {
        let now = crate::clock::unix_seconds();
        self.validate_timestamp_at(timestamp, prev_timestamp, now)
    }

    /// Whether a block is within the size limit.
    pub fn validate_block_size(&self, size: usize) -> (r: bool)
        ensures
            r == (size <= self.limits().max_block_size),
    {
        size <= self.config.max_block_size
    }

    /// Whether a reorganisation is within the depth limit.
    pub fn validate_reorg_depth(&self, depth: u32) -> (r: bool)
        ensures
            r == (depth <= self.limits().max_reorg_depth),
    {
        depth <= self.config.max_reorg_depth
    }
}

} // verus!
