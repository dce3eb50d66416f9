//! Attack prevention for a node: replay protection, a per-address request
//! limit and a cap on connections per address.
use vstd::prelude::*;

use crate::clock::unix_seconds;
use crate::keymap::{KeyMap, StrSet};
use crate::security::timestamp_ok;
use crate::text::string_of;

verus! {

/// How long, in seconds, a transaction stays acceptable.
pub const TX_EXPIRATION: u64 = 300;

/// The length, in seconds, of a rate-limit window.
pub const RATE_WINDOW: u64 = 60;

/// Remembers which transactions were processed.
pub struct ReplayProtector {
    processed_txs: StrSet,
}

impl View for ReplayProtector {
    type V = Set<Seq<char>>;

    closed spec fn view(&self) -> Set<Seq<char>> {
        self.processed_txs@
    }
}

impl ReplayProtector {
    pub fn new() -> (r: Self)
        ensures
            r@ == Set::<Seq<char>>::empty(),
    {
        ReplayProtector { processed_txs: StrSet::new() }
    }

    /// Whether the transaction was processed before.
    pub fn is_replay(&self, tx_hash: &str) -> (r: bool)
        ensures
            r == self@.contains(tx_hash@),
    {
        self.processed_txs.contains(tx_hash)
    }

    /// Records a transaction as processed.
    pub fn mark_processed(&mut self, tx_hash: String)
        ensures
            final(self)@ == old(self)@.insert(tx_hash@),
    {
        self.processed_txs.insert(tx_hash.as_str());
    }

    /// Whether a timestamp is acceptable at `now`: not more than a minute
    /// ahead and at most `TX_EXPIRATION` seconds old (see `timestamp_ok`).
    pub fn validate_timestamp_at(&self, timestamp: u64, now: u64) -> (r: bool)
        ensures
            r == timestamp_ok(timestamp, now, TX_EXPIRATION),
    {
        if now <= u64::MAX - 60 && timestamp > now + 60 {
            return false;
        }
        if timestamp > now {
            return false;
        }
        if now - timestamp > TX_EXPIRATION {
            return false;
        }
        true
    }

    /// Whether a timestamp is acceptable now.
    pub fn validate_timestamp(&self, timestamp: u64) -> (r: bool)
        ensures
            exists|now: u64| r == timestamp_ok(timestamp, now, TX_EXPIRATION),
    {
        let now = unix_seconds();
        self.validate_timestamp_at(timestamp, now)
    }
}

/// The start of the rate-limit window holding `now`.
pub open spec fn window_start(now: u64) -> u64 {
    (now / RATE_WINDOW * RATE_WINDOW) as u64
}

/// The requests an address has made in the window of `now`, by the record
/// `requests`.
pub open spec fn count_in_window(requests: Map<Seq<char>, (u32, u64)>, ip: Seq<char>, now: u64) -> u32 {
    if requests.contains_key(ip) && requests[ip].1 == window_start(now) {
        requests[ip].0
    } else {
        0
    }
}

/// Counts requests per address in fixed one-minute windows.
pub struct RateLimiter {
    requests: KeyMap<String, (u32, u64)>,
    limit: u32,
}

impl RateLimiter {
    /// The requests counted so far: per address, the count and the start of
    /// its window.
    pub closed spec fn requests(&self) -> Map<Seq<char>, (u32, u64)> {
        self.requests@
    }

    /// The most requests an address may make in one window.
    pub closed spec fn limit(&self) -> u32 {
        self.limit
    }

    pub fn new(limit: u32) -> (r: Self)
        ensures
            r.requests() == Map::<Seq<char>, (u32, u64)>::empty(),
            r.limit() == limit,
    {
        RateLimiter { requests: KeyMap::new(), limit }
    }

    /// Counts a request of `ip` at `now`; refused once the address has made
    /// `limit` requests in the current window.
    pub fn allow_request_at(&mut self, ip: &str, now: u64) -> (r: bool)
        ensures
            final(self).limit() == old(self).limit(),
            ({
                let count = count_in_window(old(self).requests(), ip@, now);
                &&& r == (count < old(self).limit())
                &&& final(self).requests() == old(self).requests().insert(
                    ip@,
                    (if r { (count + 1) as u32 } else { count }, window_start(now)),
                )
            }),
    {
        let w = now / RATE_WINDOW * RATE_WINDOW;
        let key = ip.to_owned();
        let count: u32 = match self.requests.get(&key) {
            Some(entry) => if entry.1 == w {
                entry.0
            } else {
                0
            },
            None => 0,
        };
        if count >= self.limit {
            self.requests.insert(key, (count, w));
            return false;
        }
        self.requests.insert(key, (count + 1, w));
        true
    }

    /// Counts a request of `ip` now.
    pub fn allow_request(&mut self, ip: &str) -> (r: bool)
        ensures
            final(self).limit() == old(self).limit(),
            exists|now: u64|
                #![trigger window_start(now)]
                {
                    let count = count_in_window(old(self).requests(), ip@, now);
                    &&& r == (count < old(self).limit())
                    &&& final(self).requests() == old(self).requests().insert(
                        ip@,
                        (if r { (count + 1) as u32 } else { count }, window_start(now)),
                    )
                },
    {
        let now = unix_seconds();
        self.allow_request_at(ip, now)
    }
}

/// The most connections accepted from one address.
pub const MAX_PEERS_PER_IP: usize = 10;

/// Replay protection, a limit of 60 requests a minute per address and at
/// most `MAX_PEERS_PER_IP` connections per address.
pub struct AttackPrevention {
    replay_protector: ReplayProtector,
    rate_limiter: RateLimiter,
    peer_ips: KeyMap<String, usize>,
}

/// The connections counted for an address.
pub open spec fn peer_count(peers: Map<Seq<char>, usize>, ip: Seq<char>) -> usize {
    if peers.contains_key(ip) {
        peers[ip]
    } else {
        0
    }
}

impl AttackPrevention {
    /// The transactions recorded as processed.
    pub closed spec fn processed(&self) -> Set<Seq<char>> {
        self.replay_protector@
    }

    /// The requests counted per address (see `RateLimiter::requests`).
    pub closed spec fn requests(&self) -> Map<Seq<char>, (u32, u64)> {
        self.rate_limiter.requests()
    }

    /// The request limit per window.
    pub closed spec fn request_limit(&self) -> u32 {
        self.rate_limiter.limit()
    }

    /// The connections counted per address.
    pub closed spec fn peers(&self) -> Map<Seq<char>, usize> {
        self.peer_ips@
    }

    pub fn new() -> (r: Self)
        ensures
            r.processed() == Set::<Seq<char>>::empty(),
            r.requests() == Map::<Seq<char>, (u32, u64)>::empty(),
            r.request_limit() == 60,
            r.peers() == Map::<Seq<char>, usize>::empty(),
    {
        AttackPrevention {
            replay_protector: ReplayProtector::new(),
            rate_limiter: RateLimiter::new(60),
            peer_ips: KeyMap::new(),
        }
    }

    /// Records a transaction as processed.
    pub fn mark_processed(&mut self, tx_hash: String)
        ensures
            final(self).processed() == old(self).processed().insert(tx_hash@),
            final(self).requests() == old(self).requests(),
            final(self).request_limit() == old(self).request_limit(),
            final(self).peers() == old(self).peers(),
    {
        self.replay_protector.mark_processed(tx_hash);
    }

    /// Refuses a processed transaction (`"重放攻击检测"`), then one whose
    /// timestamp is not acceptable at `now` (`"无效时间戳"`).
    pub fn validate_transaction_at(&self, tx_hash: &str, timestamp: u64, now: u64) -> (r: Result<
        (),
        String,
    >)
        ensures
            self.processed().contains(tx_hash@) ==> (r matches Err(e) && e@ == "重放攻击检测"@),
            !self.processed().contains(tx_hash@) && !timestamp_ok(timestamp, now, TX_EXPIRATION)
                ==> (r matches Err(e) && e@ == "无效时间戳"@),
            !self.processed().contains(tx_hash@) && timestamp_ok(timestamp, now, TX_EXPIRATION)
                ==> r is Ok,
    {
        if self.replay_protector.is_replay(tx_hash) {
            return Err(string_of("重放攻击检测"));
        }
        if !self.replay_protector.validate_timestamp_at(timestamp, now) {
            return Err(string_of("无效时间戳"));
        }
        Ok(())
    }

    /// The same check at the current time.
    pub fn validate_transaction(&self, tx_hash: &str, timestamp: u64) -> (r: Result<(), String>)
        ensures
            self.processed().contains(tx_hash@) ==> (r matches Err(e) && e@ == "重放攻击检测"@),
            !self.processed().contains(tx_hash@) ==> exists|now: u64|
                (r is Ok) == timestamp_ok(timestamp, now, TX_EXPIRATION),
    {
        let now = unix_seconds();
        self.validate_transaction_at(tx_hash, timestamp, now)
    }

    /// Counts an API request of `ip` at `now`; `Err("请求过于频繁")` once the
    /// address has made 60 requests in the current minute.
    pub fn check_api_request_at(&mut self, ip: &str, now: u64) -> (r: Result<(), String>)
        ensures
            final(self).processed() == old(self).processed(),
            final(self).peers() == old(self).peers(),
            final(self).request_limit() == old(self).request_limit(),
            ({
                let count = count_in_window(old(self).requests(), ip@, now);
                let allowed = count < old(self).request_limit();
                &&& allowed ==> r is Ok
                &&& !allowed ==> (r matches Err(e) && e@ == "请求过于频繁"@)
                &&& final(self).requests() == old(self).requests().insert(
                    ip@,
                    (if allowed { (count + 1) as u32 } else { count }, window_start(now)),
                )
            }),
    {
        if !self.rate_limiter.allow_request_at(ip, now) {
            return Err(string_of("请求过于频繁"));
        }
        Ok(())
    }

    /// Counts an API request of `ip` now.
    pub fn check_api_request(&mut self, ip: &str) -> (r: Result<(), String>)
        ensures
            final(self).processed() == old(self).processed(),
            final(self).peers() == old(self).peers(),
            final(self).request_limit() == old(self).request_limit(),
            final(self).requests().contains_key(ip@),
            r is Err ==> (r matches Err(e) && e@ == "请求过于频繁"@),
    {
        let now = unix_seconds();
        self.check_api_request_at(ip, now)
    }

    /// Accepts a connection from `ip` while it has fewer than
    /// `MAX_PEERS_PER_IP`, counting it.
    pub fn check_peer_connection(&mut self, ip: &str) -> (r: bool)
        ensures
            final(self).processed() == old(self).processed(),
            final(self).requests() == old(self).requests(),
            final(self).request_limit() == old(self).request_limit(),
            r == (peer_count(old(self).peers(), ip@) < MAX_PEERS_PER_IP),
            final(self).peers() == old(self).peers().insert(
                ip@,
                if r { (peer_count(old(self).peers(), ip@) + 1) as usize } else { peer_count(old(self).peers(), ip@) },
            ),
    {
        let key = ip.to_owned();
        let count: usize = match self.peer_ips.get(&key) {
            Some(c) => *c,
            None => 0,
        };
        if count >= MAX_PEERS_PER_IP {
            self.peer_ips.insert(key, count);
            return false;
        }
        self.peer_ips.insert(key, count + 1);
        true
    }
}

} // verus!
