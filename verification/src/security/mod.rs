//! Transaction and API safeguards: replay protection, timestamp windows,
//! signature format checks, per-address rate limits and permissions.
use vstd::prelude::*;

pub mod attack_prevention;
use crate::clock::unix_seconds;
use crate::crypto::{sha256, sha256_spec};
use crate::keymap::{KeyMap, StrSet};

verus! {

/// The safeguard settings.
#[derive(Debug, Clone, Copy, PartialEq, Eq, Structural)]
pub struct SecurityConfig {
    pub tx_expiration_seconds: u64,
    pub max_nonce_gap: u64,
    pub enable_replay_protection: bool,
    pub enable_malleability_protection: bool,
    pub rate_limit_per_minute: u32,
    pub blacklist_expiry_seconds: u64,
}

impl Default for SecurityConfig {
    fn default() -> (r: Self)
        ensures
            r.tx_expiration_seconds == 300,
            r.max_nonce_gap == 100,
            r.enable_replay_protection,
            r.enable_malleability_protection,
            r.rate_limit_per_minute == 60,
            r.blacklist_expiry_seconds == 3600,
    {
        SecurityConfig {
            tx_expiration_seconds: 300,
            max_nonce_gap: 100,
            enable_replay_protection: true,
            enable_malleability_protection: true,
            rate_limit_per_minute: 60,
            blacklist_expiry_seconds: 3600,
        }
    }
}

/// Why a request was refused.
#[derive(Debug, Clone, Copy, PartialEq, Eq, Structural)]
pub enum SecurityError {
    ReplayAttack,
    ExpiredTransaction,
    FutureTransaction,
    InvalidSignature,
    InvalidSignatureLength,
    HighSValue,
    RateLimitExceeded,
    Unauthorized,
    InvalidNonce,
}

/// Remembers processed transactions (forgetting them all past 100 000).
pub struct ReplayProtector {
    pub processed_txs: StrSet,
    pub config: SecurityConfig,
}

/// A timestamp is acceptable at `now`: at most a minute ahead and not
/// older than the expiry (a timestamp ahead of `now` counts as too old when
/// the difference wraps, as unsigned subtraction does).
pub open spec fn timestamp_ok(ts: u64, now: u64, expiry: u64) -> bool {
    &&& ts <= now + 60
    &&& ts <= now
    &&& now - ts <= expiry
}

impl ReplayProtector {
    pub fn new(config: SecurityConfig) -> (r: Self)
        ensures
            r.processed_txs@ == Set::<Seq<char>>::empty(),
            r.config == config,
    {
        ReplayProtector { processed_txs: StrSet::new(), config }
    }

    /// A transaction seen before (never, with replay protection off).
    pub fn is_replay(&self, tx_hash: &str) -> (r: bool)
        ensures
            r == (self.config.enable_replay_protection && self.processed_txs@.contains(tx_hash@)),
    {
        if !self.config.enable_replay_protection {
            return false;
        }
        self.processed_txs.contains(tx_hash)
    }

    /// Remembers a transaction; past 100 000 the memory starts afresh.
    pub fn mark_processed(&mut self, tx_hash: String)
        ensures
            final(self).config == old(self).config,
            old(self).processed_txs@.insert(tx_hash@).len() > 100_000 ==> final(self).processed_txs@
                == Set::<Seq<char>>::empty(),
            old(self).processed_txs@.insert(tx_hash@).len() <= 100_000 ==> final(self).processed_txs@
                == old(self).processed_txs@.insert(tx_hash@),
    {
        self.processed_txs.insert(tx_hash.as_str());
        if self.processed_txs.len() > 100_000 {
            self.processed_txs = StrSet::new();
        }
    }

    /// Whether a timestamp is acceptable at `now` (see `timestamp_ok`).
    pub fn verify_timestamp_at(&self, timestamp: u64, now: u64) -> (r: bool)
        ensures
            r == timestamp_ok(timestamp, now, self.config.tx_expiration_seconds),
    {
        if now <= u64::MAX - 60 && timestamp > now + 60 {
            return false;
        }
        if timestamp > now {
            return false;
        }
        if now - timestamp > self.config.tx_expiration_seconds {
            return false;
        }
        true
    }

    /// Whether a timestamp is acceptable now.
    pub fn verify_timestamp(&self, timestamp: u64) -> (r: bool)
        ensures
            exists|now: u64| r == timestamp_ok(timestamp, now, self.config.tx_expiration_seconds),
    {
        let now = unix_seconds();
        self.verify_timestamp_at(timestamp, now)
    }
}

/// Signature checks.
pub struct SignatureGuard;

impl SignatureGuard {
    /// A signature must be 64 bytes long.
    pub fn verify_signature_format(signature: &[u8]) -> (r: Result<(), SecurityError>)
        ensures
            signature@.len() == 64 ==> r is Ok,
            signature@.len() != 64 ==> r == Err::<(), SecurityError>(SecurityError::InvalidSignatureLength),
    {
        if signature.len() != 64 {
            return Err(SecurityError::InvalidSignatureLength);
        }
        Ok(())
    }

    /// The SHA-256 digest of a message.
    pub fn hash_message(message: &[u8]) -> (r: [u8; 32])
        ensures
            r@ == sha256_spec(message@),
    {
        let h = sha256(message);
        let mut out = [0u8; 32];
        let mut i: usize = 0;
        while i < 32
            invariant
                i <= 32,
                h@.len() == 32,
                forall|j: int| 0 <= j < i ==> out@[j] == h@[j],
            decreases 32 - i,
        {
            out.set(i, h[i]);
            i = i + 1;
        }
        assert(out@ =~= h@);
        out
    }
}

/// Requests per address in the current minute.
pub struct RateLimiter {
    pub requests: KeyMap<String, (u32, u64)>,
    pub config: SecurityConfig,
}

/// The start of the minute of `now`.
pub open spec fn window_of(now: u64) -> u64 {
    (now / 60 * 60) as u64
}

/// The requests `ip` may still make, by the record of `rl`, in the minute
/// of `now`.
pub open spec fn quota_at(rl: &RateLimiter, ip: Seq<char>, now: u64) -> u32 {
    if rl.requests@.contains_key(ip) && rl.requests@[ip].1 == window_of(now) {
        if rl.requests@[ip].0 >= rl.config.rate_limit_per_minute {
            0u32
        } else {
            (rl.config.rate_limit_per_minute - rl.requests@[ip].0) as u32
        }
    } else {
        rl.config.rate_limit_per_minute
    }
}

impl RateLimiter {
    pub fn new(config: SecurityConfig) -> (r: Self)
        ensures
            r.requests@ == Map::<Seq<char>, (u32, u64)>::empty(),
            r.config == config,
    {
        RateLimiter { requests: KeyMap::new(), config }
    }

    /// Counts a request of an address at `now`: refused once the address
    /// has made the limit of requests in the current minute.
    pub fn allow_request_at(&mut self, ip: &str, now: u64) -> (r: bool)
        ensures
            final(self).config == old(self).config,
            ({
                let w = window_of(now);
                let count: u32 = if old(self).requests@.contains_key(ip@) && old(self).requests@[ip@].1 == w {
                    old(self).requests@[ip@].0
                } else {
                    0
                };
                &&& r == (count < old(self).config.rate_limit_per_minute)
                &&& final(self).requests@ == old(self).requests@.insert(
                    ip@,
                    (if r { (count + 1) as u32 } else { count }, w),
                )
            }),
    {
        let w = now / 60 * 60;
        let key = ip.to_owned();
        let count: u32 = match self.requests.get(&key) {
            Some(entry) => if entry.1 == w {
                entry.0
            } else {
                0
            },
            None => 0,
        };
        if count >= self.config.rate_limit_per_minute {
            self.requests.insert(key, (count, w));
            return false;
        }
        self.requests.insert(key, (count + 1, w));
        true
    }

    /// Counts a request of an address now.
    pub fn allow_request(&mut self, ip: &str) -> (r: bool)
        ensures
            final(self).config == old(self).config,
            exists|now: u64|
                #![trigger window_of(now)]
                {
                    let w = window_of(now);
                    let count: u32 = if old(self).requests@.contains_key(ip@) && old(self).requests@[ip@].1 == w {
                        old(self).requests@[ip@].0
                    } else {
                        0
                    };
                    &&& r == (count < old(self).config.rate_limit_per_minute)
                    &&& final(self).requests@ == old(self).requests@.insert(
                        ip@,
                        (if r { (count + 1) as u32 } else { count }, w),
                    )
                },
    {
        let now = unix_seconds();
        self.allow_request_at(ip, now)
    }

    /// The requests an address may still make in the minute of `now`.
    pub fn get_remaining_quota_at(&self, ip: &str, now: u64) -> (r: u32)
        ensures
            r == quota_at(self, ip@, now),
    {
        let w = now / 60 * 60;
        match self.requests.get(&ip.to_owned()) {
            Some(entry) => if entry.1 == w {
                self.config.rate_limit_per_minute.saturating_sub(entry.0)
            } else {
                self.config.rate_limit_per_minute
            },
            None => self.config.rate_limit_per_minute,
        }
    }

    /// The requests an address may still make now.
    pub fn get_remaining_quota(&self, ip: &str) -> (r: u32)
        ensures
            exists|now: u64| #![trigger window_of(now)] r == quota_at(self, ip@, now),
    {
        let now = unix_seconds();
        self.get_remaining_quota_at(ip, now)
    }
}

/// Administrators and contract deployers.
pub struct PermissionManager {
    pub admins: StrSet,
    pub deployers: StrSet,
}

impl PermissionManager {
    pub fn new() -> (r: Self)
        ensures
            r.admins@ == Set::<Seq<char>>::empty(),
            r.deployers@ == Set::<Seq<char>>::empty(),
    {
        PermissionManager { admins: StrSet::new(), deployers: StrSet::new() }
    }

    pub fn add_admin(&mut self, address: String)
        ensures
            final(self).admins@ == old(self).admins@.insert(address@),
            final(self).deployers == old(self).deployers,
    {
        self.admins.insert(address.as_str());
    }

    pub fn is_admin(&self, address: &str) -> (r: bool)
        ensures
            r == self.admins@.contains(address@),
    {
        self.admins.contains(address)
    }

    pub fn add_deployer(&mut self, address: String)
        ensures
            final(self).deployers@ == old(self).deployers@.insert(address@),
            final(self).admins == old(self).admins,
    {
        self.deployers.insert(address.as_str());
    }

    /// Administrators and deployers may deploy contracts.
    pub fn can_deploy(&self, address: &str) -> (r: bool)
        ensures
            r == (self.admins@.contains(address@) || self.deployers@.contains(address@)),
    {
        if self.is_admin(address) {
            return true;
        }
        self.deployers.contains(address)
    }
}

/// All safeguards together.
pub struct SecurityValidator {
    pub replay_protector: ReplayProtector,
    pub rate_limiter: RateLimiter,
    pub permission_manager: PermissionManager,
    pub config: SecurityConfig,
}

/// The verdict on a transaction at `now`: a replay, then a timestamp out of
/// the window (future or expired), then a malformed signature.
pub open spec fn transaction_verdict(
    v: &SecurityValidator,
    tx_hash: Seq<char>,
    timestamp: u64,
    signature: Seq<u8>,
    now: u64,
) -> Result<(), SecurityError> {
    if v.replay_protector.config.enable_replay_protection && v.replay_protector.processed_txs@.contains(tx_hash) {
        Err(SecurityError::ReplayAttack)
    } else if !timestamp_ok(timestamp, now, v.replay_protector.config.tx_expiration_seconds) {
        if timestamp > now {
            Err(SecurityError::FutureTransaction)
        } else {
            Err(SecurityError::ExpiredTransaction)
        }
    } else if v.config.enable_malleability_protection && signature.len() != 64 {
        Err(SecurityError::InvalidSignature)
    } else {
        Ok(())
    }
}

impl SecurityValidator {
    pub fn new(config: SecurityConfig) -> (r: Self)
        ensures
            r.config == config,
            r.replay_protector.config == config,
            r.rate_limiter.config == config,
            r.replay_protector.processed_txs@ == Set::<Seq<char>>::empty(),
    {
        SecurityValidator {
            replay_protector: ReplayProtector::new(config),
            rate_limiter: RateLimiter::new(config),
            permission_manager: PermissionManager::new(),
            config,
        }
    }

    /// Checks a transaction at `now` (see `transaction_verdict`).
    pub fn validate_transaction_at(
        &self,
        tx_hash: &str,
        timestamp: u64,
        signature: &[u8],
        _from: &str,
        now: u64,
    ) -> (r: Result<(), SecurityError>)
        ensures
            r == transaction_verdict(self, tx_hash@, timestamp, signature@, now),
    {
        if self.replay_protector.is_replay(tx_hash) {
            return Err(SecurityError::ReplayAttack);
        }
        if !self.replay_protector.verify_timestamp_at(timestamp, now) {
            if timestamp > now {
                return Err(SecurityError::FutureTransaction);
            } else {
                return Err(SecurityError::ExpiredTransaction);
            }
        }
        if self.config.enable_malleability_protection {
            match SignatureGuard::verify_signature_format(signature) {
                Ok(()) => {},
                Err(_) => {
                    return Err(SecurityError::InvalidSignature);
                },
            }
        }
        Ok(())
    }

    /// Checks a transaction now.
    pub fn validate_transaction(&self, tx_hash: &str, timestamp: u64, signature: &[u8], from: &str) -> (r: Result<
        (),
        SecurityError,
    >)
        ensures
            exists|now: u64| r == transaction_verdict(self, tx_hash@, timestamp, signature@, now),
    {
        let now = unix_seconds();
        self.validate_transaction_at(tx_hash, timestamp, signature, from, now)
    }

    /// Counts an API request at `now`; refused past the rate limit.
    pub fn validate_api_request_at(&mut self, ip: &str, now: u64) -> (r: Result<(), SecurityError>)
        ensures
            final(self).config == old(self).config,
            final(self).replay_protector == old(self).replay_protector,
            ({
                let w = window_of(now);
                let rl = old(self).rate_limiter;
                let count: u32 = if rl.requests@.contains_key(ip@) && rl.requests@[ip@].1 == w {
                    rl.requests@[ip@].0
                } else {
                    0
                };
                &&& r == if count < rl.config.rate_limit_per_minute {
                    Ok::<(), SecurityError>(())
                } else {
                    Err(SecurityError::RateLimitExceeded)
                }
                &&& final(self).rate_limiter.config == rl.config
                &&& final(self).rate_limiter.requests@ == rl.requests@.insert(
                    ip@,
                    (if count < rl.config.rate_limit_per_minute { (count + 1) as u32 } else { count }, w),
                )
            }),
            final(self).permission_manager == old(self).permission_manager,
    {
        if !self.rate_limiter.allow_request_at(ip, now) {
            return Err(SecurityError::RateLimitExceeded);
        }
        Ok(())
    }

    /// Whether an address may deploy contracts.
    pub fn validate_deploy_permission(&self, address: &str) -> (r: Result<(), SecurityError>)
        ensures
            r == if self.permission_manager.admins@.contains(address@) || self.permission_manager.deployers@.contains(
                address@,
            ) {
                Ok::<(), SecurityError>(())
            } else {
                Err(SecurityError::Unauthorized)
            },
    {
        if !self.permission_manager.can_deploy(address) {
            return Err(SecurityError::Unauthorized);
        }
        Ok(())
    }

    /// Remembers a processed transaction.
    pub fn mark_transaction_processed(&mut self, tx_hash: String)
        ensures
            final(self).config == old(self).config,
            final(self).replay_protector.config == old(self).replay_protector.config,
            ({
                let grown = old(self).replay_protector.processed_txs@.insert(tx_hash@);
                &&& grown.len() <= 100_000 ==> final(self).replay_protector.processed_txs@ == grown
                &&& grown.len() > 100_000 ==> final(self).replay_protector.processed_txs@ == Set::<Seq<char>>::empty()
            }),
            final(self).rate_limiter == old(self).rate_limiter,
            final(self).permission_manager == old(self).permission_manager,
    {
        self.replay_protector.mark_processed(tx_hash);
    }

    /// The requests an address may still make in the minute of `now`.
    pub fn get_rate_limit_remaining_at(&self, ip: &str, now: u64) -> (r: u32)
        ensures
            r == quota_at(&self.rate_limiter, ip@, now),
    {
        self.rate_limiter.get_remaining_quota_at(ip, now)
    }

    pub fn add_admin(&mut self, address: String)
        ensures
            final(self).permission_manager.admins@ == old(self).permission_manager.admins@.insert(address@),
            final(self).permission_manager.deployers == old(self).permission_manager.deployers,
    {
        self.permission_manager.add_admin(address);
    }
}

} // verus!
