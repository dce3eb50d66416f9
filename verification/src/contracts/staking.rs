//! Staking pool: a fixed reward per block is shared among stakers in
//! proportion to their stake, through a fixed-point "reward per share"
//! accumulator.
use vstd::prelude::*;
use crate::keymap::{KeyMap, distinct_keys, entries_map, lemma_entries_map_at, key_at};
use crate::num::lemma_mul_u64;

verus! {

/// Fixed-point scale of `acc_reward_per_share`.
pub const PRECISION: u128 = 1_000_000_000_000;

/// A staker's position.
#[derive(Debug, Clone, Copy)]
pub struct UserInfo {
    pub amount: u64,
    pub reward_debt: u128,
    pub pending_reward: u64,
}

impl Default for UserInfo {
    fn default() -> (r: Self)
        ensures
            r == empty_user(),
    {
        UserInfo { amount: 0, reward_debt: 0, pending_reward: 0 }
    }
}

/// A position with nothing staked and nothing owed.
pub open spec fn empty_user() -> UserInfo {
    UserInfo { amount: 0, reward_debt: 0, pending_reward: 0 }
}

/// The position recorded for `k`, or an empty one.
pub open spec fn user_or_empty(m: Map<Seq<char>, UserInfo>, k: Seq<char>) -> UserInfo {
    if m.contains_key(k) {
        m[k]
    } else {
        empty_user()
    }
}

/// `amount * acc` in reward units (the accumulator is scaled by `PRECISION`).
pub open spec fn debt_for(amount: int, acc: int) -> int {
    amount * acc / (PRECISION as int)
}

/// What a position is owed when the accumulator stands at `acc`: its
/// pending reward plus, if it has stake, the share accrued since its debt
/// was last set.
pub open spec fn settle(u: UserInfo, acc: int) -> int {
    if u.amount == 0 {
        u.pending_reward as int
    } else {
        u.pending_reward + (debt_for(u.amount as int, acc) - u.reward_debt)
    }
}

/// `settle` can be computed in `u128` arithmetic without overflow or underflow.
pub open spec fn settle_ok(u: UserInfo, acc: int) -> bool {
    u.amount > 0 ==> {
        &&& u.amount * acc <= u128::MAX
        &&& debt_for(u.amount as int, acc) >= u.reward_debt
        &&& settle(u, acc) <= u128::MAX
    }
}

/// Total stake recorded in a sequence of positions.
pub open spec fn staked_sum(s: Seq<(String, UserInfo)>) -> int
    decreases s.len(),
{
    if s.len() == 0 {
        0
    } else {
        staked_sum(s.drop_last()) + s.last().1.amount
    }
}

proof fn lemma_staked_push(s: Seq<(String, UserInfo)>, e: (String, UserInfo))
    ensures
        staked_sum(s.push(e)) == staked_sum(s) + e.1.amount,
{
    assert(s.push(e).drop_last() == s);
}

proof fn lemma_staked_update(s: Seq<(String, UserInfo)>, i: int, e: (String, UserInfo))
    requires
        0 <= i < s.len(),
    ensures
        staked_sum(s.update(i, e)) == staked_sum(s) - s[i].1.amount + e.1.amount,
    decreases s.len(),
{
    let t = s.update(i, e);
    if i == s.len() - 1 {
        assert(t.drop_last() == s.drop_last());
    } else {
        assert(t.drop_last() == s.drop_last().update(i, e));
        lemma_staked_update(s.drop_last(), i, e);
    }
}

proof fn lemma_staked_bound(s: Seq<(String, UserInfo)>, i: int)
    requires
        0 <= i < s.len(),
    ensures
        s[i].1.amount <= staked_sum(s),
    decreases s.len(),
{
    lemma_staked_nonneg(s.drop_last());
    if i < s.len() - 1 {
        lemma_staked_bound(s.drop_last(), i);
    }
}

proof fn lemma_staked_nonneg(s: Seq<(String, UserInfo)>)
    ensures
        staked_sum(s) >= 0,
    decreases s.len(),
{
    if s.len() > 0 {
        lemma_staked_nonneg(s.drop_last());
    }
}

/// Inserting `v` for `k` changes the total stake by the difference in stake.
proof fn lemma_staked_insert(
    m0: KeyMap<String, UserInfo>,
    m1: KeyMap<String, UserInfo>,
    k: String,
    v: UserInfo,
)
    requires
        distinct_keys(m0.entries()),
        m0@ == entries_map(m0.entries()),
        m0@.contains_key(k@) ==> exists|i: int|
            0 <= i < m0.entries().len() && m0.entries()[i].0@ == k@
                && #[trigger] m1.entries() == m0.entries().update(i, (k, v)),
        !m0@.contains_key(k@) ==> m1.entries() == m0.entries().push((k, v)),
    ensures
        staked_sum(m1.entries()) == staked_sum(m0.entries()) - user_or_empty(m0@, k@).amount
            + v.amount,
{
    if m0@.contains_key(k@) {
        let i = choose|i: int|
            0 <= i < m0.entries().len() && m0.entries()[i].0@ == k@
                && #[trigger] m1.entries() == m0.entries().update(i, (k, v));
        lemma_staked_update(m0.entries(), i, (k, v));
        lemma_entries_map_at(m0.entries(), i);
    } else {
        lemma_staked_push(m0.entries(), (k, v));
    }
}

/// A recorded position never exceeds the total stake.
proof fn lemma_staked_member(m: KeyMap<String, UserInfo>, k: Seq<char>)
    requires
        distinct_keys(m.entries()),
        m@ == entries_map(m.entries()),
        m@.contains_key(k),
    ensures
        m@[k].amount <= staked_sum(m.entries()),
{
    assert(entries_map(m.entries()).dom().contains(k));
    let i = choose|i: int| #[trigger] key_at(m.entries(), i, k);
    lemma_entries_map_at(m.entries(), i);
    lemma_staked_bound(m.entries(), i);
}

/// Once the reward window is empty, the accumulator is already up to date.
proof fn lemma_acc_settled(p: &StakingPool, cb: u64)
    requires
        p.window_reward(cb) == 0,
    ensures
        p.acc_at(cb) == p.acc_reward_per_share,
{
    if p.total_staked > 0 {
        assert(0int * (PRECISION as int) / (p.total_staked as int) == 0) by (nonlinear_arith)
            requires
                p.total_staked > 0,
        ;
    }
}

/// The position after staking `amount` more with the accumulator at `acc`.
pub open spec fn deposited(u: UserInfo, amount: u64, acc: int) -> UserInfo {
    UserInfo {
        amount: (u.amount + amount) as u64,
        reward_debt: debt_for(u.amount + amount, acc) as u128,
        pending_reward: if u.amount > 0 {
            (u.pending_reward + (settle(u, acc) as u64)) as u64
        } else {
            u.pending_reward
        },
    }
}

/// The position after its rewards were paid out with `amount` stake left.
pub open spec fn paid_out(amount: u64, acc: int) -> UserInfo {
    UserInfo { amount, reward_debt: debt_for(amount as int, acc) as u128, pending_reward: 0 }
}

/// What a withdrawal or harvest pays: the pending reward on top of what
/// `pending_reward` reports (which already includes it).
pub open spec fn payout(u: UserInfo, acc: int) -> int {
    u.pending_reward + (settle(u, acc) as u64)
}

/// A pool that pays `reward_per_block` reward tokens per block between
/// `start_block` and `end_block` to the holders of staked tokens.
pub struct StakingPool {
    pub staking_token: String,
    pub reward_token: String,
    pub reward_per_block: u64,
    pub start_block: u64,
    pub end_block: u64,
    pub total_staked: u64,
    pub acc_reward_per_share: u128,
    pub last_reward_block: u64,
    pub users: KeyMap<String, UserInfo>,
}

/// A collection of pools.
pub struct StakingFactory {
    pub pools: Vec<StakingPool>,
}

impl StakingPool {
    /// The recorded total stake is the sum of the positions.
    pub open spec fn wf(&self) -> bool {
        self.total_staked == staked_sum(self.users.entries())
    }

    /// Tokens, schedule and rate are unchanged.
    pub open spec fn same_terms(&self, other: &Self) -> bool {
        &&& self.staking_token@ == other.staking_token@
        &&& self.reward_token@ == other.reward_token@
        &&& self.reward_per_block == other.reward_per_block
        &&& self.start_block == other.start_block
        &&& self.end_block == other.end_block
    }

    /// The last block that still earns rewards, when checking at `cb`.
    pub open spec fn capped(&self, cb: u64) -> u64 {
        if cb < self.end_block {
            cb
        } else {
            self.end_block
        }
    }

    /// Reward released since the last update, up to block `cb`.
    pub open spec fn window_reward(&self, cb: u64) -> int {
        if self.capped(cb) > self.last_reward_block {
            (self.capped(cb) - self.last_reward_block) * self.reward_per_block
        } else {
            0
        }
    }

    /// The accumulator brought forward to block `cb`.
    pub open spec fn acc_at(&self, cb: u64) -> int {
        if self.total_staked > 0 {
            self.acc_reward_per_share + self.window_reward(cb) * (PRECISION as int)
                / (self.total_staked as int)
        } else {
            self.acc_reward_per_share as int
        }
    }

    /// Bringing the accumulator forward to `cb` stays within `u128`.
    pub open spec fn accrual_ok(&self, cb: u64) -> bool {
        self.total_staked > 0 ==> {
            &&& self.window_reward(cb) * (PRECISION as int) <= u128::MAX
            &&& self.acc_at(cb) <= u128::MAX
        }
    }

    /// `update_pool(cb)` runs without overflow and the reward window does
    /// not start after its end.
    pub open spec fn update_ok(&self, cb: u64) -> bool {
        &&& self.accrual_ok(cb)
        &&& (cb > self.last_reward_block && self.total_staked > 0) ==> self.capped(cb)
            >= self.last_reward_block
    }

    /// The last reward block after an update at `cb`.
    pub open spec fn last_after(&self, cb: u64) -> u64 {
        if cb <= self.last_reward_block {
            self.last_reward_block
        } else {
            cb
        }
    }

    /// The reward `pending_reward` reports for `user` at block `cb`.
    pub open spec fn pending_of(&self, user: Seq<char>, cb: u64) -> u64 {
        if self.users@.contains_key(user) {
            settle(self.users@[user], self.acc_at(cb)) as u64
        } else {
            0
        }
    }

    /// `pending_reward(user, cb)` runs without overflow or underflow.
    pub open spec fn pending_ok(&self, user: Seq<char>, cb: u64) -> bool {
        self.users@.contains_key(user) && self.users@[user].amount > 0 ==> {
            &&& self.accrual_ok(cb)
            &&& settle_ok(self.users@[user], self.acc_at(cb))
        }
    }

    /// `deposit(user, amount, cb)` runs without overflow.
    pub open spec fn deposit_ok(&self, user: Seq<char>, amount: u64, cb: u64) -> bool {
        let u = user_or_empty(self.users@, user);
        let acc = self.acc_at(cb);
        &&& self.update_ok(cb)
        &&& settle_ok(u, acc)
        &&& u.amount > 0 ==> payout(u, acc) <= u64::MAX
        &&& u.amount + amount <= u64::MAX
        &&& (u.amount + amount) * acc <= u128::MAX
        &&& self.total_staked + amount <= u64::MAX
    }

    /// Paying out `user` at `cb` runs without overflow.
    pub open spec fn payout_ok(&self, user: Seq<char>, cb: u64) -> bool {
        let u = self.users@[user];
        let acc = self.acc_at(cb);
        &&& settle_ok(u, acc)
        &&& payout(u, acc) <= u64::MAX
    }

    /// A pool for `staking_token` paying `reward_per_block` of `reward_token`
    /// from `start_block` to `end_block`, with nothing staked yet.
    pub fn new(
        staking_token: String,
        reward_token: String,
        reward_per_block: u64,
        start_block: u64,
        end_block: u64,
    ) -> (r: Self)
        ensures
            r.wf(),
            r.staking_token@ == staking_token@,
            r.reward_token@ == reward_token@,
            r.reward_per_block == reward_per_block,
            r.start_block == start_block,
            r.end_block == end_block,
            r.total_staked == 0,
            r.acc_reward_per_share == 0,
            r.last_reward_block == start_block,
            r.users@ == Map::<Seq<char>, UserInfo>::empty(),
    {
        StakingPool {
            staking_token,
            reward_token,
            reward_per_block,
            start_block,
            end_block,
            total_staked: 0,
            acc_reward_per_share: 0,
            last_reward_block: start_block,
            users: KeyMap::new(),
        }
    }

    /// Brings the accumulator forward to `current_block`.
    pub fn update_pool(&mut self, current_block: u64)
        requires
            old(self).update_ok(current_block),
        ensures
            final(self).same_terms(old(self)),
            final(self).users == old(self).users,
            final(self).total_staked == old(self).total_staked,
            final(self).acc_reward_per_share == old(self).acc_at(current_block),
            final(self).last_reward_block == old(self).last_after(current_block),
            final(self).last_reward_block >= current_block,
            final(self).window_reward(current_block) == 0,
    {
        if current_block <= self.last_reward_block {
            return;
        }
        if self.total_staked == 0 {
            self.last_reward_block = current_block;
            return;
        }
        let end = if current_block < self.end_block {
            current_block
        } else {
            self.end_block
        };
        let multiplier = end - self.last_reward_block;
        proof {
            lemma_mul_u64(multiplier, self.reward_per_block);
        }
        let reward = multiplier as u128 * self.reward_per_block as u128;
        assert(reward == self.window_reward(current_block)) by {
            if end == self.last_reward_block {
                assert(multiplier == 0);
                assert(reward == 0) by (nonlinear_arith)
                    requires
                        reward == multiplier * self.reward_per_block,
                        multiplier == 0,
                ;
            }
        }
        self.acc_reward_per_share = self.acc_reward_per_share + reward * 1_000_000_000_000
            / self.total_staked as u128;
        self.last_reward_block = current_block;
    }

    /// The reward `user` could collect at `current_block` (zero for an
    /// unknown user), truncated to `u64`.
    pub fn pending_reward(&self, user: &str, current_block: u64) -> (r: u64)
        requires
            self.pending_ok(user@, current_block),
        ensures
            r == self.pending_of(user@, current_block),
    {
        let key = user.to_owned();
        let user_info = match self.users.get(&key) {
            Some(u) => *u,
            None => {
                return 0;
            },
        };
        if user_info.amount == 0 {
            return user_info.pending_reward;
        }
        let end = if current_block < self.end_block {
            current_block
        } else {
            self.end_block
        };
        let multiplier = if end > self.last_reward_block {
            end - self.last_reward_block
        } else {
            0
        };
        proof {
            lemma_mul_u64(multiplier, self.reward_per_block);
        }
        let reward = multiplier as u128 * self.reward_per_block as u128;
        let acc_reward = if self.total_staked > 0 {
            self.acc_reward_per_share + reward * 1_000_000_000_000 / self.total_staked as u128
        } else {
            self.acc_reward_per_share
        };
        let pending = user_info.amount as u128 * acc_reward / 1_000_000_000_000
            - user_info.reward_debt;
        (user_info.pending_reward as u128 + pending) as u64
    }

    /// Stakes `amount` for `user` at `current_block`; rewards accrued on the
    /// earlier stake are set aside as pending.
    pub fn deposit(&mut self, user: &str, amount: u64, current_block: u64) -> (r: Result<(), String>)
        requires
            old(self).wf(),
            amount > 0 ==> old(self).deposit_ok(user@, amount, current_block),
        ensures
            final(self).wf(),
            final(self).same_terms(old(self)),
            amount == 0 ==> {
                &&& r matches Err(m) && m@ == "质押数量不能为0"@
                &&& final(self).users == old(self).users
                &&& final(self).total_staked == old(self).total_staked
                &&& final(self).acc_reward_per_share == old(self).acc_reward_per_share
                &&& final(self).last_reward_block == old(self).last_reward_block
            },
            amount > 0 ==> {
                let u = user_or_empty(old(self).users@, user@);
                let acc = old(self).acc_at(current_block);
                &&& r is Ok
                &&& final(self).acc_reward_per_share == acc
                &&& final(self).last_reward_block == old(self).last_after(current_block)
                &&& final(self).total_staked == old(self).total_staked + amount
                &&& final(self).users@ == old(self).users@.insert(user@, deposited(u, amount, acc))
            },
    {
        if amount == 0 {
            return Err("质押数量不能为0".to_owned());
        }
        let ghost acc1 = self.acc_at(current_block);
        self.update_pool(current_block);
        proof {
            lemma_acc_settled(self, current_block);
        }
        let key = user.to_owned();
        let mut info = match self.users.get(&key) {
            Some(x) => *x,
            None => UserInfo::default(),
        };
        let ghost u = info;
        if info.amount > 0 {
            let pending = self.pending_reward(user, current_block);
            info.pending_reward = info.pending_reward + pending;
        }
        info.amount = info.amount + amount;
        info.reward_debt = info.amount as u128 * self.acc_reward_per_share / 1_000_000_000_000;
        let _ = self.users.len();
        let ghost m0 = self.users;
        self.users.insert(key, info);
        proof {
            lemma_staked_insert(m0, self.users, key, info);
        }
        self.total_staked = self.total_staked + amount;
        Ok(())
    }

    /// Takes `amount` of `user`'s stake out and pays its rewards.
    pub fn withdraw(&mut self, user: &str, amount: u64, current_block: u64) -> (r: Result<u64, String>)
        requires
            old(self).wf(),
            old(self).users@.contains_key(user@) && amount <= old(self).users@[user@].amount
                ==> old(self).update_ok(current_block) && old(self).payout_ok(user@, current_block),
        ensures
            final(self).wf(),
            final(self).same_terms(old(self)),
            !(old(self).users@.contains_key(user@) && amount <= old(self).users@[user@].amount) ==> {
                &&& final(self).users == old(self).users
                &&& final(self).total_staked == old(self).total_staked
                &&& final(self).acc_reward_per_share == old(self).acc_reward_per_share
                &&& final(self).last_reward_block == old(self).last_reward_block
            },
            !old(self).users@.contains_key(user@) ==> (r matches Err(m) && m@ == "用户未质押"@),
            old(self).users@.contains_key(user@) && amount > old(self).users@[user@].amount ==> (
            r matches Err(m) && m@ == "提取数量超过质押数量"@),
            old(self).users@.contains_key(user@) && amount <= old(self).users@[user@].amount ==> {
                let u = old(self).users@[user@];
                let acc = old(self).acc_at(current_block);
                &&& r == Ok::<u64, String>(payout(u, acc) as u64)
                &&& final(self).acc_reward_per_share == acc
                &&& final(self).last_reward_block == old(self).last_after(current_block)
                &&& final(self).total_staked == old(self).total_staked - amount
                &&& final(self).users@ == old(self).users@.insert(
                    user@,
                    paid_out((u.amount - amount) as u64, acc),
                )
                &&& final(self).pending_of(user@, current_block) == 0
            },
    {
        let key = user.to_owned();
        let mut info = match self.users.get(&key) {
            Some(x) => *x,
            None => {
                return Err("用户未质押".to_owned());
            },
        };
        if info.amount < amount {
            return Err("提取数量超过质押数量".to_owned());
        }
        let ghost u = info;
        let ghost acc1 = self.acc_at(current_block);
        let _ = self.users.len();
        proof {
            lemma_staked_member(self.users, user@);
        }
        self.update_pool(current_block);
        proof {
            lemma_acc_settled(self, current_block);
        }
        let pending = self.pending_reward(user, current_block);
        let total_reward = info.pending_reward + pending;
        info.amount = info.amount - amount;
        assert(info.amount * self.acc_reward_per_share <= u128::MAX) by {
            if u.amount > 0 {
                assert(u.amount * acc1 <= u128::MAX);
                assert(info.amount * self.acc_reward_per_share <= u.amount * self.acc_reward_per_share)
                    by (nonlinear_arith)
                    requires
                        info.amount <= u.amount,
                ;
            } else {
                assert(info.amount * self.acc_reward_per_share == 0) by (nonlinear_arith)
                    requires
                        info.amount == 0,
                ;
            }
        }
        info.reward_debt = info.amount as u128 * self.acc_reward_per_share / 1_000_000_000_000;
        info.pending_reward = 0;
        let ghost m0 = self.users;
        self.users.insert(key, info);
        proof {
            lemma_staked_insert(m0, self.users, key, info);
        }
        self.total_staked = self.total_staked - amount;
        proof {
            lemma_acc_settled(self, current_block);
        }
        Ok(total_reward)
    }

    /// Pays `user` its rewards without touching its stake.
    pub fn harvest(&mut self, user: &str, current_block: u64) -> (r: Result<u64, String>)
        requires
            old(self).wf(),
            old(self).update_ok(current_block),
            old(self).users@.contains_key(user@) ==> old(self).payout_ok(user@, current_block),
        ensures
            final(self).wf(),
            final(self).same_terms(old(self)),
            final(self).acc_reward_per_share == old(self).acc_at(current_block),
            final(self).last_reward_block == old(self).last_after(current_block),
            final(self).total_staked == old(self).total_staked,
            !old(self).users@.contains_key(user@) ==> (r matches Err(m) && m@ == "用户未质押"@)
                && final(self).users == old(self).users,
            old(self).users@.contains_key(user@) ==> {
                let u = old(self).users@[user@];
                let acc = old(self).acc_at(current_block);
                &&& payout(u, acc) == 0 ==> (r matches Err(m) && m@ == "没有可领取的奖励"@)
                    && final(self).users == old(self).users
                &&& payout(u, acc) > 0 ==> r == Ok::<u64, String>(payout(u, acc) as u64)
                    && final(self).users@ == old(self).users@.insert(user@, paid_out(u.amount, acc))
                    && final(self).pending_of(user@, current_block) == 0
            },
    {
        self.update_pool(current_block);
        proof {
            lemma_acc_settled(self, current_block);
        }
        let key = user.to_owned();
        let mut info = match self.users.get(&key) {
            Some(x) => *x,
            None => {
                return Err("用户未质押".to_owned());
            },
        };
        let pending = self.pending_reward(user, current_block);
        let total_reward = info.pending_reward + pending;
        if total_reward == 0 {
            return Err("没有可领取的奖励".to_owned());
        }
        info.reward_debt = info.amount as u128 * self.acc_reward_per_share / 1_000_000_000_000;
        info.pending_reward = 0;
        let _ = self.users.len();
        let ghost m0 = self.users;
        self.users.insert(key, info);
        proof {
            lemma_staked_insert(m0, self.users, key, info);
        }
        Ok(total_reward)
    }

    pub fn user_info(&self, user: &str) -> (r: Option<&UserInfo>)
        ensures
            match r {
                Some(u) => self.users@.contains_key(user@) && *u == self.users@[user@],
                None => !self.users@.contains_key(user@),
            },
    {
        let key = user.to_owned();
        self.users.get(&key)
    }
}

impl StakingFactory {
    pub fn new() -> (r: Self)
        ensures
            r.pools@.len() == 0,
    {
        StakingFactory { pools: Vec::new() }
    }

    /// Adds a pool running `duration_blocks` blocks from `start_block` and
    /// returns its index.
    pub fn create_pool(
        &mut self,
        staking_token: String,
        reward_token: String,
        reward_per_block: u64,
        start_block: u64,
        duration_blocks: u64,
    ) -> (r: usize)
        requires
            start_block + duration_blocks <= u64::MAX,
        ensures
            r == old(self).pools@.len(),
            final(self).pools@.len() == old(self).pools@.len() + 1,
            final(self).pools@.take(r as int) == old(self).pools@,
            final(self).pools@[r as int].wf(),
            final(self).pools@[r as int].staking_token@ == staking_token@,
            final(self).pools@[r as int].reward_token@ == reward_token@,
            final(self).pools@[r as int].reward_per_block == reward_per_block,
            final(self).pools@[r as int].start_block == start_block,
            final(self).pools@[r as int].end_block == start_block + duration_blocks,
            final(self).pools@[r as int].total_staked == 0,
            final(self).pools@[r as int].acc_reward_per_share == 0,
            final(self).pools@[r as int].last_reward_block == start_block,
            final(self).pools@[r as int].users@ == Map::<Seq<char>, UserInfo>::empty(),
    {
        let pool = StakingPool::new(
            staking_token,
            reward_token,
            reward_per_block,
            start_block,
            start_block + duration_blocks,
        );
        self.pools.push(pool);
        assert(self.pools@.take(old(self).pools@.len() as int) == old(self).pools@);
        self.pools.len() - 1
    }
}

} // verus!

verus! {

/// Rewards stop at `end_block`: from then on the accumulator and every
/// user's pending reward stay what they are at `end_block`, and the reward
/// released since the last update never exceeds `reward_per_block` for each
/// block up to `end_block`.
pub proof fn lemma_no_reward_after_end(pool: &StakingPool, user: Seq<char>, cb: u64)
    ensures
        cb >= pool.end_block ==> pool.acc_at(cb) == pool.acc_at(pool.end_block),
        cb >= pool.end_block ==> pool.pending_of(user, cb) == pool.pending_of(user, pool.end_block),
        pool.window_reward(cb) <= (if pool.end_block > pool.last_reward_block {
            (pool.end_block - pool.last_reward_block) * pool.reward_per_block
        } else {
            0
        }),
        pool.last_reward_block >= pool.end_block ==> pool.window_reward(cb) == 0,
{
    if pool.end_block > pool.last_reward_block && pool.capped(cb) > pool.last_reward_block {
        assert((pool.capped(cb) - pool.last_reward_block) * pool.reward_per_block <= (pool.end_block
            - pool.last_reward_block) * pool.reward_per_block) by (nonlinear_arith)
            requires
                pool.capped(cb) <= pool.end_block,
                pool.capped(cb) > pool.last_reward_block,
        ;
    }
}

/// Within the reward window the pool releases exactly `reward_per_block`
/// per block since its last update, nothing for blocks up to that update,
/// and the accumulator never goes down as the block number grows.
pub proof fn lemma_reward_accrual(pool: &StakingPool, cb1: u64, cb2: u64)
    ensures
        pool.last_reward_block <= cb1 <= pool.end_block ==> pool.window_reward(cb1) == (cb1
            - pool.last_reward_block) * pool.reward_per_block,
        cb1 <= pool.last_reward_block ==> pool.window_reward(cb1) == 0 && pool.acc_at(cb1)
            == pool.acc_reward_per_share,
        cb1 <= cb2 ==> pool.window_reward(cb1) <= pool.window_reward(cb2) && pool.acc_at(cb1)
            <= pool.acc_at(cb2),
{
    if pool.last_reward_block == cb1 {
        assert((cb1 - pool.last_reward_block) * pool.reward_per_block == 0);
    }
    if cb1 <= cb2 {
        let w1 = pool.window_reward(cb1);
        let w2 = pool.window_reward(cb2);
        if pool.capped(cb1) > pool.last_reward_block {
            assert((pool.capped(cb1) - pool.last_reward_block) * pool.reward_per_block <= (pool.capped(
                cb2,
            ) - pool.last_reward_block) * pool.reward_per_block) by (nonlinear_arith)
                requires
                    pool.capped(cb1) <= pool.capped(cb2),
                    pool.capped(cb1) > pool.last_reward_block,
            ;
        }
        assert(w1 <= w2);
        if pool.total_staked > 0 {
            let t = pool.total_staked as int;
            let pr = PRECISION as int;
            assert(w1 * pr / t <= w2 * pr / t) by (nonlinear_arith)
                requires
                    0 <= w1 <= w2,
                    pr > 0,
                    t > 0,
            ;
        }
    }
}

} // verus!
