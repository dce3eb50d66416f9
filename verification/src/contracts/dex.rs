//! Decentralised exchange: liquidity pools addressed by a hash of their token
//! pair, liquidity tokens, and constant-product swaps with a 0.3% fee.
use vstd::prelude::*;
use vstd::string::StringSliceAdditionalSpecFns;
use crate::keymap::{KeyMap, get_or_zero};
use crate::num::{isqrt_u128, is_isqrt, lemma_mul_u64};
use crate::text::{str_lt, seq_lt, str_eq, push_str, prefix, after_last, last_segment, hex_encode, hex_lower, lemma_hex_lower_len};
use crate::crypto::{sha256, sha256_spec};
use crate::contracts::swap::{lemma_share, lemma_product_out, product_out};

verus! {

/// A liquidity pool of two tokens.
pub struct LiquidityPool {
    pub pair: String,
    pub token_a: String,
    pub token_b: String,
    pub reserve_a: u64,
    pub reserve_b: u64,
    pub total_supply: u64,
    pub lp_balances: KeyMap<String, u64>,
    pub fee_rate: u64,
}

/// The exchange: pools by pair hash, the factory allowed to create pools and
/// the fee recipient.
pub struct DEXContract {
    pub pools: KeyMap<String, LiquidityPool>,
    pub factory: String,
    pub fee_to: String,
}

/// Liquidity added.
pub struct AddLiquidityEvent {
    pub provider: String,
    pub pair: String,
    pub amount_a: u64,
    pub amount_b: u64,
    pub lp_tokens: u64,
}

/// Liquidity removed.
pub struct RemoveLiquidityEvent {
    pub provider: String,
    pub pair: String,
    pub amount_a: u64,
    pub amount_b: u64,
    pub lp_tokens: u64,
}

/// A swap.
pub struct SwapEvent {
    pub sender: String,
    pub pair: String,
    pub amount_in: u64,
    pub amount_out: u64,
    pub direction: SwapDirection,
}

/// Which token is sold.
#[derive(Debug, Clone, Copy, PartialEq, Eq, Structural)]
pub enum SwapDirection {
    AtoB,
    BtoA,
}

/// Why an exchange operation was refused.
#[derive(Debug, Clone, Copy, PartialEq, Eq, Structural)]
pub enum DEXError {
    NotFactory,
    IdenticalTokens,
    PoolExists,
    PoolNotFound,
    InsufficientLiquidity,
    InsufficientLPBalance,
    InsufficientOutputAmount,
    InvalidAmount,
}

/// The address of a pool: the first 40 hexadecimal characters of the SHA-256
/// of its two token names, smaller first.
pub open spec fn pair_hash(a: Seq<char>, b: Seq<char>) -> Seq<char> {
    let (lo, hi) = if seq_lt(a, b) {
        (a, b)
    } else {
        (b, a)
    };
    hex_lower(sha256_spec(vstd::utf8::encode_utf8(lo + hi))).take(40)
}

/// The display name of a pair: the last `:`-separated segment of each token.
pub open spec fn pair_name(a: Seq<char>, b: Seq<char>) -> Seq<char> {
    last_segment(a, ':') + seq!['/'] + last_segment(b, ':')
}

/// LP tokens granted for a deposit into a pool.
pub open spec fn lp_for(total: u64, ra: u64, rb: u64, amount_a: u64, amount_b: u64) -> int {
    if total == 0 {
        (choose|r: nat| #[trigger] is_isqrt((amount_a * amount_b) as nat, r)) as int
    } else {
        let sa = ((amount_a * total) / ra as int) as u64;
        let sb = ((amount_b * total) / rb as int) as u64;
        if sa <= sb {
            sa as int
        } else {
            sb as int
        }
    }
}

/// Input after the 0.3% fee (in ten-thousandths).
pub open spec fn in_after_fee(amount_in: u64, fee_rate: u64) -> int {
    (amount_in * (10000 - fee_rate)) / 10000
}

proof fn lemma_isqrt_choose(n: nat, r: nat)
    requires
        is_isqrt(n, r),
    ensures
        (choose|s: nat| #[trigger] is_isqrt(n, s)) == r,
{
    let s = choose|s: nat| #[trigger] is_isqrt(n, s);
    assert(is_isqrt(n, s));
    if s < r {
        assert((s + 1) * (s + 1) <= r * r) by (nonlinear_arith)
            requires
                s + 1 <= r,
        ;
    } else if s > r {
        assert((r + 1) * (r + 1) <= s * s) by (nonlinear_arith)
            requires
                r + 1 <= s,
        ;
    }
}

impl LiquidityPool {
    /// LP balances add up to the supply, the fee is at most 100%, and an
    /// issued supply is backed by both reserves.
    pub open spec fn wf(&self) -> bool {
        &&& self.lp_balances.total() == self.total_supply as int
        &&& self.fee_rate <= 10000
        &&& self.total_supply > 0 ==> self.reserve_a > 0 && self.reserve_b > 0
    }

    /// Output for selling `amount_in` in `direction`.
    pub open spec fn output_for(&self, amount_in: u64, direction: SwapDirection) -> int {
        let (rin, rout) = match direction {
            SwapDirection::AtoB => (self.reserve_a, self.reserve_b),
            SwapDirection::BtoA => (self.reserve_b, self.reserve_a),
        };
        product_out(rin as int, rout as int, in_after_fee(amount_in, self.fee_rate))
    }
}

impl DEXContract {
    /// Every pool is well formed.
    pub open spec fn wf(&self) -> bool {
        forall|k: Seq<char>| #[trigger] self.pools@.contains_key(k) ==> self.pools@[k].wf()
    }

    pub open spec fn pool(&self, h: Seq<char>) -> LiquidityPool {
        self.pools@[h]
    }

    pub fn new(factory: String, fee_to: String) -> (r: Self)
        ensures
            r.wf(),
            r.pools@ == Map::<Seq<char>, LiquidityPool>::empty(),
            r.factory@ == factory@,
            r.fee_to@ == fee_to@,
    {
        DEXContract { pools: KeyMap::new(), factory, fee_to }
    }

    fn get_pair_hash(token_a: &str, token_b: &str) -> (r: String)
        ensures
            r@ == pair_hash(token_a@, token_b@),
    {
        let mut data = String::new();
        if str_lt(token_a, token_b) {
            push_str(&mut data, token_a);
            push_str(&mut data, token_b);
        } else {
            push_str(&mut data, token_b);
            push_str(&mut data, token_a);
        }
        let digest = sha256(data.as_str().as_bytes());
        let hex = hex_encode(digest.as_slice());
        prefix(hex.as_str(), 40)
    }

    /// Creates the pool of `token_a` and `token_b`; only the factory may, the
    /// tokens must differ and the pool must not exist yet. Returns its address.
    pub fn create_pool(&mut self, token_a: String, token_b: String, caller: &str) -> (r: Result<
        String,
        DEXError,
    >)
        requires
            old(self).wf(),
        ensures
            final(self).wf(),
            final(self).factory@ == old(self).factory@,
            final(self).fee_to@ == old(self).fee_to@,
            r == Err::<String, DEXError>(DEXError::NotFactory) <==> caller@ != old(self).factory@,
            r == Err::<String, DEXError>(DEXError::IdenticalTokens) <==> caller@ == old(
                self,
            ).factory@ && token_a@ == token_b@,
            r == Err::<String, DEXError>(DEXError::PoolExists) <==> caller@ == old(self).factory@
                && token_a@ != token_b@ && old(self).pools@.contains_key(
                pair_hash(token_a@, token_b@),
            ),
            r is Ok <==> (caller@ == old(self).factory@ && token_a@ != token_b@ && !old(self).pools@.contains_key(
                pair_hash(token_a@, token_b@),
            )),
            r is Err ==> final(self).pools@ == old(self).pools@,
            r matches Ok(h) ==> {
                &&& h@ == pair_hash(token_a@, token_b@)
                &&& final(self).pools@.dom() == old(self).pools@.dom().insert(h@)
                &&& forall|k: Seq<char>| k != h@ ==> #[trigger] final(self).pools@.contains_key(k)
                    ==> final(self).pools@[k] == old(self).pools@[k]
                &&& final(self).pools@[h@].pair@ == pair_name(token_a@, token_b@)
                &&& final(self).pools@[h@].token_a@ == token_a@
                &&& final(self).pools@[h@].token_b@ == token_b@
                &&& final(self).pools@[h@].reserve_a == 0
                &&& final(self).pools@[h@].reserve_b == 0
                &&& final(self).pools@[h@].total_supply == 0
                &&& final(self).pools@[h@].fee_rate == 30
            },
    {
        if !str_eq(caller, self.factory.as_str()) {
            return Err(DEXError::NotFactory);
        }
        if token_a == token_b {
            return Err(DEXError::IdenticalTokens);
        }
        let pair_hash = Self::get_pair_hash(token_a.as_str(), token_b.as_str());
        if self.pools.contains_key(&pair_hash) {
            return Err(DEXError::PoolExists);
        }
        let mut name = after_last(token_a.as_str(), ':');
        proof {
            reveal_strlit("/");
        }
        push_str(&mut name, "/");
        let seg_b = after_last(token_b.as_str(), ':');
        push_str(&mut name, seg_b.as_str());
        let pool = LiquidityPool {
            pair: name,
            token_a,
            token_b,
            reserve_a: 0,
            reserve_b: 0,
            total_supply: 0,
            lp_balances: KeyMap::new(),
            fee_rate: 30,
        };
        let ghost old_pools = self.pools@;
        self.pools.insert(pair_hash.clone(), pool);
        assert(self.pools@.dom() =~= old_pools.dom().insert(pair_hash@));
        Ok(pair_hash)
    }

    /// Deposits into the pool `pair_hash` and credits LP tokens to `provider`.
    pub fn add_liquidity(&mut self, pair_hash: &str, amount_a: u64, amount_b: u64, provider: &str) -> (r:
        Result<u64, DEXError>)
        requires
            old(self).wf(),
            old(self).pools@.contains_key(pair_hash@) ==> ({
                let p = old(self).pools@[pair_hash@];
                let l = lp_for(p.total_supply, p.reserve_a, p.reserve_b, amount_a, amount_b);
                l > 0 ==> p.reserve_a + amount_a <= u64::MAX && p.reserve_b + amount_b <= u64::MAX
                    && p.total_supply + l <= u64::MAX
            }),
        ensures
            final(self).wf(),
            final(self).factory@ == old(self).factory@,
            final(self).pools@.dom() == old(self).pools@.dom(),
            forall|k: Seq<char>| k != pair_hash@ ==> #[trigger] final(self).pools@.contains_key(k)
                ==> final(self).pools@[k] == old(self).pools@[k],
            !old(self).pools@.contains_key(pair_hash@) ==> r == Err::<u64, DEXError>(
                DEXError::PoolNotFound,
            ),
            old(self).pools@.contains_key(pair_hash@) ==> ({
                let p = old(self).pools@[pair_hash@];
                let q = final(self).pools@[pair_hash@];
                let l = lp_for(p.total_supply, p.reserve_a, p.reserve_b, amount_a, amount_b);
                &&& l == 0 ==> r == Err::<u64, DEXError>(DEXError::InsufficientLiquidity)
                    && final(self).pools@ == old(self).pools@
                &&& l > 0 ==> r == Ok::<u64, DEXError>(l as u64) && q.reserve_a == p.reserve_a
                    + amount_a && q.reserve_b == p.reserve_b + amount_b && q.total_supply
                    == p.total_supply + l && q.lp_balances@ == p.lp_balances@.insert(
                    provider@,
                    (get_or_zero(p.lp_balances@, provider@) + l) as u64,
                ) && q.pair@ == p.pair@ && q.token_a@ == p.token_a@ && q.token_b@ == p.token_b@
                    && q.fee_rate == p.fee_rate
            }),
    {
        let key = pair_hash.to_owned();
        let idx = match self.pools.find(&key) {
            Some(i) => i,
            None => {
                return Err(DEXError::PoolNotFound);
            },
        };
        let pool = &self.pools.entry_at(idx).1;
        let total = pool.total_supply;
        proof {
            lemma_mul_u64(amount_a, amount_b);
            lemma_mul_u64(amount_a, total);
            lemma_mul_u64(amount_b, total);
        }
        let lp_tokens: u64 = if total == 0 {
            let s = isqrt_u128(amount_a as u128 * amount_b as u128);
            proof {
                lemma_isqrt_choose((amount_a * amount_b) as nat, s as nat);
            }
            s as u64
        } else {
            let share_a = (amount_a as u128 * total as u128 / pool.reserve_a as u128) as u64;
            let share_b = (amount_b as u128 * total as u128 / pool.reserve_b as u128) as u64;
            if share_a <= share_b {
                share_a
            } else {
                share_b
            }
        };
        if lp_tokens == 0 {
            return Err(DEXError::InsufficientLiquidity);
        }
        proof {
            if total == 0 {
                assert(amount_a > 0 && amount_b > 0) by (nonlinear_arith)
                    requires
                        (lp_tokens as nat) * (lp_tokens as nat) <= (amount_a * amount_b) as nat,
                        lp_tokens > 0,
                ;
            }
        }
        let ghost old_pools = self.pools@;
        let (k, mut pool) = self.pools.remove_at(idx);
        pool.reserve_a = pool.reserve_a + amount_a;
        pool.reserve_b = pool.reserve_b + amount_b;
        pool.total_supply = pool.total_supply + lp_tokens;
        let balance = pool.lp_balances.amount(provider);
        pool.lp_balances.set_amount(provider, balance + lp_tokens);
        self.pools.insert(k, pool);
        assert(self.pools@.dom() =~= old_pools.dom());
        Ok(lp_tokens)
    }

    /// Redeems `lp_tokens` of `provider` for the proportional share of both reserves.
    pub fn remove_liquidity(&mut self, pair_hash: &str, lp_tokens: u64, provider: &str) -> (r:
        Result<(u64, u64), DEXError>)
        requires
            old(self).wf(),
            old(self).pools@.contains_key(pair_hash@) ==> old(self).pools@[pair_hash@].total_supply
                > 0 || lp_tokens > 0,
        ensures
            final(self).wf(),
            final(self).factory@ == old(self).factory@,
            final(self).pools@.dom() == old(self).pools@.dom(),
            forall|k: Seq<char>| k != pair_hash@ ==> #[trigger] final(self).pools@.contains_key(k)
                ==> final(self).pools@[k] == old(self).pools@[k],
            !old(self).pools@.contains_key(pair_hash@) ==> r == Err::<(u64, u64), DEXError>(
                DEXError::PoolNotFound,
            ),
            old(self).pools@.contains_key(pair_hash@) ==> ({
                let p = old(self).pools@[pair_hash@];
                let q = final(self).pools@[pair_hash@];
                let bal = get_or_zero(p.lp_balances@, provider@);
                &&& bal < lp_tokens ==> r == Err::<(u64, u64), DEXError>(
                    DEXError::InsufficientLPBalance,
                ) && final(self).pools@ == old(self).pools@
                &&& bal >= lp_tokens ==> (r matches Ok((a, b)) && a == (lp_tokens * p.reserve_a)
                    / (p.total_supply as int) && b == (lp_tokens * p.reserve_b) / (
                p.total_supply as int) && q.reserve_a == p.reserve_a - a && q.reserve_b
                    == p.reserve_b - b && q.total_supply == p.total_supply - lp_tokens
                    && q.lp_balances@ == p.lp_balances@.insert(provider@, (bal - lp_tokens) as u64))
            }),
    {
        let key = pair_hash.to_owned();
        let idx = match self.pools.find(&key) {
            Some(i) => i,
            None => {
                return Err(DEXError::PoolNotFound);
            },
        };
        let pool = &self.pools.entry_at(idx).1;
        let balance = pool.lp_balances.amount(provider);
        if balance < lp_tokens {
            return Err(DEXError::InsufficientLPBalance);
        }
        let total = pool.total_supply;
        proof {
            lemma_share(lp_tokens as int, pool.reserve_a as int, total as int);
            lemma_share(lp_tokens as int, pool.reserve_b as int, total as int);
            lemma_mul_u64(lp_tokens, pool.reserve_a);
            lemma_mul_u64(lp_tokens, pool.reserve_b);
        }
        let amount_a = (lp_tokens as u128 * pool.reserve_a as u128 / total as u128) as u64;
        let amount_b = (lp_tokens as u128 * pool.reserve_b as u128 / total as u128) as u64;
        let ghost old_pools = self.pools@;
        let (k, mut pool) = self.pools.remove_at(idx);
        pool.reserve_a = pool.reserve_a - amount_a;
        pool.reserve_b = pool.reserve_b - amount_b;
        pool.total_supply = pool.total_supply - lp_tokens;
        pool.lp_balances.set_amount(provider, balance - lp_tokens);
        self.pools.insert(k, pool);
        assert(self.pools@.dom() =~= old_pools.dom());
        Ok((amount_a, amount_b))
    }

    /// Output of selling `amount_in` in `direction` (`dy = y * dx / (x + dx)`
    /// after the fee); refused for an unknown or empty pool.
    pub fn calculate_swap_output(&self, pair_hash: &str, amount_in: u64, direction: SwapDirection) -> (r:
        Result<u64, DEXError>)
        requires
            self.wf(),
        ensures
            !self.pools@.contains_key(pair_hash@) ==> r == Err::<u64, DEXError>(
                DEXError::PoolNotFound,
            ),
            self.pools@.contains_key(pair_hash@) ==> ({
                let p = self.pools@[pair_hash@];
                &&& (p.reserve_a == 0 || p.reserve_b == 0) ==> r == Err::<u64, DEXError>(
                    DEXError::InsufficientLiquidity,
                )
                &&& (p.reserve_a > 0 && p.reserve_b > 0) ==> r == Ok::<u64, DEXError>(
                    p.output_for(amount_in, direction) as u64,
                ) && p.output_for(amount_in, direction) < match direction {
                    SwapDirection::AtoB => p.reserve_b,
                    SwapDirection::BtoA => p.reserve_a,
                }
                // never more than the input after the fee at the pool's price
                &&& (p.reserve_a > 0 && p.reserve_b > 0) ==> p.output_for(amount_in, direction) <= in_after_fee(
                    amount_in,
                    p.fee_rate,
                ) * (match direction {
                    SwapDirection::AtoB => p.reserve_b as int,
                    SwapDirection::BtoA => p.reserve_a as int,
                }) / (match direction {
                    SwapDirection::AtoB => p.reserve_a as int,
                    SwapDirection::BtoA => p.reserve_b as int,
                })
            }),
    {
        let key = pair_hash.to_owned();
        let pool = match self.pools.get(&key) {
            Some(p) => p,
            None => {
                return Err(DEXError::PoolNotFound);
            },
        };
        if pool.reserve_a == 0 || pool.reserve_b == 0 {
            return Err(DEXError::InsufficientLiquidity);
        }
        proof {
            assert(self.pools@.contains_key(pair_hash@));
            lemma_swap_output_laws(*pool, amount_in, amount_in, direction);
        }
        let (reserve_in, reserve_out) = match direction {
            SwapDirection::AtoB => (pool.reserve_a, pool.reserve_b),
            SwapDirection::BtoA => (pool.reserve_b, pool.reserve_a),
        };
        proof {
            lemma_mul_u64(amount_in, (10000 - pool.fee_rate) as u64);
        }
        let amount_in_with_fee = amount_in as u128 * (10000 - pool.fee_rate) as u128 / 10000;
        proof {
            assert(amount_in_with_fee <= amount_in) by (nonlinear_arith)
                requires
                    amount_in_with_fee == (amount_in * (10000 - pool.fee_rate)) / 10000,
                    pool.fee_rate <= 10000,
            ;
            lemma_mul_u64(amount_in, reserve_out);
            assert(amount_in_with_fee * reserve_out <= amount_in * reserve_out) by (nonlinear_arith)
                requires
                    amount_in_with_fee <= amount_in,
            ;
            lemma_product_out(
                reserve_in as int,
                reserve_out as int,
                amount_in_with_fee as int,
                amount_in_with_fee as int,
            );
        }
        let numerator = amount_in_with_fee * reserve_out as u128;
        proof {
            assert(amount_in_with_fee * reserve_out == reserve_out * amount_in_with_fee) by (nonlinear_arith);
        }
        let denominator = reserve_in as u128 + amount_in_with_fee;
        let amount_out = (numerator / denominator) as u64;
        Ok(amount_out)
    }

    /// Sells `amount_in` in `direction`; refused when the output falls short of
    /// `min_amount_out`, and then nothing changes.
    pub fn swap(
        &mut self,
        pair_hash: &str,
        amount_in: u64,
        min_amount_out: u64,
        direction: SwapDirection,
        sender: &str,
    ) -> (r: Result<u64, DEXError>)
        requires
            old(self).wf(),
            old(self).pools@.contains_key(pair_hash@) ==> ({
                let p = old(self).pools@[pair_hash@];
                match direction {
                    SwapDirection::AtoB => p.reserve_a + amount_in <= u64::MAX,
                    SwapDirection::BtoA => p.reserve_b + amount_in <= u64::MAX,
                }
            }),
        ensures
            final(self).wf(),
            final(self).factory@ == old(self).factory@,
            final(self).pools@.dom() == old(self).pools@.dom(),
            forall|k: Seq<char>| k != pair_hash@ ==> #[trigger] final(self).pools@.contains_key(k)
                ==> final(self).pools@[k] == old(self).pools@[k],
            r is Err ==> final(self).pools@ == old(self).pools@,
            !old(self).pools@.contains_key(pair_hash@) ==> r == Err::<u64, DEXError>(
                DEXError::PoolNotFound,
            ),
            old(self).pools@.contains_key(pair_hash@) ==> ({
                let p = old(self).pools@[pair_hash@];
                let q = final(self).pools@[pair_hash@];
                let out = p.output_for(amount_in, direction);
                &&& (p.reserve_a == 0 || p.reserve_b == 0) ==> r == Err::<u64, DEXError>(
                    DEXError::InsufficientLiquidity,
                )
                &&& (p.reserve_a > 0 && p.reserve_b > 0 && out < min_amount_out) ==> r == Err::<
                    u64,
                    DEXError,
                >(DEXError::InsufficientOutputAmount)
                &&& (p.reserve_a > 0 && p.reserve_b > 0 && out >= min_amount_out) ==> r == Ok::<
                    u64,
                    DEXError,
                >(out as u64) && q.total_supply == p.total_supply && q.lp_balances@
                    == p.lp_balances@ && match direction {
                    SwapDirection::AtoB => q.reserve_a == p.reserve_a + amount_in && q.reserve_b
                        == p.reserve_b - out,
                    SwapDirection::BtoA => q.reserve_b == p.reserve_b + amount_in && q.reserve_a
                        == p.reserve_a - out,
                }
            }),
    {
        let amount_out = match self.calculate_swap_output(pair_hash, amount_in, direction) {
            Ok(v) => v,
            Err(e) => {
                return Err(e);
            },
        };
        if amount_out < min_amount_out {
            return Err(DEXError::InsufficientOutputAmount);
        }
        let key = pair_hash.to_owned();
        let idx = match self.pools.find(&key) {
            Some(i) => i,
            None => {
                return Err(DEXError::PoolNotFound);
            },
        };
        let ghost old_pools = self.pools@;
        let (k, mut pool) = self.pools.remove_at(idx);
        match direction {
            SwapDirection::AtoB => {
                pool.reserve_a = pool.reserve_a + amount_in;
                pool.reserve_b = pool.reserve_b - amount_out;
            },
            SwapDirection::BtoA => {
                pool.reserve_b = pool.reserve_b + amount_in;
                pool.reserve_a = pool.reserve_a - amount_out;
            },
        }
        self.pools.insert(k, pool);
        assert(self.pools@.dom() =~= old_pools.dom());
        Ok(amount_out)
    }

    /// `(reserve_a, reserve_b, total_supply)` of a pool.
    pub fn get_pool_info(&self, pair_hash: &str) -> (r: Option<(u64, u64, u64)>)
        ensures
            r == (if self.pools@.contains_key(pair_hash@) {
                let p = self.pools@[pair_hash@];
                Some((p.reserve_a, p.reserve_b, p.total_supply))
            } else {
                None
            }),
    {
        let key = pair_hash.to_owned();
        match self.pools.get(&key) {
            Some(p) => Some((p.reserve_a, p.reserve_b, p.total_supply)),
            None => None,
        }
    }

    /// LP tokens of `provider` in a pool (zero for an unknown pool).
    pub fn get_lp_balance(&self, pair_hash: &str, provider: &str) -> (r: u64)
        ensures
            r == (if self.pools@.contains_key(pair_hash@) {
                get_or_zero(self.pools@[pair_hash@].lp_balances@, provider@)
            } else {
                0
            }),
    {
        let key = pair_hash.to_owned();
        match self.pools.get(&key) {
            Some(p) => p.lp_balances.amount(provider),
            None => 0,
        }
    }
}

} // verus!

verus! {

/// `r_out * x / (r_in + x)` grows with `x` and stays below `r_out * x / r_in`.
proof fn lemma_out_step(r_in: int, r_out: int, x: int, y: int)
    requires
        r_in > 0,
        r_out >= 0,
        0 <= x <= y,
    ensures
        (r_out * x) / (r_in + x) <= (r_out * y) / (r_in + y),
        (r_out * x) / (r_in + x) <= (r_out * x) / r_in,
{
    let q = (r_out * x) / (r_in + x);
    assert(q * (r_in + x) <= r_out * x) by (nonlinear_arith)
        requires
            q == (r_out * x) / (r_in + x),
            r_in + x > 0,
    ;
    assert(q >= 0) by (nonlinear_arith)
        requires
            q == (r_out * x) / (r_in + x),
            r_in + x > 0,
            r_out * x >= 0,
    ;
    assert(r_out * x >= 0) by (nonlinear_arith)
        requires
            r_out >= 0,
            x >= 0,
    ;
    assert(q <= r_out) by (nonlinear_arith)
        requires
            q * (r_in + x) <= r_out * x,
            r_in > 0,
            x >= 0,
            r_out >= 0,
            q >= 0,
    ;
    assert(q * (r_in + y) <= r_out * y) by (nonlinear_arith)
        requires
            q * (r_in + x) <= r_out * x,
            q <= r_out,
            q >= 0,
            x <= y,
    ;
    assert(q <= (r_out * y) / (r_in + y)) by (nonlinear_arith)
        requires
            q * (r_in + y) <= r_out * y,
            r_in + y > 0,
    ;
    assert(q * r_in <= r_out * x) by (nonlinear_arith)
        requires
            q * (r_in + x) <= r_out * x,
            q >= 0,
            x >= 0,
    ;
    assert(q <= (r_out * x) / r_in) by (nonlinear_arith)
        requires
            q * r_in <= r_out * x,
            r_in > 0,
    ;
}

/// Swap output grows with the amount sold, and never exceeds the pool's
/// spot rate applied to the (fee-reduced) input: for a pool with both
/// reserves positive, selling more never yields less, and
/// `out <= f * r_out / r_in` with `f` the input after the fee.
pub proof fn lemma_swap_output_laws(p: LiquidityPool, x: u64, y: u64, direction: SwapDirection)
    requires
        p.wf(),
        p.reserve_a > 0,
        p.reserve_b > 0,
        x <= y,
    ensures
        p.output_for(x, direction) <= p.output_for(y, direction),
        p.output_for(x, direction) <= in_after_fee(x, p.fee_rate) * (match direction {
            SwapDirection::AtoB => p.reserve_b as int,
            SwapDirection::BtoA => p.reserve_a as int,
        }) / (match direction {
            SwapDirection::AtoB => p.reserve_a as int,
            SwapDirection::BtoA => p.reserve_b as int,
        }),
{
    let fx = in_after_fee(x, p.fee_rate);
    let fy = in_after_fee(y, p.fee_rate);
    let k = 10000 - p.fee_rate;
    assert(x * k <= y * k) by (nonlinear_arith)
        requires
            x <= y,
            k >= 0,
    ;
    assert(fx <= fy) by (nonlinear_arith)
        requires
            fx == (x * k) / 10000,
            fy == (y * k) / 10000,
            x * k <= y * k,
    ;
    assert(fx >= 0) by (nonlinear_arith)
        requires
            fx == (x * k) / 10000,
            x >= 0,
            k >= 0,
    ;
    let (rin, rout) = match direction {
        SwapDirection::AtoB => (p.reserve_a as int, p.reserve_b as int),
        SwapDirection::BtoA => (p.reserve_b as int, p.reserve_a as int),
    };
    lemma_out_step(rin, rout, fx, fy);
    lemma_out_step(rin, rout, fx, fx);
    assert(rout * fx == fx * rout) by (nonlinear_arith);
}

} // verus!
