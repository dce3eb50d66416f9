//! Automated market maker: constant-product (x * y = k) pools keyed by an
//! address derived from the token pair, liquidity shares per provider,
//! price accumulators for an oracle and a trade log.
use vstd::prelude::*;
use vstd::string::StringSliceAdditionalSpecFns;
use crate::keymap::KeyMap;
use crate::num::is_isqrt;
use crate::text::{str_lt, seq_lt, str_eq, push_str, prefix, hex_encode, hex_lower, lemma_hex_lower_len};
use crate::crypto::{sha256, sha256_spec};
use crate::bytes::concat;
use crate::contracts::swap::{lemma_share, lemma_product_out, product_out};

verus! {

/// A liquidity pool.
pub struct Pool {
    pub address: String,
    pub token_a: String,
    pub token_b: String,
    pub reserve_a: u128,
    pub reserve_b: u128,
    pub total_supply: u128,
    /// Liquidity shares by provider.
    pub liquidity: KeyMap<String, u128>,
    /// Price accumulators (reserve ratio times elapsed seconds), wrapping.
    pub price_cumulative_a: u128,
    pub price_cumulative_b: u128,
    pub last_update: u64,
    /// Swap fee in ten-thousandths (30 = 0.3%).
    pub fee_rate: u16,
    /// Protocol fee in ten-thousandths (5 = 0.05%).
    pub protocol_fee: u16,
    pub fee_to: String,
}

/// What is known of a pair: its reserves, supply, traded volume and value locked.
/// The price is the ratio `reserve_a / reserve_b` (see `AMMEngine::get_price`).
pub struct PairInfo {
    pub address: String,
    pub token_a: String,
    pub token_b: String,
    pub reserve_a: u128,
    pub reserve_b: u128,
    pub total_supply: u128,
    pub volume_24h: u128,
    pub tvl: u128,
}

/// A swap order.
pub struct SwapRequest {
    pub pair: String,
    pub token_in: String,
    pub token_out: String,
    pub amount_in: u128,
    /// Slippage guard: the least output accepted.
    pub min_amount_out: u128,
    pub recipient: String,
    /// Latest accepted time, in seconds since the Unix epoch.
    pub deadline: u64,
}

/// A liquidity order.
pub struct LiquidityRequest {
    pub pair: String,
    pub amount_a: u128,
    pub amount_b: u128,
    pub min_liquidity: u128,
    pub deadline: u64,
}

/// A completed swap; the price paid is the ratio `price_reserve_in / price_reserve_out`
/// of the reserves before the swap.
pub struct Trade {
    pub timestamp: u64,
    pub pair: String,
    pub trader: String,
    pub token_in: String,
    pub token_out: String,
    pub amount_in: u128,
    pub amount_out: u128,
    pub price_reserve_in: u128,
    pub price_reserve_out: u128,
}

/// The market: pools by address, pair index by ordered token names, the
/// factory allowed to create pairs, the protocol fee recipient and the trades.
pub struct AMMEngine {
    pub pools: KeyMap<String, Pool>,
    pub pairs: KeyMap<(String, String), String>,
    pub factory: String,
    pub fee_to: String,
    pub trades: Vec<Trade>,
}

/// Why a market operation was refused.
#[derive(Debug, Clone, Copy, PartialEq, Eq, Structural)]
pub enum AMMError {
    NotFactory,
    PairExists,
    PairNotFound,
    InsufficientLiquidity,
    InsufficientOutput,
    Expired,
    FlashLoanNotRepaid,
}

impl AMMError {
    /// The message shown for the error.
    pub fn message(&self) -> (r: &'static str)
        ensures
            r@ == amm_error_text(*self),
    {
        match self {
            AMMError::NotFactory => "不是工厂地址",
            AMMError::PairExists => "交易对已存在",
            AMMError::PairNotFound => "交易对不存在",
            AMMError::InsufficientLiquidity => "流动性不足",
            AMMError::InsufficientOutput => "输出金额不足（滑点过大）",
            AMMError::Expired => "交易已过期",
            AMMError::FlashLoanNotRepaid => "闪电贷未归还",
        }
    }
}

/// The message of each error.
pub open spec fn amm_error_text(e: AMMError) -> Seq<char> {
    match e {
        AMMError::NotFactory => "不是工厂地址"@,
        AMMError::PairExists => "交易对已存在"@,
        AMMError::PairNotFound => "交易对不存在"@,
        AMMError::InsufficientLiquidity => "流动性不足"@,
        AMMError::InsufficientOutput => "输出金额不足（滑点过大）"@,
        AMMError::Expired => "交易已过期"@,
        AMMError::FlashLoanNotRepaid => "闪电贷未归还"@,
    }
}

// ---------------------------------------------------------------------------
// Square root
// ---------------------------------------------------------------------------

/// The square root the pools use for a first deposit: the integer (floor)
/// square root of `y`.
pub open spec fn pool_sqrt(y: nat) -> nat {
    choose|r: nat| #[trigger] is_isqrt(y, r)
}

/// The square root the pools use is the floor square root: its square is at
/// most `y` and the square of the next number is above `y`.
pub proof fn lemma_pool_sqrt(y: nat)
    ensures
        pool_sqrt(y) * pool_sqrt(y) <= y,
        y < (pool_sqrt(y) + 1) * (pool_sqrt(y) + 1),
{
    lemma_isqrt_exists(y);
}

proof fn lemma_isqrt_exists(n: nat)
    ensures
        exists|r: nat| #[trigger] is_isqrt(n, r),
    decreases n,
{
    if n == 0 {
        assert(0nat * 0nat == 0 && 1nat * 1nat == 1) by (nonlinear_arith);
        assert(is_isqrt(0, 0));
    } else {
        lemma_isqrt_exists((n - 1) as nat);
        let r = choose|r: nat| #[trigger] is_isqrt((n - 1) as nat, r);
        if (r + 1) * (r + 1) <= n {
            assert((r + 2) * (r + 2) == (r + 1) * (r + 1) + 2 * r + 3) by (nonlinear_arith);
            assert(is_isqrt(n, r + 1));
        } else {
            assert(is_isqrt(n, r));
        }
    }
}

proof fn lemma_isqrt_unique(n: nat, r: nat)
    requires
        is_isqrt(n, r),
    ensures
        (choose|s: nat| #[trigger] is_isqrt(n, s)) == r,
{
    let s = choose|s: nat| #[trigger] is_isqrt(n, s);
    assert(is_isqrt(n, s));
    if s < r {
        assert((s + 1) * (s + 1) <= r * r) by (nonlinear_arith)
            requires
                s + 1 <= r,
        ;
    } else if s > r {
        assert((r + 1) * (r + 1) <= s * s) by (nonlinear_arith)
            requires
                r + 1 <= s,
        ;
    }
}

/// One Newton step never falls below the integer square root.
proof fn lemma_newton_step(y: int, x: int, s: int)
    requires
        0 <= y,
        0 < x,
        0 <= s,
        s * s <= y,
    ensures
        (y / x + x) / 2 >= s,
{
    let q = y / x;
    assert(y < (q + 1) * x) by (nonlinear_arith)
        requires
            q == y / x,
            x > 0,
            y >= 0,
    ;
    if q + x < 2 * s {
        assert((q + 1) * x <= (2 * s - x) * x) by (nonlinear_arith)
            requires
                q + 1 <= 2 * s - x,
                x > 0,
        ;
        assert((s - x) * (s - x) >= 0) by (nonlinear_arith);
        assert((2 * s - x) * x <= s * s) by (nonlinear_arith)
            requires
                (s - x) * (s - x) >= 0,
        ;
        assert(false);
    }
}

// ---------------------------------------------------------------------------
// Pricing formulas
// ---------------------------------------------------------------------------

/// Input left after the fee: `amount_in * (10000 - fee_rate) / 10000`.
pub open spec fn with_fee(amount_in: u128, fee_rate: u16) -> int {
    (amount_in * (10000 - fee_rate)) / 10000
}

/// Output of a swap: `reserve_out * x / (reserve_in + x)` for the input `x` after the fee.
pub open spec fn amount_out_of(amount_in: u128, reserve_in: u128, reserve_out: u128, fee_rate: u16) -> int {
    (with_fee(amount_in, fee_rate) * reserve_out) / (reserve_in + with_fee(amount_in, fee_rate))
}

/// The output formula can be evaluated in `u128` without overflow or division by zero.
pub open spec fn amount_out_defined(amount_in: u128, reserve_in: u128, reserve_out: u128, fee_rate: u16) -> bool {
    &&& fee_rate <= 10000
    &&& amount_in * (10000 - fee_rate) <= u128::MAX
    &&& with_fee(amount_in, fee_rate) * reserve_out <= u128::MAX
    &&& reserve_in + with_fee(amount_in, fee_rate) <= u128::MAX
    &&& reserve_in + with_fee(amount_in, fee_rate) > 0
}

/// Input needed for an output: `reserve_in * amount_out * 10000 / ((reserve_out - amount_out) * (10000 - fee_rate)) + 1`.
pub open spec fn amount_in_of(amount_out: u128, reserve_in: u128, reserve_out: u128, fee_rate: u16) -> int {
    (reserve_in * amount_out * 10000) / ((reserve_out - amount_out) * (10000 - fee_rate)) + 1
}

/// The input formula can be evaluated in `u128` without overflow or division by zero.
pub open spec fn amount_in_defined(amount_out: u128, reserve_in: u128, reserve_out: u128, fee_rate: u16) -> bool {
    &&& fee_rate < 10000
    &&& amount_out < reserve_out
    &&& reserve_in * amount_out * 10000 <= u128::MAX
    &&& (reserve_out - amount_out) * (10000 - fee_rate) <= u128::MAX
    &&& amount_in_of(amount_out, reserve_in, reserve_out, fee_rate) <= u128::MAX
}


/// The address of the pool of `t0` and `t1` created by `factory`: `0x` and the
/// first 40 hexadecimal characters of the SHA-256 of the three names in turn.
pub open spec fn pair_address(t0: Seq<char>, t1: Seq<char>, factory: Seq<char>) -> Seq<char> {
    "0x"@ + hex_lower(
        sha256_spec(
            vstd::utf8::encode_utf8(t0) + vstd::utf8::encode_utf8(t1) + vstd::utf8::encode_utf8(factory),
        ),
    ).take(40)
}

/// The token names in the order the pair index uses: the smaller first.
pub open spec fn ordered(a: Seq<char>, b: Seq<char>) -> (Seq<char>, Seq<char>) {
    if seq_lt(a, b) {
        (a, b)
    } else {
        (b, a)
    }
}

/// A provider's share, zero when it has none.
pub open spec fn share_of(m: Map<Seq<char>, u128>, k: Seq<char>) -> u128 {
    if m.contains_key(k) {
        m[k]
    } else {
        0
    }
}

/// Liquidity minted for a deposit: the pool square root of the product for the
/// first deposit, otherwise the smaller proportional share.
pub open spec fn minted(total: u128, ra: u128, rb: u128, a: u128, b: u128) -> int {
    if total == 0 {
        pool_sqrt((a * b) as nat) as int
    } else {
        let la = (a * total) / (ra as int);
        let lb = (b * total) / (rb as int);
        if la <= lb {
            la
        } else {
            lb
        }
    }
}

/// `minted` can be evaluated in `u128` without overflow or division by zero.
pub open spec fn minted_defined(total: u128, ra: u128, rb: u128, a: u128, b: u128) -> bool {
    if total == 0 {
        a * b <= u128::MAX
    } else {
        ra > 0 && rb > 0 && a * total <= u128::MAX && b * total <= u128::MAX
    }
}

/// Elapsed seconds from `last` to `now`, wrapping as machine subtraction does.
pub open spec fn elapsed(last: u64, now: u64) -> u64 {
    vstd::wrapping::u64_specs::wrapping_sub(now, last)
}

/// The accumulators and the update time after accruing the reserve ratios
/// over the elapsed time; nothing accrues with no time or an empty reserve.
pub open spec fn accrued(ra: u128, rb: u128, cum_a: u128, cum_b: u128, last: u64, now: u64) -> (
    u128,
    u128,
    u64,
) {
    let e = elapsed(last, now);
    if e > 0 && ra > 0 && rb > 0 {
        (
            vstd::wrapping::u128_specs::wrapping_add(
                cum_a,
                (vstd::wrapping::u128_specs::wrapping_mul(rb, e as u128) / ra) as u128,
            ),
            vstd::wrapping::u128_specs::wrapping_add(
                cum_b,
                (vstd::wrapping::u128_specs::wrapping_mul(ra, e as u128) / rb) as u128,
            ),
            now,
        )
    } else {
        (cum_a, cum_b, last)
    }
}

impl Pool {
    /// Accrues the price accumulators up to `now`.
    pub fn update(&mut self, now: u64)
        ensures
            (final(self).price_cumulative_a, final(self).price_cumulative_b, final(self).last_update)
                == accrued(
                old(self).reserve_a,
                old(self).reserve_b,
                old(self).price_cumulative_a,
                old(self).price_cumulative_b,
                old(self).last_update,
                now,
            ),
            final(self).address == old(self).address,
            final(self).token_a == old(self).token_a,
            final(self).token_b == old(self).token_b,
            final(self).reserve_a == old(self).reserve_a,
            final(self).reserve_b == old(self).reserve_b,
            final(self).total_supply == old(self).total_supply,
            final(self).liquidity == old(self).liquidity,
            final(self).fee_rate == old(self).fee_rate,
            final(self).protocol_fee == old(self).protocol_fee,
            final(self).fee_to == old(self).fee_to,
    {
        let time_elapsed = now.wrapping_sub(self.last_update);
        if time_elapsed > 0 && self.reserve_a > 0 && self.reserve_b > 0 {
            let grow_a = self.reserve_b.wrapping_mul(time_elapsed as u128) / self.reserve_a;
            let grow_b = self.reserve_a.wrapping_mul(time_elapsed as u128) / self.reserve_b;
            self.price_cumulative_a = self.price_cumulative_a.wrapping_add(grow_a);
            self.price_cumulative_b = self.price_cumulative_b.wrapping_add(grow_b);
            self.last_update = now;
        }
    }
}

impl AMMEngine {
    pub open spec fn wf(&self) -> bool {
        forall|k: (Seq<char>, Seq<char>)| #[trigger] self.pairs@.contains_key(k)
            ==> self.pools@.contains_key(self.pairs@[k]@)
    }

    /// Creates an empty market.
    pub fn new(factory: String, fee_to: String) -> (r: Self)
        ensures
            r.wf(),
            r.pools@ == Map::<Seq<char>, Pool>::empty(),
            r.pairs@ == Map::<(Seq<char>, Seq<char>), String>::empty(),
            r.factory@ == factory@,
            r.fee_to@ == fee_to@,
            r.trades@ == Seq::<Trade>::empty(),
    {
        AMMEngine { pools: KeyMap::new(), pairs: KeyMap::new(), factory, fee_to, trades: Vec::new() }
    }

    /// The floor square root by Newton's iteration (see `pool_sqrt`).
    fn sqrt(&self, y: u128) -> (r: u128)
        ensures
            r == pool_sqrt(y as nat),
            r * r <= y && y < (r + 1) * (r + 1),
    {
        proof {
            lemma_pool_sqrt(y as nat);
        }
        if y == 0 {
            proof {
                assert(0nat * 0nat == 0 && 1nat * 1nat == 1) by (nonlinear_arith);
                assert(is_isqrt(0, 0));
                lemma_isqrt_unique(0, 0);
            }
            return 0;
        }
        proof {
            lemma_isqrt_exists(y as nat);
        }
        let ghost s: nat = choose|r: nat| #[trigger] is_isqrt(y as nat, r);
        proof {
            assert(is_isqrt(y as nat, s));
            if s >= 2 {
                assert(s * s >= 2 * s) by (nonlinear_arith)
                    requires
                        s >= 2,
                ;
            }
            if s == 0 {
                assert(1nat * 1nat == 1) by (nonlinear_arith);
            }
        }
        let mut z: u128 = y;
        let mut x: u128 = y / 2 + 1;
        while x < z
            invariant
                y > 0,
                s * s <= y,
                y < (s + 1) * (s + 1),
                s >= 1,
                x >= s,
                z >= s,
                z <= y,
                x == (y / z + z) / 2 || (z == y && x == y / 2 + 1),
                y == 2 ==> z == 2 && x == 2,
            decreases z,
        {
            z = x;
            let q = y / x;
            x = q / 2 + x / 2 + (q % 2 + x % 2) / 2;
            proof {
                lemma_newton_step(y as int, z as int, s as int);
            }
        }
        if y == 2 {
            // Newton's iteration started at `y / 2 + 1` stops at once on 2;
            // the floor square root of 2 is 1.
            proof {
                assert(1nat * 1nat == 1 && 2nat * 2nat == 4) by (nonlinear_arith);
                assert(is_isqrt(2, 1));
                lemma_isqrt_unique(2, 1);
            }
            return 1;
        }
        proof {
            {
                if z == y && x == y / 2 + 1 {
                    assert(y <= 2);
                    assert(y == 1);
                    assert(1nat * 1nat == 1) by (nonlinear_arith);
                    assert(s == 1) by (nonlinear_arith)
                        requires
                            s * s <= 1,
                            s >= 1,
                    ;
                } else {
                    assert(y / z >= z);
                    assert(z * z <= y) by (nonlinear_arith)
                        requires
                            y / z >= z,
                            z > 0,
                    ;
                    if z > s {
                        assert((s + 1) * (s + 1) <= z * z) by (nonlinear_arith)
                            requires
                                s + 1 <= z,
                        ;
                    }
                }
                lemma_isqrt_unique(y as nat, s);
            }
        }
        z
    }

    /// Output of selling `amount_in` into reserves `reserve_in` / `reserve_out`
    /// (`amount_out_of`).
    pub fn get_amount_out(&self, amount_in: u128, reserve_in: u128, reserve_out: u128, fee_rate: u16) -> (r: u128)
        requires
            amount_out_defined(amount_in, reserve_in, reserve_out, fee_rate),
        ensures
            r == amount_out_of(amount_in, reserve_in, reserve_out, fee_rate),
    {
        let amount_in_with_fee = amount_in * (10000 - fee_rate as u128) / 10000;
        let numerator = amount_in_with_fee * reserve_out;
        let denominator = reserve_in + amount_in_with_fee;
        numerator / denominator
    }

    /// Input needed to buy `amount_out` from reserves `reserve_in` / `reserve_out`
    /// (`amount_in_of`).
    pub fn get_amount_in(&self, amount_out: u128, reserve_in: u128, reserve_out: u128, fee_rate: u16) -> (r: u128)
        requires
            amount_in_defined(amount_out, reserve_in, reserve_out, fee_rate),
        ensures
            r == amount_in_of(amount_out, reserve_in, reserve_out, fee_rate),
    {
        proof {
            assert(0 <= reserve_in * amount_out) by (nonlinear_arith);
            assert(reserve_in * amount_out <= reserve_in * amount_out * 10000) by (nonlinear_arith)
                requires
                    0 <= reserve_in * amount_out,
            ;
            assert((reserve_out - amount_out) * (10000 - fee_rate) > 0) by (nonlinear_arith)
                requires
                    amount_out < reserve_out,
                    fee_rate < 10000,
            ;
        }
        let numerator = reserve_in * amount_out * 10000;
        let denominator = (reserve_out - amount_out) * (10000 - fee_rate as u128);
        (numerator / denominator) + 1
    }

    /// The pool address of `t0` and `t1` (`pair_address`).
    fn generate_pair_address(&self, token_a: &str, token_b: &str) -> (r: String)
        ensures
            r@ == pair_address(token_a@, token_b@, self.factory@),
    {
        let ab = concat(token_a.as_bytes(), token_b.as_bytes());
        let data = concat(ab.as_slice(), self.factory.as_str().as_bytes());
        let digest = sha256(data.as_slice());
        let hash = hex_encode(digest.as_slice());
        let mut out = String::new();
        proof {
            reveal_strlit("0x");
        }
        push_str(&mut out, "0x");
        let head = prefix(hash.as_str(), 40);
        push_str(&mut out, head.as_str());
        out
    }
}


/// Pool fields that no operation changes.
pub open spec fn same_setup(p: Pool, q: Pool) -> bool {
    &&& q.address == p.address
    &&& q.token_a == p.token_a
    &&& q.token_b == p.token_b
    &&& q.fee_rate == p.fee_rate
    &&& q.protocol_fee == p.protocol_fee
    &&& q.fee_to == p.fee_to
}

/// `q` holds the accumulators of `p` accrued to `now` over `q`'s reserves.
pub open spec fn accrued_to(p: Pool, q: Pool, now: u64) -> bool {
    (q.price_cumulative_a, q.price_cumulative_b, q.last_update) == accrued(
        q.reserve_a,
        q.reserve_b,
        p.price_cumulative_a,
        p.price_cumulative_b,
        p.last_update,
        now,
    )
}

impl AMMEngine {
    /// Whether an `add_liquidity` on `pair` can run without overflow or division by zero.
    pub open spec fn add_liquidity_defined(&self, pair: Seq<char>, amount_a: u128, amount_b: u128, provider: Seq<char>) -> bool {
        self.pools@.contains_key(pair) ==> {
            let p = self.pools@[pair];
            let m = minted(p.total_supply, p.reserve_a, p.reserve_b, amount_a, amount_b);
            &&& minted_defined(p.total_supply, p.reserve_a, p.reserve_b, amount_a, amount_b)
            &&& m > 0 ==> {
                &&& p.reserve_a + amount_a <= u128::MAX
                &&& p.reserve_b + amount_b <= u128::MAX
                &&& p.total_supply + m <= u128::MAX
                &&& share_of(p.liquidity@, provider) + m <= u128::MAX
            }
        }
    }

    /// Creates the pool of `token_a` and `token_b` (ordered, smaller first);
    /// only the factory may, and the pair must not exist. Returns its address.
    pub fn create_pair(&mut self, token_a: String, token_b: String, caller: &str) -> (r: Result<
        String,
        AMMError,
    >)
        requires
            old(self).wf(),
        ensures
            final(self).wf(),
            final(self).factory == old(self).factory,
            final(self).fee_to == old(self).fee_to,
            final(self).trades == old(self).trades,
            caller@ != old(self).factory@ ==> r == Err::<String, AMMError>(AMMError::NotFactory),
            caller@ == old(self).factory@ && old(self).pairs@.contains_key(
                ordered(token_a@, token_b@),
            ) ==> r == Err::<String, AMMError>(AMMError::PairExists),
            r is Err ==> final(self).pools@ == old(self).pools@ && final(self).pairs@ == old(
                self,
            ).pairs@,
            caller@ == old(self).factory@ && !old(self).pairs@.contains_key(
                ordered(token_a@, token_b@),
            ) ==> r is Ok,
            r matches Ok(addr) ==> {
                let (t0, t1) = ordered(token_a@, token_b@);
                let q = final(self).pools@[addr@];
                &&& addr@ == pair_address(t0, t1, old(self).factory@)
                &&& final(self).pools@ == old(self).pools@.insert(addr@, q)
                &&& final(self).pairs@ == old(self).pairs@.insert((t0, t1), addr)
                &&& q.address@ == addr@
                &&& q.token_a@ == t0
                &&& q.token_b@ == t1
                &&& q.reserve_a == 0
                &&& q.reserve_b == 0
                &&& q.total_supply == 0
                &&& q.liquidity@ == Map::<Seq<char>, u128>::empty()
                &&& q.price_cumulative_a == 0
                &&& q.price_cumulative_b == 0
                &&& q.last_update == 0
                &&& q.fee_rate == 30
                &&& q.protocol_fee == 5
                &&& q.fee_to@ == old(self).fee_to@
            },
    {
        if !str_eq(caller, self.factory.as_str()) {
            return Err(AMMError::NotFactory);
        }
        let (t0, t1) = if str_lt(token_a.as_str(), token_b.as_str()) {
            (token_a, token_b)
        } else {
            (token_b, token_a)
        };
        let key = (t0.clone(), t1.clone());
        if self.pairs.contains_key(&key) {
            return Err(AMMError::PairExists);
        }
        let address = self.generate_pair_address(t0.as_str(), t1.as_str());
        let pool = Pool {
            address: address.clone(),
            token_a: t0,
            token_b: t1,
            reserve_a: 0,
            reserve_b: 0,
            total_supply: 0,
            liquidity: KeyMap::new(),
            price_cumulative_a: 0,
            price_cumulative_b: 0,
            last_update: 0,
            fee_rate: 30,
            protocol_fee: 5,
            fee_to: self.fee_to.clone(),
        };
        let ghost old_pools = self.pools@;
        let ghost old_pairs = self.pairs@;
        self.pools.insert(address.clone(), pool);
        self.pairs.insert(key, address.clone());
        proof {
            assert(self.pools@ =~= old_pools.insert(address@, self.pools@[address@]));
            assert forall|k: (Seq<char>, Seq<char>)| #[trigger] self.pairs@.contains_key(k)
                implies self.pools@.contains_key(self.pairs@[k]@) by {
                if k != key@ {
                    assert(old_pairs.contains_key(k));
                }
            }
        }
        Ok(address)
    }

    /// Deposits `amount_a` and `amount_b` into `pair` and credits the minted
    /// liquidity (`minted`) to `provider`; refused when nothing would be minted.
    /// The accumulators accrue to `now`.
    pub fn add_liquidity_at(&mut self, pair: &str, amount_a: u128, amount_b: u128, provider: &str, now: u64) -> (r:
        Result<u128, AMMError>)
        requires
            old(self).wf(),
            old(self).add_liquidity_defined(pair@, amount_a, amount_b, provider@),
        ensures
            final(self).wf(),
            final(self).pairs == old(self).pairs,
            final(self).factory == old(self).factory,
            final(self).fee_to == old(self).fee_to,
            final(self).trades == old(self).trades,
            !old(self).pools@.contains_key(pair@) ==> r == Err::<u128, AMMError>(AMMError::PairNotFound),
            old(self).pools@.contains_key(pair@) ==> ({
                let p = old(self).pools@[pair@];
                let q = final(self).pools@[pair@];
                let m = minted(p.total_supply, p.reserve_a, p.reserve_b, amount_a, amount_b);
                &&& m == 0 ==> r == Err::<u128, AMMError>(AMMError::InsufficientLiquidity)
                &&& m > 0 ==> r == Ok::<u128, AMMError>(m as u128)
                    && final(self).pools@ == old(self).pools@.insert(pair@, q)
                    && same_setup(p, q)
                    && q.reserve_a == p.reserve_a + amount_a
                    && q.reserve_b == p.reserve_b + amount_b
                    && q.total_supply == p.total_supply + m
                    && q.liquidity@ == p.liquidity@.insert(provider@, (share_of(p.liquidity@, provider@) + m) as u128)
                    && accrued_to(p, q, now)
            }),
            r is Err ==> final(self).pools@ == old(self).pools@,
    {
        let key = pair.to_owned();
        let (total, ra, rb) = match self.pools.get(&key) {
            Some(p) => (p.total_supply, p.reserve_a, p.reserve_b),
            None => {
                return Err(AMMError::PairNotFound);
            },
        };
        let liquidity = if total == 0 {
            self.sqrt(amount_a * amount_b)
        } else {
            let liq_a = amount_a * total / ra;
            let liq_b = amount_b * total / rb;
            if liq_a <= liq_b {
                liq_a
            } else {
                liq_b
            }
        };
        if liquidity == 0 {
            return Err(AMMError::InsufficientLiquidity);
        }
        let ghost old_pools = self.pools@;
        let pool = self.pools.value_mut(&key);
        pool.reserve_a = pool.reserve_a + amount_a;
        pool.reserve_b = pool.reserve_b + amount_b;
        pool.total_supply = pool.total_supply + liquidity;
        let current: u128 = match pool.liquidity.get(&provider.to_owned()) {
            Some(v) => *v,
            None => 0,
        };
        pool.liquidity.insert(provider.to_owned(), current + liquidity);
        pool.update(now);
        proof {
            assert(self.pools@.dom() =~= old_pools.dom());
        }
        Ok(liquidity)
    }

    /// `add_liquidity_at` at the current time.
    pub fn add_liquidity(&mut self, pair: &str, amount_a: u128, amount_b: u128, provider: &str) -> (r:
        Result<u128, AMMError>)
        requires
            old(self).wf(),
            old(self).add_liquidity_defined(pair@, amount_a, amount_b, provider@),
        ensures
            final(self).wf(),
            final(self).pairs == old(self).pairs,
            !old(self).pools@.contains_key(pair@) ==> r == Err::<u128, AMMError>(AMMError::PairNotFound),
            old(self).pools@.contains_key(pair@) ==> ({
                let p = old(self).pools@[pair@];
                let m = minted(p.total_supply, p.reserve_a, p.reserve_b, amount_a, amount_b);
                &&& m == 0 ==> r == Err::<u128, AMMError>(AMMError::InsufficientLiquidity)
                &&& m > 0 ==> r == Ok::<u128, AMMError>(m as u128)
            }),
    {
        let now = crate::clock::unix_seconds();
        self.add_liquidity_at(pair, amount_a, amount_b, provider, now)
    }
}


/// Reserves in the direction of a swap: (input, output).
pub open spec fn swap_reserves(p: Pool, token_in: Seq<char>) -> (u128, u128) {
    if token_in == p.token_a@ {
        (p.reserve_a, p.reserve_b)
    } else {
        (p.reserve_b, p.reserve_a)
    }
}

/// Total input traded on `pair` over `trades`.
pub open spec fn volume_of(trades: Seq<Trade>, pair: Seq<char>) -> int
    decreases trades.len(),
{
    if trades.len() == 0 {
        0
    } else {
        volume_of(trades.drop_last(), pair) + if trades.last().pair@ == pair {
            trades.last().amount_in as int
        } else {
            0
        }
    }
}

proof fn lemma_volume_prefix(trades: Seq<Trade>, pair: Seq<char>, i: int)
    requires
        0 <= i <= trades.len(),
    ensures
        0 <= volume_of(trades.take(i), pair) <= volume_of(trades, pair),
    decreases trades.len(),
{
    if i < trades.len() {
        assert(trades.drop_last().take(i) =~= trades.take(i));
        lemma_volume_prefix(trades.drop_last(), pair, i);
    } else {
        assert(trades.take(i) =~= trades);
        if trades.len() > 0 {
            lemma_volume_prefix(trades.drop_last(), pair, trades.len() - 1);
            assert(trades.drop_last().take(trades.len() - 1) =~= trades.drop_last());
        }
    }
}

/// `info` describes the pool `p` stored at `key`, with the trades `trades`.
pub open spec fn describes(info: PairInfo, key: Seq<char>, p: Pool, trades: Seq<Trade>) -> bool {
    &&& info.address@ == p.address@
    &&& info.token_a@ == p.token_a@
    &&& info.token_b@ == p.token_b@
    &&& info.reserve_a == p.reserve_a
    &&& info.reserve_b == p.reserve_b
    &&& info.total_supply == p.total_supply
    &&& info.volume_24h == volume_of(trades, key)
    &&& info.tvl == p.reserve_a + p.reserve_b
}

/// The pool's summary can be computed without overflow.
pub open spec fn info_defined(key: Seq<char>, p: Pool, trades: Seq<Trade>) -> bool {
    &&& volume_of(trades, key) <= u128::MAX
    &&& p.reserve_a + p.reserve_b <= u128::MAX
}

/// What a swap at `now` does (see `AMMEngine::swap_at`): refused for an
/// unknown pair, past the deadline, or below the minimum output; otherwise
/// the pool's reserves move by the input and the output, and the trade is
/// recorded.
pub open spec fn swap_outcome(pre: AMMEngine, post: AMMEngine, req: SwapRequest, now: u64, r: Result<u128, AMMError>) -> bool {
    &&& post.pairs == pre.pairs
    &&& post.factory == pre.factory
    &&& post.fee_to == pre.fee_to
    &&& (!pre.pools@.contains_key(req.pair@) ==> r == Err::<u128, AMMError>(AMMError::PairNotFound))
    &&& (pre.pools@.contains_key(req.pair@) && now > req.deadline ==> r == Err::<u128, AMMError>(
        AMMError::Expired,
    ))
    &&& (pre.pools@.contains_key(req.pair@) && now <= req.deadline ==> ({
                let p = pre.pools@[req.pair@];
                let q = post.pools@[req.pair@];
                let (rin, rout) = swap_reserves(p, req.token_in@);
                let out = amount_out_of(req.amount_in, rin, rout, p.fee_rate);
                &&& out < req.min_amount_out ==> r == Err::<u128, AMMError>(AMMError::InsufficientOutput)
                &&& out >= req.min_amount_out ==> {
                    &&& r == Ok::<u128, AMMError>(out as u128)
                    &&& post.pools@ == pre.pools@.insert(req.pair@, q)
                    &&& same_setup(p, q)
                    &&& q.total_supply == p.total_supply
                    &&& q.liquidity == p.liquidity
                    &&& req.token_in@ == p.token_a@ ==> q.reserve_a == p.reserve_a + req.amount_in
                        && q.reserve_b == p.reserve_b - out
                    &&& req.token_in@ != p.token_a@ ==> q.reserve_b == p.reserve_b + req.amount_in
                        && q.reserve_a == p.reserve_a - out
                    &&& q.reserve_a * q.reserve_b >= p.reserve_a * p.reserve_b
                    &&& accrued_to(p, q, now)
                    &&& post.trades@ == pre.trades@.push(
                        Trade {
                            timestamp: now,
                            pair: req.pair,
                            trader: req.recipient,
                            token_in: req.token_in,
                            token_out: req.token_out,
                            amount_in: req.amount_in,
                            amount_out: out as u128,
                            price_reserve_in: rin,
                            price_reserve_out: rout,
                        },
                    )
                }
            }))
    &&& (r is Err ==> post.pools@ == pre.pools@ && post.trades == pre.trades)
}

impl AMMEngine {
    /// Whether a `remove_liquidity` on `pair` can run without overflow or division by zero.
    pub open spec fn remove_liquidity_defined(&self, pair: Seq<char>, liquidity: u128, provider: Seq<char>) -> bool {
        self.pools@.contains_key(pair) ==> {
            let p = self.pools@[pair];
            share_of(p.liquidity@, provider) >= liquidity ==> {
                &&& 0 < p.total_supply
                &&& liquidity <= p.total_supply
                &&& liquidity * p.reserve_a <= u128::MAX
                &&& liquidity * p.reserve_b <= u128::MAX
            }
        }
    }

    /// Redeems `liquidity` of `provider`'s share of `pair` for the proportional
    /// part of both reserves. The accumulators accrue to `now`.
    pub fn remove_liquidity_at(&mut self, pair: &str, liquidity: u128, provider: &str, now: u64) -> (r:
        Result<(u128, u128), AMMError>)
        requires
            old(self).wf(),
            old(self).remove_liquidity_defined(pair@, liquidity, provider@),
        ensures
            final(self).wf(),
            final(self).pairs == old(self).pairs,
            final(self).factory == old(self).factory,
            final(self).fee_to == old(self).fee_to,
            final(self).trades == old(self).trades,
            !old(self).pools@.contains_key(pair@) ==> r == Err::<(u128, u128), AMMError>(AMMError::PairNotFound),
            old(self).pools@.contains_key(pair@) ==> ({
                let p = old(self).pools@[pair@];
                let q = final(self).pools@[pair@];
                let current = share_of(p.liquidity@, provider@);
                &&& current < liquidity ==> r == Err::<(u128, u128), AMMError>(AMMError::InsufficientLiquidity)
                &&& current >= liquidity ==> (r matches Ok((a, b))
                    && a == (liquidity * p.reserve_a) / (p.total_supply as int)
                    && b == (liquidity * p.reserve_b) / (p.total_supply as int)
                    && final(self).pools@ == old(self).pools@.insert(pair@, q)
                    && same_setup(p, q)
                    && q.reserve_a == p.reserve_a - a
                    && q.reserve_b == p.reserve_b - b
                    && q.total_supply == p.total_supply - liquidity
                    && q.liquidity@ == p.liquidity@.insert(provider@, (current - liquidity) as u128)
                    && accrued_to(p, q, now))
            }),
            r is Err ==> final(self).pools@ == old(self).pools@,
    {
        let key = pair.to_owned();
        let (current, total, ra, rb) = match self.pools.get(&key) {
            Some(p) => {
                let c: u128 = match p.liquidity.get(&provider.to_owned()) {
                    Some(v) => *v,
                    None => 0,
                };
                (c, p.total_supply, p.reserve_a, p.reserve_b)
            },
            None => {
                return Err(AMMError::PairNotFound);
            },
        };
        if current < liquidity {
            return Err(AMMError::InsufficientLiquidity);
        }
        proof {
            lemma_share(liquidity as int, ra as int, total as int);
            lemma_share(liquidity as int, rb as int, total as int);
        }
        let amount_a = liquidity * ra / total;
        let amount_b = liquidity * rb / total;
        let ghost old_pools = self.pools@;
        let pool = self.pools.value_mut(&key);
        pool.reserve_a = pool.reserve_a - amount_a;
        pool.reserve_b = pool.reserve_b - amount_b;
        pool.total_supply = pool.total_supply - liquidity;
        pool.liquidity.insert(provider.to_owned(), current - liquidity);
        pool.update(now);
        proof {
            assert(self.pools@.dom() =~= old_pools.dom());
        }
        Ok((amount_a, amount_b))
    }

    /// `remove_liquidity_at` at the current time.
    pub fn remove_liquidity(&mut self, pair: &str, liquidity: u128, provider: &str) -> (r:
        Result<(u128, u128), AMMError>)
        requires
            old(self).wf(),
            old(self).remove_liquidity_defined(pair@, liquidity, provider@),
        ensures
            final(self).wf(),
            !old(self).pools@.contains_key(pair@) ==> r == Err::<(u128, u128), AMMError>(AMMError::PairNotFound),
            old(self).pools@.contains_key(pair@) ==> ({
                let p = old(self).pools@[pair@];
                let current = share_of(p.liquidity@, provider@);
                &&& current < liquidity ==> r == Err::<(u128, u128), AMMError>(AMMError::InsufficientLiquidity)
                &&& current >= liquidity ==> r == Ok::<(u128, u128), AMMError>(
                    (
                        ((liquidity * p.reserve_a) / (p.total_supply as int)) as u128,
                        ((liquidity * p.reserve_b) / (p.total_supply as int)) as u128,
                    ),
                )
            }),
    {
        let now = crate::clock::unix_seconds();
        self.remove_liquidity_at(pair, liquidity, provider, now)
    }

    /// Whether a swap of `req` at `now` can run without overflow or division by zero.
    pub open spec fn swap_defined(&self, req: SwapRequest, now: u64) -> bool {
        self.pools@.contains_key(req.pair@) && now <= req.deadline ==> {
            let p = self.pools@[req.pair@];
            let (rin, rout) = swap_reserves(p, req.token_in@);
            &&& amount_out_defined(req.amount_in, rin, rout, p.fee_rate)
            &&& amount_out_of(req.amount_in, rin, rout, p.fee_rate) >= req.min_amount_out ==> rin + req.amount_in <= u128::MAX
        }
    }

    /// Sells `req.amount_in` of `req.token_in` into the pool `req.pair` at time
    /// `now`: refused after the deadline or below the least output accepted;
    /// otherwise the whole input joins the input reserve, the output leaves the
    /// other one, the trade is logged and the accumulators accrue.
    pub fn swap_at(&mut self, req: SwapRequest, now: u64) -> (r: Result<u128, AMMError>)
        requires
            old(self).wf(),
            old(self).swap_defined(req, now),
        ensures
            final(self).wf(),
            final(self).pairs == old(self).pairs,
            final(self).factory == old(self).factory,
            final(self).fee_to == old(self).fee_to,
            swap_outcome(*old(self), *final(self), req, now, r),
            !old(self).pools@.contains_key(req.pair@) ==> r == Err::<u128, AMMError>(AMMError::PairNotFound),
            old(self).pools@.contains_key(req.pair@) && now > req.deadline ==> r == Err::<u128, AMMError>(
                AMMError::Expired,
            ),
            old(self).pools@.contains_key(req.pair@) && now <= req.deadline ==> ({
                let p = old(self).pools@[req.pair@];
                let q = final(self).pools@[req.pair@];
                let (rin, rout) = swap_reserves(p, req.token_in@);
                let out = amount_out_of(req.amount_in, rin, rout, p.fee_rate);
                &&& out < req.min_amount_out ==> r == Err::<u128, AMMError>(AMMError::InsufficientOutput)
                &&& out >= req.min_amount_out ==> {
                    &&& r == Ok::<u128, AMMError>(out as u128)
                    &&& final(self).pools@ == old(self).pools@.insert(req.pair@, q)
                    &&& same_setup(p, q)
                    &&& q.total_supply == p.total_supply
                    &&& q.liquidity == p.liquidity
                    &&& req.token_in@ == p.token_a@ ==> q.reserve_a == p.reserve_a + req.amount_in
                        && q.reserve_b == p.reserve_b - out
                    &&& req.token_in@ != p.token_a@ ==> q.reserve_b == p.reserve_b + req.amount_in
                        && q.reserve_a == p.reserve_a - out
                    &&& q.reserve_a * q.reserve_b >= p.reserve_a * p.reserve_b
                    &&& accrued_to(p, q, now)
                    &&& final(self).trades@ == old(self).trades@.push(
                        Trade {
                            timestamp: now,
                            pair: req.pair,
                            trader: req.recipient,
                            token_in: req.token_in,
                            token_out: req.token_out,
                            amount_in: req.amount_in,
                            amount_out: out as u128,
                            price_reserve_in: rin,
                            price_reserve_out: rout,
                        },
                    )
                }
            }),
            r is Err ==> final(self).pools@ == old(self).pools@ && final(self).trades == old(self).trades,
    {
        let (token_a, ra, rb, fee_rate) = match self.pools.get(&req.pair) {
            Some(p) => (p.token_a.clone(), p.reserve_a, p.reserve_b, p.fee_rate),
            None => {
                return Err(AMMError::PairNotFound);
            },
        };
        if now > req.deadline {
            return Err(AMMError::Expired);
        }
        let a_in = req.token_in == token_a;
        let (reserve_in, reserve_out) = if a_in {
            (ra, rb)
        } else {
            (rb, ra)
        };
        let amount_out = self.get_amount_out(req.amount_in, reserve_in, reserve_out, fee_rate);
        if amount_out < req.min_amount_out {
            return Err(AMMError::InsufficientOutput);
        }
        proof {
            let x = with_fee(req.amount_in, fee_rate);
            assert(0 <= x <= req.amount_in) by (nonlinear_arith)
                requires
                    x == (req.amount_in * (10000 - fee_rate)) / 10000,
                    fee_rate <= 10000,
            ;
            assert(x * reserve_out == reserve_out * x) by (nonlinear_arith);
            assert(amount_out_of(req.amount_in, reserve_in, reserve_out, fee_rate) == product_out(
                reserve_in as int,
                reserve_out as int,
                x,
            ));
            lemma_product_out(reserve_in as int, reserve_out as int, x, req.amount_in as int);
            if !a_in {
                assert(rb * ra == ra * rb) by (nonlinear_arith);
                assert((rb + req.amount_in) * (ra - amount_out) == (ra - amount_out) * (rb
                    + req.amount_in)) by (nonlinear_arith);
            }
        }
        let ghost old_pools = self.pools@;
        let pool = self.pools.value_mut(&req.pair);
        if a_in {
            pool.reserve_a = pool.reserve_a + req.amount_in;
            pool.reserve_b = pool.reserve_b - amount_out;
        } else {
            pool.reserve_b = pool.reserve_b + req.amount_in;
            pool.reserve_a = pool.reserve_a - amount_out;
        }
        pool.update(now);
        proof {
            assert(self.pools@.dom() =~= old_pools.dom());
        }
        self.trades.push(
            Trade {
                timestamp: now,
                pair: req.pair,
                trader: req.recipient,
                token_in: req.token_in,
                token_out: req.token_out,
                amount_in: req.amount_in,
                amount_out,
                price_reserve_in: reserve_in,
                price_reserve_out: reserve_out,
            },
        );
        Ok(amount_out)
    }

    /// `swap_at` at the current time; what holds whatever the clock read.
    pub fn swap(&mut self, req: SwapRequest) -> (r: Result<u128, AMMError>)
        requires
            old(self).wf(),
            forall|now: u64| #[trigger] old(self).swap_defined(req, now),
        ensures
            final(self).wf(),
            !old(self).pools@.contains_key(req.pair@) ==> r == Err::<u128, AMMError>(AMMError::PairNotFound),
            old(self).pools@.contains_key(req.pair@) ==> ({
                let p = old(self).pools@[req.pair@];
                let (rin, rout) = swap_reserves(p, req.token_in@);
                let out = amount_out_of(req.amount_in, rin, rout, p.fee_rate);
                &&& r matches Ok(o) ==> o == out && out >= req.min_amount_out
                &&& r matches Err(e) ==> e == AMMError::Expired || (e == AMMError::InsufficientOutput
                    && out < req.min_amount_out)
            }),
            exists|now: u64| #[trigger] swap_outcome(*old(self), *final(self), req, now, r),
    {
        let now = crate::clock::unix_seconds();
        self.swap_at(req, now)
    }

    /// The price of `pair` as the ratio `reserve_a / reserve_b`; `0 / 1` while
    /// reserve B is empty.
    pub fn get_price(&self, pair: &str) -> (r: Result<(u128, u128), AMMError>)
        ensures
            !self.pools@.contains_key(pair@) ==> r == Err::<(u128, u128), AMMError>(AMMError::PairNotFound),
            self.pools@.contains_key(pair@) ==> ({
                let p = self.pools@[pair@];
                &&& p.reserve_b == 0 ==> r == Ok::<(u128, u128), AMMError>((0, 1))
                &&& p.reserve_b != 0 ==> r == Ok::<(u128, u128), AMMError>((p.reserve_a, p.reserve_b))
            }),
    {
        match self.pools.get(&pair.to_owned()) {
            Some(p) => {
                if p.reserve_b == 0 {
                    Ok((0, 1))
                } else {
                    Ok((p.reserve_a, p.reserve_b))
                }
            },
            None => Err(AMMError::PairNotFound),
        }
    }

    /// Total input traded on `pair`.
    fn traded_volume(&self, pair: &str) -> (r: u128)
        requires
            volume_of(self.trades@, pair@) <= u128::MAX,
        ensures
            r == volume_of(self.trades@, pair@),
    {
        let mut total: u128 = 0;
        let mut i: usize = 0;
        while i < self.trades.len()
            invariant
                i <= self.trades@.len(),
                total == volume_of(self.trades@.take(i as int), pair@),
                volume_of(self.trades@, pair@) <= u128::MAX,
            decreases self.trades@.len() - i,
        {
            proof {
                assert(self.trades@.take(i as int + 1).drop_last() =~= self.trades@.take(i as int));
                lemma_volume_prefix(self.trades@, pair@, i as int + 1);
            }
            if str_eq(self.trades[i].pair.as_str(), pair) {
                total = total + self.trades[i].amount_in;
            }
            i = i + 1;
        }
        proof {
            assert(self.trades@.take(i as int) =~= self.trades@);
        }
        total
    }

    /// Summary of `pair`: reserves, supply, volume traded and value locked.
    pub fn get_pair_info(&self, pair: &str) -> (r: Result<PairInfo, AMMError>)
        requires
            self.pools@.contains_key(pair@) ==> info_defined(pair@, self.pools@[pair@], self.trades@),
        ensures
            !self.pools@.contains_key(pair@) ==> r == Err::<PairInfo, AMMError>(AMMError::PairNotFound),
            self.pools@.contains_key(pair@) ==> (r matches Ok(info) && describes(
                info,
                pair@,
                self.pools@[pair@],
                self.trades@,
            )),
    {
        let key = pair.to_owned();
        let p = match self.pools.get(&key) {
            Some(p) => p,
            None => {
                return Err(AMMError::PairNotFound);
            },
        };
        let tvl = p.reserve_a + p.reserve_b;
        let volume_24h = self.traded_volume(pair);
        Ok(
            PairInfo {
                address: p.address.clone(),
                token_a: p.token_a.clone(),
                token_b: p.token_b.clone(),
                reserve_a: p.reserve_a,
                reserve_b: p.reserve_b,
                total_supply: p.total_supply,
                volume_24h,
                tvl,
            },
        )
    }

    /// `provider`'s share of `pair`.
    pub fn get_liquidity(&self, pair: &str, provider: &str) -> (r: Result<u128, AMMError>)
        ensures
            !self.pools@.contains_key(pair@) ==> r == Err::<u128, AMMError>(AMMError::PairNotFound),
            self.pools@.contains_key(pair@) ==> r == Ok::<u128, AMMError>(
                share_of(self.pools@[pair@].liquidity@, provider@),
            ),
    {
        match self.pools.get(&pair.to_owned()) {
            Some(p) => match p.liquidity.get(&provider.to_owned()) {
                Some(v) => Ok(*v),
                None => Ok(0),
            },
            None => Err(AMMError::PairNotFound),
        }
    }

    /// Summaries of all pools, in the pools' order.
    pub fn get_all_pairs(&self) -> (r: Vec<PairInfo>)
        requires
            forall|k: Seq<char>| #[trigger] self.pools@.contains_key(k) ==> info_defined(
                k,
                self.pools@[k],
                self.trades@,
            ),
        ensures
            r@.len() == self.pools@.len(),
            forall|i: int| 0 <= i < r@.len() ==> describes(
                #[trigger] r@[i],
                self.pools.entries()[i].0@,
                self.pools.entries()[i].1,
                self.trades@,
            ),
    {
        let n = self.pools.len();
        let mut out: Vec<PairInfo> = Vec::new();
        let mut i: usize = 0;
        while i < n
            invariant
                n == self.pools.entries().len(),
                n == self.pools@.len(),
                i <= n,
                out@.len() == i,
                forall|k: Seq<char>| #[trigger] self.pools@.contains_key(k) ==> info_defined(
                    k,
                    self.pools@[k],
                    self.trades@,
                ),
                forall|j: int| 0 <= j < i ==> describes(
                    #[trigger] out@[j],
                    self.pools.entries()[j].0@,
                    self.pools.entries()[j].1,
                    self.trades@,
                ),
            decreases n - i,
        {
            let (k, _) = self.pools.entry_at(i);
            match self.get_pair_info(k.as_str()) {
                Ok(info) => {
                    out.push(info);
                },
                Err(_) => {
                    proof {
                        assert(false);
                    }
                },
            }
            i = i + 1;
        }
        out
    }

    /// Lends `amount_a` and `amount_b` out of `pair` to `callback`, which
    /// gets the whole market; the loan must come back with a 0.3% fee on top
    /// of both reserves. Refused before lending when the reserves cannot cover it.
    pub fn flash_loan<F>(&mut self, pair: &str, amount_a: u128, amount_b: u128, callback: F) -> (r:
        Result<(), AMMError>) where F: FnOnce(&mut Self) -> Result<(), AMMError>
        requires
            forall|s: &mut Self| #[trigger] call_requires(callback, (s,)),
            amount_a * 3 <= u128::MAX,
            amount_b * 3 <= u128::MAX,
            old(self).pools@.contains_key(pair@) ==> old(self).pools@[pair@].reserve_a + (amount_a * 3) / 1000 <= u128::MAX
                && old(self).pools@[pair@].reserve_b + (amount_b * 3) / 1000 <= u128::MAX,
        ensures
            !old(self).pools@.contains_key(pair@) ==> r == Err::<(), AMMError>(AMMError::PairNotFound)
                && *final(self) == *old(self),
            old(self).pools@.contains_key(pair@) && (old(self).pools@[pair@].reserve_a < amount_a
                || old(self).pools@[pair@].reserve_b < amount_b) ==> r == Err::<(), AMMError>(
                AMMError::InsufficientLiquidity,
            ) && *final(self) == *old(self),
            r is Ok ==> final(self).pools@.contains_key(pair@)
                && final(self).pools@[pair@].reserve_a >= old(self).pools@[pair@].reserve_a + (amount_a * 3) / 1000
                && final(self).pools@[pair@].reserve_b >= old(self).pools@[pair@].reserve_b + (amount_b * 3) / 1000,
    {
        let key = pair.to_owned();
        let (reserve_a_before, reserve_b_before) = match self.pools.get(&key) {
            Some(p) => (p.reserve_a, p.reserve_b),
            None => {
                return Err(AMMError::PairNotFound);
            },
        };
        if reserve_a_before < amount_a || reserve_b_before < amount_b {
            return Err(AMMError::InsufficientLiquidity);
        }
        let pool = self.pools.value_mut(&key);
        pool.reserve_a = pool.reserve_a - amount_a;
        pool.reserve_b = pool.reserve_b - amount_b;
        match callback(self) {
            Ok(()) => {},
            Err(e) => {
                return Err(e);
            },
        }
        let (ra, rb) = match self.pools.get(&key) {
            Some(p) => (p.reserve_a, p.reserve_b),
            None => {
                return Err(AMMError::PairNotFound);
            },
        };
        let fee_a = amount_a * 3 / 1000;
        let fee_b = amount_b * 3 / 1000;
        if ra < reserve_a_before + fee_a || rb < reserve_b_before + fee_b {
            return Err(AMMError::FlashLoanNotRepaid);
        }
        Ok(())
    }
}

} // verus!
