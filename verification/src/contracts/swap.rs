//! Constant-product (x * y = k) swap pairs with a 0.3% fee, liquidity tokens
//! and a router keyed by unordered token pairs.
use vstd::prelude::*;
use crate::keymap::{KeyMap, get_or_zero};
use crate::num::{isqrt_u128, is_isqrt, lemma_mul_u64};
use crate::text::{push_str, str_lt, seq_lt, str_eq};

verus! {

/// The ERC-20 interface.
pub trait IERC20: Sized {
    /// The token's bookkeeping is consistent.
    spec fn inv(&self) -> bool;

    /// `transfer_from` by `spender` of `amount` out of `from` can complete.
    spec fn can_transfer_from(&self, spender: Seq<char>, from: Seq<char>, amount: u64) -> bool;

    fn balance_of(&self, account: &str) -> u64;

    fn transfer(&mut self, from: &str, to: &str, amount: u64) -> (r: Result<(), String>)
        requires
            old(self).inv(),
        ensures
            final(self).inv(),
    ;

    fn approve(&mut self, owner: &str, spender: &str, amount: u64)
        requires
            old(self).inv(),
        ensures
            final(self).inv(),
    ;

    fn transfer_from(&mut self, spender: &str, from: &str, to: &str, amount: u64) -> (r: Result<
        (),
        String,
    >)
        requires
            old(self).inv(),
            old(self).can_transfer_from(spender@, from@, amount),
        ensures
            final(self).inv(),
    ;
}

/// A plain ERC-20 token.
pub struct ERC20 {
    pub name: String,
    pub symbol: String,
    pub decimals: u8,
    pub total_supply: u64,
    pub balances: KeyMap<String, u64>,
    pub allowances: KeyMap<(String, String), u64>,
}

/// Balances after debiting `from` then crediting `to` by `amount`.
pub open spec fn moved(b: Map<Seq<char>, u64>, from: Seq<char>, to: Seq<char>, amount: u64) -> Map<
    Seq<char>,
    u64,
> {
    let b1 = b.insert(from, (get_or_zero(b, from) - amount) as u64);
    b1.insert(to, (get_or_zero(b1, to) + amount) as u64)
}

impl ERC20 {
    /// The balances add up to the total supply.
    pub open spec fn wf(&self) -> bool {
        self.balances.total() == self.total_supply as int
    }

    pub open spec fn balance(&self, a: Seq<char>) -> u64 {
        get_or_zero(self.balances@, a)
    }

    /// Creates a token whose whole initial supply belongs to `creator`.
    pub fn new(name: &str, symbol: &str, decimals: u8, initial_supply: u64, creator: &str) -> (r:
        Self)
        ensures
            r.wf(),
            r.name@ == name@,
            r.symbol@ == symbol@,
            r.decimals == decimals,
            r.total_supply == initial_supply,
            r.balances@ == Map::<Seq<char>, u64>::empty().insert(creator@, initial_supply),
            r.allowances@ == Map::<(Seq<char>, Seq<char>), u64>::empty(),
    {
        let mut balances = KeyMap::new();
        balances.set_amount(creator, initial_supply);
        ERC20 {
            name: name.to_owned(),
            symbol: symbol.to_owned(),
            decimals,
            total_supply: initial_supply,
            balances,
            allowances: KeyMap::new(),
        }
    }
}

impl IERC20 for ERC20 {
    open spec fn inv(&self) -> bool {
        self.wf()
    }

    /// The allowance must cover the amount, and an allowance of zero must have been set explicitly.
    open spec fn can_transfer_from(&self, spender: Seq<char>, from: Seq<char>, amount: u64) -> bool {
        amount > 0 || self.allowances@.contains_key((from, spender))
    }

    fn balance_of(&self, account: &str) -> (r: u64)
        ensures
            r == self.balance(account@),
    {
        self.balances.amount(account)
    }

    fn transfer(&mut self, from: &str, to: &str, amount: u64) -> (r: Result<(), String>)
        ensures
            r is Err <==> old(self).balance(from@) < amount,
            r matches Err(m) ==> m@ == "余额不足"@ && final(self).balances@ == old(self).balances@,
            r is Ok ==> final(self).balances@ == moved(old(self).balances@, from@, to@, amount),
            final(self).total_supply == old(self).total_supply,
            final(self).allowances@ == old(self).allowances@,
            final(self).name@ == old(self).name@,
            final(self).symbol@ == old(self).symbol@,
            final(self).decimals == old(self).decimals,
    {
        let from_balance = self.balances.amount(from);
        if from_balance < amount {
            return Err("余额不足".to_owned());
        }
        self.balances.set_amount(from, from_balance - amount);
        let to_balance = self.balances.amount(to);
        self.balances.set_amount(to, to_balance + amount);
        Ok(())
    }

    fn approve(&mut self, owner: &str, spender: &str, amount: u64)
        ensures
            final(self).allowances@ == old(self).allowances@.insert((owner@, spender@), amount),
            final(self).balances@ == old(self).balances@,
            final(self).total_supply == old(self).total_supply,
            final(self).name@ == old(self).name@,
            final(self).symbol@ == old(self).symbol@,
            final(self).decimals == old(self).decimals,
    {
        self.allowances.insert((owner.to_owned(), spender.to_owned()), amount);
    }

    fn transfer_from(&mut self, spender: &str, from: &str, to: &str, amount: u64) -> (r: Result<
        (),
        String,
    >)
        ensures
            ({
                let allowed = get_or_zero(old(self).allowances@, (from@, spender@));
                &&& r is Err <==> (allowed < amount || old(self).balance(from@) < amount)
                &&& allowed < amount ==> (r matches Err(m) && m@ == "授权额度不足"@)
                &&& allowed >= amount && old(self).balance(from@) < amount ==> (r matches Err(m)
                    && m@ == "余额不足"@)
                &&& r is Err ==> final(self).balances@ == old(self).balances@
                    && final(self).allowances@ == old(self).allowances@
                &&& r is Ok ==> final(self).balances@ == moved(
                    old(self).balances@,
                    from@,
                    to@,
                    amount,
                ) && final(self).allowances@ == old(self).allowances@.insert(
                    (from@, spender@),
                    (allowed - amount) as u64,
                )
            }),
            final(self).total_supply == old(self).total_supply,
    {
        let key = (from.to_owned(), spender.to_owned());
        let allowance = match self.allowances.get(&key) {
            Some(a) => *a,
            None => 0,
        };
        if allowance < amount {
            return Err("授权额度不足".to_owned());
        }
        match self.transfer(from, to, amount) {
            Ok(()) => {},
            Err(e) => {
                return Err(e);
            },
        }
        self.allowances.insert(key, allowance - amount);
        Ok(())
    }
}

/// Liquidity-provider token of a pair.
pub struct LPToken {
    pub token: ERC20,
}

impl LPToken {
    /// LP token named after the pair: name `"<pair> LP"`, symbol `"<pair>-LP"`,
    /// 18 decimals, nothing issued.
    pub fn new(pair_name: &str) -> (r: Self)
        ensures
            r.token.wf(),
            r.token.name@ == pair_name@ + " LP"@,
            r.token.symbol@ == pair_name@ + "-LP"@,
            r.token.decimals == 18,
            r.token.total_supply == 0,
            r.token.balances@ == Map::<Seq<char>, u64>::empty().insert("contract"@, 0),
    {
        let mut name = String::new();
        push_str(&mut name, pair_name);
        push_str(&mut name, " LP");
        let mut symbol = String::new();
        push_str(&mut symbol, pair_name);
        push_str(&mut symbol, "-LP");
        LPToken { token: ERC20::new(name.as_str(), symbol.as_str(), 18, 0, "contract") }
    }

    /// Issues `amount` LP tokens to `to`.
    pub fn mint(&mut self, to: &str, amount: u64)
        requires
            old(self).token.wf(),
            old(self).token.total_supply + amount <= u64::MAX,
        ensures
            final(self).token.wf(),
            final(self).token.total_supply == old(self).token.total_supply + amount,
            final(self).token.balances@ == old(self).token.balances@.insert(
                to@,
                (old(self).token.balance(to@) + amount) as u64,
            ),
            final(self).token.allowances@ == old(self).token.allowances@,
    {
        let b = self.token.balances.amount(to);
        self.token.balances.set_amount(to, b + amount);
        self.token.total_supply = self.token.total_supply + amount;
    }

    /// Destroys `amount` of `from`'s LP tokens; refused when it holds less.
    pub fn burn(&mut self, from: &str, amount: u64) -> (r: Result<(), String>)
        requires
            old(self).token.wf(),
        ensures
            final(self).token.wf(),
            final(self).token.allowances@ == old(self).token.allowances@,
            r is Err <==> old(self).token.balance(from@) < amount,
            r matches Err(m) ==> m@ == "LP余额不足"@ && final(self).token.balances@ == old(
                self,
            ).token.balances@ && final(self).token.total_supply == old(self).token.total_supply,
            r is Ok ==> final(self).token.total_supply == old(self).token.total_supply - amount
                && final(self).token.balances@ == old(self).token.balances@.insert(
                from@,
                (old(self).token.balance(from@) - amount) as u64,
            ),
    {
        let balance = self.token.balances.amount(from);
        if balance < amount {
            return Err("LP余额不足".to_owned());
        }
        self.token.balances.set_amount(from, balance - amount);
        self.token.total_supply = self.token.total_supply - amount;
        Ok(())
    }

    pub fn balance_of(&self, account: &str) -> (r: u64)
        ensures
            r == self.token.balance(account@),
    {
        self.token.balances.amount(account)
    }

    pub fn total_supply(&self) -> (r: u64)
        ensures
            r == self.token.total_supply,
    {
        self.token.total_supply
    }
}

/// A trading pair with its reserves and LP token.
pub struct SwapPair {
    pub token_a: String,
    pub token_b: String,
    pub reserve_a: u64,
    pub reserve_b: u64,
    pub lp_token: LPToken,
    pub fee_rate: u64,
}

/// The input that counts after the fee (in thousandths).
pub open spec fn after_fee(amount_in: u64, fee_rate: u64) -> int {
    (amount_in * (1000 - fee_rate)) / 1000
}

/// Output of the constant-product formula: `r_out * x / (r_in + x)`.
pub open spec fn product_out(r_in: int, r_out: int, x: int) -> int {
    (r_out * x) / (r_in + x)
}

/// LP tokens granted for a deposit: the geometric mean for the first deposit,
/// otherwise the smaller of the two proportional shares.
pub open spec fn liquidity_for(total: u64, ra: u64, rb: u64, amount_a: u64, amount_b: u64) -> int {
    if total == 0 {
        (choose|r: nat| #[trigger] is_isqrt((amount_a * amount_b) as nat, r)) as int
    } else {
        let la = ((amount_a * total) / ra as int) as u64;
        let lb = ((amount_b * total) / rb as int) as u64;
        if la <= lb {
            la as int
        } else {
            lb as int
        }
    }
}

proof fn lemma_isqrt_unique(n: nat, r: nat)
    requires
        is_isqrt(n, r),
    ensures
        (choose|s: nat| #[trigger] is_isqrt(n, s)) == r,
{
    let s = choose|s: nat| #[trigger] is_isqrt(n, s);
    assert(is_isqrt(n, s));
    if s < r {
        assert(s + 1 <= r);
        assert((s + 1) * (s + 1) <= r * r) by (nonlinear_arith)
            requires
                s + 1 <= r,
        ;
    } else if s > r {
        assert(r + 1 <= s);
        assert((r + 1) * (r + 1) <= s * s) by (nonlinear_arith)
            requires
                r + 1 <= s,
        ;
    }
}

/// A proportional share of a reserve never exceeds the reserve.
pub proof fn lemma_share(l: int, r: int, t: int)
    requires
        0 <= l <= t,
        0 < t,
        0 <= r,
    ensures
        0 <= (l * r) / t <= r,
        l < t && r > 0 ==> (l * r) / t < r,
{
    assert(0 <= l * r <= t * r) by (nonlinear_arith)
        requires
            0 <= l <= t,
            0 <= r,
    ;
    assert((l * r) / t <= (t * r) / t) by (nonlinear_arith)
        requires
            l * r <= t * r,
            0 < t,
    ;
    assert((t * r) / t == r) by (nonlinear_arith)
        requires
            0 < t,
    ;
    assert(0 <= (l * r) / t) by (nonlinear_arith)
        requires
            0 <= l * r,
            0 < t,
    ;
    if l < t && r > 0 {
        assert(l * r < t * r) by (nonlinear_arith)
            requires
                l < t,
                r > 0,
        ;
        assert((l * r) / t < r) by (nonlinear_arith)
            requires
                l * r < t * r,
                0 < t,
        ;
    }
}

/// The constant-product output never exceeds the output reserve, and the
/// product of the reserves does not decrease when the whole input (at least
/// the fee-adjusted input) is added.
pub proof fn lemma_product_out(r_in: int, r_out: int, x: int, amount_in: int)
    requires
        0 <= r_in,
        0 <= r_out,
        0 <= x <= amount_in,
        r_in + x > 0,
    ensures
        0 <= product_out(r_in, r_out, x) <= r_out,
        r_in > 0 && r_out > 0 ==> product_out(r_in, r_out, x) < r_out,
        (r_in + amount_in) * (r_out - product_out(r_in, r_out, x)) >= r_in * r_out,
{
    let d = r_in + x;
    let out = product_out(r_in, r_out, x);
    assert(0 <= r_out * x <= r_out * d) by (nonlinear_arith)
        requires
            0 <= x <= d,
            0 <= r_out,
    ;
    assert(0 <= out <= r_out) by (nonlinear_arith)
        requires
            out == (r_out * x) / d,
            0 <= r_out * x <= r_out * d,
            d > 0,
    ;
    if r_in > 0 && r_out > 0 {
        assert(r_out * x < r_out * d) by (nonlinear_arith)
            requires
                x < d,
                r_out > 0,
        ;
        assert(out < r_out) by (nonlinear_arith)
            requires
                out == (r_out * x) / d,
                r_out * x < r_out * d,
                d > 0,
        ;
    }
    assert(out * d <= r_out * x) by (nonlinear_arith)
        requires
            out == (r_out * x) / d,
            d > 0,
            r_out * x >= 0,
    ;
    assert(d * (r_out - out) >= r_in * r_out) by (nonlinear_arith)
        requires
            out * d <= r_out * x,
            d == r_in + x,
    ;
    assert((r_in + amount_in) * (r_out - out) >= d * (r_out - out)) by (nonlinear_arith)
        requires
            r_in + amount_in >= d,
            r_out - out >= 0,
    ;
}

impl SwapPair {
    /// Fee at most 100%, LP bookkeeping consistent, and an issued LP supply is
    /// backed by both reserves.
    pub open spec fn wf(&self) -> bool {
        &&& self.fee_rate <= 1000
        &&& self.lp_token.token.wf()
        &&& self.lp_token.token.total_supply > 0 ==> self.reserve_a > 0 && self.reserve_b > 0
    }

    /// A pair of `token_a` and `token_b` with empty reserves and a 0.3% fee.
    pub fn new(token_a: &str, token_b: &str) -> (r: Self)
        ensures
            r.wf(),
            r.token_a@ == token_a@,
            r.token_b@ == token_b@,
            r.reserve_a == 0,
            r.reserve_b == 0,
            r.fee_rate == 3,
            r.lp_token.token.total_supply == 0,
            r.lp_token.token.name@ == token_a@ + "-"@ + token_b@ + " LP"@,
    {
        let mut pair_name = String::new();
        push_str(&mut pair_name, token_a);
        push_str(&mut pair_name, "-");
        push_str(&mut pair_name, token_b);
        SwapPair {
            token_a: token_a.to_owned(),
            token_b: token_b.to_owned(),
            reserve_a: 0,
            reserve_b: 0,
            lp_token: LPToken::new(pair_name.as_str()),
            fee_rate: 3,
        }
    }

    /// Deposits `amount_a` and `amount_b` and issues LP tokens to `provider`
    /// (`liquidity_for`); refused when that comes to zero.
    pub fn add_liquidity(&mut self, provider: &str, amount_a: u64, amount_b: u64) -> (r: Result<
        u64,
        String,
    >)
        requires
            old(self).wf(),
            liquidity_for(
                old(self).lp_token.token.total_supply,
                old(self).reserve_a,
                old(self).reserve_b,
                amount_a,
                amount_b,
            ) > 0 ==> {
                &&& old(self).reserve_a + amount_a <= u64::MAX
                &&& old(self).reserve_b + amount_b <= u64::MAX
                &&& old(self).lp_token.token.total_supply + liquidity_for(
                    old(self).lp_token.token.total_supply,
                    old(self).reserve_a,
                    old(self).reserve_b,
                    amount_a,
                    amount_b,
                ) <= u64::MAX
            },
        ensures
            final(self).wf(),
            final(self).token_a@ == old(self).token_a@,
            final(self).token_b@ == old(self).token_b@,
            final(self).fee_rate == old(self).fee_rate,
            ({
                let liq = liquidity_for(
                    old(self).lp_token.token.total_supply,
                    old(self).reserve_a,
                    old(self).reserve_b,
                    amount_a,
                    amount_b,
                );
                &&& r is Err <==> liq == 0
                &&& r matches Err(m) ==> m@ == "流动性不足"@ && final(self).reserve_a == old(
                    self,
                ).reserve_a && final(self).reserve_b == old(self).reserve_b
                    && final(self).lp_token.token.total_supply == old(
                    self,
                ).lp_token.token.total_supply && final(self).lp_token.token.balances@ == old(
                    self,
                ).lp_token.token.balances@
                &&& r matches Ok(l) ==> l == liq && final(self).reserve_a == old(self).reserve_a
                    + amount_a && final(self).reserve_b == old(self).reserve_b + amount_b
                    && final(self).lp_token.token.total_supply == old(
                    self,
                ).lp_token.token.total_supply + l && final(self).lp_token.token.balances@ == old(
                    self,
                ).lp_token.token.balances@.insert(
                    provider@,
                    (old(self).lp_token.token.balance(provider@) + l) as u64,
                )
            }),
    {
        let total = self.lp_token.total_supply();
        proof {
            lemma_mul_u64(amount_a, amount_b);
            lemma_mul_u64(amount_a, total);
            lemma_mul_u64(amount_b, total);
        }
        let liquidity: u64 = if total == 0 {
            let s = isqrt_u128(amount_a as u128 * amount_b as u128);
            proof {
                lemma_isqrt_unique((amount_a * amount_b) as nat, s as nat);
            }
            s as u64
        } else {
            let liquidity_a = (amount_a as u128 * total as u128 / self.reserve_a as u128) as u64;
            let liquidity_b = (amount_b as u128 * total as u128 / self.reserve_b as u128) as u64;
            if liquidity_a <= liquidity_b {
                liquidity_a
            } else {
                liquidity_b
            }
        };
        if liquidity == 0 {
            return Err("流动性不足".to_owned());
        }
        proof {
            if total == 0 {
                assert(amount_a > 0 && amount_b > 0) by (nonlinear_arith)
                    requires
                        (liquidity as nat) * (liquidity as nat) <= (amount_a * amount_b) as nat,
                        liquidity > 0,
                ;
            }
        }
        self.reserve_a = self.reserve_a + amount_a;
        self.reserve_b = self.reserve_b + amount_b;
        self.lp_token.mint(provider, liquidity);
        Ok(liquidity)
    }

    /// Redeems `liquidity` LP tokens of `provider` for its proportional share of
    /// both reserves.
    pub fn remove_liquidity(&mut self, provider: &str, liquidity: u64) -> (r: Result<
        (u64, u64),
        String,
    >)
        requires
            old(self).wf(),
            old(self).lp_token.token.total_supply > 0 || liquidity > 0,
        ensures
            final(self).wf(),
            final(self).token_a@ == old(self).token_a@,
            final(self).token_b@ == old(self).token_b@,
            final(self).fee_rate == old(self).fee_rate,
            r is Err <==> old(self).lp_token.token.balance(provider@) < liquidity,
            r matches Err(m) ==> m@ == "LP余额不足"@ && final(self).reserve_a == old(
                self,
            ).reserve_a && final(self).reserve_b == old(self).reserve_b
                && final(self).lp_token.token.total_supply == old(self).lp_token.token.total_supply
                && final(self).lp_token.token.balances@ == old(self).lp_token.token.balances@,
            r matches Ok((a, b)) ==> {
                let t = old(self).lp_token.token.total_supply as int;
                &&& a == (liquidity * old(self).reserve_a) / t
                &&& b == (liquidity * old(self).reserve_b) / t
                &&& final(self).reserve_a == old(self).reserve_a - a
                &&& final(self).reserve_b == old(self).reserve_b - b
                &&& final(self).lp_token.token.total_supply == t - liquidity
                &&& final(self).lp_token.token.balances@ == old(self).lp_token.token.balances@.insert(
                    provider@,
                    (old(self).lp_token.token.balance(provider@) - liquidity) as u64,
                )
            },
    {
        let lp_balance = self.lp_token.token.balances.amount(provider);
        if lp_balance < liquidity {
            return Err("LP余额不足".to_owned());
        }
        let total_supply = self.lp_token.total_supply();
        proof {
            lemma_share(liquidity as int, self.reserve_a as int, total_supply as int);
            lemma_share(liquidity as int, self.reserve_b as int, total_supply as int);
            lemma_mul_u64(liquidity, self.reserve_a);
            lemma_mul_u64(liquidity, self.reserve_b);
        }
        let amount_a = (liquidity as u128 * self.reserve_a as u128 / total_supply as u128) as u64;
        let amount_b = (liquidity as u128 * self.reserve_b as u128 / total_supply as u128) as u64;
        match self.lp_token.burn(provider, liquidity) {
            Ok(()) => {},
            Err(e) => {
                return Err(e);
            },
        }
        self.reserve_a = self.reserve_a - amount_a;
        self.reserve_b = self.reserve_b - amount_b;
        Ok((amount_a, amount_b))
    }

    /// Sells `amount_in` of token A for token B at the constant-product price
    /// after the fee; the whole input joins reserve A.
    pub fn swap_a_to_b(&mut self, amount_in: u64) -> (r: u64)
        requires
            old(self).wf(),
            amount_in * (1000 - old(self).fee_rate) <= u64::MAX,
            old(self).reserve_a + after_fee(amount_in, old(self).fee_rate) > 0,
            old(self).reserve_a + amount_in <= u64::MAX,
        ensures
            final(self).wf(),
            r == product_out(
                old(self).reserve_a as int,
                old(self).reserve_b as int,
                after_fee(amount_in, old(self).fee_rate),
            ),
            final(self).reserve_a == old(self).reserve_a + amount_in,
            final(self).reserve_b == old(self).reserve_b - r,
            final(self).reserve_a * final(self).reserve_b >= old(self).reserve_a * old(
                self,
            ).reserve_b,
            final(self).token_a@ == old(self).token_a@,
            final(self).token_b@ == old(self).token_b@,
            final(self).fee_rate == old(self).fee_rate,
            final(self).lp_token.token.total_supply == old(self).lp_token.token.total_supply,
            final(self).lp_token.token.balances@ == old(self).lp_token.token.balances@,
    {
        let amount_in_with_fee = amount_in * (1000 - self.fee_rate) / 1000;
        proof {
            lemma_after_fee(amount_in, self.fee_rate);
            lemma_mul_u64(self.reserve_b, amount_in_with_fee);
            lemma_product_out(
                self.reserve_a as int,
                self.reserve_b as int,
                amount_in_with_fee as int,
                amount_in as int,
            );
        }
        let numerator = self.reserve_b as u128 * amount_in_with_fee as u128;
        let denominator = self.reserve_a as u128 + amount_in_with_fee as u128;
        let amount_out = (numerator / denominator) as u64;
        self.reserve_a = self.reserve_a + amount_in;
        self.reserve_b = self.reserve_b - amount_out;
        amount_out
    }

    /// Sells `amount_in` of token B for token A.
    pub fn swap_b_to_a(&mut self, amount_in: u64) -> (r: u64)
        requires
            old(self).wf(),
            amount_in * (1000 - old(self).fee_rate) <= u64::MAX,
            old(self).reserve_b + after_fee(amount_in, old(self).fee_rate) > 0,
            old(self).reserve_b + amount_in <= u64::MAX,
        ensures
            final(self).wf(),
            r == product_out(
                old(self).reserve_b as int,
                old(self).reserve_a as int,
                after_fee(amount_in, old(self).fee_rate),
            ),
            final(self).reserve_b == old(self).reserve_b + amount_in,
            final(self).reserve_a == old(self).reserve_a - r,
            final(self).reserve_a * final(self).reserve_b >= old(self).reserve_a * old(
                self,
            ).reserve_b,
            final(self).token_a@ == old(self).token_a@,
            final(self).token_b@ == old(self).token_b@,
            final(self).fee_rate == old(self).fee_rate,
            final(self).lp_token.token.total_supply == old(self).lp_token.token.total_supply,
            final(self).lp_token.token.balances@ == old(self).lp_token.token.balances@,
    {
        let amount_in_with_fee = amount_in * (1000 - self.fee_rate) / 1000;
        proof {
            lemma_after_fee(amount_in, self.fee_rate);
            lemma_mul_u64(self.reserve_a, amount_in_with_fee);
            lemma_product_out(
                self.reserve_b as int,
                self.reserve_a as int,
                amount_in_with_fee as int,
                amount_in as int,
            );
            assert(self.reserve_a * self.reserve_b == self.reserve_b * self.reserve_a) by (
            nonlinear_arith);
        }
        let numerator = self.reserve_a as u128 * amount_in_with_fee as u128;
        let denominator = self.reserve_b as u128 + amount_in_with_fee as u128;
        let amount_out = (numerator / denominator) as u64;
        self.reserve_b = self.reserve_b + amount_in;
        self.reserve_a = self.reserve_a - amount_out;
        proof {
            assert(self.reserve_a * self.reserve_b == self.reserve_b * self.reserve_a) by (
            nonlinear_arith);
        }
        amount_out
    }
}

/// Registry of pairs; a pair is found under either order of its tokens.
pub struct SwapRouter {
    pub pairs: KeyMap<(String, String), usize>,
    pub pair_list: Vec<SwapPair>,
}

/// The registry key of a pair: its two tokens in ascending order.
pub open spec fn pair_key(a: Seq<char>, b: Seq<char>) -> (Seq<char>, Seq<char>) {
    if seq_lt(a, b) {
        (a, b)
    } else {
        (b, a)
    }
}

impl SwapRouter {
    /// Every registered key points at a well-formed pair of the list.
    pub open spec fn wf(&self) -> bool {
        &&& forall|k: (Seq<char>, Seq<char>)| #[trigger]
            self.pairs@.contains_key(k) ==> self.pairs@[k] < self.pair_list@.len()
        &&& forall|i: int| 0 <= i < self.pair_list@.len() ==> #[trigger] self.pair_list@[i].wf()
    }

    /// The pair registered for tokens `a` and `b`, if any.
    pub open spec fn pair_of(&self, a: Seq<char>, b: Seq<char>) -> Option<SwapPair> {
        if self.pairs@.contains_key(pair_key(a, b)) {
            Some(self.pair_list@[self.pairs@[pair_key(a, b)] as int])
        } else {
            None
        }
    }

    pub fn new() -> (r: Self)
        ensures
            r.wf(),
            r.pairs@ == Map::<(Seq<char>, Seq<char>), usize>::empty(),
    {
        SwapRouter { pairs: KeyMap::new(), pair_list: Vec::new() }
    }

    fn get_pair_key(token_a: &str, token_b: &str) -> (r: (String, String))
        ensures
            (r.0@, r.1@) == pair_key(token_a@, token_b@),
    {
        if str_lt(token_a, token_b) {
            (token_a.to_owned(), token_b.to_owned())
        } else {
            (token_b.to_owned(), token_a.to_owned())
        }
    }

    /// Registers a new pair; refused when one exists for these tokens.
    pub fn create_pair(&mut self, token_a: &str, token_b: &str) -> (r: Result<(), String>)
        requires
            old(self).wf(),
        ensures
            final(self).wf(),
            r is Err <==> old(self).pairs@.contains_key(pair_key(token_a@, token_b@)),
            r matches Err(m) ==> m@ == "交易对已存在"@ && final(self).pairs@ == old(self).pairs@,
            r is Ok ==> final(self).pairs@.dom() == old(self).pairs@.dom().insert(
                pair_key(token_a@, token_b@),
            ) && (forall|a: Seq<char>, b: Seq<char>|
                pair_key(a, b) != pair_key(token_a@, token_b@) ==> #[trigger] final(self).pair_of(a, b)
                    == old(self).pair_of(a, b)) && (final(self).pair_of(token_a@, token_b@)
                matches Some(p) && p.token_a@ == token_a@ && p.token_b@ == token_b@ && p.reserve_a
                == 0 && p.reserve_b == 0 && p.lp_token.token.total_supply == 0),
    {
        let key = Self::get_pair_key(token_a, token_b);
        if self.pairs.contains_key(&key) {
            return Err("交易对已存在".to_owned());
        }
        let pair = SwapPair::new(token_a, token_b);
        let idx = self.pair_list.len();
        self.pair_list.push(pair);
        self.pairs.insert(key, idx);
        proof {
            assert forall|a: Seq<char>, b: Seq<char>|
                pair_key(a, b) != pair_key(token_a@, token_b@) implies #[trigger] final(self).pair_of(a, b) == old(
                self,
            ).pair_of(a, b) by {
                let kk = pair_key(a, b);
                if old(self).pairs@.contains_key(kk) {
                    assert(old(self).pairs@[kk] < old(self).pair_list@.len());
                }
            }
        }
        Ok(())
    }

    /// The pair registered for `token_a` and `token_b` (in either order).
    pub fn get_pair(&self, token_a: &str, token_b: &str) -> (r: Option<&SwapPair>)
        requires
            self.wf(),
        ensures
            r matches Some(p) ==> self.pair_of(token_a@, token_b@) == Some(*p),
            r is None ==> self.pair_of(token_a@, token_b@) is None,
    {
        let key = Self::get_pair_key(token_a, token_b);
        match self.pairs.get(&key) {
            Some(i) => Some(&self.pair_list[*i]),
            None => None,
        }
    }

    /// Mutable access to the pair registered for `token_a` and `token_b`.
    pub fn get_pair_mut(&mut self, token_a: &str, token_b: &str) -> (r: Option<&mut SwapPair>)
        requires
            old(self).wf(),
        ensures
            r matches Some(p) ==> old(self).pair_of(token_a@, token_b@) == Some(*p)
                && final(self).pair_list@ == old(self).pair_list@.update(
                old(self).pairs@[pair_key(token_a@, token_b@)] as int,
                *final(p),
            ) && final(self).pairs@ == old(self).pairs@,
            r is None ==> old(self).pair_of(token_a@, token_b@) is None && *final(self) == *old(
                self,
            ),
    {
        let key = Self::get_pair_key(token_a, token_b);
        match self.pairs.get(&key) {
            Some(i) => {
                let i = *i;
                Some(&mut self.pair_list[i])
            },
            None => None,
        }
    }

    /// Adds liquidity to the pair of `token_a` and `token_b`.
    pub fn add_liquidity(
        &mut self,
        token_a: &str,
        token_b: &str,
        provider: &str,
        amount_a: u64,
        amount_b: u64,
    ) -> (r: Result<u64, String>)
        requires
            old(self).wf(),
            old(self).pair_of(token_a@, token_b@) matches Some(p) ==> liquidity_for(
                p.lp_token.token.total_supply,
                p.reserve_a,
                p.reserve_b,
                amount_a,
                amount_b,
            ) > 0 ==> {
                &&& p.reserve_a + amount_a <= u64::MAX
                &&& p.reserve_b + amount_b <= u64::MAX
                &&& p.lp_token.token.total_supply + liquidity_for(
                    p.lp_token.token.total_supply,
                    p.reserve_a,
                    p.reserve_b,
                    amount_a,
                    amount_b,
                ) <= u64::MAX
            },
        ensures
            final(self).wf(),
            final(self).pairs@ == old(self).pairs@,
            old(self).pair_of(token_a@, token_b@) is None ==> (r matches Err(m) && m@
                == "交易对不存在"@),
            old(self).pair_of(token_a@, token_b@) matches Some(p) ==> (r is Ok <==> liquidity_for(
                p.lp_token.token.total_supply,
                p.reserve_a,
                p.reserve_b,
                amount_a,
                amount_b,
            ) > 0) && (r matches Ok(l) ==> (final(self).pair_of(token_a@, token_b@) matches Some(q)
                && q.reserve_a == p.reserve_a + amount_a && q.reserve_b == p.reserve_b + amount_b
                && l == liquidity_for(
                p.lp_token.token.total_supply,
                p.reserve_a,
                p.reserve_b,
                amount_a,
                amount_b,
            ))),
    {
        let key = Self::get_pair_key(token_a, token_b);
        let i = match self.pairs.get(&key) {
            Some(i) => *i,
            None => {
                return Err("交易对不存在".to_owned());
            },
        };
        let mut pair = self.pair_list.remove(i);
        let r = pair.add_liquidity(provider, amount_a, amount_b);
        let ghost qv = pair;
        self.pair_list.insert(i, pair);
        assert(self.pair_list@ =~= old(self).pair_list@.update(i as int, qv));
        proof {
            assert forall|j: int| 0 <= j < self.pair_list@.len() implies #[trigger]
                self.pair_list@[j].wf() by {
                if j != i {
                    assert(self.pair_list@[j] == old(self).pair_list@[j]);
                }
            }
        }
        r
    }

    /// Swaps an exact input of `token_in` for `token_out` in their pair; the
    /// swap is refused (after it happened, as the pair's state shows) when it
    /// yields less than `min_amount_out`.
    pub fn swap_exact_tokens_for_tokens(
        &mut self,
        token_in: &str,
        token_out: &str,
        amount_in: u64,
        min_amount_out: u64,
    ) -> (r: Result<u64, String>)
        requires
            old(self).wf(),
            old(self).pair_of(token_in@, token_out@) matches Some(p) ==> {
                &&& amount_in * (1000 - p.fee_rate) <= u64::MAX
                &&& p.token_a@ == token_in@ ==> p.reserve_a + after_fee(amount_in, p.fee_rate) > 0
                    && p.reserve_a + amount_in <= u64::MAX
                &&& p.token_a@ != token_in@ ==> p.reserve_b + after_fee(amount_in, p.fee_rate) > 0
                    && p.reserve_b + amount_in <= u64::MAX
            },
        ensures
            final(self).wf(),
            final(self).pairs@ == old(self).pairs@,
            old(self).pair_of(token_in@, token_out@) is None ==> (r matches Err(m) && m@
                == "交易对不存在"@),
            old(self).pair_of(token_in@, token_out@) matches Some(p) ==> {
                let out = if p.token_a@ == token_in@ {
                    product_out(
                        p.reserve_a as int,
                        p.reserve_b as int,
                        after_fee(amount_in, p.fee_rate),
                    )
                } else {
                    product_out(
                        p.reserve_b as int,
                        p.reserve_a as int,
                        after_fee(amount_in, p.fee_rate),
                    )
                };
                let i = old(self).pairs@[pair_key(token_in@, token_out@)] as int;
                let q = final(self).pair_list@[i];
                &&& (r is Ok <==> out >= min_amount_out)
                &&& r matches Ok(o) ==> o == out
                &&& r matches Err(m) ==> m@ == "滑点过高"@
                // The reserves move before the slippage check, so also when it refuses.
                &&& final(self).pair_list@ == old(self).pair_list@.update(i, q)
                &&& q.token_a@ == p.token_a@ && q.token_b@ == p.token_b@ && q.fee_rate == p.fee_rate
                &&& q.lp_token.token.total_supply == p.lp_token.token.total_supply
                &&& p.token_a@ == token_in@ ==> q.reserve_a == p.reserve_a + amount_in
                    && q.reserve_b == p.reserve_b - out
                &&& p.token_a@ != token_in@ ==> q.reserve_b == p.reserve_b + amount_in
                    && q.reserve_a == p.reserve_a - out
            },
            old(self).pair_of(token_in@, token_out@) is None ==> final(self).pair_list@ == old(self).pair_list@,
    {
        let key = Self::get_pair_key(token_in, token_out);
        let i = match self.pairs.get(&key) {
            Some(i) => *i,
            None => {
                return Err("交易对不存在".to_owned());
            },
        };
        let mut pair = self.pair_list.remove(i);
        let amount_out = if str_eq(pair.token_a.as_str(), token_in) {
            pair.swap_a_to_b(amount_in)
        } else {
            pair.swap_b_to_a(amount_in)
        };
        self.pair_list.insert(i, pair);
        proof {
            assert forall|j: int| 0 <= j < self.pair_list@.len() implies #[trigger]
                self.pair_list@[j].wf() by {
                if j != i {
                    assert(self.pair_list@[j] == old(self).pair_list@[j]);
                }
            }
        }
        if amount_out < min_amount_out {
            return Err("滑点过高".to_owned());
        }
        Ok(amount_out)
    }
}

/// The fee-adjusted input lies between zero and the input.
pub proof fn lemma_after_fee(amount_in: u64, fee_rate: u64)
    requires
        fee_rate <= 1000,
    ensures
        0 <= after_fee(amount_in, fee_rate) <= amount_in,
{
    assert(0 <= after_fee(amount_in, fee_rate) <= amount_in) by (nonlinear_arith)
        requires
            fee_rate <= 1000,
    ;
}

/// Swapping never decreases the product of the reserves.
pub proof fn lemma_swap_keeps_product(r_in: u64, r_out: u64, amount_in: u64, fee_rate: u64)
    requires
        fee_rate <= 1000,
        r_in + after_fee(amount_in, fee_rate) > 0,
    ensures
        (r_in + amount_in) * (r_out - product_out(
            r_in as int,
            r_out as int,
            after_fee(amount_in, fee_rate),
        )) >= r_in * r_out,
{
    lemma_after_fee(amount_in, fee_rate);
    lemma_product_out(r_in as int, r_out as int, after_fee(amount_in, fee_rate), amount_in as int);
}

} // verus!
