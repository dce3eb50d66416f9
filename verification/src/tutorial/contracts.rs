//! Three small contracts: a fungible token, a non-fungible token and a
//! constant-product exchange of two reserves.
use vstd::prelude::*;
use crate::keymap::{KeyMap, get_or_zero};
use crate::num::{isqrt_u128, is_isqrt};
use crate::contracts::swap::{moved, lemma_share, lemma_product_out, product_out};

verus! {

/// A fungible token: balances and allowances.
pub struct TokenContract {
    name: String,
    symbol: String,
    total_supply: u64,
    balances: KeyMap<String, u64>,
    allowances: KeyMap<(String, String), u64>,
}

impl TokenContract {
    /// The balances.
    pub closed spec fn balances(&self) -> Map<Seq<char>, u64> {
        self.balances@
    }

    /// The supply.
    pub closed spec fn supply(&self) -> u64 {
        self.total_supply
    }

    /// The whole supply belongs to `creator`.
    pub fn new(name: String, symbol: String, initial_supply: u64, creator: String) -> (r: Self)
        ensures
            r.balances() == Map::<Seq<char>, u64>::empty().insert(creator@, initial_supply),
            r.supply() == initial_supply,
    {
        let mut balances = KeyMap::new();
        balances.insert(creator, initial_supply);
        TokenContract { name, symbol, total_supply: initial_supply, balances, allowances: KeyMap::new() }
    }

    /// The balance of `account` (zero when it has none).
    pub fn balance_of(&self, account: &str) -> (r: u64)
        ensures
            r == get_or_zero(self.balances(), account@),
    {
        self.balances.amount(account)
    }

    /// Moves `amount` from `from` to `to`; refused when `from` holds less.
    pub fn transfer(&mut self, from: &str, to: &str, amount: u64) -> (r: Result<(), String>)
        requires
            from@ != to@ ==> get_or_zero(old(self).balances(), to@) + amount <= u64::MAX,
        ensures
            final(self).supply() == old(self).supply(),
            get_or_zero(old(self).balances(), from@) < amount ==> (r matches Err(m) && m@ == "余额不足"@
                && final(self).balances() == old(self).balances()),
            get_or_zero(old(self).balances(), from@) >= amount ==> r is Ok && final(self).balances()
                == moved(old(self).balances(), from@, to@, amount),
    {
        let from_balance = self.balance_of(from);
        if from_balance < amount {
            return Err("余额不足".to_string());
        }
        self.balances.set_amount(from, from_balance - amount);
        let to_balance = self.balances.amount(to);
        self.balances.set_amount(to, to_balance + amount);
        Ok(())
    }
}

/// A non-fungible token: owners and URIs by token id.
pub struct NFTContract {
    name: String,
    tokens: KeyMap<u64, String>,
    token_uris: KeyMap<u64, String>,
    next_token_id: u64,
}

impl NFTContract {
    /// Owners by token id.
    pub closed spec fn owners(&self) -> Map<u64, Seq<char>> {
        Map::new(|k: u64| self.tokens@.contains_key(k), |k: u64| self.tokens@[k]@)
    }

    /// URIs by token id.
    pub closed spec fn uris(&self) -> Map<u64, Seq<char>> {
        Map::new(|k: u64| self.token_uris@.contains_key(k), |k: u64| self.token_uris@[k]@)
    }

    /// The id the next mint takes.
    pub closed spec fn next_id(&self) -> u64 {
        self.next_token_id
    }

    pub fn new(name: String) -> (r: Self)
        ensures
            r.owners() == Map::<u64, Seq<char>>::empty(),
            r.uris() == Map::<u64, Seq<char>>::empty(),
            r.next_id() == 1,
    {
        let r = NFTContract { name, tokens: KeyMap::new(), token_uris: KeyMap::new(), next_token_id: 1 };
        assert(r.owners() =~= Map::<u64, Seq<char>>::empty());
        assert(r.uris() =~= Map::<u64, Seq<char>>::empty());
        r
    }

    /// Mints the next token to `to` with `uri` and returns its id.
    pub fn mint(&mut self, to: String, uri: String) -> (r: u64)
        requires
            old(self).next_id() < u64::MAX,
        ensures
            r == old(self).next_id(),
            final(self).next_id() == r + 1,
            final(self).owners() == old(self).owners().insert(r, to@),
            final(self).uris() == old(self).uris().insert(r, uri@),
    {
        let token_id = self.next_token_id;
        let ghost o = self.owners();
        let ghost u = self.uris();
        let ghost to_v = to@;
        let ghost uri_v = uri@;
        self.tokens.insert(token_id, to);
        self.token_uris.insert(token_id, uri);
        self.next_token_id = self.next_token_id + 1;
        assert(self.owners() =~= o.insert(token_id, to_v));
        assert(self.uris() =~= u.insert(token_id, uri_v));
        token_id
    }

    /// The owner of `token_id`, if minted.
    pub fn owner_of(&self, token_id: u64) -> (r: Option<String>)
        ensures
            self.owners().contains_key(token_id) ==> (r matches Some(o) && o@ == self.owners()[token_id]),
            !self.owners().contains_key(token_id) ==> r is None,
    {
        match self.tokens.get(&token_id) {
            Some(o) => Some(o.clone()),
            None => None,
        }
    }

    /// Gives `token_id` to `to`; only its owner `from` may.
    pub fn transfer(&mut self, from: &str, to: &str, token_id: u64) -> (r: Result<(), String>)
        ensures
            final(self).next_id() == old(self).next_id(),
            final(self).uris() == old(self).uris(),
            old(self).owners().contains_key(token_id) && old(self).owners()[token_id] == from@ ==> r is Ok
                && final(self).owners() == old(self).owners().insert(token_id, to@),
            !(old(self).owners().contains_key(token_id) && old(self).owners()[token_id] == from@) ==> (r matches Err(m) && m@ == "无权转移"@ && final(self).owners() == old(self).owners()),
    {
        let owned = match self.tokens.get(&token_id) {
            Some(owner) => crate::text::str_eq(owner.as_str(), from),
            None => false,
        };
        if owned {
            let ghost o = self.owners();
            self.tokens.insert(token_id, to.to_string());
            assert(self.owners() =~= o.insert(token_id, to@));
            Ok(())
        } else {
            Err("无权转移".to_string())
        }
    }
}

/// A constant-product exchange of two reserves with liquidity shares.
pub struct AMMContract {
    token_a_reserve: u64,
    token_b_reserve: u64,
    total_liquidity: u64,
    liquidity_providers: KeyMap<String, u64>,
}

/// Liquidity granted for a deposit: the integer square root of the product
/// for the first deposit, otherwise the smaller proportional share.
pub open spec fn granted(total: u64, ra: u64, rb: u64, a: u64, b: u64) -> int {
    if total == 0 {
        (choose|r: nat| #[trigger] is_isqrt((a * b) as nat, r)) as int
    } else {
        let la = (a * total) / (ra as int);
        let lb = (b * total) / (rb as int);
        if la <= lb {
            la
        } else {
            lb
        }
    }
}

proof fn lemma_isqrt_is(n: nat, r: nat)
    requires
        is_isqrt(n, r),
    ensures
        (choose|s: nat| #[trigger] is_isqrt(n, s)) == r,
{
    let s = choose|s: nat| #[trigger] is_isqrt(n, s);
    assert(is_isqrt(n, s));
    if s < r {
        assert((s + 1) * (s + 1) <= r * r) by (nonlinear_arith)
            requires
                s + 1 <= r,
        ;
    } else if s > r {
        assert((r + 1) * (r + 1) <= s * s) by (nonlinear_arith)
            requires
                r + 1 <= s,
        ;
    }
}

impl AMMContract {
    /// Reserve A.
    pub closed spec fn reserve_a(&self) -> u64 {
        self.token_a_reserve
    }

    /// Reserve B.
    pub closed spec fn reserve_b(&self) -> u64 {
        self.token_b_reserve
    }

    /// Total liquidity issued.
    pub closed spec fn total(&self) -> u64 {
        self.total_liquidity
    }

    /// Liquidity by provider.
    pub closed spec fn shares(&self) -> Map<Seq<char>, u64> {
        self.liquidity_providers@
    }

    pub fn new() -> (r: Self)
        ensures
            r.reserve_a() == 0,
            r.reserve_b() == 0,
            r.total() == 0,
            r.shares() == Map::<Seq<char>, u64>::empty(),
    {
        AMMContract { token_a_reserve: 0, token_b_reserve: 0, total_liquidity: 0, liquidity_providers: KeyMap::new() }
    }

    /// Deposits `amount_a` and `amount_b` and credits `provider` with the
    /// liquidity granted (`granted`), which is returned.
    pub fn add_liquidity(&mut self, provider: String, amount_a: u64, amount_b: u64) -> (r: u64)
        requires
            old(self).total() == 0 ==> amount_a * amount_b <= u64::MAX,
            old(self).total() != 0 ==> old(self).reserve_a() > 0 && old(self).reserve_b() > 0
                && amount_a * old(self).total() <= u64::MAX && amount_b * old(self).total() <= u64::MAX,
            old(self).reserve_a() + amount_a <= u64::MAX,
            old(self).reserve_b() + amount_b <= u64::MAX,
            old(self).total() + granted(old(self).total(), old(self).reserve_a(), old(self).reserve_b(), amount_a, amount_b) <= u64::MAX,
            get_or_zero(old(self).shares(), provider@) + granted(old(self).total(), old(self).reserve_a(), old(self).reserve_b(), amount_a, amount_b) <= u64::MAX,
        ensures
            r == granted(old(self).total(), old(self).reserve_a(), old(self).reserve_b(), amount_a, amount_b),
            final(self).reserve_a() == old(self).reserve_a() + amount_a,
            final(self).reserve_b() == old(self).reserve_b() + amount_b,
            final(self).total() == old(self).total() + r,
            final(self).shares() == old(self).shares().insert(provider@, (get_or_zero(old(self).shares(), provider@) + r) as u64),
    {
        let liquidity: u64 = if self.total_liquidity == 0 {
            let s = isqrt_u128((amount_a * amount_b) as u128);
            proof {
                lemma_isqrt_is((amount_a * amount_b) as nat, s as nat);
            }
            s as u64
        } else {
            let liquidity_a = (amount_a * self.total_liquidity) / self.token_a_reserve;
            let liquidity_b = (amount_b * self.total_liquidity) / self.token_b_reserve;
            if liquidity_a <= liquidity_b {
                liquidity_a
            } else {
                liquidity_b
            }
        };
        self.token_a_reserve = self.token_a_reserve + amount_a;
        self.token_b_reserve = self.token_b_reserve + amount_b;
        self.total_liquidity = self.total_liquidity + liquidity;
        let current = self.liquidity_providers.amount(provider.as_str());
        self.liquidity_providers.set_amount(provider.as_str(), current + liquidity);
        liquidity
    }

    /// Sells `amount_in` (0.3% fee) of A for B, or of B for A; the whole input
    /// joins its reserve and the output `r_out * x / (r_in + x)` leaves the other.
    pub fn swap(&mut self, amount_in: u64, is_a_to_b: bool) -> (r: u64)
        requires
            amount_in * 997 <= u64::MAX,
            ({
                let x = (amount_in * 997) / 1000;
                let (rin, rout) = if is_a_to_b {
                    (old(self).reserve_a(), old(self).reserve_b())
                } else {
                    (old(self).reserve_b(), old(self).reserve_a())
                };
                &&& x * rout <= u64::MAX
                &&& rin + x > 0
                &&& rin + amount_in <= u64::MAX
            }),
        ensures
            ({
                let x = (amount_in * 997) / 1000;
                let (rin, rout) = if is_a_to_b {
                    (old(self).reserve_a(), old(self).reserve_b())
                } else {
                    (old(self).reserve_b(), old(self).reserve_a())
                };
                &&& r == product_out(rin as int, rout as int, x)
                &&& is_a_to_b ==> final(self).reserve_a() == old(self).reserve_a() + amount_in
                    && final(self).reserve_b() == old(self).reserve_b() - r
                &&& !is_a_to_b ==> final(self).reserve_b() == old(self).reserve_b() + amount_in
                    && final(self).reserve_a() == old(self).reserve_a() - r
            }),
            final(self).total() == old(self).total(),
            final(self).shares() == old(self).shares(),
    {
        let amount_in_with_fee = amount_in * 997 / 1000;
        proof {
            let x = amount_in_with_fee as int;
            assert(0 <= x <= amount_in) by (nonlinear_arith)
                requires
                    x == (amount_in * 997) / 1000,
            ;
            let (rin, rout) = if is_a_to_b {
                (self.token_a_reserve, self.token_b_reserve)
            } else {
                (self.token_b_reserve, self.token_a_reserve)
            };
            lemma_product_out(rin as int, rout as int, x, amount_in as int);
            assert(x * rout == rout * x) by (nonlinear_arith);
        }
        if is_a_to_b {
            let amount_out = (amount_in_with_fee * self.token_b_reserve) / (self.token_a_reserve
                + amount_in_with_fee);
            self.token_a_reserve = self.token_a_reserve + amount_in;
            self.token_b_reserve = self.token_b_reserve - amount_out;
            amount_out
        } else {
            let amount_out = (amount_in_with_fee * self.token_a_reserve) / (self.token_b_reserve
                + amount_in_with_fee);
            self.token_b_reserve = self.token_b_reserve + amount_in;
            self.token_a_reserve = self.token_a_reserve - amount_out;
            amount_out
        }
    }
}

} // verus!
