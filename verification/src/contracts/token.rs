//! Fungible token with a fixed 21,000,000-unit issuance, allowances, minting
//! by the owner and burning.
use vstd::prelude::*;
use crate::keymap::{KeyMap, get_or_zero};
use crate::num::{pow10, pow10_u64, lemma_pow10_pos};
use crate::text::{decimal, repeat_char, str_eq, u64_to_string, push_char, push_str, repeat};
use vstd::string::StrSliceExecFns;

verus! {

/// Token state: metadata, balances and allowances keyed by `(owner, spender)`.
pub struct TokenContract {
    pub name: String,
    pub symbol: String,
    pub decimals: u8,
    pub total_supply: u64,
    pub balances: KeyMap<String, u64>,
    pub allowances: KeyMap<(String, String), u64>,
    pub owner: String,
}

/// A transfer notification.
pub struct TransferEvent {
    pub from: String,
    pub to: String,
    pub amount: u64,
}

/// An approval notification.
pub struct ApprovalEvent {
    pub owner: String,
    pub spender: String,
    pub amount: u64,
}

/// Why a token operation was refused.
#[derive(Debug, Clone, Copy, PartialEq, Eq, Structural)]
pub enum TokenError {
    InsufficientBalance,
    InsufficientAllowance,
    NotOwner,
}

/// Balances after moving `amount` from `from` to `to`: the sender is debited
/// first, then the receiver (possibly the same account) is credited.
pub open spec fn transferred(b: Map<Seq<char>, u64>, from: Seq<char>, to: Seq<char>, amount: u64) -> Map<
    Seq<char>,
    u64,
> {
    let b1 = b.insert(from, (get_or_zero(b, from) - amount) as u64);
    b1.insert(to, (get_or_zero(b1, to) + amount) as u64)
}

/// The issuance of a token with `d` decimals: 21,000,000 whole units.
pub open spec fn initial_supply(d: nat) -> nat {
    21_000_000 * pow10(d)
}

/// `s` left-padded with zeros to at least `w` characters.
pub open spec fn zero_pad(s: Seq<char>, w: nat) -> Seq<char> {
    if s.len() < w {
        repeat_char('0', (w - s.len()) as nat) + s
    } else {
        s
    }
}

impl TokenContract {
    /// The balances always add up to the total supply.
    pub open spec fn wf(&self) -> bool {
        self.balances.total() == self.total_supply as int
    }

    pub open spec fn balance(&self, a: Seq<char>) -> u64 {
        get_or_zero(self.balances@, a)
    }

    pub open spec fn allowed(&self, owner: Seq<char>, spender: Seq<char>) -> u64 {
        get_or_zero(self.allowances@, (owner, spender))
    }

    /// Everything but the balances and the total supply is as in `other`.
    pub open spec fn same_meta(&self, other: &Self) -> bool {
        &&& self.name@ == other.name@
        &&& self.symbol@ == other.symbol@
        &&& self.decimals == other.decimals
        &&& self.owner@ == other.owner@
    }

    /// Creates the token; the whole issuance is credited to `owner`.
    pub fn new(name: String, symbol: String, decimals: u8, owner: String) -> (r: Self)
        requires
            initial_supply(decimals as nat) <= u64::MAX,
        ensures
            r.wf(),
            r.name@ == name@,
            r.symbol@ == symbol@,
            r.decimals == decimals,
            r.owner@ == owner@,
            r.total_supply == initial_supply(decimals as nat),
            r.balances@ == Map::<Seq<char>, u64>::empty().insert(owner@, r.total_supply),
            r.allowances@ == Map::<(Seq<char>, Seq<char>), u64>::empty(),
    {
        proof {
            lemma_pow10_pos(decimals as nat);
        }
        let p = pow10_u64(decimals as u32);
        let total_supply = 21_000_000u64 * p;
        let mut balances = KeyMap::new();
        let key = owner.clone();
        balances.set_amount(key.as_str(), total_supply);
        TokenContract {
            name,
            symbol,
            decimals,
            total_supply,
            balances,
            allowances: KeyMap::new(),
            owner,
        }
    }

    pub fn name(&self) -> (r: &str)
        ensures
            r@ == self.name@,
    {
        self.name.as_str()
    }

    pub fn symbol(&self) -> (r: &str)
        ensures
            r@ == self.symbol@,
    {
        self.symbol.as_str()
    }

    pub fn decimals(&self) -> (r: u8)
        ensures
            r == self.decimals,
    {
        self.decimals
    }

    pub fn total_supply(&self) -> (r: u64)
        ensures
            r == self.total_supply,
    {
        self.total_supply
    }

    /// Balance of `account` (zero when it has none).
    pub fn balance_of(&self, account: &str) -> (r: u64)
        ensures
            r == self.balance(account@),
    {
        self.balances.amount(account)
    }

    /// Moves `amount` from `from` to `to`; refused when `from` holds less.
    pub fn transfer(&mut self, from: &str, to: &str, amount: u64) -> (r: Result<(), TokenError>)
        requires
            old(self).wf(),
        ensures
            final(self).wf(),
            final(self).same_meta(old(self)),
            final(self).allowances@ == old(self).allowances@,
            final(self).total_supply == old(self).total_supply,
            r is Err <==> old(self).balance(from@) < amount,
            r is Err ==> r == Err::<(), TokenError>(TokenError::InsufficientBalance)
                && final(self).balances@ == old(self).balances@,
            r is Ok ==> final(self).balances@ == transferred(old(self).balances@, from@, to@, amount),
    {
        let from_balance = self.balances.amount(from);
        if from_balance < amount {
            return Err(TokenError::InsufficientBalance);
        }
        self.balances.set_amount(from, from_balance - amount);
        let to_balance = self.balances.amount(to);
        self.balances.set_amount(to, to_balance + amount);
        Ok(())
    }

    /// Sets the allowance of `spender` over `owner`'s tokens.
    pub fn approve(&mut self, owner: &str, spender: &str, amount: u64) -> (r: Result<(), TokenError>)
        requires
            old(self).wf(),
        ensures
            r is Ok,
            final(self).wf(),
            final(self).same_meta(old(self)),
            final(self).total_supply == old(self).total_supply,
            final(self).balances@ == old(self).balances@,
            final(self).allowances@ == old(self).allowances@.insert((owner@, spender@), amount),
    {
        self.allowances.insert((owner.to_owned(), spender.to_owned()), amount);
        Ok(())
    }

    /// What `spender` may still move out of `owner`'s balance.
    pub fn allowance(&self, owner: &str, spender: &str) -> (r: u64)
        ensures
            r == self.allowed(owner@, spender@),
    {
        let key = (owner.to_owned(), spender.to_owned());
        match self.allowances.get(&key) {
            Some(v) => *v,
            None => 0,
        }
    }

    /// `spender` moves `amount` from `from` to `to` within its allowance, which
    /// then shrinks by `amount`.
    pub fn transfer_from(&mut self, spender: &str, from: &str, to: &str, amount: u64) -> (r: Result<
        (),
        TokenError,
    >)
        requires
            old(self).wf(),
        ensures
            final(self).wf(),
            final(self).same_meta(old(self)),
            final(self).total_supply == old(self).total_supply,
            r == Err::<(), TokenError>(TokenError::InsufficientAllowance) <==> old(self).allowed(
                from@,
                spender@,
            ) < amount,
            r == Err::<(), TokenError>(TokenError::InsufficientBalance) <==> (old(self).allowed(
                from@,
                spender@,
            ) >= amount && old(self).balance(from@) < amount),
            r is Ok <==> (old(self).allowed(from@, spender@) >= amount && old(self).balance(from@) >= amount),
            r is Err ==> final(self).balances@ == old(self).balances@ && final(self).allowances@
                == old(self).allowances@,
            r is Ok ==> final(self).balances@ == transferred(old(self).balances@, from@, to@, amount)
                && final(self).allowances@ == old(self).allowances@.insert(
                (from@, spender@),
                (old(self).allowed(from@, spender@) - amount) as u64,
            ),
    {
        let allowed = self.allowance(from, spender);
        if allowed < amount {
            return Err(TokenError::InsufficientAllowance);
        }
        match self.transfer(from, to, amount) {
            Ok(()) => {},
            Err(e) => {
                return Err(e);
            },
        }
        self.allowances.insert((from.to_owned(), spender.to_owned()), allowed - amount);
        Ok(())
    }

    /// Creates `amount` new tokens for `to`; only the owner may mint.
    pub fn mint(&mut self, to: &str, amount: u64, caller: &str) -> (r: Result<(), TokenError>)
        requires
            old(self).wf(),
            caller@ == old(self).owner@ ==> old(self).total_supply + amount <= u64::MAX,
        ensures
            final(self).wf(),
            final(self).same_meta(old(self)),
            final(self).allowances@ == old(self).allowances@,
            r is Err <==> caller@ != old(self).owner@,
            r is Err ==> r == Err::<(), TokenError>(TokenError::NotOwner) && final(self).balances@
                == old(self).balances@ && final(self).total_supply == old(self).total_supply,
            r is Ok ==> final(self).total_supply == old(self).total_supply + amount
                && final(self).balances@ == old(self).balances@.insert(
                to@,
                (old(self).balance(to@) + amount) as u64,
            ),
    {
        if !str_eq(caller, self.owner.as_str()) {
            return Err(TokenError::NotOwner);
        }
        self.total_supply = self.total_supply + amount;
        let to_balance = self.balances.amount(to);
        self.balances.set_amount(to, to_balance + amount);
        Ok(())
    }

    /// Destroys `amount` of `from`'s tokens; refused when `from` holds less.
    pub fn burn(&mut self, from: &str, amount: u64) -> (r: Result<(), TokenError>)
        requires
            old(self).wf(),
        ensures
            final(self).wf(),
            final(self).same_meta(old(self)),
            final(self).allowances@ == old(self).allowances@,
            r is Err <==> old(self).balance(from@) < amount,
            r is Err ==> r == Err::<(), TokenError>(TokenError::InsufficientBalance)
                && final(self).balances@ == old(self).balances@ && final(self).total_supply == old(
                self,
            ).total_supply,
            r is Ok ==> final(self).total_supply == old(self).total_supply - amount
                && final(self).balances@ == old(self).balances@.insert(
                from@,
                (old(self).balance(from@) - amount) as u64,
            ),
    {
        let from_balance = self.balances.amount(from);
        if from_balance < amount {
            return Err(TokenError::InsufficientBalance);
        }
        self.balances.set_amount(from, from_balance - amount);
        self.total_supply = self.total_supply - amount;
        Ok(())
    }

    /// Renders `amount` in whole units at the token's precision: integer
    /// part, a point, the fractional part zero-padded to `decimals` digits, a
    /// space and the symbol.
    pub fn format_amount(&self, amount: u64) -> (r: String)
        requires
            pow10(self.decimals as nat) <= u64::MAX,
        ensures
            r@ == decimal((amount as nat) / pow10(self.decimals as nat)) + seq!['.'] + zero_pad(
                decimal((amount as nat) % pow10(self.decimals as nat)),
                self.decimals as nat,
            ) + seq![' '] + self.symbol@,
    {
        proof {
            lemma_pow10_pos(self.decimals as nat);
        }
        let divisor = pow10_u64(self.decimals as u32);
        let integer_part = amount / divisor;
        let decimal_part = amount % divisor;
        let mut s = u64_to_string(integer_part);
        push_char(&mut s, '.');
        let frac = u64_to_string(decimal_part);
        let frac_len = frac.unicode_len();
        if frac_len < self.decimals as usize {
            let pad = repeat('0', self.decimals as usize - frac_len);
            push_str(&mut s, pad.as_str());
        }
        push_str(&mut s, frac.as_str());
        push_char(&mut s, ' ');
        push_str(&mut s, self.symbol.as_str());
        s
    }
}

/// Moving an amount from one account to another and back leaves every balance
/// as it was.
pub proof fn lemma_transfer_round_trip(
    b: Map<Seq<char>, u64>,
    x: Seq<char>,
    y: Seq<char>,
    amount: u64,
    c: Seq<char>,
)
    requires
        get_or_zero(b, x) >= amount,
        get_or_zero(b, y) + amount <= u64::MAX,
    ensures
        get_or_zero(transferred(transferred(b, x, y, amount), y, x, amount), c) == get_or_zero(b, c),
{
}

/// A transfer never changes the sum of the sender's and receiver's balances,
/// and leaves every other account alone.
pub proof fn lemma_transfer_local(
    b: Map<Seq<char>, u64>,
    x: Seq<char>,
    y: Seq<char>,
    amount: u64,
    c: Seq<char>,
)
    requires
        get_or_zero(b, x) >= amount,
        x != y ==> get_or_zero(b, y) + amount <= u64::MAX,
    ensures
        c != x && c != y ==> get_or_zero(transferred(b, x, y, amount), c) == get_or_zero(b, c),
        x != y ==> get_or_zero(transferred(b, x, y, amount), x) + get_or_zero(
            transferred(b, x, y, amount),
            y,
        ) == get_or_zero(b, x) + get_or_zero(b, y),
        x == y ==> get_or_zero(transferred(b, x, y, amount), x) == get_or_zero(b, x),
{
}

} // verus!
