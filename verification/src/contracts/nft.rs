//! Non-fungible tokens: minting by the contract owner, transfers, per-token
//! and operator approvals, metadata URIs and burning.
use vstd::prelude::*;
use crate::keymap::{KeyMap, get_or_zero, key_at, entries_map, distinct_keys, lemma_entries_map_at, sum_values};
use crate::text::str_eq;

verus! {

/// NFT contract state.
pub struct NFTContract {
    pub name: String,
    pub symbol: String,
    pub owners: KeyMap<u64, String>,
    pub balances: KeyMap<String, u64>,
    pub token_approvals: KeyMap<u64, String>,
    pub operator_approvals: KeyMap<(String, String), bool>,
    pub token_uris: KeyMap<u64, String>,
    pub current_token_id: u64,
    pub owner: String,
}

/// Token metadata.
pub struct NFTMetadata {
    pub name: String,
    pub description: String,
    pub image: String,
    pub attributes: Vec<NFTAttribute>,
}

/// One metadata attribute.
pub struct NFTAttribute {
    pub trait_type: String,
    pub value: String,
}

/// A transfer notification.
pub struct TransferEvent {
    pub from: String,
    pub to: String,
    pub token_id: u64,
}

/// An approval notification.
pub struct ApprovalEvent {
    pub owner: String,
    pub approved: String,
    pub token_id: u64,
}

/// Why an NFT operation was refused.
#[derive(Debug, Clone, Copy, PartialEq, Eq, Structural)]
pub enum NFTError {
    NotOwner,
    NotAuthorized,
    TokenNotFound,
    AlreadyExists,
}

/// Entry `j` of `es` holds token `id` owned by `owner`.
pub open spec fn entry_owned_by(es: Seq<(u64, String)>, j: int, id: u64, owner: Seq<char>) -> bool {
    0 <= j < es.len() && es[j].0 == id && es[j].1@ == owner
}

/// The tokens that `a` owns.
pub open spec fn owned(m: Map<u64, String>, a: Seq<char>) -> Set<u64> {
    m.dom().filter(|id: u64| m[id]@ == a)
}

proof fn lemma_owned_finite(m: Map<u64, String>, a: Seq<char>)
    requires
        m.dom().finite(),
    ensures
        owned(m, a).finite(),
        owned(m, a).len() <= m.dom().len(),
{
    vstd::set_lib::lemma_len_subset(owned(m, a), m.dom());
}

/// How the number of tokens of `a` changes when token `k` gets owner `v`.
proof fn lemma_owned_insert(m: Map<u64, String>, k: u64, v: String, a: Seq<char>)
    requires
        m.dom().finite(),
    ensures
        owned(m.insert(k, v), a).finite(),
        owned(m.insert(k, v), a).len() == owned(m, a).len() + (if v@ == a && !owned(
            m,
            a,
        ).contains(k) {
            1int
        } else if v@ != a && owned(m, a).contains(k) {
            -1int
        } else {
            0int
        }),
{
    lemma_owned_finite(m, a);
    if v@ == a {
        assert(owned(m.insert(k, v), a) =~= owned(m, a).insert(k));
        vstd::set::axiom_set_insert_len(owned(m, a), k);
    } else {
        assert(owned(m.insert(k, v), a) =~= owned(m, a).remove(k));
        vstd::set::axiom_set_remove_len(owned(m, a), k);
    }
}

/// How the number of tokens of `a` changes when token `k` is destroyed.
proof fn lemma_owned_remove(m: Map<u64, String>, k: u64, a: Seq<char>)
    requires
        m.dom().finite(),
    ensures
        owned(m.remove(k), a).len() == owned(m, a).len() - (if owned(m, a).contains(k) {
            1int
        } else {
            0int
        }),
{
    lemma_owned_finite(m, a);
    assert(owned(m.remove(k), a) =~= owned(m, a).remove(k));
    vstd::set::axiom_set_remove_len(owned(m, a), k);
}

/// An account that does not own `k` owns fewer tokens than exist.
proof fn lemma_owned_other(m: Map<u64, String>, a: Seq<char>, k: u64)
    requires
        m.dom().finite(),
        m.contains_key(k),
        m[k]@ != a,
    ensures
        owned(m, a).len() + 1 <= m.dom().len(),
{
    lemma_owned_finite(m, a);
    vstd::set::axiom_set_insert_len(owned(m, a), k);
    vstd::set_lib::lemma_len_subset(owned(m, a).insert(k), m.dom());
}

/// The tokens whose owner is one of `ks`.
pub open spec fn owned_by_any(m: Map<u64, String>, ks: Set<Seq<char>>) -> Set<u64> {
    m.dom().filter(|id: u64| ks.contains(m[id]@))
}

/// The keys of the first `j` entries.
pub open spec fn keys_before(es: Seq<(String, u64)>, j: int) -> Set<Seq<char>> {
    Set::new(|a: Seq<char>| exists|i: int| 0 <= i < j && #[trigger] es[i].0@ == a)
}

/// The first `j` balances add up to the tokens owned by their accounts.
proof fn lemma_sum_owned(m: Map<u64, String>, es: Seq<(String, u64)>, j: int)
    requires
        m.dom().finite(),
        distinct_keys(es),
        0 <= j <= es.len(),
        forall|i: int| 0 <= i < es.len() ==> #[trigger] es[i].1 == owned(m, es[i].0@).len(),
    ensures
        sum_values(es.take(j)) == owned_by_any(m, keys_before(es, j)).len(),
        owned_by_any(m, keys_before(es, j)).finite(),
    decreases j,
{
    vstd::set_lib::lemma_len_subset(owned_by_any(m, keys_before(es, j)), m.dom());
    if j == 0 {
        assert(owned_by_any(m, keys_before(es, 0)) =~= Set::<u64>::empty());
        assert(es.take(0) =~= Seq::<(String, u64)>::empty());
    } else {
        lemma_sum_owned(m, es, j - 1);
        let a = es[j - 1].0@;
        let ks = keys_before(es, j - 1);
        assert(keys_before(es, j) =~= ks.insert(a));
        assert(!ks.contains(a)) by {
            if ks.contains(a) {
                let i = choose|i: int| 0 <= i < j - 1 && #[trigger] es[i].0@ == a;
                assert(es[i].0@ != es[j - 1].0@);
            }
        }
        lemma_owned_finite(m, a);
        assert(owned_by_any(m, ks.insert(a)) =~= owned_by_any(m, ks).union(owned(m, a)));
        assert(owned_by_any(m, ks).disjoint(owned(m, a)));
        vstd::set_lib::lemma_set_disjoint_lens(owned_by_any(m, ks), owned(m, a));
        assert(es.take(j).drop_last() =~= es.take(j - 1));
        assert(es.take(j).last() == es[j - 1]);
    }
}

impl NFTContract {
    /// Balances count owned tokens; token ids are at most the last minted id.
    pub open spec fn wf(&self) -> bool {
        &&& self.owners@.dom().finite()
        &&& self.owners@.len() <= self.current_token_id
        &&& forall|id: u64| #[trigger] self.owners@.contains_key(id) ==> 1 <= id <= self.current_token_id
        &&& forall|a: Seq<char>|
            #[trigger] get_or_zero(self.balances@, a) == owned(self.owners@, a).len()
    }

    pub open spec fn owner_view(&self, id: u64) -> Option<String> {
        if self.owners@.contains_key(id) {
            Some(self.owners@[id])
        } else {
            None
        }
    }

    pub open spec fn operator(&self, owner: Seq<char>, op: Seq<char>) -> bool {
        self.operator_approvals@.contains_key((owner, op)) && self.operator_approvals@[(owner, op)]
    }

    /// `spender` owns `id`, is approved for it, or is an operator of its owner.
    pub open spec fn authorized(&self, spender: Seq<char>, id: u64) -> bool {
        &&& self.owners@.contains_key(id)
        &&& {
            ||| spender == self.owners@[id]@
            ||| (self.token_approvals@.contains_key(id) && self.token_approvals@[id]@ == spender)
            ||| self.operator(self.owners@[id]@, spender)
        }
    }

    /// Name, symbol, owner and last id are as in `other`.
    pub open spec fn same_meta(&self, other: &Self) -> bool {
        &&& self.name@ == other.name@
        &&& self.symbol@ == other.symbol@
        &&& self.owner@ == other.owner@
    }

    pub open spec fn unchanged(&self, other: &Self) -> bool {
        &&& self.same_meta(other)
        &&& self.current_token_id == other.current_token_id
        &&& self.owners@ == other.owners@
        &&& self.balances@ == other.balances@
        &&& self.token_approvals@ == other.token_approvals@
        &&& self.operator_approvals@ == other.operator_approvals@
        &&& self.token_uris@ == other.token_uris@
    }

    pub fn new(name: String, symbol: String, owner: String) -> (r: Self)
        ensures
            r.wf(),
            r.name@ == name@,
            r.symbol@ == symbol@,
            r.owner@ == owner@,
            r.current_token_id == 0,
            r.owners@ == Map::<u64, String>::empty(),
            r.balances@ == Map::<Seq<char>, u64>::empty(),
            r.token_approvals@ == Map::<u64, String>::empty(),
            r.operator_approvals@ == Map::<(Seq<char>, Seq<char>), bool>::empty(),
            r.token_uris@ == Map::<u64, String>::empty(),
    {
        let r = NFTContract {
            name,
            symbol,
            owners: KeyMap::new(),
            balances: KeyMap::new(),
            token_approvals: KeyMap::new(),
            operator_approvals: KeyMap::new(),
            token_uris: KeyMap::new(),
            current_token_id: 0,
            owner,
        };
        assert forall|a: Seq<char>| #[trigger]
            get_or_zero(r.balances@, a) == owned(r.owners@, a).len() by {
            assert(owned(r.owners@, a) =~= Set::<u64>::empty());
        }
        r
    }

    pub fn name(&self) -> (r: &str)
        ensures
            r@ == self.name@,
    {
        self.name.as_str()
    }

    pub fn symbol(&self) -> (r: &str)
        ensures
            r@ == self.symbol@,
    {
        self.symbol.as_str()
    }

    /// Owner of `token_id`, if the token exists.
    pub fn owner_of(&self, token_id: u64) -> (r: Option<String>)
        ensures
            r == self.owner_view(token_id),
    {
        match self.owners.get(&token_id) {
            Some(o) => Some(o.clone()),
            None => None,
        }
    }

    /// Number of tokens held by `owner`.
    pub fn balance_of(&self, owner: &str) -> (r: u64)
        ensures
            r == get_or_zero(self.balances@, owner@),
    {
        self.balances.amount(owner)
    }

    /// Mints the next token id to `to` with metadata `uri`; only the contract
    /// owner may mint.
    pub fn mint(&mut self, to: &str, uri: String, caller: &str) -> (r: Result<u64, NFTError>)
        requires
            old(self).wf(),
            caller@ == old(self).owner@ ==> old(self).current_token_id < u64::MAX,
        ensures
            final(self).wf(),
            final(self).same_meta(old(self)),
            r is Err <==> caller@ != old(self).owner@,
            r is Err ==> r == Err::<u64, NFTError>(NFTError::NotOwner) && final(self).unchanged(
                old(self),
            ),
            r matches Ok(id) ==> {
                &&& id == old(self).current_token_id + 1
                &&& final(self).current_token_id == id
                &&& !old(self).owners@.contains_key(id)
                &&& final(self).owners@.dom() == old(self).owners@.dom().insert(id)
                &&& final(self).owners@[id]@ == to@
                &&& forall|t: u64| t != id ==> #[trigger] final(self).owners@.contains_key(t)
                    ==> final(self).owners@[t] == old(self).owners@[t]
                &&& final(self).balances@ == old(self).balances@.insert(
                    to@,
                    (get_or_zero(old(self).balances@, to@) + 1) as u64,
                )
                &&& final(self).token_uris@ == old(self).token_uris@.insert(id, uri)
                &&& final(self).token_approvals@ == old(self).token_approvals@
                &&& final(self).operator_approvals@ == old(self).operator_approvals@
            },
    {
        if !str_eq(caller, self.owner.as_str()) {
            return Err(NFTError::NotOwner);
        }
        let ghost old_owners = self.owners@;
        self.current_token_id = self.current_token_id + 1;
        let token_id = self.current_token_id;
        let owner_len = self.owners.len();
        assert(!old_owners.contains_key(token_id));
        let to_owned = to.to_owned();
        self.owners.insert(token_id, to_owned);
        let balance = self.balances.amount(to);
        proof {
            lemma_owned_finite(old_owners, to@);
        }
        self.balances.set_amount(to, balance + 1);
        self.token_uris.insert(token_id, uri);
        proof {
            assert(self.owners@.dom() =~= old_owners.dom().insert(token_id));
            vstd::set::axiom_set_insert_len(old_owners.dom(), token_id);
            assert forall|a: Seq<char>| #[trigger]
                get_or_zero(self.balances@, a) == owned(self.owners@, a).len() by {
                lemma_owned_insert(old_owners, token_id, to_owned, a);
                assert(!owned(old_owners, a).contains(token_id));
                assert(get_or_zero(old(self).balances@, a) == owned(old_owners, a).len());
            }
        }
        Ok(token_id)
    }

    /// Mints one token per URI, in order; refused as a whole when the caller
    /// is not the owner.
    pub fn mint_batch(&mut self, to: &str, uris: Vec<String>, caller: &str) -> (r: Result<
        Vec<u64>,
        NFTError,
    >)
        requires
            old(self).wf(),
            caller@ == old(self).owner@ ==> old(self).current_token_id + uris@.len() <= u64::MAX,
        ensures
            final(self).wf(),
            final(self).same_meta(old(self)),
            caller@ != old(self).owner@ && uris@.len() > 0 ==> r == Err::<Vec<u64>, NFTError>(
                NFTError::NotOwner,
            ) && final(self).unchanged(old(self)),
            caller@ == old(self).owner@ || uris@.len() == 0 ==> r is Ok,
            r matches Ok(ids) ==> ids@.len() == uris@.len() && final(self).current_token_id
                == old(self).current_token_id + uris@.len() && forall|i: int|
                0 <= i < ids@.len() ==> #[trigger] ids@[i] == old(self).current_token_id + 1 + i
                && final(self).owners@.contains_key(ids@[i]) && final(self).owners@[ids@[i]]@ == to@,
    {
        let mut token_ids: Vec<u64> = Vec::new();
        let n = uris.len();
        let ghost orig_len = uris@.len();
        let ghost c0 = self.current_token_id;
        let mut i: usize = 0;
        while i < n
            invariant
                self.wf(),
                self.same_meta(old(self)),
                n == uris@.len(),
                n == orig_len,
                i <= n,
                self.current_token_id == c0 + i,
                c0 == old(self).current_token_id,
                caller@ == old(self).owner@ ==> c0 + n <= u64::MAX,
                caller@ != old(self).owner@ ==> i == 0 && self.unchanged(old(self)),
                token_ids@.len() == i,
                forall|j: int|
                    0 <= j < i ==> #[trigger] token_ids@[j] == c0 + 1 + j
                        && self.owners@.contains_key(token_ids@[j]) && self.owners@[token_ids@[j]]@ == to@,
            decreases n - i,
        {
            let uri = uris[i].clone();
            let ghost before = self.owners@;
            match self.mint(to, uri, caller) {
                Ok(id) => {
                    token_ids.push(id);
                    proof {
                        assert forall|j: int| 0 <= j < i + 1 implies #[trigger] token_ids@[j] == c0
                            + 1 + j && self.owners@.contains_key(token_ids@[j])
                            && self.owners@[token_ids@[j]]@ == to@ by {
                            if j < i {
                                let t = token_ids@[j];
                                assert(before.contains_key(t));
                                assert(self.owners@.dom().contains(t));
                                assert(t != id);
                                assert(self.owners@.contains_key(t));
                            }
                        }
                    }
                },
                Err(e) => {
                    assert(caller@ != old(self).owner@);
                    assert(orig_len > 0);
                    return Err(e);
                },
            }
            i = i + 1;
        }
        Ok(token_ids)
    }

    /// Moves `token_id` from `from` to `to`; `caller` must own the token, be
    /// approved for it, or be an operator of its owner. Clears the token's approval.
    pub fn transfer(&mut self, from: &str, to: &str, token_id: u64, caller: &str) -> (r: Result<
        (),
        NFTError,
    >)
        requires
            old(self).wf(),
        ensures
            final(self).wf(),
            r == Err::<(), NFTError>(NFTError::TokenNotFound) <==> !old(self).owners@.contains_key(
                token_id,
            ),
            r == Err::<(), NFTError>(NFTError::NotOwner) <==> old(self).owners@.contains_key(
                token_id,
            ) && old(self).owners@[token_id]@ != from@,
            r == Err::<(), NFTError>(NFTError::NotAuthorized) <==> old(self).owners@.contains_key(
                token_id,
            ) && old(self).owners@[token_id]@ == from@ && !old(self).authorized(caller@, token_id),
            r is Ok <==> (old(self).owners@.contains_key(token_id) && old(self).owners@[token_id]@ == from@
                && old(self).authorized(caller@, token_id)),
            r is Err ==> final(self).unchanged(old(self)),
            r is Ok ==> {
                &&& final(self).same_meta(old(self))
                &&& final(self).current_token_id == old(self).current_token_id
                &&& final(self).owners@.dom() == old(self).owners@.dom()
                &&& final(self).owners@[token_id]@ == to@
                &&& forall|t: u64| t != token_id ==> #[trigger] final(self).owners@.contains_key(t)
                    ==> final(self).owners@[t] == old(self).owners@[t]
                &&& final(self).token_approvals@ == old(self).token_approvals@.remove(token_id)
                &&& final(self).operator_approvals@ == old(self).operator_approvals@
                &&& final(self).token_uris@ == old(self).token_uris@
                &&& forall|a: Seq<char>|
                    #[trigger] get_or_zero(final(self).balances@, a) == (if a == from@ && a != to@ {
                        get_or_zero(old(self).balances@, a) - 1
                    } else if a == to@ && a != from@ {
                        get_or_zero(old(self).balances@, a) + 1
                    } else {
                        get_or_zero(old(self).balances@, a) as int
                    })
            },
    {
        let owner = match self.owner_of(token_id) {
            Some(o) => o,
            None => {
                return Err(NFTError::TokenNotFound);
            },
        };
        if !str_eq(owner.as_str(), from) {
            return Err(NFTError::NotOwner);
        }
        if !self.is_approved_or_owner(caller, token_id) {
            return Err(NFTError::NotAuthorized);
        }
        let ghost old_owners = self.owners@;
        let ghost old_bal = self.balances@;
        let _ = self.owners.len();
        let to_owned = to.to_owned();
        self.owners.insert(token_id, to_owned);
        proof {
            assert(owned(old_owners, from@).contains(token_id));
            lemma_owned_finite(old_owners, from@);
            lemma_owned_finite(old_owners, to@);
            lemma_owned_insert(old_owners, token_id, to_owned, from@);
            lemma_owned_insert(old_owners, token_id, to_owned, to@);
        }
        let from_balance = self.balances.amount(from);
        proof {
            assert(get_or_zero(old_bal, from@) == owned(old_owners, from@).len());
            assert(owned(old_owners, from@).contains(token_id));
            vstd::set::axiom_set_remove_len(owned(old_owners, from@), token_id);
        }
        self.balances.set_amount(from, from_balance - 1);
        let to_balance = self.balances.amount(to);
        proof {
            if from@ != to@ {
                assert(get_or_zero(old_bal, to@) == owned(old_owners, to@).len());
                lemma_owned_other(old_owners, to@, token_id);
            }
        }
        self.balances.set_amount(to, to_balance + 1);
        self.token_approvals.remove(&token_id);
        proof {
            assert(self.owners@.dom() =~= old_owners.dom());
            assert forall|a: Seq<char>| #[trigger]
                get_or_zero(self.balances@, a) == owned(self.owners@, a).len() by {
                lemma_owned_insert(old_owners, token_id, to_owned, a);
                assert(get_or_zero(old_bal, a) == owned(old_owners, a).len());
                assert(owned(old_owners, a).contains(token_id) <==> a == from@);
            }
        }
        Ok(())
    }

    /// Approves `approved` for `token_id`; `caller` must be its owner or an
    /// operator of the owner.
    pub fn approve(&mut self, approved: &str, token_id: u64, caller: &str) -> (r: Result<
        (),
        NFTError,
    >)
        requires
            old(self).wf(),
        ensures
            final(self).wf(),
            r == Err::<(), NFTError>(NFTError::TokenNotFound) <==> !old(self).owners@.contains_key(
                token_id,
            ),
            r == Err::<(), NFTError>(NFTError::NotAuthorized) <==> old(self).owners@.contains_key(
                token_id,
            ) && caller@ != old(self).owners@[token_id]@ && !old(self).operator(
                old(self).owners@[token_id]@,
                caller@,
            ),
            r is Ok <==> (old(self).owners@.contains_key(token_id) && (caller@ == old(self).owners@[token_id]@
                || old(self).operator(old(self).owners@[token_id]@, caller@))),
            r is Err ==> final(self).unchanged(old(self)),
            r is Ok ==> final(self).token_approvals@.dom() == old(
                self,
            ).token_approvals@.dom().insert(token_id) && final(self).token_approvals@[token_id]@
                == approved@ && forall|t: u64|
                t != token_id && #[trigger] final(self).token_approvals@.contains_key(t)
                    ==> final(self).token_approvals@[t] == old(self).token_approvals@[t],
            r is Ok ==> final(self).same_meta(old(self)) && final(self).current_token_id == old(
                self,
            ).current_token_id && final(self).owners@ == old(self).owners@ && final(self).balances@
                == old(self).balances@ && final(self).operator_approvals@ == old(
                self,
            ).operator_approvals@ && final(self).token_uris@ == old(self).token_uris@,
    {
        let owner = match self.owner_of(token_id) {
            Some(o) => o,
            None => {
                return Err(NFTError::TokenNotFound);
            },
        };
        if !str_eq(caller, owner.as_str()) && !self.is_approved_for_all(owner.as_str(), caller) {
            return Err(NFTError::NotAuthorized);
        }
        let ghost old_appr = self.token_approvals@;
        let a = approved.to_owned();
        self.token_approvals.insert(token_id, a);
        assert(self.token_approvals@.dom() =~= old_appr.dom().insert(token_id));
        Ok(())
    }

    /// The account approved for `token_id`, if any.
    pub fn get_approved(&self, token_id: u64) -> (r: Option<String>)
        ensures
            r == (if self.token_approvals@.contains_key(token_id) {
                Some(self.token_approvals@[token_id])
            } else {
                None
            }),
    {
        match self.token_approvals.get(&token_id) {
            Some(a) => Some(a.clone()),
            None => None,
        }
    }

    /// Grants or revokes `operator` over all of `caller`'s tokens.
    pub fn set_approval_for_all(&mut self, operator: &str, approved: bool, caller: &str) -> (r:
        Result<(), NFTError>)
        requires
            old(self).wf(),
        ensures
            r is Ok,
            final(self).wf(),
            final(self).same_meta(old(self)),
            final(self).current_token_id == old(self).current_token_id,
            final(self).owners@ == old(self).owners@,
            final(self).balances@ == old(self).balances@,
            final(self).token_approvals@ == old(self).token_approvals@,
            final(self).token_uris@ == old(self).token_uris@,
            final(self).operator_approvals@ == old(self).operator_approvals@.insert(
                (caller@, operator@),
                approved,
            ),
    {
        self.operator_approvals.insert((caller.to_owned(), operator.to_owned()), approved);
        Ok(())
    }

    /// Whether `operator` may act for all of `owner`'s tokens.
    pub fn is_approved_for_all(&self, owner: &str, operator: &str) -> (r: bool)
        ensures
            r == self.operator(owner@, operator@),
    {
        let key = (owner.to_owned(), operator.to_owned());
        match self.operator_approvals.get(&key) {
            Some(b) => *b,
            None => false,
        }
    }

    fn is_approved_or_owner(&self, spender: &str, token_id: u64) -> (r: bool)
        ensures
            r == self.authorized(spender@, token_id),
    {
        let owner = match self.owner_of(token_id) {
            Some(o) => o,
            None => {
                return false;
            },
        };
        if str_eq(spender, owner.as_str()) {
            return true;
        }
        match self.get_approved(token_id) {
            Some(approved) => {
                if str_eq(spender, approved.as_str()) {
                    return true;
                }
            },
            None => {},
        }
        self.is_approved_for_all(owner.as_str(), spender)
    }

    /// Metadata URI of `token_id`, if any.
    pub fn token_uri(&self, token_id: u64) -> (r: Option<String>)
        ensures
            r == (if self.token_uris@.contains_key(token_id) {
                Some(self.token_uris@[token_id])
            } else {
                None
            }),
    {
        match self.token_uris.get(&token_id) {
            Some(u) => Some(u.clone()),
            None => None,
        }
    }

    /// Destroys `token_id`; `caller` must own it, be approved for it or be an
    /// operator of its owner.
    pub fn burn(&mut self, token_id: u64, caller: &str) -> (r: Result<(), NFTError>)
        requires
            old(self).wf(),
        ensures
            final(self).wf(),
            r == Err::<(), NFTError>(NFTError::TokenNotFound) <==> !old(self).owners@.contains_key(
                token_id,
            ),
            r == Err::<(), NFTError>(NFTError::NotAuthorized) <==> old(self).owners@.contains_key(
                token_id,
            ) && !old(self).authorized(caller@, token_id),
            r is Ok <==> old(self).authorized(caller@, token_id),
            r is Err ==> final(self).unchanged(old(self)),
            r is Ok ==> {
                &&& final(self).same_meta(old(self))
                &&& final(self).current_token_id == old(self).current_token_id
                &&& final(self).owners@ == old(self).owners@.remove(token_id)
                &&& final(self).token_approvals@ == old(self).token_approvals@.remove(token_id)
                &&& final(self).token_uris@ == old(self).token_uris@.remove(token_id)
                &&& final(self).operator_approvals@ == old(self).operator_approvals@
                &&& final(self).balances@ == old(self).balances@.insert(
                    old(self).owners@[token_id]@,
                    (get_or_zero(old(self).balances@, old(self).owners@[token_id]@) - 1) as u64,
                )
            },
    {
        let owner = match self.owner_of(token_id) {
            Some(o) => o,
            None => {
                return Err(NFTError::TokenNotFound);
            },
        };
        if !self.is_approved_or_owner(caller, token_id) {
            return Err(NFTError::NotAuthorized);
        }
        let ghost old_owners = self.owners@;
        let _ = self.owners.len();
        self.owners.remove(&token_id);
        self.token_approvals.remove(&token_id);
        self.token_uris.remove(&token_id);
        let balance = self.balances.amount(owner.as_str());
        proof {
            assert(owned(old_owners, owner@).contains(token_id));
            lemma_owned_finite(old_owners, owner@);
            vstd::set::axiom_set_remove_len(owned(old_owners, owner@), token_id);
            assert(get_or_zero(old(self).balances@, owner@) == owned(old_owners, owner@).len());
        }
        self.balances.set_amount(owner.as_str(), balance - 1);
        proof {
            vstd::set::axiom_set_remove_len(old_owners.dom(), token_id);
            assert(self.owners@.dom() =~= old_owners.dom().remove(token_id));
            assert forall|a: Seq<char>| #[trigger]
                get_or_zero(self.balances@, a) == owned(self.owners@, a).len() by {
                lemma_owned_remove(old_owners, token_id, a);
                assert(get_or_zero(old(self).balances@, a) == owned(old_owners, a).len());
                assert(owned(old_owners, a).contains(token_id) <==> a == owner@);
            }
        }
        Ok(())
    }

    /// The ids of all tokens owned by `owner`, each once.
    pub fn tokens_of_owner(&self, owner: &str) -> (r: Vec<u64>)
        ensures
            r@.no_duplicates(),
            forall|id: u64| r@.contains(id) <==> owned(self.owners@, owner@).contains(id),
            self.wf() ==> r@.len() == get_or_zero(self.balances@, owner@),
    {
        let n = self.owners.len();
        let mut out: Vec<u64> = Vec::new();
        let mut i: usize = 0;
        while i < n
            invariant
                n == self.owners.entries().len(),
                distinct_keys(self.owners.entries()),
                self.owners@ == entries_map(self.owners.entries()),
                i <= n,
                out@.no_duplicates(),
                forall|id: u64|
                    out@.contains(id) <==> exists|j: int|
                        0 <= j < i && #[trigger] entry_owned_by(self.owners.entries(), j, id, owner@),
            decreases n - i,
        {
            let (eid, eowner) = self.owners.entry_at(i);
            let e = (*eid, eowner);
            let ghost out0 = out@;
            if str_eq(e.1.as_str(), owner) {
                assert(entry_owned_by(self.owners.entries(), i as int, e.0, owner@));
                assert(!out@.contains(e.0)) by {
                    if out@.contains(e.0) {
                        let j = choose|j: int|
                            0 <= j < i && #[trigger] entry_owned_by(self.owners.entries(), j, e.0, owner@);
                        assert(self.owners.entries()[j].0@ == self.owners.entries()[i as int].0@);
                    }
                }
                out.push(e.0);
                assert forall|id: u64| out@.contains(id) <==> exists|j: int|
                    0 <= j < i + 1 && #[trigger] entry_owned_by(self.owners.entries(), j, id, owner@) by {
                    assert(out@.contains(id) <==> (out0.contains(id) || id == e.0)) by {
                        if out@.contains(id) && id != e.0 {
                            let k = choose|k: int| 0 <= k < out@.len() && out@[k] == id;
                            assert(out0[k] == id);
                        }
                        if out0.contains(id) {
                            let k = choose|k: int| 0 <= k < out0.len() && out0[k] == id;
                            assert(out@[k] == id);
                        }
                        if id == e.0 {
                            assert(out@[out@.len() - 1] == id);
                        }
                    }
                    if exists|j: int|
                        0 <= j < i + 1 && #[trigger] entry_owned_by(self.owners.entries(), j, id, owner@) {
                        let j = choose|j: int|
                            0 <= j < i + 1 && #[trigger] entry_owned_by(self.owners.entries(), j, id, owner@);
                        if j < i {
                            assert(out0.contains(id));
                        }
                    }
                }
            } else {
                assert forall|id: u64| out@.contains(id) <==> exists|j: int|
                    0 <= j < i + 1 && #[trigger] entry_owned_by(self.owners.entries(), j, id, owner@) by {
                    if exists|j: int|
                        0 <= j < i + 1 && #[trigger] entry_owned_by(self.owners.entries(), j, id, owner@) {
                        let j = choose|j: int|
                            0 <= j < i + 1 && #[trigger] entry_owned_by(self.owners.entries(), j, id, owner@);
                        assert(j < i);
                    }
                }
            }
            i = i + 1;
        }
        proof {
            assert forall|id: u64| out@.contains(id) <==> owned(self.owners@, owner@).contains(id) by {
                if out@.contains(id) {
                    let j = choose|j: int|
                        0 <= j < n && #[trigger] entry_owned_by(self.owners.entries(), j, id, owner@);
                    lemma_entries_map_at(self.owners.entries(), j);
                }
                if owned(self.owners@, owner@).contains(id) {
                    let j = choose|j: int| #[trigger] key_at(self.owners.entries(), j, id);
                    lemma_entries_map_at(self.owners.entries(), j);
                    assert(entry_owned_by(self.owners.entries(), j, id, owner@));
                }
            }
            out@.unique_seq_to_set();
            assert(out@.to_set() =~= owned(self.owners@, owner@));
        }
        out
    }

    /// Number of existing tokens.
    pub fn total_supply(&self) -> (r: u64)
        ensures
            r == self.owners@.len(),
            // the balances of all accounts add up to the supply
            self.wf() ==> r == self.balances.total(),
    {
        let _ = self.balances.len();
        proof {
            if self.wf() {
                let es = self.balances.entries();
                let m = self.owners@;
                assert forall|i: int| 0 <= i < es.len() implies #[trigger] es[i].1 == owned(m, es[i].0@).len() by {
                    lemma_entries_map_at(es, i);
                    assert(get_or_zero(self.balances@, es[i].0@) == es[i].1);
                }
                lemma_sum_owned(m, es, es.len() as int);
                assert(es.take(es.len() as int) =~= es);
                assert forall|id: u64| m.dom().contains(id) implies #[trigger] keys_before(es, es.len() as int).contains(m[id]@) by {
                    let a = m[id]@;
                    lemma_owned_finite(m, a);
                    assert(owned(m, a).contains(id));
                    if owned(m, a).len() == 0 {
                        assert(owned(m, a) =~= Set::<u64>::empty());
                    }
                    assert(get_or_zero(self.balances@, a) >= 1);
                    self.balances.lemma_contains_key(a);
                    let i = choose|i: int| #[trigger] key_at(es, i, a);
                    assert(es[i].0@ == a);
                }
                assert(owned_by_any(m, keys_before(es, es.len() as int)) =~= m.dom());
            }
        }
        self.owners.len() as u64
    }
}

} // verus!
