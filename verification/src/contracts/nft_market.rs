//! NFT marketplace: minting with creator royalties, fixed-price listings,
//! purchases that split the price between platform, creator and seller,
//! and English auctions.
use vstd::prelude::*;
use crate::keymap::KeyMap;
use crate::text::{str_eq, push_str, push_decimal, decimal};

verus! {

/// A token with its owner, creator and royalty rate (in thousandths).
#[derive(Debug, Clone)]
pub struct NFT {
    pub token_id: u64,
    pub owner: String,
    pub creator: String,
    pub uri: String,
    pub royalty_rate: u64,
}

/// A fixed-price offer.
#[derive(Debug, Clone)]
pub struct Listing {
    pub seller: String,
    pub price: u64,
    pub listed_at: u64,
}

/// An auction and its best bid so far.
#[derive(Debug, Clone)]
pub struct Auction {
    pub seller: String,
    pub start_price: u64,
    pub highest_bid: u64,
    pub highest_bidder: Option<String>,
    pub end_time: u64,
    pub started: bool,
}

/// Marketplace state.
pub struct NFTMarket {
    pub name: String,
    pub symbol: String,
    pub nfts: KeyMap<u64, NFT>,
    pub owner_tokens: KeyMap<String, Vec<u64>>,
    pub listings: KeyMap<u64, Listing>,
    pub auctions: KeyMap<u64, Auction>,
    pub total_supply: u64,
    pub total_volume: u64,
    pub next_token_id: u64,
    pub platform_fee_rate: u64,
    pub platform_owner: String,
}

/// `s` with every occurrence of `x` removed.
pub open spec fn without(s: Seq<u64>, x: u64) -> Seq<u64>
    decreases s.len(),
{
    if s.len() == 0 {
        s
    } else if s.last() == x {
        without(s.drop_last(), x)
    } else {
        without(s.drop_last(), x).push(s.last())
    }
}

/// The token lists of an owner index, as sequences.
pub open spec fn lists(m: Map<Seq<char>, Vec<u64>>) -> Map<Seq<char>, Seq<u64>> {
    m.map_values(|v: Vec<u64>| v@)
}

/// The list recorded under `k`, or an empty one.
pub open spec fn seq_or_empty(m: Map<Seq<char>, Seq<u64>>, k: Seq<char>) -> Seq<u64> {
    if m.contains_key(k) {
        m[k]
    } else {
        Seq::empty()
    }
}

/// The owner index after `id` moves from `from` to `to`.
pub open spec fn moved(l: Map<Seq<char>, Seq<u64>>, from: Seq<char>, to: Seq<char>, id: u64) -> Map<
    Seq<char>,
    Seq<u64>,
> {
    let l1 = if l.contains_key(from) {
        l.insert(from, without(l[from], id))
    } else {
        l
    };
    l1.insert(to, seq_or_empty(l1, to).push(id))
}

/// Share of `price` at `rate` thousandths.
pub open spec fn share(price: u64, rate: u64) -> int {
    price * rate / 1000
}

/// What the seller keeps of `price` after the platform fee and the royalty.
pub open spec fn seller_share(price: u64, fee_rate: u64, royalty_rate: u64) -> int {
    price - share(price, fee_rate) - share(price, royalty_rate)
}

/// The split of `price` can be computed without overflow or underflow.
pub open spec fn split_ok(price: u64, fee_rate: u64, royalty_rate: u64) -> bool {
    &&& price * fee_rate <= u64::MAX
    &&& price * royalty_rate <= u64::MAX
    &&& share(price, fee_rate) + share(price, royalty_rate) <= price
}

/// Positions of `ids` that name an existing token, as token ids.
pub open spec fn present_ids(ids: Seq<u64>, m: Map<u64, NFT>) -> Seq<u64>
    decreases ids.len(),
{
    if ids.len() == 0 {
        ids
    } else if m.contains_key(ids.last()) {
        present_ids(ids.drop_last(), m).push(ids.last())
    } else {
        present_ids(ids.drop_last(), m)
    }
}

/// The listings whose token exists, in listing order.
pub open spec fn live_listings(es: Seq<(u64, Listing)>, m: Map<u64, NFT>) -> Seq<(u64, Listing)>
    decreases es.len(),
{
    if es.len() == 0 {
        es
    } else if m.contains_key(es.last().0) {
        live_listings(es.drop_last(), m).push(es.last())
    } else {
        live_listings(es.drop_last(), m)
    }
}

/// A copy of `v` without the elements equal to `x`.
fn remove_all(v: &Vec<u64>, x: u64) -> (r: Vec<u64>)
    ensures
        r@ == without(v@, x),
{
    let mut r: Vec<u64> = Vec::new();
    let mut i: usize = 0;
    while i < v.len()
        invariant
            i <= v@.len(),
            r@ == without(v@.take(i as int), x),
        decreases v@.len() - i,
    {
        assert(v@.take(i + 1).drop_last() == v@.take(i as int));
        if v[i] != x {
            r.push(v[i]);
        }
        i = i + 1;
    }
    assert(v@.take(v@.len() as int) == v@);
    r
}

impl NFTMarket {
    /// The markets's data other than tokens, index and listings are unchanged.
    pub open spec fn same_terms(&self, other: &Self) -> bool {
        &&& self.name@ == other.name@
        &&& self.symbol@ == other.symbol@
        &&& self.platform_fee_rate == other.platform_fee_rate
        &&& self.platform_owner@ == other.platform_owner@
        &&& self.next_token_id == other.next_token_id
        &&& self.total_supply == other.total_supply
    }

    /// A market with a 2.5% platform fee.
    pub fn new(name: String, symbol: String, platform_owner: String) -> (r: Self)
        ensures
            r.name@ == name@,
            r.symbol@ == symbol@,
            r.platform_owner@ == platform_owner@,
            r.nfts@ == Map::<u64, NFT>::empty(),
            r.owner_tokens@ == Map::<Seq<char>, Vec<u64>>::empty(),
            r.listings@ == Map::<u64, Listing>::empty(),
            r.auctions@ == Map::<u64, Auction>::empty(),
            r.total_supply == 0,
            r.total_volume == 0,
            r.next_token_id == 1,
            r.platform_fee_rate == 25,
    {
        NFTMarket {
            name,
            symbol,
            nfts: KeyMap::new(),
            owner_tokens: KeyMap::new(),
            listings: KeyMap::new(),
            auctions: KeyMap::new(),
            total_supply: 0,
            total_volume: 0,
            next_token_id: 1,
            platform_fee_rate: 25,
            platform_owner,
        }
    }

    /// Appends `id` to the token list of `owner`.
    fn index_add(&mut self, owner: String, id: u64)
        ensures
            lists(final(self).owner_tokens@) == lists(old(self).owner_tokens@).insert(
                owner@,
                seq_or_empty(lists(old(self).owner_tokens@), owner@).push(id),
            ),
            final(self).nfts == old(self).nfts,
            final(self).listings == old(self).listings,
            final(self).auctions == old(self).auctions,
            final(self).total_volume == old(self).total_volume,
            final(self).same_terms(old(self)),
    {
        let ghost l0 = lists(self.owner_tokens@);
        match self.owner_tokens.get_mut(&owner) {
            Some(list) => {
                list.push(id);
            },
            None => {
                let mut list = Vec::new();
                list.push(id);
                self.owner_tokens.insert(owner, list);
            },
        }
        assert(lists(self.owner_tokens@) =~= l0.insert(owner@, seq_or_empty(l0, owner@).push(id)));
    }

    /// Mints a token for `to` created by `creator`; royalties above 10% are refused.
    pub fn mint(&mut self, creator: String, to: String, uri: String, royalty_rate: u64) -> (r: Result<
        u64,
        String,
    >)
        requires
            royalty_rate <= 100 ==> old(self).next_token_id < u64::MAX && old(self).total_supply
                < u64::MAX,
        ensures
            royalty_rate > 100 ==> (r matches Err(m) && m@ == "版税率不能超过10%"@) && final(self).nfts
                == old(self).nfts && final(self).owner_tokens == old(self).owner_tokens
                && final(self).same_terms(old(self)),
            royalty_rate <= 100 ==> {
                let id = old(self).next_token_id;
                &&& r == Ok::<u64, String>(id)
                &&& final(self).nfts@.dom() == old(self).nfts@.dom().insert(id)
                &&& forall|k: u64| k != id && #[trigger] old(self).nfts@.contains_key(k)
                    ==> final(self).nfts@[k] == old(self).nfts@[k]
                &&& final(self).nfts@[id].token_id == id
                &&& final(self).nfts@[id].owner@ == to@
                &&& final(self).nfts@[id].creator@ == creator@
                &&& final(self).nfts@[id].uri@ == uri@
                &&& final(self).nfts@[id].royalty_rate == royalty_rate
                &&& lists(final(self).owner_tokens@) == lists(old(self).owner_tokens@).insert(
                    to@,
                    seq_or_empty(lists(old(self).owner_tokens@), to@).push(id),
                )
                &&& final(self).total_supply == old(self).total_supply + 1
                &&& final(self).next_token_id == id + 1
            },
            final(self).listings == old(self).listings,
            final(self).auctions == old(self).auctions,
            final(self).total_volume == old(self).total_volume,
            final(self).name@ == old(self).name@,
            final(self).symbol@ == old(self).symbol@,
            final(self).platform_fee_rate == old(self).platform_fee_rate,
            final(self).platform_owner@ == old(self).platform_owner@,
    {
        if royalty_rate > 100 {
            return Err("版税率不能超过10%".to_owned());
        }
        let token_id = self.next_token_id;
        let nft = NFT { token_id, owner: to.clone(), creator, uri, royalty_rate };
        let ghost n0 = self.nfts@;
        self.nfts.insert(token_id, nft);
        assert(self.nfts@.dom() =~= n0.dom().insert(token_id));
        self.index_add(to, token_id);
        self.total_supply = self.total_supply + 1;
        self.next_token_id = self.next_token_id + 1;
        Ok(token_id)
    }

    /// Moves a token from its owner `from` to `to`, updating the owner index
    /// and withdrawing any listing.
    pub fn transfer(&mut self, from: &str, to: &str, token_id: u64) -> (r: Result<(), String>)
        ensures
            final(self).same_terms(old(self)),
            final(self).auctions == old(self).auctions,
            final(self).total_volume == old(self).total_volume,
            !old(self).nfts@.contains_key(token_id) ==> (r matches Err(m) && m@ == "NFT不存在"@),
            old(self).nfts@.contains_key(token_id) && old(self).nfts@[token_id].owner@ != from@ ==> (
            r matches Err(m) && m@ == "无权转移"@),
            r is Ok <==> old(self).nfts@.contains_key(token_id) && old(self).nfts@[token_id].owner@
                == from@,
            r is Err ==> final(self).nfts == old(self).nfts && final(self).owner_tokens == old(
                self,
            ).owner_tokens && final(self).listings == old(self).listings,
            r is Ok ==> {
                let t = old(self).nfts@[token_id];
                &&& final(self).nfts@.dom() == old(self).nfts@.dom()
                &&& forall|k: u64| k != token_id && #[trigger] old(self).nfts@.contains_key(k)
                    ==> final(self).nfts@[k] == old(self).nfts@[k]
                &&& final(self).nfts@[token_id].owner@ == to@
                &&& final(self).nfts@[token_id].token_id == t.token_id
                &&& final(self).nfts@[token_id].creator == t.creator
                &&& final(self).nfts@[token_id].uri == t.uri
                &&& final(self).nfts@[token_id].royalty_rate == t.royalty_rate
                &&& lists(final(self).owner_tokens@) == moved(
                    lists(old(self).owner_tokens@),
                    from@,
                    to@,
                    token_id,
                )
                &&& final(self).listings@ == old(self).listings@.remove(token_id)
            },
    {
        match self.nfts.get(&token_id) {
            Some(nft) => {
                if !str_eq(nft.owner.as_str(), from) {
                    return Err("无权转移".to_owned());
                }
            },
            None => {
                return Err("NFT不存在".to_owned());
            },
        }
        let ghost n0 = self.nfts@;
        match self.nfts.get_mut(&token_id) {
            Some(nft) => {
                nft.owner = to.to_owned();
            },
            None => {},
        }
        assert(self.nfts@.dom() =~= n0.dom());
        let ghost l0 = lists(self.owner_tokens@);
        let from_key = from.to_owned();
        match self.owner_tokens.get_mut(&from_key) {
            Some(tokens) => {
                let kept = remove_all(tokens, token_id);
                *tokens = kept;
            },
            None => {},
        }
        let ghost l1 = if l0.contains_key(from@) {
            l0.insert(from@, without(l0[from@], token_id))
        } else {
            l0
        };
        assert(lists(self.owner_tokens@) =~= l1);
        self.index_add(to.to_owned(), token_id);
        self.listings.remove(&token_id);
        Ok(())
    }

    /// Offers a token for sale at `price`; only its owner may, not for free,
    /// and not while it is being auctioned.
    pub fn list(&mut self, seller: &str, token_id: u64, price: u64, current_time: u64) -> (r: Result<
        (),
        String,
    >)
        ensures
            final(self).same_terms(old(self)),
            final(self).nfts == old(self).nfts,
            final(self).owner_tokens == old(self).owner_tokens,
            final(self).auctions == old(self).auctions,
            final(self).total_volume == old(self).total_volume,
            !old(self).nfts@.contains_key(token_id) ==> (r matches Err(m) && m@ == "NFT不存在"@),
            old(self).nfts@.contains_key(token_id) && old(self).nfts@[token_id].owner@ != seller@ ==> (
            r matches Err(m) && m@ == "无权上架"@),
            old(self).nfts@.contains_key(token_id) && old(self).nfts@[token_id].owner@ == seller@
                && price == 0 ==> (r matches Err(m) && m@ == "价格不能为0"@),
            old(self).nfts@.contains_key(token_id) && old(self).nfts@[token_id].owner@ == seller@
                && price != 0 && old(self).auctions@.contains_key(token_id) ==> (r matches Err(m)
                && m@ == "NFT正在拍卖中"@),
            r is Ok <==> old(self).nfts@.contains_key(token_id) && old(self).nfts@[token_id].owner@
                == seller@ && price != 0 && !old(self).auctions@.contains_key(token_id),
            r is Err ==> final(self).listings == old(self).listings,
            r is Ok ==> final(self).listings@.dom() == old(self).listings@.dom().insert(token_id)
                && final(self).listings@[token_id].seller@ == seller@
                && final(self).listings@[token_id].price == price
                && final(self).listings@[token_id].listed_at == current_time
                && forall|k: u64| k != token_id && #[trigger] old(self).listings@.contains_key(k)
                ==> final(self).listings@[k] == old(self).listings@[k],
    {
        match self.nfts.get(&token_id) {
            Some(nft) => {
                if !str_eq(nft.owner.as_str(), seller) {
                    return Err("无权上架".to_owned());
                }
            },
            None => {
                return Err("NFT不存在".to_owned());
            },
        }
        if price == 0 {
            return Err("价格不能为0".to_owned());
        }
        if self.auctions.contains_key(&token_id) {
            return Err("NFT正在拍卖中".to_owned());
        }
        let listing = Listing { seller: seller.to_owned(), price, listed_at: current_time };
        let ghost l0 = self.listings@;
        self.listings.insert(token_id, listing);
        assert(self.listings@.dom() =~= l0.dom().insert(token_id));
        Ok(())
    }

    /// Withdraws a listing; only its seller may.
    pub fn delist(&mut self, seller: &str, token_id: u64) -> (r: Result<(), String>)
        ensures
            final(self).same_terms(old(self)),
            final(self).nfts == old(self).nfts,
            final(self).owner_tokens == old(self).owner_tokens,
            final(self).auctions == old(self).auctions,
            final(self).total_volume == old(self).total_volume,
            !old(self).listings@.contains_key(token_id) ==> (r matches Err(m) && m@ == "NFT未上架"@),
            old(self).listings@.contains_key(token_id) && old(self).listings@[token_id].seller@
                != seller@ ==> (r matches Err(m) && m@ == "无权取消"@),
            r is Ok <==> old(self).listings@.contains_key(token_id)
                && old(self).listings@[token_id].seller@ == seller@,
            r is Err ==> final(self).listings == old(self).listings,
            r is Ok ==> final(self).listings@ == old(self).listings@.remove(token_id),
    {
        match self.listings.get(&token_id) {
            Some(l) => {
                if !str_eq(l.seller.as_str(), seller) {
                    return Err("无权取消".to_owned());
                }
            },
            None => {
                return Err("NFT未上架".to_owned());
            },
        }
        self.listings.remove(&token_id);
        Ok(())
    }

    /// Buys a listed token at its price; returns what the seller receives
    /// after the platform fee and the creator's royalty.
    pub fn buy(&mut self, buyer: &str, token_id: u64) -> (r: Result<u64, String>)
        requires
            old(self).listings@.contains_key(token_id) && old(self).nfts@.contains_key(token_id)
                ==> split_ok(
                old(self).listings@[token_id].price,
                old(self).platform_fee_rate,
                old(self).nfts@[token_id].royalty_rate,
            ) && old(self).total_volume + old(self).listings@[token_id].price <= u64::MAX,
        ensures
            final(self).same_terms(old(self)),
            final(self).auctions == old(self).auctions,
            !old(self).listings@.contains_key(token_id) ==> (r matches Err(m) && m@ == "NFT未上架"@),
            old(self).listings@.contains_key(token_id) && !old(self).nfts@.contains_key(token_id) ==> (
            r matches Err(m) && m@ == "NFT不存在"@),
            old(self).listings@.contains_key(token_id) && old(self).nfts@.contains_key(token_id)
                && old(self).nfts@[token_id].owner@ != old(self).listings@[token_id].seller@ ==> (
            r matches Err(m) && m@ == "无权转移"@),
            r is Ok <==> old(self).listings@.contains_key(token_id) && old(self).nfts@.contains_key(
                token_id,
            ) && old(self).nfts@[token_id].owner@ == old(self).listings@[token_id].seller@,
            r is Err ==> final(self).nfts == old(self).nfts && final(self).owner_tokens == old(
                self,
            ).owner_tokens && final(self).listings == old(self).listings && final(self).total_volume
                == old(self).total_volume,
            r matches Ok(v) ==> {
                let l = old(self).listings@[token_id];
                let t = old(self).nfts@[token_id];
                &&& v == seller_share(l.price, old(self).platform_fee_rate, t.royalty_rate)
                &&& final(self).nfts@.dom() == old(self).nfts@.dom()
                &&& final(self).nfts@[token_id].owner@ == buyer@
                &&& final(self).nfts@[token_id].creator == t.creator
                &&& final(self).nfts@[token_id].royalty_rate == t.royalty_rate
                &&& forall|k: u64| k != token_id && #[trigger] old(self).nfts@.contains_key(k)
                    ==> final(self).nfts@[k] == old(self).nfts@[k]
                &&& lists(final(self).owner_tokens@) == moved(
                    lists(old(self).owner_tokens@),
                    l.seller@,
                    buyer@,
                    token_id,
                )
                &&& final(self).listings@ == old(self).listings@.remove(token_id)
                &&& final(self).total_volume == old(self).total_volume + l.price
            },
    {
        let (price, seller) = match self.listings.get(&token_id) {
            Some(l) => (l.price, l.seller.clone()),
            None => {
                return Err("NFT未上架".to_owned());
            },
        };
        let royalty_rate = match self.nfts.get(&token_id) {
            Some(n) => n.royalty_rate,
            None => {
                return Err("NFT不存在".to_owned());
            },
        };
        let platform_fee = price * self.platform_fee_rate / 1000;
        let royalty = price * royalty_rate / 1000;
        let seller_receive = price - platform_fee - royalty;
        match self.transfer(seller.as_str(), buyer, token_id) {
            Ok(()) => {},
            Err(e) => {
                return Err(e);
            },
        }
        self.total_volume = self.total_volume + price;
        let ghost l1 = self.listings@;
        self.listings.remove(&token_id);
        assert(self.listings@ =~= l1);
        Ok(seller_receive)
    }

    /// Starts an auction of a token that is not listed; only its owner may.
    pub fn create_auction(
        &mut self,
        seller: &str,
        token_id: u64,
        start_price: u64,
        duration: u64,
        current_time: u64,
    ) -> (r: Result<(), String>)
        requires
            current_time + duration <= u64::MAX,
        ensures
            final(self).same_terms(old(self)),
            final(self).nfts == old(self).nfts,
            final(self).owner_tokens == old(self).owner_tokens,
            final(self).listings == old(self).listings,
            final(self).total_volume == old(self).total_volume,
            !old(self).nfts@.contains_key(token_id) ==> (r matches Err(m) && m@ == "NFT不存在"@),
            old(self).nfts@.contains_key(token_id) && old(self).nfts@[token_id].owner@ != seller@ ==> (
            r matches Err(m) && m@ == "无权拍卖"@),
            old(self).nfts@.contains_key(token_id) && old(self).nfts@[token_id].owner@ == seller@
                && old(self).listings@.contains_key(token_id) ==> (r matches Err(m) && m@
                == "NFT已上架销售"@),
            r is Ok <==> old(self).nfts@.contains_key(token_id) && old(self).nfts@[token_id].owner@
                == seller@ && !old(self).listings@.contains_key(token_id),
            r is Err ==> final(self).auctions == old(self).auctions,
            r is Ok ==> {
                let a = final(self).auctions@[token_id];
                &&& final(self).auctions@.dom() == old(self).auctions@.dom().insert(token_id)
                &&& forall|k: u64| k != token_id && #[trigger] old(self).auctions@.contains_key(k)
                    ==> final(self).auctions@[k] == old(self).auctions@[k]
                &&& a.seller@ == seller@
                &&& a.start_price == start_price
                &&& a.highest_bid == 0
                &&& a.highest_bidder is None
                &&& a.end_time == current_time + duration
                &&& a.started
            },
    {
        match self.nfts.get(&token_id) {
            Some(nft) => {
                if !str_eq(nft.owner.as_str(), seller) {
                    return Err("无权拍卖".to_owned());
                }
            },
            None => {
                return Err("NFT不存在".to_owned());
            },
        }
        if self.listings.contains_key(&token_id) {
            return Err("NFT已上架销售".to_owned());
        }
        let auction = Auction {
            seller: seller.to_owned(),
            start_price,
            highest_bid: 0,
            highest_bidder: None,
            end_time: current_time + duration,
            started: true,
        };
        let ghost a0 = self.auctions@;
        self.auctions.insert(token_id, auction);
        assert(self.auctions@.dom() =~= a0.dom().insert(token_id));
        Ok(())
    }

    /// Places a bid: at least the start price for the first bid, then at
    /// least 5% above the best bid.
    pub fn bid(&mut self, bidder: &str, token_id: u64, amount: u64, current_time: u64) -> (r: Result<
        (),
        String,
    >)
        requires
            old(self).auctions@.contains_key(token_id) ==> old(self).auctions@[token_id].highest_bid
                + old(self).auctions@[token_id].highest_bid / 20 <= u64::MAX,
        ensures
            final(self).same_terms(old(self)),
            final(self).nfts == old(self).nfts,
            final(self).owner_tokens == old(self).owner_tokens,
            final(self).listings == old(self).listings,
            final(self).total_volume == old(self).total_volume,
            !old(self).auctions@.contains_key(token_id) ==> (r matches Err(m) && m@ == "拍卖不存在"@),
            old(self).auctions@.contains_key(token_id) ==> {
                let a = old(self).auctions@[token_id];
                let min_bid = if a.highest_bid == 0 {
                    a.start_price as int
                } else {
                    a.highest_bid + a.highest_bid / 20
                };
                &&& !a.started ==> (r matches Err(m) && m@ == "拍卖未开始"@)
                &&& a.started && current_time > a.end_time ==> (r matches Err(m) && m@ == "拍卖已结束"@)
                &&& a.started && current_time <= a.end_time && amount < min_bid ==> (r matches Err(m)
                    && m@ == "出价必须 >= "@ + decimal(min_bid as nat))
                &&& r is Ok <==> (a.started && current_time <= a.end_time && amount >= min_bid)
                &&& r is Ok ==> final(self).auctions@ == old(self).auctions@.insert(
                    token_id,
                    Auction {
                        highest_bid: amount,
                        highest_bidder: final(self).auctions@[token_id].highest_bidder,
                        ..a
                    },
                ) && (final(self).auctions@[token_id].highest_bidder matches Some(b) && b@ == bidder@)
            },
            r is Err ==> final(self).auctions == old(self).auctions,
    {
        let min_bid = match self.auctions.get(&token_id) {
            Some(auction) => {
                if !auction.started {
                    return Err("拍卖未开始".to_owned());
                }
                if current_time > auction.end_time {
                    return Err("拍卖已结束".to_owned());
                }
                if auction.highest_bid == 0 {
                    auction.start_price
                } else {
                    auction.highest_bid + auction.highest_bid / 20
                }
            },
            None => {
                return Err("拍卖不存在".to_owned());
            },
        };
        if amount < min_bid {
            let mut m = String::new();
            push_str(&mut m, "出价必须 >= ");
            push_decimal(&mut m, min_bid);
            return Err(m);
        }
        match self.auctions.get_mut(&token_id) {
            Some(auction) => {
                auction.highest_bid = amount;
                auction.highest_bidder = Some(bidder.to_owned());
            },
            None => {},
        }
        Ok(())
    }

    /// Closes an auction after its end time: the token goes to the best
    /// bidder, if any; without bids it stays with the seller.
    pub fn end_auction(&mut self, token_id: u64, current_time: u64) -> (r: Result<(), String>)
        requires
            old(self).auctions@.contains_key(token_id) && current_time >= old(
                self,
            ).auctions@[token_id].end_time && old(self).auctions@[token_id].highest_bidder is Some
                ==> ({
                let a = old(self).auctions@[token_id];
                &&& old(self).nfts@.contains_key(token_id)
                &&& split_ok(
                    a.highest_bid,
                    old(self).platform_fee_rate,
                    old(self).nfts@[token_id].royalty_rate,
                )
                &&& old(self).total_volume + a.highest_bid <= u64::MAX
            }),
        ensures
            final(self).same_terms(old(self)),
            !old(self).auctions@.contains_key(token_id) ==> (r matches Err(m) && m@ == "拍卖不存在"@),
            old(self).auctions@.contains_key(token_id) && current_time < old(
                self,
            ).auctions@[token_id].end_time ==> (r matches Err(m) && m@ == "拍卖未结束"@),
            !(old(self).auctions@.contains_key(token_id) && current_time >= old(
                self,
            ).auctions@[token_id].end_time) ==> final(self).auctions == old(self).auctions,
            old(self).auctions@.contains_key(token_id) && current_time >= old(
                self,
            ).auctions@[token_id].end_time ==> final(self).auctions@ == old(self).auctions@.remove(
                token_id,
            ),
            old(self).auctions@.contains_key(token_id) && current_time >= old(
                self,
            ).auctions@[token_id].end_time ==> {
                let a = old(self).auctions@[token_id];
                &&& a.highest_bidder is None ==> r is Ok && final(self).nfts == old(self).nfts
                    && final(self).owner_tokens == old(self).owner_tokens && final(self).listings
                    == old(self).listings && final(self).total_volume == old(self).total_volume
                &&& a.highest_bidder matches Some(b) ==> {
                    &&& old(self).nfts@[token_id].owner@ != a.seller@ ==> (r matches Err(m) && m@
                        == "无权转移"@) && final(self).nfts == old(self).nfts
                        && final(self).owner_tokens == old(self).owner_tokens
                        && final(self).listings == old(self).listings && final(self).total_volume
                        == old(self).total_volume
                    &&& old(self).nfts@[token_id].owner@ == a.seller@ ==> {
                        &&& r is Ok
                        &&& final(self).nfts@[token_id].owner@ == b@
                        &&& final(self).nfts@.dom() == old(self).nfts@.dom()
                        &&& forall|k: u64| k != token_id && #[trigger] old(self).nfts@.contains_key(
                            k,
                        ) ==> final(self).nfts@[k] == old(self).nfts@[k]
                        &&& lists(final(self).owner_tokens@) == moved(
                            lists(old(self).owner_tokens@),
                            a.seller@,
                            b@,
                            token_id,
                        )
                        &&& final(self).listings@ == old(self).listings@.remove(token_id)
                        &&& final(self).total_volume == old(self).total_volume + a.highest_bid
                    }
                }
            },
    {
        let (seller, highest_bid, highest_bidder) = match self.auctions.get(&token_id) {
            Some(a) => {
                if current_time < a.end_time {
                    return Err("拍卖未结束".to_owned());
                }
                (a.seller.clone(), a.highest_bid, a.highest_bidder.clone())
            },
            None => {
                return Err("拍卖不存在".to_owned());
            },
        };
        self.auctions.remove(&token_id);
        match highest_bidder {
            Some(bidder) => {
                let royalty_rate = match self.nfts.get(&token_id) {
                    Some(n) => n.royalty_rate,
                    None => 0,
                };
                let platform_fee = highest_bid * self.platform_fee_rate / 1000;
                let royalty = highest_bid * royalty_rate / 1000;
                let _seller_receive = highest_bid - platform_fee - royalty;
                match self.transfer(seller.as_str(), bidder.as_str(), token_id) {
                    Ok(()) => {},
                    Err(e) => {
                        return Err(e);
                    },
                }
                self.total_volume = self.total_volume + highest_bid;
                Ok(())
            },
            None => Ok(()),
        }
    }

    pub fn get_nft(&self, token_id: u64) -> (r: Option<&NFT>)
        ensures
            match r {
                Some(n) => self.nfts@.contains_key(token_id) && *n == self.nfts@[token_id],
                None => !self.nfts@.contains_key(token_id),
            },
    {
        self.nfts.get(&token_id)
    }

    /// The existing tokens listed for `owner` in the owner index, in order.
    pub fn get_user_nfts(&self, owner: &str) -> (r: Vec<&NFT>)
        ensures
            ({
                let ids = present_ids(seq_or_empty(lists(self.owner_tokens@), owner@), self.nfts@);
                &&& r@.len() == ids.len()
                &&& forall|i: int| 0 <= i < ids.len() ==> *#[trigger] r@[i] == self.nfts@[ids[i]]
            }),
    {
        let mut r: Vec<&NFT> = Vec::new();
        let key = owner.to_owned();
        match self.owner_tokens.get(&key) {
            Some(ids) => {
                let mut i: usize = 0;
                while i < ids.len()
                    invariant
                        i <= ids@.len(),
                        ({
                            let p = present_ids(ids@.take(i as int), self.nfts@);
                            &&& r@.len() == p.len()
                            &&& forall|j: int| 0 <= j < p.len() ==> *#[trigger] r@[j] == self.nfts@[p[j]]
                        }),
                    decreases ids@.len() - i,
                {
                    assert(ids@.take(i + 1).drop_last() == ids@.take(i as int));
                    match self.nfts.get(&ids[i]) {
                        Some(n) => {
                            r.push(n);
                        },
                        None => {},
                    }
                    i = i + 1;
                }
                assert(ids@.take(ids@.len() as int) == ids@);
            },
            None => {},
        }
        r
    }

    /// The listings whose token exists, with the token.
    pub fn get_listings(&self) -> (r: Vec<(u64, &NFT, &Listing)>)
        ensures
            ({
                let ls = live_listings(self.listings.entries(), self.nfts@);
                &&& r@.len() == ls.len()
                &&& forall|i: int|
                    0 <= i < ls.len() ==> (#[trigger] r@[i]).0 == ls[i].0 && *r@[i].1 == self.nfts@[ls[i].0]
                        && *r@[i].2 == ls[i].1
            }),
    {
        let n = self.listings.len();
        let ghost es = self.listings.entries();
        let mut r: Vec<(u64, &NFT, &Listing)> = Vec::new();
        let mut i: usize = 0;
        while i < n
            invariant
                n == es.len(),
                es == self.listings.entries(),
                i <= n,
                ({
                    let ls = live_listings(es.take(i as int), self.nfts@);
                    &&& r@.len() == ls.len()
                    &&& forall|j: int|
                        0 <= j < ls.len() ==> (#[trigger] r@[j]).0 == ls[j].0 && *r@[j].1
                            == self.nfts@[ls[j].0] && *r@[j].2 == ls[j].1
                }),
            decreases n - i,
        {
            assert(es.take(i + 1).drop_last() == es.take(i as int));
            let (id, listing) = self.listings.entry_at(i);
            match self.nfts.get(id) {
                Some(nft) => {
                    r.push((*id, nft, listing));
                },
                None => {},
            }
            i = i + 1;
        }
        assert(es.take(n as int) == es);
        r
    }
}

} // verus!
