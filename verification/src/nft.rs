//! The NFT marketplace's registry-level operations: valuations built from a
//! token's sale history, floor prices, trending collections, paginated
//! queries and the admin switches.

use vstd::prelude::*;
use crate::keyed::KeyedMap;
use crate::nft_lending::NFTError;

verus! {

/// Most trades a history query returns.
pub const MAX_TRADE_HISTORY: u32 = 100;

/// Most collections or NFTs a page holds.
pub const MAX_PAGE: u32 = 50;

/// Most collections the trending list holds.
pub const MAX_TRENDING: u32 = 20;

/// One sale.
pub struct NFTTrade {
    pub collection_id: u64,
    pub token_id: u64,
    pub price: i128,
    pub seller: String,
    pub buyer: String,
    pub timestamp: u64,
}

impl NFTTrade {
    /// A field-by-field copy.
    pub fn copy_trade(&self) -> (r: Self)
        ensures
            r == *self,
    {
        NFTTrade {
            collection_id: self.collection_id,
            token_id: self.token_id,
            price: self.price,
            seller: self.seller.clone(),
            buyer: self.buyer.clone(),
            timestamp: self.timestamp,
        }
    }
}

/// A token.
pub struct NFT {
    pub collection_id: u64,
    pub token_id: u64,
    pub owner: String,
    pub is_fractionalized: bool,
}

impl NFT {
    /// A field-by-field copy.
    pub fn copy_nft(&self) -> (r: Self)
        ensures
            r == *self,
    {
        NFT {
            collection_id: self.collection_id,
            token_id: self.token_id,
            owner: self.owner.clone(),
            is_fractionalized: self.is_fractionalized,
        }
    }
}

/// A collection's market figures.
#[derive(Clone, Copy, Debug, PartialEq, Eq, Structural)]
pub struct NFTCollection {
    pub collection_id: u64,
    pub floor_price: i128,
    pub total_volume: i128,
}

/// An appraisal of a token.
#[derive(Clone, Copy, Debug, PartialEq, Eq, Structural)]
pub struct NFTValuation {
    pub token_id: u64,
    pub collection_id: u64,
    pub estimated_value: i128,
    pub last_sale_price: i128,
    pub sale_count: u32,
    pub avg_sale_price: i128,
    pub collection_floor: i128,
    pub valued_at: u64,
    /// Code of the appraisal method.
    pub method: u32,
}

/// A user's marketplace activity.
#[derive(Clone, Copy, Debug, PartialEq, Eq, Structural)]
pub struct NFTPortfolio {
    pub total_nfts: u32,
    pub trades_count: u32,
    pub active_listings: u32,
    pub active_offers: u32,
}

/// `a + b` clamped to the range of `i128`.
pub open spec fn sat_add(a: int, b: int) -> int {
    if a + b > i128::MAX { i128::MAX as int } else if a + b < i128::MIN { i128::MIN as int } else { a + b }
}

/// `a / b` rounded toward zero, for `b > 0`.
pub open spec fn div_toward_zero(a: int, b: int) -> int {
    if a >= 0 { a / b } else { -((-a) / b) }
}

/// The saturating sum of `s`, left to right.
pub open spec fn sat_sum(s: Seq<i128>) -> int
    decreases s.len(),
{
    if s.len() == 0 { 0 } else { sat_add(sat_sum(s.drop_last()), s.last() as int) }
}

/// The prices of the trades at `indices` that exist, in order.
pub open spec fn prices_at(trades: Seq<NFTTrade>, indices: Seq<u64>) -> Seq<i128>
    decreases indices.len(),
{
    if indices.len() == 0 {
        Seq::empty()
    } else {
        let rest = prices_at(trades, indices.drop_last());
        let i = indices.last();
        if i < trades.len() { rest.push(trades[i as int].price) } else { rest }
    }
}

/// The trades at `indices` that exist, in order.
pub open spec fn trades_at(trades: Seq<NFTTrade>, indices: Seq<u64>) -> Seq<NFTTrade>
    decreases indices.len(),
{
    if indices.len() == 0 {
        Seq::empty()
    } else {
        let rest = trades_at(trades, indices.drop_last());
        let i = indices.last();
        if i < trades.len() { rest.push(trades[i as int]) } else { rest }
    }
}

/// The valuation `set_nft_valuation` stores.
pub open spec fn valuation_of(collection_id: u64, token_id: u64, estimated_value: i128, trades: Seq<NFTTrade>,
    indices: Seq<u64>, floor: i128, now: u64, method: u32) -> NFTValuation {
    let prices = prices_at(trades, indices);
    let last = if indices.len() == 0 { 0 } else if indices.last() < trades.len() { trades[indices.last() as int].price } else { 0 };
    let count = if prices.len() > u32::MAX { u32::MAX as int } else { prices.len() as int };
    NFTValuation {
        token_id,
        collection_id,
        estimated_value,
        last_sale_price: last,
        sale_count: count as u32,
        avg_sale_price: if count > 0 { div_toward_zero(sat_sum(prices), count) as i128 } else { 0 },
        collection_floor: floor,
        valued_at: now,
        method,
    }
}

fn sat_add_i128(a: i128, b: i128) -> (r: i128)
    ensures
        r == sat_add(a as int, b as int),
{
    match a.checked_add(b) {
        Some(v) => v,
        None => if b > 0 { i128::MAX } else { i128::MIN },
    }
}

/// Registry, sales, valuations and admin settings of the marketplace.
pub struct NFTMarketplace {
    pub admin: String,
    pub paused: bool,
    pub platform_fee_bps: u32,
    pub fee_recipient: String,
    pub nfts: KeyedMap<(u64, u64), NFT>,
    /// Each owner's tokens, in the order acquired.
    pub tokens_by_owner: KeyedMap<String, Vec<(u64, u64)>>,
    pub collections: KeyedMap<u64, NFTCollection>,
    pub total_collections: u64,
    pub trades: Vec<NFTTrade>,
    /// Positions in `trades` of each token's sales, oldest first.
    pub token_trades: KeyedMap<(u64, u64), Vec<u64>>,
    pub total_volume: i128,
    pub valuations: KeyedMap<(u64, u64), NFTValuation>,
    pub floor_prices: KeyedMap<u64, i128>,
    pub active_listings: u64,
    pub active_offers: u64,
    pub portfolios: KeyedMap<String, NFTPortfolio>,
}

impl NFTMarketplace {
    /// Maps are well formed.
    pub open spec fn wf(&self) -> bool {
        &&& self.nfts.wf()
        &&& self.tokens_by_owner.wf()
        &&& self.collections.wf()
        &&& self.token_trades.wf()
        &&& self.valuations.wf()
        &&& self.floor_prices.wf()
        &&& self.portfolios.wf()
    }

    /// The sale positions recorded for a token (none if never sold).
    pub open spec fn sales_of(&self, c: u64, t: u64) -> Seq<u64> {
        if self.token_trades.map().contains_key((c, t)) { self.token_trades.map()[(c, t)]@ } else { Seq::empty() }
    }

    /// A collection's floor price as its record states it (zero without a record).
    pub open spec fn collection_floor(&self, c: u64) -> i128 {
        if self.collections.map().contains_key(c) { self.collections.map()[c].floor_price } else { 0 }
    }

    /// The valuation stored for a token, if any.
    pub open spec fn valuation(&self, c: u64, t: u64) -> Option<NFTValuation> {
        if self.valuations.map().contains_key((c, t)) { Some(self.valuations.map()[(c, t)]) } else { None }
    }

    /// An empty, unpaused marketplace charging `platform_fee_bps` for `fee_recipient`.
    pub fn initialize(admin: &str, platform_fee_bps: u32, fee_recipient: &str) -> (m: Self)
        ensures
            m.wf(),
            m.admin@ == admin@,
            !m.paused,
            m.platform_fee_bps == platform_fee_bps,
            m.fee_recipient@ == fee_recipient@,
            m.total_collections == 0,
            m.trades@ == Seq::<NFTTrade>::empty(),
            m.total_volume == 0,
            m.active_listings == 0,
            m.active_offers == 0,
    {
        let m = NFTMarketplace {
            admin: admin.to_owned(),
            paused: false,
            platform_fee_bps,
            fee_recipient: fee_recipient.to_owned(),
            nfts: KeyedMap::new(),
            tokens_by_owner: KeyedMap::new(),
            collections: KeyedMap::new(),
            total_collections: 0,
            trades: Vec::new(),
            token_trades: KeyedMap::new(),
            total_volume: 0,
            valuations: KeyedMap::new(),
            floor_prices: KeyedMap::new(),
            active_listings: 0,
            active_offers: 0,
            portfolios: KeyedMap::new(),
        };
        assert(m.trades@ =~= Seq::<NFTTrade>::empty());
        m
    }

    /// Records an appraisal of token `(collection_id, token_id)` at `now`,
    /// with its sale statistics and its collection's floor.
    pub fn set_nft_valuation(&mut self, collection_id: u64, token_id: u64, estimated_value: i128, method: u32, now: u64) -> (r: Result<(), NFTError>)
        requires
            old(self).wf(),
        ensures
            final(self).wf(),
            !old(self).nfts.map().contains_key((collection_id, token_id)) ==> r == Err::<(), NFTError>(NFTError::NFTNotFound)
                && *final(self) == *old(self),
            old(self).nfts.map().contains_key((collection_id, token_id)) ==> {
                &&& r is Ok
                &&& final(self).valuation(collection_id, token_id) == Some(valuation_of(collection_id, token_id, estimated_value,
                    old(self).trades@, old(self).sales_of(collection_id, token_id), old(self).collection_floor(collection_id), now, method))
                &&& forall|a: u64, b: u64| (a, b) != (collection_id, token_id) ==> #[trigger] final(self).valuation(a, b) == old(self).valuation(a, b)
                &&& final(self).nfts == old(self).nfts
                &&& final(self).trades == old(self).trades
                &&& final(self).token_trades == old(self).token_trades
                &&& final(self).collections == old(self).collections
                &&& final(self).floor_prices == old(self).floor_prices
            },
    {
        let key = (collection_id, token_id);
        if self.nfts.get(&key).is_none() {
            return Err(NFTError::NFTNotFound);
        }
        let empty: Vec<u64> = Vec::new();
        let indices: &Vec<u64> = match self.token_trades.get(&key) {
            Some(v) => v,
            None => &empty,
        };
        assert(indices@ == self.sales_of(collection_id, token_id));
        let ghost tr = self.trades@;
        let ghost idx = indices@;
        let n = indices.len();
        let last_sale_price: i128 = if n == 0 {
            0
        } else {
            let li = indices[n - 1];
            if li < (self.trades.len() as u64) {
                self.trades[li as usize].price
            } else {
                0
            }
        };
        let mut total_price: i128 = 0;
        let mut sale_count: u32 = 0;
        let mut i: usize = 0;
        while i < n
            invariant
                n == idx.len(),
                indices@ == idx,
                self.trades@ == tr,
                0 <= i <= n,
                total_price == sat_sum(prices_at(tr, idx.take(i as int))),
                sale_count == (if prices_at(tr, idx.take(i as int)).len() > u32::MAX { u32::MAX as int }
                    else { prices_at(tr, idx.take(i as int)).len() as int }),
            decreases n - i,
        {
            let ix = indices[i];
            proof {
                assert(idx.take(i + 1).drop_last() =~= idx.take(i as int));
                assert(idx.take(i + 1).last() == ix);
            }
            if ix < (self.trades.len() as u64) {
                proof {
                    let pp = prices_at(tr, idx.take(i as int));
                    assert(pp.push(tr[ix as int].price).drop_last() =~= pp);
                }
                total_price = sat_add_i128(total_price, self.trades[ix as usize].price);
                sale_count = sale_count.saturating_add(1);
            }
            i = i + 1;
        }
        assert(idx.take(n as int) =~= idx);
        let avg_sale_price: i128 = if sale_count > 0 {
            total_price / (sale_count as i128)
        } else {
            0
        };
        let collection_floor = match self.collections.get(&collection_id) {
            Some(c) => c.floor_price,
            None => 0,
        };
        let valuation = NFTValuation {
            token_id,
            collection_id,
            estimated_value,
            last_sale_price,
            sale_count,
            avg_sale_price,
            collection_floor,
            valued_at: now,
            method,
        };
        self.valuations.insert(key, valuation);
        Ok(())
    }

    /// The valuation of a token, if one was recorded.
    pub fn get_nft_valuation(&self, collection_id: u64, token_id: u64) -> (r: Option<NFTValuation>)
        requires
            self.wf(),
        ensures
            r == self.valuation(collection_id, token_id),
    {
        match self.valuations.get(&(collection_id, token_id)) {
            Some(v) => Some(*v),
            None => None,
        }
    }

    /// The floor price kept for valuations of a collection (zero if unset).
    pub open spec fn floor_of(&self, c: u64) -> i128 {
        if self.floor_prices.map().contains_key(c) { self.floor_prices.map()[c] } else { 0 }
    }

    /// Sets the floor price kept for valuations of `collection_id`.
    pub fn update_collection_floor_price(&mut self, collection_id: u64, new_floor_price: i128) -> (r: Result<(), NFTError>)
        requires
            old(self).wf(),
        ensures
            final(self).wf(),
            r is Ok,
            final(self).floor_of(collection_id) == new_floor_price,
            forall|c: u64| c != collection_id ==> #[trigger] final(self).floor_of(c) == old(self).floor_of(c),
            final(self).collections == old(self).collections,
            final(self).valuations == old(self).valuations,
    {
        self.floor_prices.insert(collection_id, new_floor_price);
        Ok(())
    }

    /// The floor price kept for valuations of `collection_id`.
    pub fn get_collection_floor_price(&self, collection_id: u64) -> (p: i128)
        requires
            self.wf(),
        ensures
            p == self.floor_of(collection_id),
    {
        match self.floor_prices.get(&collection_id) {
            Some(p) => *p,
            None => 0,
        }
    }

    /// Pauses or resumes the marketplace (admin only).
    pub fn set_marketplace_pause(&mut self, admin: &str, paused: bool) -> (r: Result<(), NFTError>)
        ensures
            admin@ != old(self).admin@ ==> r == Err::<(), NFTError>(NFTError::Unauthorized) && *final(self) == *old(self),
            admin@ == old(self).admin@ ==> r is Ok && *final(self) == (NFTMarketplace { paused, ..*old(self) }),
    {
        if !(self.admin == admin.to_owned()) {
            return Err(NFTError::Unauthorized);
        }
        self.paused = paused;
        Ok(())
    }

    /// Sets the platform fee (admin only).
    pub fn update_platform_fee(&mut self, admin: &str, new_fee_bps: u32) -> (r: Result<(), NFTError>)
        ensures
            admin@ != old(self).admin@ ==> r == Err::<(), NFTError>(NFTError::Unauthorized) && *final(self) == *old(self),
            admin@ == old(self).admin@ ==> r is Ok && *final(self) == (NFTMarketplace { platform_fee_bps: new_fee_bps, ..*old(self) }),
    {
        if !(self.admin == admin.to_owned()) {
            return Err(NFTError::Unauthorized);
        }
        self.platform_fee_bps = new_fee_bps;
        Ok(())
    }

    /// Sets who receives platform fees (admin only).
    pub fn update_fee_recipient(&mut self, admin: &str, new_recipient: &str) -> (r: Result<(), NFTError>)
        ensures
            admin@ != old(self).admin@ ==> r == Err::<(), NFTError>(NFTError::Unauthorized) && *final(self) == *old(self),
            admin@ == old(self).admin@ ==> r is Ok && final(self).fee_recipient@ == new_recipient@
                && final(self).admin == old(self).admin && final(self).paused == old(self).paused
                && final(self).platform_fee_bps == old(self).platform_fee_bps,
    {
        if !(self.admin == admin.to_owned()) {
            return Err(NFTError::Unauthorized);
        }
        self.fee_recipient = new_recipient.to_owned();
        Ok(())
    }

    /// Collections, NFTs, active listings, active offers and total volume.
    pub fn get_marketplace_stats(&self) -> (r: (u64, u64, u64, u64, i128))
        ensures
            r == (self.total_collections, self.nfts.size() as u64, self.active_listings, self.active_offers, self.total_volume),
    {
        (self.total_collections, self.nfts.len() as u64, self.active_listings, self.active_offers, self.total_volume)
    }

    /// Total traded volume.
    pub fn get_total_volume(&self) -> (v: i128)
        ensures
            v == self.total_volume,
    {
        self.total_volume
    }

    /// The activity of `owner` (all zero if none recorded).
    pub open spec fn portfolio_of(&self, owner: Seq<char>) -> NFTPortfolio {
        if self.portfolios.map().contains_key(owner) { self.portfolios.map()[owner] }
        else { NFTPortfolio { total_nfts: 0, trades_count: 0, active_listings: 0, active_offers: 0 } }
    }

    /// The activity of `owner`.
    pub fn get_nft_portfolio(&self, owner: &str) -> (p: NFTPortfolio)
        requires
            self.wf(),
        ensures
            p == self.portfolio_of(owner@),
    {
        match self.portfolios.get(&owner.to_owned()) {
            Some(p) => *p,
            None => NFTPortfolio { total_nfts: 0, trades_count: 0, active_listings: 0, active_offers: 0 },
        }
    }

    /// Whether `address` owns, traded, lists or offers anything.
    pub fn has_nft_activity(&self, address: &str) -> (b: bool)
        requires
            self.wf(),
        ensures
            b == (self.portfolio_of(address@).total_nfts > 0 || self.portfolio_of(address@).trades_count > 0
                || self.portfolio_of(address@).active_listings > 0 || self.portfolio_of(address@).active_offers > 0),
    {
        let p = self.get_nft_portfolio(address);
        p.total_nfts > 0 || p.trades_count > 0 || p.active_listings > 0 || p.active_offers > 0
    }

    /// The latest `min(limit, 100)` recorded sales of a token, oldest first.
    pub fn get_token_trade_history(&self, collection_id: u64, token_id: u64, limit: u32) -> (v: Vec<NFTTrade>)
        requires
            self.wf(),
        ensures
            ({
                let idx = self.sales_of(collection_id, token_id);
                let max = if limit > MAX_TRADE_HISTORY { MAX_TRADE_HISTORY } else { limit };
                let start = if idx.len() > max { idx.len() - max } else { 0 };
                v@ == trades_at(self.trades@, idx.skip(start))
            }),
    {
        let empty: Vec<u64> = Vec::new();
        let indices: &Vec<u64> = match self.token_trades.get(&(collection_id, token_id)) {
            Some(v) => v,
            None => &empty,
        };
        let ghost idx = indices@;
        let ghost tr = self.trades@;
        let max_results = if limit > MAX_TRADE_HISTORY { MAX_TRADE_HISTORY } else { limit };
        let n = indices.len();
        let start: usize = if n > max_results as usize { n - max_results as usize } else { 0 };
        let mut result: Vec<NFTTrade> = Vec::new();
        let mut i: usize = start;
        while i < n
            invariant
                n == idx.len(),
                indices@ == idx,
                self.trades@ == tr,
                start <= i <= n,
                result@ == trades_at(tr, idx.subrange(start as int, i as int)),
            decreases n - i,
        {
            let ix = indices[i];
            proof {
                assert(idx.subrange(start as int, i + 1).drop_last() =~= idx.subrange(start as int, i as int));
            }
            if ix < (self.trades.len() as u64) {
                result.push(self.trades[ix as usize].copy_trade());
            }
            i = i + 1;
        }
        assert(idx.subrange(start as int, n as int) =~= idx.skip(start as int));
        result
    }

    /// The collection stored under `id`, if any.
    pub open spec fn collection(&self, id: u64) -> Option<NFTCollection> {
        if self.collections.map().contains_key(id) { Some(self.collections.map()[id]) } else { None }
    }

    /// The collections stored under the numbers `lo` up to but excluding `hi`.
    pub open spec fn collections_between(&self, lo: int, hi: int) -> Seq<NFTCollection>
        decreases hi - lo,
    {
        if hi <= lo {
            Seq::empty()
        } else {
            let rest = self.collections_between(lo, hi - 1);
            match self.collection((hi - 1) as u64) {
                Some(c) => rest.push(c),
                None => rest,
            }
        }
    }

    /// The collections numbered `start` to `start + min(limit, 50) - 1`
    /// that exist, in order.
    pub fn get_collections(&self, start: u64, limit: u32) -> (v: Vec<NFTCollection>)
        requires
            self.wf(),
            start + MAX_PAGE <= u64::MAX,
        ensures
            v@ == self.collections_between(start as int, start + (if limit > MAX_PAGE { MAX_PAGE } else { limit })),
    {
        let max_limit = (if limit > MAX_PAGE { MAX_PAGE } else { limit }) as u64;
        let end = start + max_limit;
        let mut result: Vec<NFTCollection> = Vec::new();
        let mut i = start;
        while i < end
            invariant
                start <= i <= end,
                result@ == self.collections_between(start as int, i as int),
                self.wf(),
            decreases end - i,
        {
            match self.collections.get(&i) {
                Some(c) => result.push(*c),
                None => {},
            }
            i = i + 1;
        }
        result
    }

    /// The tokens `owner` holds, in the order acquired.
    pub open spec fn owned(&self, owner: Seq<char>) -> Seq<(u64, u64)> {
        if self.tokens_by_owner.map().contains_key(owner) { self.tokens_by_owner.map()[owner]@ } else { Seq::empty() }
    }

    /// The NFTs among `keys` that exist, in order.
    pub open spec fn nfts_at(&self, keys: Seq<(u64, u64)>) -> Seq<NFT>
        decreases keys.len(),
    {
        if keys.len() == 0 {
            Seq::empty()
        } else {
            let rest = self.nfts_at(keys.drop_last());
            if self.nfts.map().contains_key(keys.last()) { rest.push(self.nfts.map()[keys.last()]) } else { rest }
        }
    }

    /// A page of the NFTs `owner` holds: positions `start` up to
    /// `start + min(limit, 50)`, within the list.
    pub fn get_nfts_by_owner_paginated(&self, owner: &str, start: u32, limit: u32) -> (v: Vec<NFT>)
        requires
            self.wf(),
            start + (if limit > MAX_PAGE { MAX_PAGE } else { limit }) <= u32::MAX,
            self.owned(owner@).len() <= u32::MAX,
        ensures
            ({
                let toks = self.owned(owner@);
                let e = start + (if limit > MAX_PAGE { MAX_PAGE } else { limit });
                let end = if e < toks.len() { e } else { toks.len() as int };
                v@ == (if start < end { self.nfts_at(toks.subrange(start as int, end)) } else { Seq::empty() })
            }),
    {
        let empty: Vec<(u64, u64)> = Vec::new();
        let tokens: &Vec<(u64, u64)> = match self.tokens_by_owner.get(&owner.to_owned()) {
            Some(t) => t,
            None => &empty,
        };
        let ghost toks = tokens@;
        let max_limit = if limit > MAX_PAGE { MAX_PAGE } else { limit };
        let len = tokens.len() as u32;
        let e = start + max_limit;
        let end = if e < len { e } else { len };
        let mut result: Vec<NFT> = Vec::new();
        let mut i = start;
        if start < end {
            while i < end
                invariant
                    start <= i <= end,
                    end <= toks.len(),
                    tokens@ == toks,
                    self.wf(),
                    result@ == self.nfts_at(toks.subrange(start as int, i as int)),
                decreases end - i,
            {
                let key = tokens[i as usize];
                proof {
                    assert(toks.subrange(start as int, i + 1).drop_last() =~= toks.subrange(start as int, i as int));
                }
                match self.nfts.get(&key) {
                    Some(n) => result.push(n.copy_nft()),
                    None => {},
                }
                i = i + 1;
            }
        } else {
            assert(result@ =~= Seq::<NFT>::empty());
        }
        result
    }

    /// `(collection id, total volume)` of the collections numbered one up to
    /// `hi - 1` that exist, in order.
    pub open spec fn volumes_upto(&self, hi: int) -> Seq<(u64, i128)>
        decreases hi,
    {
        if hi <= 1 {
            Seq::empty()
        } else {
            let rest = self.volumes_upto(hi - 1);
            match self.collection((hi - 1) as u64) {
                Some(c) => rest.push((c.collection_id, c.total_volume)),
                None => rest,
            }
        }
    }

    /// The collections with the highest volume, at most `min(limit, 20)`:
    /// ranked by volume, highest first, ties in collection order.
    pub fn get_trending_collections(&self, limit: u32) -> (v: Vec<(u64, i128)>)
        requires
            self.wf(),
            self.total_collections < u64::MAX,
        ensures
            ({
                let items = self.volumes_upto(self.total_collections + 1);
                let max = if limit > MAX_TRENDING { MAX_TRENDING } else { limit };
                let cap = if max < items.len() { max as int } else { items.len() as int };
                exists|p: Seq<int>| #[trigger] is_ranking(items, p) && v@ == p.take(cap).map_values(|j: int| items[j])
            }),
    {
        let mut items: Vec<(u64, i128)> = Vec::new();
        let total = self.total_collections;
        let mut id: u64 = 1;
        while id <= total
            invariant
                1 <= id <= total + 1,
                total < u64::MAX,
                self.wf(),
                items@ == self.volumes_upto(id as int),
            decreases total + 1 - id,
        {
            match self.collections.get(&id) {
                Some(c) => items.push((c.collection_id, c.total_volume)),
                None => {},
            }
            id = id + 1;
        }
        let order = rank_by_volume(&items);
        let max_results = if limit > MAX_TRENDING { MAX_TRENDING } else { limit };
        let n = items.len();
        let cap = if (max_results as usize) < n { max_results as usize } else { n };
        let mut result: Vec<(u64, i128)> = Vec::new();
        let mut k: usize = 0;
        let ghost p = order@.map_values(|j: usize| j as int);
        while k < cap
            invariant
                cap <= n,
                n == items@.len(),
                order@.len() == n,
                is_ranking(items@, p),
                p == order@.map_values(|j: usize| j as int),
                0 <= k <= cap,
                result@ == p.take(k as int).map_values(|j: int| items@[j]),
            decreases cap - k,
        {
            let j = order[k];
            assert(p[k as int] == j as int);
            result.push(items[j]);
            k = k + 1;
            assert(result@ =~= p.take(k as int).map_values(|j: int| items@[j]));
        }
        assert(is_ranking(items@, p));
        result
    }
}

/// Item `a` comes before item `b`: higher volume, or equal volume and earlier.
pub open spec fn ranks_before(items: Seq<(u64, i128)>, a: int, b: int) -> bool {
    items[a].1 > items[b].1 || (items[a].1 == items[b].1 && a < b)
}

/// `p` lists every position of `items` once, in ranking order.
pub open spec fn is_ranking(items: Seq<(u64, i128)>, p: Seq<int>) -> bool {
    &&& p.len() == items.len()
    &&& forall|k: int| 0 <= k < p.len() ==> 0 <= #[trigger] p[k] < items.len()
    &&& forall|k1: int, k2: int| 0 <= k1 < k2 < p.len() ==> ranks_before(items, #[trigger] p[k1], #[trigger] p[k2])
}

/// Positions of `items` ordered by volume, highest first; equal volumes keep
/// their order (a stable insertion sort).
pub fn rank_by_volume(items: &Vec<(u64, i128)>) -> (order: Vec<usize>)
    ensures
        is_ranking(items@, order@.map_values(|j: usize| j as int)),
        order@.len() == items@.len(),
{
    let n = items.len();
    let mut order: Vec<usize> = Vec::new();
    let mut i: usize = 0;
    while i < n
        invariant
            n == items@.len(),
            0 <= i <= n,
            order@.len() == i,
            forall|k: int| 0 <= k < i ==> #[trigger] order@[k] < i,
            forall|k1: int, k2: int| 0 <= k1 < k2 < i ==> ranks_before(items@, #[trigger] order@[k1] as int, #[trigger] order@[k2] as int),
        decreases n - i,
    {
        let vi = items[i].1;
        let mut q: usize = 0;
        while q < i && !(items[order[q]].1 < vi)
            invariant
                n == items@.len(),
                i < n,
                order@.len() == i,
                vi == items@[i as int].1,
                0 <= q <= i,
                forall|k: int| 0 <= k < i ==> #[trigger] order@[k] < i,
                forall|k: int| 0 <= k < q ==> items@[#[trigger] order@[k] as int].1 >= vi,
            decreases i - q,
        {
            q = q + 1;
        }
        let ghost before = order@;
        order.insert(q, i);
        proof {
            assert forall|k1: int, k2: int| 0 <= k1 < k2 < i + 1 implies ranks_before(items@, #[trigger] order@[k1] as int, #[trigger] order@[k2] as int) by {
                if k2 < q {
                    assert(order@[k1] == before[k1] && order@[k2] == before[k2]);
                } else if k2 == q {
                    assert(order@[k1] == before[k1]);
                    assert(items@[before[k1] as int].1 >= vi);
                } else if k1 == q {
                    assert(order@[k2] == before[k2 - 1]);
                    assert(q < i);
                    assert(items@[before[q as int] as int].1 < vi);
                    if k2 - 1 > q {
                        assert(ranks_before(items@, before[q as int] as int, before[k2 - 1] as int));
                    }
                } else if k1 < q {
                    assert(order@[k1] == before[k1] && order@[k2] == before[k2 - 1]);
                } else {
                    assert(order@[k1] == before[k1 - 1] && order@[k2] == before[k2 - 1]);
                }
            }
            assert forall|k: int| 0 <= k < i + 1 implies #[trigger] order@[k] < i + 1 by {
                if k < q {
                    assert(order@[k] == before[k]);
                } else if k > q {
                    assert(order@[k] == before[k - 1]);
                }
            }
        }
        i = i + 1;
    }
    let ghost p = order@.map_values(|j: usize| j as int);
    assert forall|k1: int, k2: int| 0 <= k1 < k2 < p.len() implies ranks_before(items@, #[trigger] p[k1], #[trigger] p[k2]) by {
        assert(p[k1] == order@[k1] as int && p[k2] == order@[k2] as int);
    }
    assert forall|k: int| 0 <= k < p.len() implies 0 <= #[trigger] p[k] < items@.len() by {
        assert(p[k] == order@[k] as int);
    }
    order
}

} // verus!
