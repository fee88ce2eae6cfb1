use swaptrade::nft::{NFTCollection, NFTMarketplace, NFTPortfolio, NFTTrade, NFT};
use swaptrade::nft_lending::NFTError;

fn trade(c: u64, t: u64, price: i128) -> NFTTrade {
    NFTTrade { collection_id: c, token_id: t, price, seller: "s".to_string(), buyer: "b".to_string(), timestamp: 1 }
}

fn market() -> NFTMarketplace {
    let mut m = NFTMarketplace::initialize("admin", 250, "treasury");
    m.nfts.insert((1, 1), NFT { collection_id: 1, token_id: 1, owner: "alice".to_string(), is_fractionalized: false });
    m.trades.push(trade(1, 1, 100));
    m.trades.push(trade(1, 1, 300));
    m.trades.push(trade(1, 2, 999));
    m.token_trades.insert((1, 1), vec![0, 1]);
    m.collections.insert(1, NFTCollection { collection_id: 1, floor_price: 50, total_volume: 400 });
    m.collections.insert(2, NFTCollection { collection_id: 2, floor_price: 5, total_volume: 900 });
    m.collections.insert(3, NFTCollection { collection_id: 3, floor_price: 5, total_volume: 400 });
    m.total_collections = 3;
    m
}

#[test]
fn valuation_uses_sale_history_and_floor() {
    let mut m = market();
    m.set_nft_valuation(1, 1, 250, 2, 77).unwrap();
    let v = m.get_nft_valuation(1, 1).unwrap();
    assert_eq!(v.last_sale_price, 300);
    assert_eq!(v.sale_count, 2);
    assert_eq!(v.avg_sale_price, 200);
    assert_eq!(v.collection_floor, 50);
    assert_eq!(v.valued_at, 77);
    assert_eq!(v.estimated_value, 250);
    assert_eq!(m.set_nft_valuation(9, 9, 1, 0, 0), Err(NFTError::NFTNotFound));
    assert!(m.get_nft_valuation(9, 9).is_none());
}

#[test]
fn valuation_without_sales() {
    let mut m = market();
    m.nfts.insert((2, 5), NFT { collection_id: 2, token_id: 5, owner: "bob".to_string(), is_fractionalized: false });
    m.set_nft_valuation(2, 5, 10, 1, 5).unwrap();
    let v = m.get_nft_valuation(2, 5).unwrap();
    assert_eq!((v.last_sale_price, v.sale_count, v.avg_sale_price, v.collection_floor), (0, 0, 0, 5));
}

#[test]
fn trending_orders_by_volume_then_collection() {
    let m = market();
    assert_eq!(m.get_trending_collections(10), vec![(2, 900), (1, 400), (3, 400)]);
    assert_eq!(m.get_trending_collections(1), vec![(2, 900)]);
    assert_eq!(m.get_trending_collections(0), vec![]);
}

#[test]
fn trade_history_keeps_latest() {
    let m = market();
    let h = m.get_token_trade_history(1, 1, 1);
    assert_eq!(h.len(), 1);
    assert_eq!(h[0].price, 300);
    assert_eq!(m.get_token_trade_history(1, 1, 500).len(), 2);
    assert_eq!(m.get_token_trade_history(4, 4, 5).len(), 0);
}

#[test]
fn pagination_and_admin() {
    let mut m = market();
    let cols = m.get_collections(2, 10);
    assert_eq!(cols.len(), 2);
    assert_eq!(cols[0].collection_id, 2);
    m.tokens_by_owner.insert("alice".to_string(), vec![(1, 1), (5, 5)]);
    let page = m.get_nfts_by_owner_paginated("alice", 0, 10);
    assert_eq!(page.len(), 1);
    assert_eq!(page[0].owner, "alice");
    assert_eq!(m.get_nfts_by_owner_paginated("alice", 5, 10).len(), 0);
    assert_eq!(m.set_marketplace_pause("eve", true), Err(NFTError::Unauthorized));
    m.set_marketplace_pause("admin", true).unwrap();
    assert!(m.paused);
    m.update_platform_fee("admin", 300).unwrap();
    assert_eq!(m.platform_fee_bps, 300);
    m.update_fee_recipient("admin", "dao").unwrap();
    assert_eq!(m.fee_recipient, "dao");
    m.update_collection_floor_price(3, 42).unwrap();
    assert_eq!(m.get_collection_floor_price(3), 42);
    assert_eq!(m.get_collection_floor_price(4), 0);
    assert_eq!(m.get_marketplace_stats(), (3, 1, 0, 0, 0));
    assert_eq!(m.get_total_volume(), 0);
    assert!(!m.has_nft_activity("alice"));
    m.portfolios.insert("alice".to_string(), NFTPortfolio { total_nfts: 1, trades_count: 0, active_listings: 0, active_offers: 0 });
    assert!(m.has_nft_activity("alice"));
    assert_eq!(m.get_nft_portfolio("alice").total_nfts, 1);
}
