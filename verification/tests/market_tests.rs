use yrust_chain::contracts::nft_market::NFTMarket;

fn market() -> NFTMarket {
    NFTMarket::new("Test".to_string(), "TEST".to_string(), "platform".to_string())
}

#[test]
fn test_mint_and_transfer() {
    let mut market = market();
    let token_id = market
        .mint("creator".to_string(), "owner".to_string(), "uri".to_string(), 50)
        .unwrap();
    assert_eq!(market.total_supply, 1);
    market.transfer("owner", "new_owner", token_id).unwrap();
    assert_eq!(market.get_nft(token_id).unwrap().owner, "new_owner");
}

#[test]
fn test_buy_with_royalty() {
    let mut market = market();
    let token_id = market
        .mint("creator".to_string(), "seller".to_string(), "uri".to_string(), 100)
        .unwrap();
    market.list("seller", token_id, 1000, 100).unwrap();
    let seller_receive = market.buy("buyer", token_id).unwrap();
    assert_eq!(seller_receive, 875);
}

#[test]
fn market_auction_flow() {
    let mut m = market();
    let id = m.mint("a".to_string(), "a".to_string(), "u".to_string(), 100).unwrap();
    m.create_auction("a", id, 500, 3600, 3000).unwrap();
    assert!(m.list("a", id, 10, 3000).is_err());
    m.bid("b1", id, 600, 3100).unwrap();
    assert_eq!(m.bid("b2", id, 610, 3200), Err("出价必须 >= 630".to_string()));
    m.bid("b2", id, 800, 3200).unwrap();
    assert_eq!(m.end_auction(id, 6000), Err("拍卖未结束".to_string()));
    m.end_auction(id, 6600).unwrap();
    assert_eq!(m.get_nft(id).unwrap().owner, "b2");
    assert_eq!(m.total_volume, 800);
    assert_eq!(m.get_user_nfts("b2").len(), 1);
    assert_eq!(m.get_user_nfts("a").len(), 0);
}

#[test]
fn market_errors() {
    let mut m = market();
    assert!(m.mint("c".to_string(), "o".to_string(), "u".to_string(), 101).is_err());
    let id = m.mint("c".to_string(), "o".to_string(), "u".to_string(), 0).unwrap();
    assert_eq!(m.list("x", id, 10, 0), Err("无权上架".to_string()));
    assert_eq!(m.list("o", id, 0, 0), Err("价格不能为0".to_string()));
    assert_eq!(m.delist("o", id), Err("NFT未上架".to_string()));
    m.list("o", id, 10, 0).unwrap();
    assert_eq!(m.get_listings().len(), 1);
    assert_eq!(m.delist("x", id), Err("无权取消".to_string()));
    m.delist("o", id).unwrap();
    assert_eq!(m.get_listings().len(), 0);
    assert_eq!(m.transfer("x", "y", id), Err("无权转移".to_string()));
    assert_eq!(m.transfer("x", "y", 99), Err("NFT不存在".to_string()));
}
