use yrust_chain::tutorial::api::{ApiServer, MockBlockchain, Request, Response};
use yrust_chain::tutorial::contracts::{AMMContract, NFTContract, TokenContract};
use yrust_chain::tutorial::storage::{BlockchainStorage, MemoryStorage, Storage};
use yrust_chain::tutorial::vm::{ContractEngine, GasMeter, SimpleContract};

#[test]
fn storage_memory_put_get_delete() {
    let mut s = MemoryStorage::new();
    assert_eq!(s.get("k").unwrap(), None);
    s.put("k", "v").unwrap();
    assert_eq!(s.get("k").unwrap(), Some("v".to_string()));
    s.put("k", "w").unwrap();
    assert_eq!(s.get("k").unwrap(), Some("w".to_string()));
    s.delete("k").unwrap();
    assert_eq!(s.get("k").unwrap(), None);
}

#[test]
fn storage_blocks_and_latest_height() {
    let mut bs = BlockchainStorage::new(MemoryStorage::new());
    assert_eq!(bs.get_latest_height().unwrap(), 0);
    bs.save_block(1, "abc123", "block1_data").unwrap();
    bs.save_block(2, "def456", "block2_data").unwrap();
    assert_eq!(bs.get_block(1).unwrap(), Some("block1_data".to_string()));
    assert_eq!(bs.get_block(3).unwrap(), None);
    assert_eq!(bs.get_latest_height().unwrap(), 2);
}

#[test]
fn storage_bad_height_text_is_a_parse_error() {
    let mut mem = MemoryStorage::new();
    mem.put("meta:latest_height", "two").unwrap();
    let bs = BlockchainStorage::new(mem);
    let e = bs.get_latest_height().unwrap_err();
    assert!(e.starts_with("Parse error: "));
}

#[test]
fn vm_gas_meter_limits() {
    let mut g = GasMeter::new(100);
    assert!(g.consume(60).is_ok());
    assert_eq!(g.remaining(), 40);
    assert_eq!(g.consume(41).unwrap_err(), "Out of gas");
    assert_eq!(g.used, 60);
    assert!(g.consume(40).is_ok());
    assert_eq!(g.remaining(), 0);
}

#[test]
fn vm_engine_charges_per_byte() {
    let mut engine = ContractEngine::new(10000);
    // 20 bytes cost 200 gas
    assert_eq!(engine.execute(b"simple_contract_code").unwrap(), "执行成功");
    let mut small = ContractEngine::new(100);
    assert_eq!(small.execute(b"simple_contract_code").unwrap_err(), "Out of gas");
}

#[test]
fn vm_simple_contract_balance() {
    let mut c = SimpleContract::new();
    c.deposit(100);
    c.withdraw(30).unwrap();
    assert_eq!(c.balance, 70);
    assert_eq!(c.withdraw(71).unwrap_err(), "余额不足");
    assert_eq!(c.balance, 70);
}

#[test]
fn tutorial_token_transfer() {
    let mut token = TokenContract::new("YRUST Token".to_string(), "YRU".to_string(), 1_000_000, "Alice".to_string());
    token.transfer("Alice", "Bob", 1000).unwrap();
    assert_eq!(token.balance_of("Alice"), 999_000);
    assert_eq!(token.balance_of("Bob"), 1000);
    assert_eq!(token.transfer("Bob", "Carol", 1001).unwrap_err(), "余额不足");
    assert_eq!(token.balance_of("Carol"), 0);
}

#[test]
fn tutorial_nft_mint_and_transfer() {
    let mut nft = NFTContract::new("YRUST NFT".to_string());
    let id = nft.mint("Alice".to_string(), "https://yrust.chain/nft/1".to_string());
    assert_eq!(id, 1);
    assert_eq!(nft.mint("Bob".to_string(), "u2".to_string()), 2);
    nft.transfer("Alice", "Bob", id).unwrap();
    assert_eq!(nft.owner_of(id), Some("Bob".to_string()));
    assert_eq!(nft.transfer("Alice", "Carol", id).unwrap_err(), "无权转移");
    assert_eq!(nft.owner_of(9), None);
}

#[test]
fn tutorial_amm_liquidity_and_swap() {
    let mut dex = AMMContract::new();
    assert_eq!(dex.add_liquidity("LP1".to_string(), 10000, 10000), 10000);
    // 100 * 997 / 1000 = 99; 99 * 10000 / 10099 = 98
    assert_eq!(dex.swap(100, true), 98);
    // the other direction: 99 * 10100 / (9902 + 99) = 99
    assert_eq!(dex.swap(100, false), 99);
    // proportional second deposit: min(1000 * 10000 / 10001, 1000 * 10000 / 10002)
    assert_eq!(dex.add_liquidity("LP2".to_string(), 1000, 1000), 999);
}

#[test]
fn api_routes() {
    let server = ApiServer::new();
    let get = |path: &str| Request { method: "GET".to_string(), path: path.to_string(), body: None };
    let r: Response = server.handle(get("/api/blocks"));
    assert_eq!(r.status, 200);
    assert_eq!(
        r.body,
        "Blocks: [Block { height: 0, hash: \"genesis\", tx_count: 1 }, Block { height: 1, hash: \"block1\", tx_count: 5 }, Block { height: 2, hash: \"block2\", tx_count: 3 }]"
    );
    let r = server.handle(get("/api/blocks/1"));
    assert_eq!(r.body, "Block: Block { height: 1, hash: \"block1\", tx_count: 5 }");
    // an unreadable height means 0
    let r = server.handle(get("/api/blocks/x"));
    assert_eq!(r.body, "Block: Block { height: 0, hash: \"genesis\", tx_count: 1 }");
    let r = server.handle(get("/api/blocks/7"));
    assert_eq!((r.status, r.body.as_str()), (404, "Not Found"));
    let r = server.handle(get("/api/stats"));
    assert_eq!(r.body, "Stats: {\"height\": 2, \"total_tx\": 9}");
    let post = Request { method: "POST".to_string(), path: "/api/tx".to_string(), body: Some("{}".to_string()) };
    assert_eq!(server.handle(post).body, "Transaction accepted");
    let r = server.handle(get("/api/unknown"));
    assert_eq!(r.status, 404);
    assert_eq!(Response::error("boom".to_string()).status, 500);
}

#[test]
fn api_mock_chain_lookup() {
    let chain = MockBlockchain::new();
    assert_eq!(chain.get_blocks().len(), 3);
    assert_eq!(chain.get_block(2).unwrap().hash, "block2");
    assert!(chain.get_block(3).is_none());
    let stats = chain.get_stats();
    assert_eq!(stats.get(&"total_tx".to_string()), Some(&9));
}
