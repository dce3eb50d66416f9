use yrust_chain::api::{address_info, block_by_hash, block_by_height, blocks_overview, find_transaction, transaction_to_detail, ApiResponse};
use yrust_chain::chain::blockchain::Blockchain;
use yrust_chain::chain::types::MINING_REWARD;
use yrust_chain::wallet::Wallet;

#[test]
fn test_api_response() {
    let response: ApiResponse<String> = ApiResponse::success("test".to_string());
    assert!(response.success);
    assert_eq!(response.data, Some("test".to_string()));
}

#[test]
fn api_error_response() {
    let response: ApiResponse<String> = ApiResponse::error("bad".to_string());
    assert!(!response.success);
    assert_eq!(response.data, None);
    assert_eq!(response.error, Some("bad".to_string()));
}

#[test]
fn api_blocks_and_lookups() {
    let mut bc = Blockchain::new();
    let w = Wallet::new();
    let b1 = bc.mine_block(w.address.clone()).unwrap();
    let overview = blocks_overview(&bc);
    assert_eq!(overview.total, 2);
    assert_eq!(overview.blocks.len(), 2);
    assert_eq!(overview.blocks[0].height, 1);
    assert_eq!(overview.blocks[0].miner, w.address);
    assert_eq!(overview.blocks[1].height, 0);

    let r = block_by_height(&bc, 1);
    assert!(r.success);
    assert_eq!(r.data.unwrap().hash, b1.hash);
    let r = block_by_height(&bc, 9);
    assert_eq!(r.error, Some("区块 9 不存在".to_string()));
    let r = block_by_hash(&bc, &b1.hash);
    assert_eq!(r.data.unwrap().height, 1);
    assert_eq!(block_by_hash(&bc, "nope").error, Some("区块 nope 不存在".to_string()));

    let coinbase_id = b1.transactions[0].id.clone();
    let r = find_transaction(&bc, &coinbase_id);
    let d = r.data.unwrap();
    assert_eq!(d.block_height, Some(1));
    assert_eq!(d.block_hash, Some(b1.hash.clone()));
    assert!(d.is_coinbase);
    assert_eq!(d.outputs.len(), 1);
    assert_eq!(d.outputs[0].value, MINING_REWARD);
    assert_eq!(d.inputs[0].address, "unknown");
    assert_eq!(find_transaction(&bc, "zz").error, Some("交易 zz 不存在".to_string()));
    let pooled = transaction_to_detail(&b1.transactions[0], None, None);
    assert_eq!(pooled.block_height, None);
}

#[test]
fn api_address_summary() {
    let mut bc = Blockchain::new();
    let w = Wallet::new();
    bc.mine_block(w.address.clone()).unwrap();
    let info = address_info(&bc, w.address.clone()).data.unwrap();
    assert_eq!(info.balance, MINING_REWARD);
    assert_eq!(info.received, MINING_REWARD);
    assert_eq!(info.sent, 0);
    assert!(info.tx_count >= 1);
    let bad = address_info(&bc, "not-an-address".to_string());
    assert!(!bad.success);
    assert_eq!(bad.error, Some("无效的地址格式".to_string()));
}
