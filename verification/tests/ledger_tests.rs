use sha2::Digest;
use yrust_chain::tutorial::ledger::{calculate_merkle_root, Block, Blockchain, Transaction, TxInput, TxOutput};

#[test]
fn test_chain_validation() {
    let mut blockchain = Blockchain::new();
    blockchain.mine_block("test".to_string()).unwrap();
    blockchain.mine_block("test".to_string()).unwrap();
    assert!(blockchain.validate_chain());
}

#[test]
fn ledger_genesis_block() {
    let blockchain = Blockchain::new();
    assert_eq!(blockchain.height(), 0);
    assert_eq!(blockchain.blocks.len(), 1);
    assert_eq!(blockchain.latest_block().hash, "genesis");
    assert_eq!(blockchain.get_balance("YRGenesis"), 5_000_000_000);
}

#[test]
fn ledger_mining_pays_the_miner() {
    let mut blockchain = Blockchain::new();
    let block = blockchain.mine_block("test".to_string()).unwrap();
    assert_eq!(block.height, 1);
    assert!(block.hash.starts_with("00"));
    assert_eq!(block.header.prev_hash, "genesis");
    assert_eq!(blockchain.get_balance("test"), 5_000_000_000);
    assert_eq!(blockchain.utxo_set.len(), 2);
    let key = format!("{}:0", block.transactions[0].id);
    assert!(blockchain.utxo_set.get(&key).is_some());
}

#[test]
fn ledger_broken_link_is_detected() {
    let mut blockchain = Blockchain::new();
    blockchain.mine_block("a".to_string()).unwrap();
    blockchain.blocks[1].header.prev_hash = "elsewhere".to_string();
    assert!(!blockchain.validate_chain());
}

#[test]
fn ledger_spending_removes_outputs() {
    let mut blockchain = Blockchain::new();
    let genesis_id = blockchain.blocks[0].transactions[0].id.clone();
    let spend = Transaction {
        id: "t1".to_string(),
        inputs: vec![TxInput { tx_id: genesis_id, output_index: 0, signature: vec![] }],
        outputs: vec![TxOutput { address: "bob".to_string(), amount: 7 }],
        timestamp: 1,
    };
    blockchain.mempool.push(spend);
    blockchain.mine_block("m".to_string()).unwrap();
    assert_eq!(blockchain.get_balance("YRGenesis"), 0);
    assert_eq!(blockchain.get_balance("bob"), 7);
    assert!(blockchain.mempool.is_empty());
}

#[test]
fn ledger_hashes_and_coinbase() {
    let tx = Transaction::new_coinbase_at("alice".to_string(), 10, 42);
    assert_eq!(tx.id, "coinbase_alice_42");
    let expected = hex::encode(sha2::Sha256::digest(b"[][TxOutput { address: \"alice\", amount: 10 }]42"));
    assert_eq!(tx.hash(), expected);
    assert_eq!(calculate_merkle_root(&[]), "0".repeat(64));
    assert_eq!(calculate_merkle_root(&[tx]), "coinbase_alice_42");
    let b = Block::new_at(1, "p".to_string(), vec![], 0, "m".to_string(), 5);
    assert_eq!(b.header.merkle_root, "0".repeat(64));
}

#[test]
fn ledger_test_genesis_block() {
    let blockchain = Blockchain::new();
    assert_eq!(blockchain.height(), 0);
    assert_eq!(blockchain.blocks.len(), 1);
}

#[test]
fn ledger_test_mining() {
    let mut blockchain = Blockchain::new();
    let block = blockchain.mine_block("test".to_string()).unwrap();
    assert_eq!(block.height, 1);
    assert!(block.hash.starts_with("00"));
}
