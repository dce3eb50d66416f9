use sha2::Digest;
use yrust_chain::chain::blockchain::Blockchain;
use yrust_chain::chain::models::{AccountTransaction, UtxoSet, UtxoTransaction, WorldState};
use yrust_chain::chain::types::{Block, Transaction, DIFFICULTY, MINING_REWARD};
use yrust_chain::wallet::Wallet;

#[test]
fn test_blockchain_creation() {
    let bc = Blockchain::new();
    assert_eq!(bc.get_height(), 0);
    assert_eq!(bc.chain.len(), 1);
}

#[test]
fn blockchain_test_mining() {
    let mut bc = Blockchain::new();
    let wallet = Wallet::new();
    let block = bc.mine_block(wallet.address.clone()).unwrap();
    assert_eq!(bc.get_height(), 1);
    assert!(block.is_valid(DIFFICULTY));
}

#[test]
fn test_transaction() {
    let mut bc = Blockchain::new();
    let wallet1 = Wallet::new();
    let wallet2 = Wallet::new();

    bc.mine_block(wallet1.address.clone()).unwrap();

    let tx = bc.create_transaction(&wallet1, wallet2.address.clone(), 50_000_000).unwrap();
    assert!(bc.verify_transaction(&tx).unwrap());
}

#[test]
fn test_balance() {
    let mut bc = Blockchain::new();
    let wallet = Wallet::new();
    bc.mine_block(wallet.address.clone()).unwrap();
    let balance = bc.get_balance(&wallet.address);
    assert_eq!(balance, MINING_REWARD);
}

#[test]
fn chain_is_valid_and_signed_transfer() {
    let mut bc = Blockchain::new();
    let w1 = Wallet::new();
    let w2 = Wallet::new();
    bc.mine_block(w1.address.clone()).unwrap();
    assert!(bc.is_valid());
    let tx = bc.create_transaction(&w1, w2.address.clone(), 50_000_000).unwrap();
    assert_eq!(bc.verify_transaction(&tx).unwrap(), true);
    assert_eq!(tx.outputs.len(), 2);
    assert_eq!(tx.outputs[1].value, 50_000_000);
    bc.add_to_mempool(tx).unwrap();
    bc.mine_block(w1.address.clone()).unwrap();
    assert_eq!(bc.get_balance(&w2.address), 50_000_000);
    assert_eq!(bc.get_balance(&w1.address), MINING_REWARD + 50_000_000);
    assert_eq!(bc.get_stats().total_transactions, 4);
    assert!(bc.create_transaction(&w2, w1.address.clone(), 60_000_000).is_err());
}

#[test]
fn test_utxo() {
    let mut utxo_set = UtxoSet::new();
    let tx = UtxoTransaction::new_coinbase("addr1".to_string(), 100, 0);
    utxo_set.update_from_tx(&tx);
    assert_eq!(utxo_set.get_balance("addr1"), 100);
}

#[test]
fn test_account_model() {
    let mut state = WorldState::new();
    let acc = state.get_or_create("addr1");
    acc.balance = 1000;
    state.transfer("addr1", "addr2", 300).unwrap();
    assert_eq!(state.get_balance("addr1"), 700);
    assert_eq!(state.get_balance("addr2"), 300);
}

#[test]
fn test_insufficient_balance() {
    let mut state = WorldState::new();
    let acc = state.get_or_create("addr1");
    acc.balance = 100;
    let result = state.transfer("addr1", "addr2", 200);
    assert!(result.is_err());
}

#[test]
fn account_nonce_checked() {
    let mut state = WorldState::new();
    state.get_or_create("a").balance = 10;
    let tx = AccountTransaction {
        id: "t".to_string(),
        from: "a".to_string(),
        to: "b".to_string(),
        value: 4,
        nonce: 1,
        gas_price: 0,
        gas_limit: 0,
        data: vec![],
        timestamp: 0,
        signature: vec![],
    };
    assert_eq!(state.execute_tx(&tx), Err("Invalid nonce: expected 0, got 1".to_string()));
    let tx0 = AccountTransaction { nonce: 0, ..tx };
    state.execute_tx(&tx0).unwrap();
    assert_eq!(state.get_balance("b"), 4);
}

#[test]
fn test_transaction_hash() {
    let tx = Transaction::new(vec![], vec![]);
    assert_eq!(tx.id, tx.calculate_hash());
}

#[test]
fn test_block_hash() {
    let block = Block::new(0, "0".to_string(), vec![], 0x1d00ffff);
    assert_eq!(block.hash, block.calculate_hash());
}

#[test]
fn types_test_merkle_root() {
    let tx1 = Transaction::new(vec![], vec![]);
    let tx2 = Transaction::new(vec![], vec![]);
    let block = Block::new(0, "0".to_string(), vec![tx1, tx2], 0x1d00ffff);
    assert_ne!(block.header.merkle_root, "0");
}

#[test]
fn transaction_hash_text_is_debug_format() {
    let tx = Transaction::new_at(vec![], vec![], 7);
    let expected = hex::encode(sha2::Sha256::digest("7[][]1".as_bytes()));
    assert_eq!(tx.id, expected);
    let cb = Transaction::new_coinbase_at("m".to_string(), 5, 1, 0);
    let text = "0[TxInput { tx_id: \"0\", vout: 0, script_sig: ScriptSig { signature: [1, 0, 0, 0, 0, 0, 0, 0], pubkey: [] } }][TxOutput { value: 5, script_pubkey: \"m\" }]1";
    let expected_cb = hex::encode(sha2::Sha256::digest(text.as_bytes()));
    assert_eq!(cb.id, expected_cb);
    assert!(cb.is_coinbase());
    assert!(cb.is_valid());
}

#[test]
fn block_mining_meets_difficulty() {
    let mut b = Block::new_at(1, "0".to_string(), vec![], 1, 0);
    assert_eq!(b.header.merkle_root, "0");
    b.mine(2);
    assert!(b.hash.starts_with("00"));
    assert!(b.check_hash(2));
    assert!(b.is_valid(2));
}
