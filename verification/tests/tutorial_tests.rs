use yrust_chain::tutorial::basic;
use yrust_chain::tutorial::block_structure;
use yrust_chain::tutorial::hashing;
use yrust_chain::tutorial::simple_chain;

#[test]
fn test_block_creation() {
    let block = block_structure::Block::new(0, "test".to_string(), "0".to_string());
    assert_eq!(block.index, 0);
    assert_eq!(block.data, "test");
    assert_eq!(block.prev_hash, "0");
}

#[test]
fn test_block_display() {
    let block = block_structure::Block::new(1, "data".to_string(), "prev".to_string());
    let output = block.to_string();
    assert!(output.contains("Block #1"));
}

#[test]
fn test_hash_consistency() {
    let block = hashing::Block::new(0, "test".to_string(), "0".to_string());
    let hash1 = block.hash.clone();
    let hash2 = block.calculate_hash();
    assert_eq!(hash1, hash2);
}

#[test]
fn test_hash_verification() {
    let block = hashing::Block::new(0, "test".to_string(), "0".to_string());
    assert!(block.verify_hash());
}

#[test]
fn test_different_blocks_different_hashes() {
    let block1 = hashing::Block::new(0, "a".to_string(), "0".to_string());
    let block2 = hashing::Block::new(0, "b".to_string(), "0".to_string());
    assert_ne!(block1.hash, block2.hash);
}

#[test]
fn tampered_block_fails_verification() {
    let mut block = hashing::Block::new_at(3, "x".to_string(), "p".to_string(), 1700000000);
    assert!(block.verify_hash());
    block.data = "y".to_string();
    assert!(!block.verify_hash());
}

#[test]
fn main_test_genesis_block() {
    let bc = simple_chain::Blockchain::new();
    assert_eq!(bc.chain.len(), 1);
    assert_eq!(bc.chain[0].index, 0);
}

#[test]
fn test_add_block() {
    let mut bc = simple_chain::Blockchain::new();
    bc.add_block("test".to_string());
    assert_eq!(bc.chain.len(), 2);
    assert_eq!(bc.chain[1].index, 1);
}

#[test]
fn test_valid_chain() {
    let mut bc = simple_chain::Blockchain::new();
    bc.add_block("test".to_string());
    assert!(bc.is_valid());
}

#[test]
fn simple_chain_links_and_detects_tampering() {
    let mut bc = simple_chain::Blockchain::new();
    bc.add_block("a".to_string());
    bc.add_block("b".to_string());
    assert_eq!(bc.chain[2].prev_hash, bc.chain[1].hash);
    assert!(bc.is_valid());
    bc.chain[1].data = "changed".to_string();
    assert!(!bc.is_valid());
}

#[test]
fn test_hash_calculation() {
    let header = basic::BlockHeader::new(1, "0".repeat(64), "abcd".repeat(16), 4);
    let hash = basic::calculate_hash(&header);
    assert_eq!(hash.len(), 64);
    let hash2 = basic::calculate_hash(&header);
    assert_eq!(hash, hash2);
}

#[test]
fn basic_genesis_block() {
    let genesis = basic::Block::create_genesis(None);
    assert_eq!(genesis.height, 0);
    assert_eq!(genesis.header.prev_hash, "0".repeat(64));
    assert!(!genesis.transactions.is_empty());
    assert!(genesis.verify());
}

#[test]
fn main_test_merkle_root() {
    let empty_root = basic::calculate_merkle_root(&[]);
    assert_eq!(empty_root, "0".repeat(64));
    let tx1 = basic::Transaction::new("from1".to_string(), "to1".to_string(), 100, 1);
    let root1 = basic::calculate_merkle_root(&[tx1.clone()]);
    assert_eq!(root1, tx1.hash);
    let tx2 = basic::Transaction::new("from2".to_string(), "to2".to_string(), 200, 1);
    let root2 = basic::calculate_merkle_root(&[tx1, tx2]);
    assert_ne!(root2, "0".repeat(64));
}

#[test]
fn test_blockchain() {
    let mut chain = basic::Blockchain::new(2);
    let tx = basic::Transaction::new("from".to_string(), "to".to_string(), 100, 1);
    chain.add_block(vec![tx]);
    assert_eq!(chain.height(), 1);
    assert!(chain.verify());
}

#[test]
fn main_test_mining() {
    let mut block = basic::Block::new(1, "0".repeat(64), vec![], 2);
    let hash = block.mine();
    assert!(hash.starts_with("00"));
    assert!(block.verify());
}

#[test]
fn basic_double_sha256_known_value() {
    let once = basic::sha256("abc");
    assert_eq!(
        once,
        "ba7816bf8f01cfea414140de5dae2223b00361a396177a9cb410ff61f20015ad"
    );
    assert_eq!(
        basic::double_sha256("abc"),
        "4f8b42c22dd3729b519ba6f68d2da7cc5b2d606d05daed5ad5128cc03e6c6358"
    );
}

#[test]
fn basic_test_genesis_block() {
    let genesis = basic::Block::create_genesis(None);
    assert_eq!(genesis.height, 0);
    assert_eq!(genesis.header.prev_hash, "0".repeat(64));
    assert!(!genesis.transactions.is_empty());
    assert!(genesis.verify());
}
