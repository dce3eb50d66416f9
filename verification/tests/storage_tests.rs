use yrust_chain::storage::rocksdb;
use yrust_chain::storage::{
    block_key, decode_best_hash, decode_height, parse_utxo_key, tx_key, utxo_key, StorageError, KEY_BEST_HASH,
    KEY_HEIGHT,
};

#[test]
fn storage_keys() {
    assert_eq!(block_key("abc"), "blk:abc");
    assert_eq!(tx_key("t1"), "tx:t1");
    assert_eq!(utxo_key("t1", 3), "utxo:t1:3");
    assert_eq!(KEY_HEIGHT, "meta:height");
    assert_eq!(KEY_BEST_HASH, "meta:best_hash");
    assert_eq!(rocksdb::height_key(42), "height:0000000042");
    assert_eq!(rocksdb::height_key(12345678901), "height:12345678901");
    assert_eq!(rocksdb::account_key("a"), "acc:a");
}

#[test]
fn storage_decode_height() {
    assert_eq!(decode_height(None).unwrap(), 0);
    assert_eq!(decode_height(Some(b"17".to_vec())).unwrap(), 17);
    assert!(matches!(decode_height(Some(b"x1".to_vec())), Err(StorageError::InvalidData)));
    assert!(matches!(decode_height(Some(vec![0xff, b'1'])), Err(StorageError::InvalidData)));
    assert_eq!(rocksdb::decode_best_height(Some(b"9".to_vec())).unwrap(), 9);
    assert!(matches!(rocksdb::decode_best_height(Some(b"".to_vec())), Err(rocksdb::StorageError::InvalidData)));
    assert_eq!(decode_best_hash(Some(b"00ab".to_vec())), Some("00ab".to_string()));
    assert_eq!(decode_best_hash(None), None);
    assert_eq!(StorageError::InvalidData.message(), "无效的数据");
}

#[test]
fn storage_utxo_keys() {
    assert_eq!(parse_utxo_key(b"utxo:abc:3"), Some(("abc".to_string(), 3)));
    assert_eq!(parse_utxo_key(b"utxo:utxo:abc:3"), Some(("abc".to_string(), 3)));
    assert_eq!(parse_utxo_key(b"utxo:abc:x"), Some(("abc".to_string(), 0)));
    assert_eq!(parse_utxo_key(b"utxo:a:b:c"), None);
    assert_eq!(rocksdb::parse_utxo_key(b"utxo:abc:7"), Some(("abc".to_string(), 7)));
    assert_eq!(rocksdb::parse_utxo_key(b"utxo:abc"), None);
    assert_eq!(rocksdb::parse_utxo_key(b"utxo:abc:99999999999"), Some(("abc".to_string(), 0)));
}
