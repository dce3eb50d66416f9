use yrust_chain::tutorial::crypto::{
    base58_decode, base58_encode, double_sha256, double_sha256_bytes, generate_address,
    sha256, sha256_bytes, validate_address, MerkleNode, MerkleTree,
};

#[test]
fn test_sha256() {
    let hash = sha256("hello");
    assert_eq!(hash.len(), 64);

    let hash2 = sha256("hello");
    assert_eq!(hash, hash2);

    let hash3 = sha256("Hello");
    assert_ne!(hash, hash3);
}

#[test]
fn test_merkle_tree() {
    let empty_tree = MerkleTree::from_data(&[]);
    assert!(empty_tree.root.is_none());

    let single = MerkleTree::from_data(&["tx1".to_string()]);
    assert_eq!(single.leaf_count, 1);

    let data = vec!["a".to_string(), "b".to_string(), "c".to_string(), "d".to_string()];
    let tree = MerkleTree::from_data(&data);
    assert_eq!(tree.leaf_count, 4);
    assert!(tree.root_hash().is_some());
}

#[test]
fn crypto_sha256_known_value() {
    assert_eq!(sha256("hello"), "2cf24dba5fb0a30e26e83b2ac5b9e29e1b161e5c1fa7425e73043362938b9824");
    let bytes = sha256_bytes(b"hello");
    assert_eq!(bytes[0], 0x2c);
    assert_eq!(bytes[31], 0x24);
    // the string form hashes the hexadecimal text of the first digest
    assert_eq!(double_sha256("hello"), sha256(&sha256("hello")));
    assert_eq!(double_sha256_bytes(b"hello"), sha256_bytes(&sha256_bytes(b"hello")));
}

#[test]
fn crypto_merkle_root_of_two_and_three() {
    let two = MerkleTree::from_data(&["a".to_string(), "b".to_string()]);
    let expected = sha256(&format!("{}{}", sha256("a"), sha256("b")));
    assert_eq!(two.root_hash().unwrap(), expected);
    let root = two.root.as_ref().unwrap();
    assert!(!root.is_leaf);
    assert!(root.left.as_ref().unwrap().is_leaf);

    // an odd last leaf is paired with itself
    let three = MerkleTree::from_data(&["a".to_string(), "b".to_string(), "c".to_string()]);
    let ab = sha256(&format!("{}{}", sha256("a"), sha256("b")));
    let cc = sha256(&format!("{}{}", sha256("c"), sha256("c")));
    assert_eq!(three.root_hash().unwrap(), sha256(&format!("{}{}", ab, cc)));

    let single = MerkleTree::from_hashes(&["h".to_string()]);
    assert_eq!(single.root_hash().unwrap(), "h");
    assert!(single.root.unwrap().is_leaf);
}

#[test]
fn crypto_merkle_nodes_and_proofs() {
    let leaf = MerkleNode::new_leaf("x".to_string());
    let copy = leaf.duplicate();
    let parent = MerkleNode::new_parent(leaf, copy);
    assert_eq!(parent.hash, sha256("xx"));
    let tree = MerkleTree::from_data(&["a".to_string(), "b".to_string()]);
    assert_eq!(tree.get_proof(0), vec![sha256("b")]);
    assert!(tree.get_proof(5).is_empty());
    // with an empty proof the data's own hash must be the root
    assert!(MerkleTree::verify("a", &[], &sha256("a")));
    // one sibling: the data's hash with the sibling appended
    let root = tree.root_hash().unwrap();
    assert!(MerkleTree::verify("a", &[sha256("b")], &root));
    assert!(!MerkleTree::verify("b", &[sha256("a")], &root));
}

#[test]
fn crypto_base58_known_values() {
    assert_eq!(base58_encode(b"hi"), "8wr");
    assert_eq!(base58_encode(&[0, 0, 1, 2, 3]), "11Ldp");
    assert_eq!(base58_decode("8wr").unwrap(), b"hi".to_vec());
    assert_eq!(base58_decode("11Ldp").unwrap(), vec![0, 0, 1, 2, 3]);
    assert_eq!(base58_decode("Cn8eVZg").unwrap(), b"hello".to_vec());
}

#[test]
fn crypto_base58_decode_quirks_and_errors() {
    // leading `1`s are zero bytes, an inner `1` is the digit 0
    assert_eq!(base58_decode("1").unwrap(), vec![0]);
    assert_eq!(base58_decode("").unwrap(), Vec::<u8>::new());
    assert_eq!(base58_decode("21").unwrap(), vec![58]);
    assert_eq!(base58_encode(&[58]), "21");
    assert_eq!(base58_decode("0abc").unwrap_err(), "Invalid Base58 character");
    assert!(base58_decode("O").is_err());
}

#[test]
fn crypto_address_generate_and_validate() {
    let address = generate_address(b"alice");
    assert!(address.starts_with("YR"));
    assert!(address.len() > 30);
    assert!(validate_address(&address));
    let carol = generate_address(b"carol");
    assert!(validate_address(&carol));
    assert!(!validate_address("INVALID"));
    assert!(!validate_address("YR000"));
    // a changed character breaks the checksum or the format
    let mut broken = address.clone();
    broken.pop();
    broken.push('2');
    assert_eq!(validate_address(&broken), broken == address);
}

#[test]
fn test_base58() {
    let data = b"hello world";
    let encoded = base58_encode(data);
    let decoded = base58_decode(&encoded).unwrap();
    assert_eq!(data.to_vec(), decoded);

    let with_zeros = vec![0, 0, 1, 2, 3];
    let encoded = base58_encode(&with_zeros);
    assert!(encoded.starts_with('1'));
}

#[test]
fn test_address() {
    let pk = b"test_public_key_data";
    let address = generate_address(pk);
    assert!(address.starts_with("YR"));
    assert!(address.len() > 30);
    assert!(validate_address(&address));
    assert!(!validate_address("INVALID"));
    assert!(!validate_address("YR000"));
}

#[test]
fn crypto_merkle_proof_path() {
    let data: Vec<String> = ["A", "B", "C", "D"].iter().map(|s| s.to_string()).collect();
    let tree = MerkleTree::from_data(&data);
    let ab = sha256(&(sha256("A") + &sha256("B")));
    let cd = sha256(&(sha256("C") + &sha256("D")));
    assert_eq!(tree.get_proof(2), vec![sha256("D"), ab.clone()]);
    assert_eq!(tree.get_proof(1), vec![sha256("A"), cd]);
    assert!(tree.get_proof(4).is_empty());
    let root = tree.root_hash().unwrap();
    assert!(MerkleTree::verify("C", &tree.get_proof(2)[..1], &sha256(&(sha256("C") + &sha256("D")))));
    let _ = root;
    // three leaves: the last one is paired with itself
    let three = MerkleTree::from_data(&data[..3]);
    assert_eq!(three.get_proof(2), vec![sha256("C"), ab]);
    let single = MerkleTree::from_data(&data[..1]);
    assert!(single.get_proof(0).is_empty());
}
