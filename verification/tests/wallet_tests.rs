use yrust_chain::wallet::{KeyStore, Wallet, WalletError};

#[test]
fn test_wallet_creation() {
    let wallet = Wallet::new();
    assert!(!wallet.private_key.is_empty());
    assert!(!wallet.public_key.is_empty());
    assert!(!wallet.address.is_empty());
    assert!(Wallet::validate_address(&wallet.address));
}

#[test]
fn test_address_validation() {
    let wallet = Wallet::new();
    assert!(Wallet::validate_address(&wallet.address));
    assert!(!Wallet::validate_address("invalid_address"));
}

#[test]
fn test_sign_and_verify() {
    let wallet = Wallet::new();
    let data = b"Hello, YRust Chain!";
    let signature = wallet.sign(data).unwrap();
    let public_key = hex::decode(&wallet.public_key).unwrap();
    assert!(Wallet::verify_signature(&public_key, data, &signature).unwrap());
    assert!(!Wallet::verify_signature(&public_key, b"other", &signature).unwrap());
    assert_eq!(Wallet::verify_signature(&[], data, &signature), Err(WalletError::InvalidPublicKey));
}

#[test]
fn test_wif_import_export() {
    let wallet = Wallet::new();
    let wif = wallet.export_wif(true).unwrap();
    let imported = Wallet::from_wif(&wif).unwrap();
    assert_eq!(wallet.private_key, imported.private_key);
    assert_eq!(wallet.address, imported.address);
}

#[test]
fn test_recover_from_private_key() {
    let wallet1 = Wallet::new();
    let wallet2 = Wallet::from_private_key(&wallet1.private_key).unwrap();
    assert_eq!(wallet1.public_key, wallet2.public_key);
    assert_eq!(wallet1.address, wallet2.address);
}

#[test]
fn wallet_known_key_address() {
    let w = Wallet::from_private_key(
        "0000000000000000000000000000000000000000000000000000000000000001",
    )
    .unwrap();
    assert_eq!(w.address, "1BgGZ9tcN4rm9KBzDn7KprQz87SZ26SAMH");
    assert!(matches!(Wallet::from_private_key("zz"), Err(WalletError::InvalidPrivateKey)));
    assert_eq!(Wallet::address_to_pubkey_hash("invalid_address"), Err(WalletError::InvalidAddress));
}

#[test]
fn keystore_roundtrip() {
    let mut ks = KeyStore::new();
    let addr = ks.create_wallet().address.clone();
    assert!(ks.get_wallet(&addr).is_some());
    assert_eq!(ks.get_addresses().len(), 1);
    assert!(ks.sign_transaction(&addr, b"x").is_ok());
    assert_eq!(ks.sign_transaction("nope", b"x"), Err(WalletError::InvalidAddress));
}
