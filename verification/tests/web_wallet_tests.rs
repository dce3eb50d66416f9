use sha2::Digest;
use yrust_chain::web_wallet::{TransactionRequest, WalletError, WalletManager};

#[test]
fn test_create_wallet() {
    let mut manager = WalletManager::new();
    let (mnemonic, address) = manager.create_wallet("password123").unwrap();

    assert!(!mnemonic.is_empty());
    assert!(!address.is_empty());
    assert_eq!(manager.get_wallet_info().unwrap().accounts.len(), 1);
}

#[test]
fn test_restore_wallet() {
    let mut manager = WalletManager::new();
    let (mnemonic, _) = manager.create_wallet("password123").unwrap();

    let mut manager2 = WalletManager::new();
    let address2 = manager2.restore_wallet(&mnemonic, "password123").unwrap();

    assert!(!address2.is_empty());
}

#[test]
fn test_create_multiple_accounts() {
    let mut manager = WalletManager::new();
    manager.create_wallet("password123").unwrap();

    let addr2 = manager.create_account("Account 2", "password123").unwrap();
    let addr3 = manager.create_account("Account 3", "password123").unwrap();

    assert!(!addr2.is_empty());
    assert!(!addr3.is_empty());
    assert_eq!(manager.get_wallet_info().unwrap().accounts.len(), 3);
}

#[test]
fn test_export_mnemonic() {
    let mut manager = WalletManager::new();
    let (mnemonic, _) = manager.create_wallet("password123").unwrap();

    let exported = manager.export_mnemonic("password123").unwrap();
    assert_eq!(mnemonic, exported);
}

#[test]
fn web_wallet_restore_derives_same_accounts() {
    let mut a = WalletManager::new();
    let (mnemonic, addr_a) = a.create_wallet("pw").unwrap();
    let mut b = WalletManager::new();
    // a different password does not change the derived keys
    let addr_b = b.restore_wallet(&mnemonic, "other").unwrap();
    assert_eq!(addr_a, addr_b);
    let acct = b.get_current_account().unwrap();
    assert_eq!(acct.derivation_path, "m/44'/8888'/0'/0/0");
    assert_eq!(acct.index, 0);
    assert_eq!(b.create_account("second", "other").unwrap(), a.create_account("x", "pw").unwrap());
}

#[test]
fn web_wallet_refusals() {
    let mut m = WalletManager::new();
    assert!(matches!(m.create_account("x", "pw"), Err(WalletError::WalletNotFound)));
    assert!(matches!(m.export_mnemonic("pw"), Err(WalletError::WalletNotFound)));
    assert!(matches!(m.restore_wallet("not a mnemonic", "pw"), Err(WalletError::InvalidMnemonic(_))));
    m.create_wallet("pw").unwrap();
    assert!(matches!(m.export_mnemonic("wrong"), Err(WalletError::InvalidPassword)));
    assert!(matches!(m.switch_account(1), Err(WalletError::AccountNotFound)));
    assert!(matches!(m.export_private_key("nobody", "pw"), Err(WalletError::AccountNotFound)));
    assert_eq!(WalletError::InvalidPassword.message(), "密码错误");
}

#[test]
fn web_wallet_sign_and_switch() {
    let mut m = WalletManager::new();
    let (_, first) = m.create_wallet("pw").unwrap();
    let second = m.create_account("two", "pw").unwrap();
    let req = |from: &str| TransactionRequest {
        from: from.to_string(),
        to: "bob".to_string(),
        amount: 5,
        gas_price: 1,
        gas_limit: 21000,
        nonce: 0,
        data: vec![1, 2],
    };
    let signed = m.sign_transaction(req(&first), "pw").unwrap();
    assert_eq!(signed.signature.len(), 128);
    assert_eq!(signed.hash.len(), 64);
    assert!(matches!(m.sign_transaction(req(&second), "pw"), Err(WalletError::InvalidAddress)));
    m.switch_account(1).unwrap();
    assert_eq!(m.get_current_account().unwrap().address, second);
    assert!(m.sign_transaction(req(&second), "pw").is_ok());

    // the signature verifies over SHA-256 of the request text with the account's key
    let text = format!("{}{}{}{}{}{:?}", second, "bob", 5, 1, 21000, vec![1u8, 2]);
    let digest = sha2::Sha256::digest(text.as_bytes());
    let signed2 = m.sign_transaction(req(&second), "pw").unwrap();
    let pk_hex = m.get_current_account().unwrap().public_key.clone();
    let pk = secp256k1::PublicKey::from_slice(&hex::decode(pk_hex).unwrap()).unwrap();
    let sig = secp256k1::ecdsa::Signature::from_compact(&hex::decode(&signed2.signature).unwrap()).unwrap();
    let msg = secp256k1::Message::from_digest_slice(&digest).unwrap();
    assert!(secp256k1::Secp256k1::verification_only().verify_ecdsa(&msg, &sig, &pk).is_ok());

    // the exported key is the one the account signs with
    let sk_hex = m.export_private_key(&second, "pw").unwrap();
    assert_eq!(sk_hex.len(), 64);
}
