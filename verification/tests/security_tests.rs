use yrust_chain::security::{
    RateLimiter, ReplayProtector, SecurityConfig, SecurityError, SecurityValidator, SignatureGuard,
};

#[test]
fn test_signature_format_validation() {
    let valid_sig = [0u8; 64];
    assert!(SignatureGuard::verify_signature_format(&valid_sig).is_ok());
    let invalid_sig = [0u8; 32];
    assert!(SignatureGuard::verify_signature_format(&invalid_sig).is_err());
}

#[test]
fn test_replay_protection() {
    let config = SecurityConfig::default();
    let mut protector = ReplayProtector::new(config);
    let tx_hash = "test_tx_hash".to_string();
    assert!(!protector.is_replay(&tx_hash));
    protector.mark_processed(tx_hash.clone());
    assert!(protector.is_replay(&tx_hash));
}

#[test]
fn test_rate_limiter() {
    let config = SecurityConfig { rate_limit_per_minute: 2, ..Default::default() };
    let mut limiter = RateLimiter::new(config);
    let ip = "192.168.1.1";
    assert!(limiter.allow_request_at(ip, 120));
    assert!(limiter.allow_request_at(ip, 130));
    assert!(!limiter.allow_request_at(ip, 150));
    assert_eq!(limiter.get_remaining_quota_at(ip, 170), 0);
    assert!(limiter.allow_request_at(ip, 180));
    assert_eq!(limiter.get_remaining_quota_at(ip, 185), 1);
    assert_eq!(limiter.get_remaining_quota_at("other", 185), 2);
}

#[test]
fn timestamps_and_transactions() {
    let mut v = SecurityValidator::new(SecurityConfig::default());
    let sig = [1u8; 64];
    assert_eq!(v.validate_transaction_at("h", 1000, &sig, "a", 1100), Ok(()));
    assert_eq!(v.validate_transaction_at("h", 1000, &sig, "a", 1400), Err(SecurityError::ExpiredTransaction));
    assert_eq!(v.validate_transaction_at("h", 1200, &sig, "a", 1100), Err(SecurityError::FutureTransaction));
    assert_eq!(v.validate_transaction_at("h", 1000, &[1u8; 10], "a", 1100), Err(SecurityError::InvalidSignature));
    v.mark_transaction_processed("h".to_string());
    assert_eq!(v.validate_transaction_at("h", 1000, &sig, "a", 1100), Err(SecurityError::ReplayAttack));
    assert_eq!(v.validate_deploy_permission("alice"), Err(SecurityError::Unauthorized));
    v.add_admin("alice".to_string());
    assert_eq!(v.validate_deploy_permission("alice"), Ok(()));
    let digest = SignatureGuard::hash_message(b"abc");
    assert_eq!(digest[0], 0xba);
    assert_eq!(digest[31], 0xad);
}
