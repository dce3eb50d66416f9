use yrust_chain::contracts::token::{TokenContract, TokenError};

fn yru() -> TokenContract {
    TokenContract::new(
        "YRUST Token".to_string(),
        "YRU".to_string(),
        8,
        "alice".to_string(),
    )
}

#[test]
fn test_token_creation() {
    let token = yru();
    assert_eq!(token.name(), "YRUST Token");
    assert_eq!(token.symbol(), "YRU");
    assert_eq!(token.decimals(), 8);
    assert_eq!(token.total_supply(), 21_000_000 * 10u64.pow(8));
    assert_eq!(token.balance_of("alice"), token.total_supply());
}

#[test]
fn token_test_transfer() {
    let mut token = yru();
    let amount = 1000 * 10u64.pow(8);
    token.transfer("alice", "bob", amount).unwrap();
    assert_eq!(token.balance_of("bob"), amount);
    assert_eq!(token.balance_of("alice"), token.total_supply() - amount);
}

#[test]
fn test_approve_and_transfer_from() {
    let mut token = yru();
    let amount = 1000 * 10u64.pow(8);
    token.approve("alice", "bob", amount).unwrap();
    assert_eq!(token.allowance("alice", "bob"), amount);
    token.transfer_from("bob", "alice", "charlie", amount / 2).unwrap();
    assert_eq!(token.balance_of("charlie"), amount / 2);
    assert_eq!(token.allowance("alice", "bob"), amount / 2);
}

#[test]
fn token_test_mint() {
    let mut token = yru();
    let initial_supply = token.total_supply();
    let mint_amount = 1000 * 10u64.pow(8);
    token.mint("bob", mint_amount, "alice").unwrap();
    assert_eq!(token.total_supply(), initial_supply + mint_amount);
    assert_eq!(token.balance_of("bob"), mint_amount);
}

#[test]
fn token_test_burn() {
    let mut token = yru();
    let initial_supply = token.total_supply();
    let burn_amount = 1000 * 10u64.pow(8);
    token.burn("alice", burn_amount).unwrap();
    assert_eq!(token.total_supply(), initial_supply - burn_amount);
    assert_eq!(token.balance_of("alice"), initial_supply - burn_amount);
}

#[test]
fn token_errors_leave_state_alone() {
    let mut token = yru();
    assert_eq!(token.transfer("bob", "alice", 1), Err(TokenError::InsufficientBalance));
    assert_eq!(token.transfer_from("bob", "alice", "carol", 1), Err(TokenError::InsufficientAllowance));
    token.approve("bob", "carol", 5).unwrap();
    assert_eq!(token.transfer_from("carol", "bob", "dave", 5), Err(TokenError::InsufficientBalance));
    assert_eq!(token.allowance("bob", "carol"), 5);
    assert_eq!(token.mint("bob", 1, "mallory"), Err(TokenError::NotOwner));
    assert_eq!(token.burn("bob", 1), Err(TokenError::InsufficientBalance));
    assert_eq!(token.balance_of("alice"), token.total_supply());
}

#[test]
fn token_round_trip_restores_balances() {
    let mut token = yru();
    token.transfer("alice", "bob", 77).unwrap();
    token.transfer("bob", "alice", 77).unwrap();
    assert_eq!(token.balance_of("alice"), token.total_supply());
    assert_eq!(token.balance_of("bob"), 0);
    token.transfer("alice", "alice", 10).unwrap();
    assert_eq!(token.balance_of("alice"), token.total_supply());
}

#[test]
fn token_format_amount() {
    let token = yru();
    assert_eq!(token.format_amount(123_456_789), "1.23456789 YRU");
    assert_eq!(token.format_amount(5), "0.00000005 YRU");
    let t0 = TokenContract::new("T".to_string(), "T".to_string(), 0, "a".to_string());
    assert_eq!(t0.total_supply(), 21_000_000);
    assert_eq!(t0.format_amount(42), "42.0 T");
    let t2 = TokenContract::new("T".to_string(), "YRU".to_string(), 2, "alice".to_string());
    assert_eq!(t2.format_amount(150), "1.50 YRU");
}
