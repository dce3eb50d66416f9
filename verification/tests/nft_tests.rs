use yrust_chain::contracts::nft::{NFTContract, NFTError};

fn art() -> NFTContract {
    NFTContract::new("CryptoArt".to_string(), "ART".to_string(), "alice".to_string())
}

#[test]
fn test_nft_creation() {
    let nft = art();
    assert_eq!(nft.name(), "CryptoArt");
    assert_eq!(nft.symbol(), "ART");
    assert_eq!(nft.total_supply(), 0);
}

#[test]
fn nft_test_mint() {
    let mut nft = art();
    let token_id = nft.mint("bob", "https://example.com/1.json".to_string(), "alice").unwrap();
    assert_eq!(token_id, 1);
    assert_eq!(nft.owner_of(token_id), Some("bob".to_string()));
    assert_eq!(nft.balance_of("bob"), 1);
    assert_eq!(nft.total_supply(), 1);
}

#[test]
fn nft_test_transfer() {
    let mut nft = art();
    let token_id = nft.mint("bob", "https://example.com/1.json".to_string(), "alice").unwrap();
    nft.transfer("bob", "charlie", token_id, "bob").unwrap();
    assert_eq!(nft.owner_of(token_id), Some("charlie".to_string()));
    assert_eq!(nft.balance_of("bob"), 0);
    assert_eq!(nft.balance_of("charlie"), 1);
}

#[test]
fn test_approve() {
    let mut nft = art();
    let token_id = nft.mint("bob", "https://example.com/1.json".to_string(), "alice").unwrap();
    nft.approve("charlie", token_id, "bob").unwrap();
    assert_eq!(nft.get_approved(token_id), Some("charlie".to_string()));
    nft.transfer("bob", "dave", token_id, "charlie").unwrap();
    assert_eq!(nft.owner_of(token_id), Some("dave".to_string()));
}

#[test]
fn nft_test_burn() {
    let mut nft = art();
    let token_id = nft.mint("bob", "https://example.com/1.json".to_string(), "alice").unwrap();
    nft.burn(token_id, "bob").unwrap();
    assert_eq!(nft.owner_of(token_id), None);
    assert_eq!(nft.balance_of("bob"), 0);
    assert_eq!(nft.total_supply(), 0);
}

#[test]
fn nft_errors_and_batches() {
    let mut nft = art();
    assert_eq!(nft.mint("bob", "u".to_string(), "mallory"), Err(NFTError::NotOwner));
    let ids = nft.mint_batch("bob", vec!["a".to_string(), "b".to_string(), "c".to_string()], "alice").unwrap();
    assert_eq!(ids, vec![1, 2, 3]);
    assert_eq!(nft.balance_of("bob"), 3);
    assert_eq!(nft.transfer("bob", "carol", 9, "bob"), Err(NFTError::TokenNotFound));
    assert_eq!(nft.transfer("carol", "dave", 1, "carol"), Err(NFTError::NotOwner));
    assert_eq!(nft.transfer("bob", "dave", 1, "eve"), Err(NFTError::NotAuthorized));
    nft.set_approval_for_all("eve", true, "bob").unwrap();
    assert!(nft.is_approved_for_all("bob", "eve"));
    nft.transfer("bob", "dave", 1, "eve").unwrap();
    let mut mine = nft.tokens_of_owner("bob");
    mine.sort();
    assert_eq!(mine, vec![2, 3]);
    assert_eq!(nft.token_uri(2), Some("b".to_string()));
    assert_eq!(nft.approve("x", 3, "dave"), Err(NFTError::NotAuthorized));
    assert_eq!(nft.burn(3, "dave"), Err(NFTError::NotAuthorized));
    nft.burn(3, "eve").unwrap();
    assert_eq!(nft.token_uri(3), None);
    assert_eq!(nft.total_supply(), 2);
}
