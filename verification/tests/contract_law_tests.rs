use yrust_chain::contracts::dex::{DEXContract, SwapDirection};
use yrust_chain::contracts::nft::NFTContract;
use yrust_chain::contracts::swap::SwapRouter;

#[test]
fn router_moves_reserves_before_slippage_check() {
    let mut router = SwapRouter::new();
    router.create_pair("cUSD", "cETH").unwrap();
    router.add_liquidity("cUSD", "cETH", "alice", 10000, 20000).unwrap();
    let before = router.get_pair("cUSD", "cETH").map(|p| (p.reserve_a, p.reserve_b)).unwrap();
    assert!(router.swap_exact_tokens_for_tokens("cUSD", "cETH", 100, 1_000_000).is_err());
    let after = router.get_pair("cUSD", "cETH").map(|p| (p.reserve_a, p.reserve_b)).unwrap();
    assert_ne!(before, after);
}

#[test]
fn dex_output_grows_with_input() {
    let mut dex = DEXContract::new("factory".to_string(), "fee_to".to_string());
    let pair = dex.create_pool("token_a".to_string(), "token_b".to_string(), "factory").unwrap();
    dex.add_liquidity(&pair, 10000, 20000, "alice").unwrap();
    let small = dex.calculate_swap_output(&pair, 100, SwapDirection::AtoB).unwrap();
    let large = dex.calculate_swap_output(&pair, 1000, SwapDirection::AtoB).unwrap();
    assert!(small <= large);
    assert!(large < 20000);
    // f = 997, out = 997 * 20000 / 10997
    assert_eq!(large, 997 * 20000 / 10997);
    assert!(dex.create_pool("token_a".to_string(), "token_b".to_string(), "factory").is_err());
    assert!(dex.create_pool("x".to_string(), "y".to_string(), "someone").is_err());
}

#[test]
fn nft_balances_add_up_to_supply() {
    let mut nft = NFTContract::new("CryptoArt".to_string(), "ART".to_string(), "alice".to_string());
    nft.mint("bob", "u1".to_string(), "alice").unwrap();
    nft.mint("bob", "u2".to_string(), "alice").unwrap();
    nft.mint("carol", "u3".to_string(), "alice").unwrap();
    nft.transfer("bob", "carol", 1, "bob").unwrap();
    nft.burn(3, "carol").unwrap();
    let total = nft.balance_of("bob") + nft.balance_of("carol");
    assert_eq!(total, nft.total_supply());
    assert_eq!(nft.tokens_of_owner("carol").len() as u64, nft.balance_of("carol"));
    assert_eq!(nft.tokens_of_owner("bob"), vec![2]);
}
