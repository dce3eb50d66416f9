use yrust_chain::contracts::swap::{SwapPair, SwapRouter};

#[test]
fn test_swap_math() {
    let mut pair = SwapPair::new("TOKEN_A", "TOKEN_B");
    pair.add_liquidity("alice", 10000, 10000).unwrap();
    assert_eq!(pair.reserve_a, 10000);
    assert_eq!(pair.reserve_b, 10000);
    let _amount_out = pair.swap_a_to_b(100);
    let k_before = 10000u128 * 10000u128;
    let k_after = pair.reserve_a as u128 * pair.reserve_b as u128;
    assert!(k_after > k_before, "k值应该增加");
}

#[test]
fn test_lp_token() {
    let mut pair = SwapPair::new("A", "B");
    let lp1 = pair.add_liquidity("alice", 10000, 40000).unwrap();
    assert_eq!(lp1, 20000);
    let lp2 = pair.add_liquidity("bob", 5000, 20000).unwrap();
    assert_eq!(lp2, 10000);
    assert_eq!(pair.lp_token.total_supply(), 30000);
}

#[test]
fn router_swaps_through_sorted_pair() {
    let mut router = SwapRouter::new();
    router.create_pair("cUSD", "cETH").unwrap();
    assert!(router.create_pair("cETH", "cUSD").is_err());
    let lp = router.add_liquidity("cUSD", "cETH", "alice", 10000, 20).unwrap();
    assert_eq!(lp, 447);
    let out = router.swap_exact_tokens_for_tokens("cUSD", "cETH", 100, 0).unwrap();
    assert_eq!(out, 0);
    assert!(router.swap_exact_tokens_for_tokens("cUSD", "cETH", 1000, 5).is_err());
}
