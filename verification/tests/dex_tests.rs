use yrust_chain::contracts::dex::{DEXContract, SwapDirection};

#[test]
fn test_create_pool() {
    let mut dex = DEXContract::new("factory".to_string(), "fee_to".to_string());
    let pair = dex
        .create_pool("token_a".to_string(), "token_b".to_string(), "factory")
        .unwrap();
    assert!(!pair.is_empty());
    assert!(dex.pools.contains_key(&pair));
}

#[test]
fn dex_test_add_liquidity() {
    let mut dex = DEXContract::new("factory".to_string(), "fee_to".to_string());
    let pair = dex
        .create_pool("token_a".to_string(), "token_b".to_string(), "factory")
        .unwrap();
    let lp = dex.add_liquidity(&pair, 10000, 20000, "alice").unwrap();
    assert!(lp > 0);
    assert_eq!(dex.get_lp_balance(&pair, "alice"), lp);
    let (reserve_a, reserve_b, _) = dex.get_pool_info(&pair).unwrap();
    assert_eq!(reserve_a, 10000);
    assert_eq!(reserve_b, 20000);
}

#[test]
fn dex_test_swap() {
    let mut dex = DEXContract::new("factory".to_string(), "fee_to".to_string());
    let pair = dex
        .create_pool("token_a".to_string(), "token_b".to_string(), "factory")
        .unwrap();
    dex.add_liquidity(&pair, 10000, 10000, "alice").unwrap();
    let amount_out = dex.swap(&pair, 1000, 0, SwapDirection::AtoB, "bob").unwrap();
    assert!(amount_out < 1000);
    assert!(amount_out > 900);
    let (reserve_a, reserve_b, _) = dex.get_pool_info(&pair).unwrap();
    assert_eq!(reserve_a, 11000);
    assert_eq!(reserve_b, 10000 - amount_out);
}

#[test]
fn test_remove_liquidity() {
    let mut dex = DEXContract::new("factory".to_string(), "fee_to".to_string());
    let pair = dex
        .create_pool("token_a".to_string(), "token_b".to_string(), "factory")
        .unwrap();
    let lp = dex.add_liquidity(&pair, 10000, 20000, "alice").unwrap();
    let (amount_a, amount_b) = dex.remove_liquidity(&pair, lp / 2, "alice").unwrap();
    assert_eq!(amount_a, 5000);
    assert_eq!(amount_b, 10000);
    assert_eq!(dex.get_lp_balance(&pair, "alice"), lp / 2);
}
