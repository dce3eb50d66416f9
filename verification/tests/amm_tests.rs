use yrust_chain::contracts::amm::{AMMEngine, AMMError, SwapRequest};

fn engine_with_pair() -> (AMMEngine, String) {
    let mut amm = AMMEngine::new("factory".to_string(), "fee_to".to_string());
    let pair = amm.create_pair("YRU".to_string(), "ETH".to_string(), "factory").unwrap();
    (amm, pair)
}

#[test]
fn test_create_pair() {
    let mut amm = AMMEngine::new("factory".to_string(), "fee_to".to_string());
    let pair = amm.create_pair("YRU".to_string(), "ETH".to_string(), "factory").unwrap();
    assert!(!pair.is_empty());
}

#[test]
fn amm_test_add_liquidity() {
    let mut amm = AMMEngine::new("factory".to_string(), "fee_to".to_string());
    let pair = amm.create_pair("YRU".to_string(), "ETH".to_string(), "factory").unwrap();

    let lp = amm.add_liquidity(&pair, 10000, 20000, "alice").unwrap();
    assert!(lp > 0);
}

#[test]
fn amm_test_swap() {
    let mut amm = AMMEngine::new("factory".to_string(), "fee_to".to_string());
    let pair = amm.create_pair("YRU".to_string(), "ETH".to_string(), "factory").unwrap();

    amm.add_liquidity(&pair, 10000, 10000, "alice").unwrap();

    let req = SwapRequest {
        pair: pair.clone(),
        token_in: "YRU".to_string(),
        token_out: "ETH".to_string(),
        amount_in: 1000,
        min_amount_out: 0,
        recipient: "bob".to_string(),
        deadline: u64::MAX,
    };

    let amount_out = amm.swap(req).unwrap();
    assert!(amount_out < 1000);
    assert!(amount_out > 900);
}

#[test]
fn amm_test_price() {
    let mut amm = AMMEngine::new("factory".to_string(), "fee_to".to_string());
    let pair = amm.create_pair("YRU".to_string(), "ETH".to_string(), "factory").unwrap();

    amm.add_liquidity(&pair, 10000, 5000, "alice").unwrap();

    let (num, den) = amm.get_price(&pair).unwrap();
    let price = num as f64 / den as f64;
    assert!((price - 2.0).abs() < 0.01);
}

#[test]
fn amm_pair_address_shape_and_order() {
    let (mut amm, pair) = engine_with_pair();
    assert!(pair.starts_with("0x"));
    assert_eq!(pair.len(), 42);
    // the tokens are stored smaller first
    let p = amm.pools.get(&pair).unwrap();
    assert_eq!(p.token_a, "ETH");
    assert_eq!(p.token_b, "YRU");
    assert_eq!(p.fee_rate, 30);
    assert_eq!(p.protocol_fee, 5);
    // the same pair in the other order is refused
    let again = amm.create_pair("ETH".to_string(), "YRU".to_string(), "factory");
    assert!(matches!(again, Err(AMMError::PairExists)));
}

#[test]
fn amm_only_factory_creates_pairs() {
    let mut amm = AMMEngine::new("factory".to_string(), "fee_to".to_string());
    let r = amm.create_pair("A".to_string(), "B".to_string(), "mallory");
    assert!(matches!(r, Err(AMMError::NotFactory)));
    assert_eq!(AMMError::NotFactory.message(), "不是工厂地址");
}

#[test]
fn amm_first_deposit_uses_newton_root() {
    let (mut amm, pair) = engine_with_pair();
    // sqrt(10000 * 20000) = 14142.13...
    let lp = amm.add_liquidity(&pair, 10000, 20000, "alice").unwrap();
    assert_eq!(lp, 14142);
    assert_eq!(amm.get_liquidity(&pair, "alice").unwrap(), 14142);
    assert_eq!(amm.get_liquidity(&pair, "bob").unwrap(), 0);
}

#[test]
fn amm_first_deposit_takes_floor_root() {
    let (mut amm, pair) = engine_with_pair();
    let lp = amm.add_liquidity(&pair, 1, 2, "alice").unwrap();
    assert_eq!(lp, 1);
    let (mut amm, pair) = engine_with_pair();
    assert_eq!(amm.add_liquidity(&pair, 3, 5, "alice").unwrap(), 3);
}

#[test]
fn amm_empty_deposit_is_refused() {
    let (mut amm, pair) = engine_with_pair();
    let r = amm.add_liquidity(&pair, 0, 100, "alice");
    assert!(matches!(r, Err(AMMError::InsufficientLiquidity)));
    let r = amm.add_liquidity("0xnone", 1, 1, "alice");
    assert!(matches!(r, Err(AMMError::PairNotFound)));
}

#[test]
fn amm_second_deposit_is_proportional() {
    let (mut amm, pair) = engine_with_pair();
    amm.add_liquidity(&pair, 10000, 10000, "alice").unwrap();
    // min(5000 * 10000 / 10000, 2000 * 10000 / 10000)
    let lp = amm.add_liquidity(&pair, 5000, 2000, "bob").unwrap();
    assert_eq!(lp, 2000);
}

#[test]
fn amm_exact_swap_output() {
    let (mut amm, pair) = engine_with_pair();
    amm.add_liquidity(&pair, 10000, 10000, "alice").unwrap();
    let req = SwapRequest {
        pair: pair.clone(),
        token_in: "YRU".to_string(),
        token_out: "ETH".to_string(),
        amount_in: 1000,
        min_amount_out: 0,
        recipient: "bob".to_string(),
        deadline: u64::MAX,
    };
    // x = 1000 * 9970 / 10000 = 997; out = 997 * 10000 / 10997 = 906
    assert_eq!(amm.swap(req).unwrap(), 906);
    let info = amm.get_pair_info(&pair).unwrap();
    // YRU is token B (ETH < YRU)
    assert_eq!(info.reserve_b, 11000);
    assert_eq!(info.reserve_a, 10000 - 906);
    assert_eq!(info.volume_24h, 1000);
    assert_eq!(info.tvl, 11000 + 10000 - 906);
    assert_eq!(amm.trades.len(), 1);
    assert_eq!(amm.trades[0].price_reserve_in, 10000);
}

#[test]
fn amm_swap_refusals() {
    let (mut amm, pair) = engine_with_pair();
    amm.add_liquidity(&pair, 10000, 10000, "alice").unwrap();
    let expired = SwapRequest {
        pair: pair.clone(),
        token_in: "YRU".to_string(),
        token_out: "ETH".to_string(),
        amount_in: 1000,
        min_amount_out: 0,
        recipient: "bob".to_string(),
        deadline: 0,
    };
    assert!(matches!(amm.swap_at(expired, 10), Err(AMMError::Expired)));
    let greedy = SwapRequest {
        pair: pair.clone(),
        token_in: "YRU".to_string(),
        token_out: "ETH".to_string(),
        amount_in: 1000,
        min_amount_out: 907,
        recipient: "bob".to_string(),
        deadline: u64::MAX,
    };
    assert!(matches!(amm.swap_at(greedy, 10), Err(AMMError::InsufficientOutput)));
    assert!(amm.trades.is_empty());
}

#[test]
fn amm_remove_liquidity_returns_share() {
    let (mut amm, pair) = engine_with_pair();
    amm.add_liquidity_at(&pair, 10000, 10000, "alice", 5).unwrap();
    let (a, b) = amm.remove_liquidity_at(&pair, 2500, "alice", 6).unwrap();
    assert_eq!((a, b), (2500, 2500));
    assert_eq!(amm.get_liquidity(&pair, "alice").unwrap(), 7500);
    let r = amm.remove_liquidity_at(&pair, 8000, "alice", 7);
    assert!(matches!(r, Err(AMMError::InsufficientLiquidity)));
}

#[test]
fn amm_accumulators_accrue_with_time() {
    let (mut amm, pair) = engine_with_pair();
    amm.add_liquidity_at(&pair, 10000, 5000, "alice", 100).unwrap();
    // first update: elapsed 100 seconds since 0
    let p = amm.pools.get(&pair).unwrap();
    assert_eq!(p.last_update, 100);
    assert_eq!(p.price_cumulative_a, 5000 * 100 / 10000);
    assert_eq!(p.price_cumulative_b, 10000 * 100 / 5000);
}

#[test]
fn amm_all_pairs_lists_every_pool() {
    let (mut amm, _pair) = engine_with_pair();
    amm.create_pair("BTC".to_string(), "ETH".to_string(), "factory").unwrap();
    assert_eq!(amm.get_all_pairs().len(), 2);
}

#[test]
fn amm_flash_loan_repaid_and_not() {
    let (mut amm, pair) = engine_with_pair();
    amm.add_liquidity(&pair, 10000, 10000, "alice").unwrap();
    let p2 = pair.clone();
    let ok = amm.flash_loan(&pair, 1000, 0, move |m: &mut AMMEngine| {
        let p = m.pools.get_mut(&p2).unwrap();
        p.reserve_a += 1003;
        Ok(())
    });
    assert!(ok.is_ok());
    let bad = amm.flash_loan(&pair, 1000, 0, |_m: &mut AMMEngine| Ok(()));
    assert!(matches!(bad, Err(AMMError::FlashLoanNotRepaid)));
    let big = amm.flash_loan(&pair, 1_000_000, 0, |_m: &mut AMMEngine| Ok(()));
    assert!(matches!(big, Err(AMMError::InsufficientLiquidity)));
}
