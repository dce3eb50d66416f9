use yrust_chain::contracts::staking::{StakingFactory, StakingPool};

#[test]
fn test_staking() {
    let mut pool = StakingPool::new("STAKE".to_string(), "REWARD".to_string(), 100, 100, 1000);
    pool.deposit("alice", 1000, 200).unwrap();
    assert_eq!(pool.total_staked, 1000);
    let pending = pool.pending_reward("alice", 300);
    assert!(pending > 0);
    let reward = pool.withdraw("alice", 1000, 400).unwrap();
    assert!(reward > 0);
    assert_eq!(pool.total_staked, 0);
}

#[test]
fn staking_reward_amounts() {
    let mut pool = StakingPool::new("STAKE".to_string(), "REWARD".to_string(), 100, 100, 1000);
    pool.deposit("alice", 1000, 200).unwrap();
    assert_eq!(pool.pending_reward("alice", 300), 10000);
    assert_eq!(pool.withdraw("alice", 1000, 400).unwrap(), 20000);
    assert_eq!(pool.pending_reward("alice", 400), 0);
    assert_eq!(pool.pending_reward("nobody", 400), 0);
}

#[test]
fn staking_errors() {
    let mut pool = StakingPool::new("STAKE".to_string(), "REWARD".to_string(), 100, 100, 1000);
    assert_eq!(pool.deposit("alice", 0, 200), Err("质押数量不能为0".to_string()));
    assert_eq!(pool.withdraw("bob", 1, 200), Err("用户未质押".to_string()));
    pool.deposit("alice", 10, 200).unwrap();
    assert_eq!(pool.withdraw("alice", 11, 200), Err("提取数量超过质押数量".to_string()));
    assert_eq!(pool.harvest("alice", 200), Err("没有可领取的奖励".to_string()));
}

#[test]
fn staking_harvest_then_nothing_pending() {
    let mut pool = StakingPool::new("S".to_string(), "R".to_string(), 10, 0, 100);
    pool.deposit("a", 100, 10).unwrap();
    let r = pool.harvest("a", 20).unwrap();
    assert_eq!(r, 100);
    assert_eq!(pool.pending_reward("a", 20), 0);
}

#[test]
fn staking_factory_pools() {
    let mut f = StakingFactory::new();
    assert_eq!(f.create_pool("A".to_string(), "B".to_string(), 5, 10, 90), 0);
    assert_eq!(f.create_pool("C".to_string(), "D".to_string(), 5, 10, 90), 1);
    assert_eq!(f.pools[1].end_block, 100);
}
