//! The integer parts of mining scheduling: strategies, advice records and
//! the choice of strategy and start time.
use vstd::prelude::*;

verus! {

/// How to mine.
#[derive(Debug, Clone, Copy, PartialEq, Eq, Structural)]
pub enum MiningStrategy {
    Conservative,
    Aggressive,
    Adaptive,
    EcoFriendly,
}

impl Default for MiningStrategy {
    fn default() -> (r: Self)
        ensures
            r == MiningStrategy::Adaptive,
    {
        MiningStrategy::Adaptive
    }
}

/// Advice for a miner.
#[derive(Debug, Clone, Copy, PartialEq, Eq, Structural)]
pub struct MiningAdvice {
    pub suggested_difficulty: usize,
    pub predicted_block_time: u64,
    pub optimal_mining_time: u64,
    pub profit_score: u8,
    pub network_congestion: u8,
    pub recommended_strategy: MiningStrategy,
    pub confidence: u8,
}

/// How efficiently blocks are produced.
pub struct EfficiencyReport {
    pub efficiency_score: u8,
    pub stability_score: u8,
    pub recommendation: String,
}

/// The strategy for a congestion and a profit score: conservative when
/// congested and unprofitable, aggressive when calm and profitable,
/// energy-saving when congested, adaptive otherwise.
pub open spec fn strategy_for(congestion: u8, profit_score: u8) -> MiningStrategy {
    if congestion > 80 && profit_score < 30 {
        MiningStrategy::Conservative
    } else if congestion < 30 && profit_score > 70 {
        MiningStrategy::Aggressive
    } else if congestion > 60 {
        MiningStrategy::EcoFriendly
    } else {
        MiningStrategy::Adaptive
    }
}

/// The strategy for a congestion and a profit score (see `strategy_for`).
pub fn recommend_strategy(congestion: u8, profit_score: u8) -> (r: MiningStrategy)
    ensures
        r == strategy_for(congestion, profit_score),
{
    if congestion > 80 && profit_score < 30 {
        MiningStrategy::Conservative
    } else if congestion < 30 && profit_score > 70 {
        MiningStrategy::Aggressive
    } else if congestion > 60 {
        MiningStrategy::EcoFriendly
    } else {
        MiningStrategy::Adaptive
    }
}

/// When to start mining at `now`: at once when the predicted block time
/// is within the target, otherwise after half the excess.
pub fn optimal_mining_time_at(predicted_time: u64, target_block_time: u64, now: u64) -> (r: u64)
    requires
        predicted_time > target_block_time ==> now + (predicted_time - target_block_time) / 2 <= u64::MAX,
    ensures
        r == if predicted_time <= target_block_time {
            now as int
        } else {
            now + (predicted_time - target_block_time) / 2
        },
{
    if predicted_time <= target_block_time {
        now
    } else {
        now + (predicted_time - target_block_time) / 2
    }
}

} // verus!
