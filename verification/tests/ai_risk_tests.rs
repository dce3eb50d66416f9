use yrust_chain::ai::risk::{RiskAction, RiskEngine, RiskLevel, RiskType};
use yrust_chain::chain::types::{Block, BlockHeader, ScriptSig, Transaction, TxInput, TxOutput};

fn tx(id: &str, inputs: usize, outputs: Vec<(u64, &str)>) -> Transaction {
    Transaction {
        id: id.to_string(),
        timestamp: 0,
        inputs: (0..inputs)
            .map(|i| TxInput {
                tx_id: format!("prev{}", i),
                vout: i as u32,
                script_sig: ScriptSig { signature: vec![], pubkey: vec![] },
            })
            .collect(),
        outputs: outputs
            .into_iter()
            .map(|(v, a)| TxOutput { value: v, script_pubkey: a.to_string() })
            .collect(),
        version: 1,
    }
}

#[test]
fn test_risk_level() {
    assert_eq!(RiskLevel::from_value(5), RiskLevel::NoRisk);
    assert_eq!(RiskLevel::from_value(30), RiskLevel::Low);
    assert_eq!(RiskLevel::from_value(55), RiskLevel::Medium);
    assert_eq!(RiskLevel::from_value(80), RiskLevel::High);
    assert_eq!(RiskLevel::from_value(95), RiskLevel::Critical);
}

#[test]
fn test_risk_engine_creation() {
    let engine = RiskEngine::new();
    assert!(engine.account_profiles.is_empty());
    assert!(engine.blacklist.is_empty());
}

#[test]
fn test_blacklist() {
    let mut engine = RiskEngine::new();
    let address = "test_address_123";
    engine.add_to_blacklist(address);
    assert!(engine.blacklist.contains(address));
    engine.remove_from_blacklist(address);
    assert!(!engine.blacklist.contains(address));
}

#[test]
fn test_dust_attack_detection() {
    let engine = RiskEngine::new();
    let mut t = tx("test", 0, vec![]);
    for _ in 0..15 {
        t.outputs.push(TxOutput { value: 500, script_pubkey: "addr".to_string() });
    }
    assert!(engine.detect_dust_attack(&t));
}

#[test]
fn clean_transaction_is_allowed() {
    let mut engine = RiskEngine::new();
    let r = engine.detect_transaction_risk_at(&tx("a", 1, vec![(1000, "x")]), 100);
    assert_eq!(r.score, 0);
    assert_eq!(r.level, RiskLevel::NoRisk);
    assert_eq!(r.recommended_action, RiskAction::Allow);
    assert_eq!(r.confidence, 50);
    assert_eq!(r.timestamp, 100);
    assert!(engine.risk_events.is_empty());
}

#[test]
fn blacklisted_and_large_transfers_are_frozen() {
    let mut engine = RiskEngine::new();
    engine.add_to_blacklist("bad");
    let r = engine.detect_transaction_risk_at(&tx("b", 1, vec![(2_000_000_000, "bad")]), 7);
    assert_eq!(r.risk_types, vec![RiskType::SuspiciousAddress, RiskType::LargeTransaction]);
    assert_eq!(r.score, 100);
    assert_eq!(r.level, RiskLevel::Critical);
    assert_eq!(r.recommended_action, RiskAction::Freeze);
    assert_eq!(r.details, vec!["交易涉及黑名单地址".to_string(), "大额交易: 2000000000 聪".to_string()]);
    assert_eq!(engine.risk_events.len(), 2);
    assert_eq!(engine.risk_events[0].description, "SuspiciousAddress 风险检测");
}

#[test]
fn laundering_shape_and_double_spend() {
    let mut engine = RiskEngine::new();
    let r = engine.detect_transaction_risk_at(&tx("c", 6, vec![(10_000, "x")]), 0);
    assert_eq!(r.risk_types, vec![RiskType::MoneyLaundering]);
    assert_eq!(r.score, 30);
    assert_eq!(r.level, RiskLevel::Low);
    assert_eq!(r.recommended_action, RiskAction::Monitor);
    let stats = engine.get_risk_stats();
    assert_eq!(stats.total_risk_events, 1);
    assert_eq!(stats.high_risk_events, 0);
}

#[test]
fn profiles_flag_frequent_accounts() {
    let mut engine = RiskEngine::new();
    assert_eq!(engine.get_account_risk_score("acct"), 10);
    for i in 0..51 {
        engine.update_account_profile_at("acct", &tx(&format!("t{}", i), 0, vec![(3, "acct")]), false, i);
    }
    let p = engine.account_profiles.get(&"acct".to_string()).unwrap();
    assert_eq!(p.transaction_history.len(), 51);
    assert_eq!(p.total_volume, 153);
    assert_eq!(engine.get_account_risk_score("acct"), 15);
}

#[test]
fn block_analysis_averages_and_counts() {
    let mut engine = RiskEngine::new();
    engine.add_to_blacklist("bad");
    let block = Block {
        header: BlockHeader {
            version: 1,
            prev_hash: String::new(),
            merkle_root: String::new(),
            timestamp: 0,
            bits: 1,
            nonce: 0,
        },
        height: 9,
        transactions: vec![tx("ok", 1, vec![(5, "x")]), tx("bad1", 1, vec![(5, "bad")])],
        hash: "h".to_string(),
    };
    let a = engine.analyze_block_risk_at(&block, 1);
    assert_eq!(a.block_height, 9);
    assert_eq!(a.high_risk_transactions, 1);
    assert_eq!(a.flagged_transactions[0].0, "bad1");
    assert_eq!(a.average_risk_score, 50);
    assert_eq!(a.risk_distribution.get(&RiskType::SuspiciousAddress), Some(&1));
    let recent = engine.get_recent_risk_events(5);
    assert_eq!(recent.len(), 1);
}
