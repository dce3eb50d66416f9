use yrust_chain::network::p2p::NetworkConfig;
use yrust_chain::tutorial::consensus::{NodeRole, RaftConsensus};
use yrust_chain::tutorial::network::{Block, NetworkMessage, P2PNode};
use yrust_chain::tutorial::security::{AttackPrevention, RateLimiter, ReplayProtector};
use yrust_chain::tutorial::storage::{BlockchainStorage, MemoryStorage};
use yrust_chain::vm::engine::{ContractError, ContractState};
use yrust_chain::web_wallet::{WalletError, WalletManager};

#[test]
fn replay_protector_remembers_processed() {
    let mut rp = ReplayProtector::new();
    assert!(!rp.is_replay("tx_abc123"));
    rp.mark_processed("tx_abc123".to_string());
    assert!(rp.is_replay("tx_abc123"));
    assert!(!rp.is_replay("tx_other"));
}

#[test]
fn replay_protector_timestamp_window() {
    let rp = ReplayProtector::new();
    let now = 1_000_000u64;
    assert!(rp.validate_timestamp_at(now, now));
    assert!(rp.validate_timestamp_at(now - 300, now));
    assert!(!rp.validate_timestamp_at(now - 301, now));
    assert!(!rp.validate_timestamp_at(now + 61, now));
}

#[test]
fn rate_limiter_counts_per_window() {
    let mut rl = RateLimiter::new(3);
    let now = 120u64;
    assert!(rl.allow_request_at("1.1.1.1", now));
    assert!(rl.allow_request_at("1.1.1.1", now + 1));
    assert!(rl.allow_request_at("1.1.1.1", now + 2));
    assert!(!rl.allow_request_at("1.1.1.1", now + 3));
    assert!(rl.allow_request_at("2.2.2.2", now + 3));
    // a new minute starts afresh
    assert!(rl.allow_request_at("1.1.1.1", now + 60));
}

#[test]
fn tutorial_attack_prevention_limits() {
    let mut ap = AttackPrevention::new();
    for _ in 0..60 {
        assert!(ap.check_api_request_at("192.168.1.1", 600).is_ok());
    }
    assert_eq!(ap.check_api_request_at("192.168.1.1", 600), Err("请求过于频繁".to_string()));
    for _ in 0..10 {
        assert!(ap.check_peer_connection("10.0.0.1"));
    }
    assert!(!ap.check_peer_connection("10.0.0.1"));
    assert!(ap.validate_transaction_at("tx1", 1000, 1000).is_ok());
    assert_eq!(ap.validate_transaction_at("tx1", 1000, 2000), Err("无效时间戳".to_string()));
    ap.mark_processed("tx1".to_string());
    assert_eq!(ap.validate_transaction_at("tx1", 1000, 1000), Err("重放攻击检测".to_string()));
}

#[test]
fn raft_election_and_heartbeat() {
    let mut node = RaftConsensus::new_at("node1".to_string(), 100);
    assert!(!node.check_election_timeout(110));
    assert_eq!(node.role, NodeRole::Follower);
    assert!(node.check_election_timeout(111));
    assert_eq!(node.role, NodeRole::Candidate);
    assert_eq!(node.current_term, 1);
    node.handle_heartbeat_at("leader", 1, 200);
    assert_eq!(node.role, NodeRole::Candidate);
    node.handle_heartbeat_at("leader", 5, 201);
    assert_eq!(node.role, NodeRole::Follower);
    assert_eq!(node.current_term, 5);
    assert_eq!(node.last_heartbeat, 201);
    assert!(!node.request_vote("c", 4));
    assert!(node.request_vote("c", 5));
    node.voted_for = Some("d".to_string());
    assert!(!node.request_vote("c", 6));
    assert!(node.request_vote("d", 6));
}

#[test]
fn p2p_node_addresses() {
    let mut node = P2PNode::new(8001);
    assert!(node.node_id.starts_with("node_"));
    assert_eq!(node.listen_addr, "/ip4/0.0.0.0/tcp/8001");
    assert!(node.connect("/ip4/0.0.0.0/tcp/8002").is_ok());
    assert_eq!(node.peers, vec!["/ip4/0.0.0.0/tcp/8002".to_string()]);
    let msg = NetworkMessage::NewBlock(Block { height: 1, hash: "abc123".to_string() });
    assert!(matches!(msg, NetworkMessage::NewBlock(_)));
    let cfg = NetworkConfig::default();
    assert_eq!(cfg.port, 0);
    assert!(cfg.bootstrap_nodes.is_empty());
}

#[test]
fn contract_state_slots() {
    let mut st = ContractState::new();
    assert_eq!(st.load(7), Vec::<u8>::new());
    st.store(7, vec![1, 2, 3]);
    assert_eq!(st.load(7), vec![1, 2, 3]);
    assert_eq!(st.balance, 0);
    assert_eq!(ContractError::FunctionNotFound("f".to_string()).message(), "Function not found: f");
}

#[test]
fn memory_block_storage_never_fails() {
    let mut bs = BlockchainStorage::new(MemoryStorage::new());
    assert_eq!(bs.get_latest_height(), Ok(0));
    assert!(bs.save_block(3, "h3", "data3").is_ok());
    assert_eq!(bs.get_block(3), Ok(Some("data3".to_string())));
    assert_eq!(bs.get_block(4), Ok(None));
    assert_eq!(bs.get_latest_height(), Ok(3));
}

#[test]
fn start_wallet_with_known_phrase() {
    let phrase = "abandon abandon abandon abandon abandon abandon abandon abandon abandon abandon abandon about";
    let mut m = WalletManager::new();
    let addr = m.start_wallet(phrase, "pw").unwrap();
    let mut m2 = WalletManager::new();
    assert_eq!(m2.restore_wallet(phrase, "other").unwrap(), addr);
    let mut m3 = WalletManager::new();
    assert!(matches!(m3.start_wallet("not a phrase", "pw"), Err(WalletError::InvalidMnemonic(_))));
    assert_eq!(m.export_mnemonic("pw").unwrap(), phrase);
}

#[test]
fn library_version() {
    assert_eq!(yrust_chain::version(), "0.1.0");
    assert_eq!(yrust_chain::VERSION, "0.1.0");
}
