use yrust_chain::monitoring::HealthChecker;
use yrust_chain::network::consensus::{ConsensusConfig, ConsensusEngine, ConsensusEvent, ConsensusState, PeerInfo};
use yrust_chain::network::{encode_frame, frame_length, NetworkError, NodeConfig};
use yrust_chain::security::attack_prevention::{AttackPreventionConfig, AttackPreventionManager};

#[test]
fn network_frames_carry_their_length() {
    let frame = encode_frame(b"hello");
    assert_eq!(frame, vec![0, 0, 0, 5, b'h', b'e', b'l', b'l', b'o']);
    assert_eq!(frame_length([frame[0], frame[1], frame[2], frame[3]]), 5);
    let big = vec![7u8; 300];
    let f = encode_frame(&big);
    assert_eq!(&f[..4], &[0, 0, 1, 44]);
    assert_eq!(frame_length([0, 1, 0, 0]), 65536);
    assert_eq!(NodeConfig::default().port, 0);
    assert_eq!(NetworkError::InvalidMessage.message(), "无效的消息");
    assert_eq!(NetworkError::ConnectionError("x".to_string()).message(), "连接错误: x");
}

#[test]
fn consensus_election_and_votes() {
    let config = ConsensusConfig::default();
    assert!(config.node_id.starts_with("node_"));
    let me = config.node_id.clone();
    let mut e = ConsensusEngine::new(config);
    assert_eq!(e.get_state(), ConsensusState::Follower);
    // no timeout yet
    assert!(e.check_heartbeat(10_000).is_none());
    // silent for more than 10 s: become a candidate for term 1
    let ev = e.check_heartbeat(10_001);
    assert!(matches!(ev, Some(ConsensusEvent::StateChanged(ConsensusState::Candidate))));
    assert_eq!(e.current_term, 1);
    // votes: once given, only the same candidate gets it again
    assert!(e.handle_vote_request("a", 1));
    assert!(e.handle_vote_request("a", 2));
    assert!(!e.handle_vote_request("b", 5));
    assert!(!e.handle_vote_request("a", 0));
    // a granted reply makes this validator the leader
    let events = e.handle_vote_response("a", true);
    assert_eq!(events.len(), 2);
    assert_eq!(e.get_state(), ConsensusState::Leader);
    assert_eq!(e.get_leader(), Some(me));
    assert!(e.handle_vote_response("a", false).is_empty());
    // a heartbeat of a newer term makes it a follower of the sender
    let ev = e.handle_heartbeat("boss", 7, 100, 20_000);
    assert!(matches!(ev, Some(ConsensusEvent::LeaderChanged(Some(ref l))) if l == "boss"));
    assert_eq!(e.current_term, 7);
    assert_eq!(e.get_state(), ConsensusState::Follower);
    assert!(e.handle_heartbeat("old", 3, 100, 20_001).is_none());
    assert_eq!(e.last_heartbeat, 20_001);
}

#[test]
fn consensus_peers() {
    let mut e = ConsensusEngine::new(ConsensusConfig::default());
    let peer = |id: &str, v: bool| PeerInfo {
        peer_id: id.to_string(),
        address: "127.0.0.1:1".to_string(),
        version: "0.1.0".to_string(),
        block_height: 0,
        last_seen: 0,
        is_validator: v,
    };
    e.add_peer(peer("p1", true));
    e.add_peer(peer("p2", false));
    assert_eq!(e.peers.len(), 2);
    assert!(e.validators.contains("p1"));
    assert!(!e.validators.contains("p2"));
    e.remove_peer("p1");
    assert_eq!(e.peers.len(), 1);
    assert!(!e.validators.contains("p1"));
}

#[test]
fn attack_prevention_limits() {
    let mut m = AttackPreventionManager::new(AttackPreventionConfig::default());
    for _ in 0..10 {
        assert!(m.check_peer_limit("1.2.3.4"));
        m.record_connection("1.2.3.4");
    }
    assert!(!m.check_peer_limit("1.2.3.4"));
    assert!(m.check_peer_limit("5.6.7.8"));
    assert!(m.validate_block_size(2_000_000));
    assert!(!m.validate_block_size(2_000_001));
    assert!(m.validate_reorg_depth(100));
    assert!(!m.validate_reorg_depth(101));
    assert!(m.validate_timestamp_at(1000 + 7200, 999, 1000));
    assert!(!m.validate_timestamp_at(1000 + 7201, 999, 1000));
    assert!(!m.validate_timestamp_at(500, 999, 1000));
    assert!(!m.validate_timestamp(1, 2));
}

#[test]
fn monitoring_health_report() {
    let h = HealthChecker::check();
    assert_eq!(h.status, "healthy");
    assert_eq!(h.block_height, 1234567);
    assert_eq!(h.peer_count, 42);
}
