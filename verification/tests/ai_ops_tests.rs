use yrust_chain::ai::ops::{
    AlertSeverity, HealthStatus, Metric, MetricType, NodeInfo, OpsMonitor,
};
use yrust_chain::keymap::KeyMap;

fn metric(t: MetricType, value: i64, ts: u64) -> Metric {
    Metric { metric_type: t, value, unit: "%".to_string(), timestamp: ts, labels: KeyMap::new() }
}

#[test]
fn test_ops_monitor_creation() {
    let monitor = OpsMonitor::new();
    assert!(!monitor.alert_rules.is_empty());
    assert_eq!(monitor.alert_rules.len(), 7);
    assert_eq!(monitor.alert_rules[5].name, "No Peers");
    assert_eq!(monitor.alert_rules[5].operator, "<");
}

#[test]
fn test_record_metric() {
    let mut monitor = OpsMonitor::new();
    monitor.record_metric(metric(MetricType::CpuUsage, 7500, 1));
    assert!(monitor.metrics_history.contains_key(&MetricType::CpuUsage));
}

#[test]
fn test_node_health() {
    let mut monitor = OpsMonitor::new();
    monitor.update_node(NodeInfo {
        node_id: "test_node".to_string(),
        address: "127.0.0.1:8080".to_string(),
        version: "1.0.0".to_string(),
        health: HealthStatus::Healthy,
        last_heartbeat: 1_000,
        block_height: 1000,
        peer_count: 10,
        uptime: 3600,
        location: None,
    });
    assert_eq!(monitor.get_node_health_at("test_node", 1_100), HealthStatus::Healthy);
    assert_eq!(monitor.get_node_health_at("test_node", 2_000), HealthStatus::Offline);
    assert_eq!(monitor.get_node_health_at("other", 1_100), HealthStatus::Unknown);
    monitor.record_metric_at(metric(MetricType::CpuUsage, 9600, 5), 1_050);
    assert_eq!(monitor.get_node_health_at("test_node", 1_100), HealthStatus::Critical);
}

#[test]
fn health_names_parse_in_both_languages() {
    assert_eq!(HealthStatus::from_str("WARNING"), HealthStatus::Warning);
    assert_eq!(HealthStatus::from_str("离线"), HealthStatus::Offline);
    assert_eq!(HealthStatus::from_str("??"), HealthStatus::Unknown);
    assert_eq!(HealthStatus::Offline.priority(), 4);
    assert_eq!(HealthStatus::Unknown.priority(), 1);
}

#[test]
fn alerts_fire_cool_down_and_resolve() {
    let mut monitor = OpsMonitor::new();
    monitor.record_metric_at(metric(MetricType::CpuUsage, 9600, 10), 1_000);
    assert_eq!(monitor.active_alerts.len(), 2);
    let alerts = monitor.get_active_alerts();
    assert_eq!(alerts[0].id, "High CPU Usage_10");
    assert_eq!(alerts[0].message, "High CPU Usage 触发: 当前值 96.00, 阈值 80.00");
    assert_eq!(alerts[1].severity, AlertSeverity::Critical);
    assert_eq!(monitor.alert_history.len(), 2);
    monitor.record_metric_at(metric(MetricType::CpuUsage, 9700, 11), 1_100);
    assert_eq!(monitor.alert_history.len(), 2);
    monitor.record_metric_at(metric(MetricType::CpuUsage, 1000, 12), 1_200);
    assert_eq!(monitor.active_alerts.len(), 0);
    let overview = monitor.get_system_overview();
    assert_eq!(overview.active_alerts, 0);
    assert_eq!(overview.total_nodes, 0);
}

#[test]
fn recommendations_sorted_by_priority() {
    let monitor = OpsMonitor::new();
    let mut scores = KeyMap::new();
    scores.insert(MetricType::CpuUsage, 50u8);
    scores.insert(MetricType::BlockSyncDelay, 40u8);
    scores.insert(MetricType::MemoryUsage, 70u8);
    let rec = monitor.generate_recommendations(&scores);
    assert_eq!(rec.len(), 2);
    assert_eq!(rec[0].category, "同步");
    assert_eq!(rec[0].priority, 55);
    assert_eq!(rec[1].category, "CPU");
    assert_eq!(rec[1].priority, 40);
}
