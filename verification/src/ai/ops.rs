//! Operations monitoring: health states, metrics with alert rules, alerts
//! with cooldown and resolution, nodes and a system overview. Metric values
//! and thresholds are held in hundredths of their unit.
use vstd::prelude::*;
use crate::clock::unix_seconds;
use crate::keymap::{KeyMap, MapKey};
use crate::text::{
    decimal, lowercase_of, push_decimal, push_padded, push_str, str_eq, to_lowercase, padded_decimal,
};

verus! {

/// The health of a node.
#[derive(Debug, Clone, Copy, PartialEq, Eq, Structural)]
pub enum HealthStatus {
    Healthy,
    Warning,
    Critical,
    Offline,
    Unknown,
}

/// The severity order of health states.
pub open spec fn health_priority(h: HealthStatus) -> u8 {
    match h {
        HealthStatus::Healthy => 0,
        HealthStatus::Unknown => 1,
        HealthStatus::Warning => 2,
        HealthStatus::Critical => 3,
        HealthStatus::Offline => 4,
    }
}

/// The health state a (lower-cased) name stands for.
pub open spec fn health_named(s: Seq<char>) -> HealthStatus {
    let l = lowercase_of(s);
    if l == "healthy"@ || l == "健康"@ {
        HealthStatus::Healthy
    } else if l == "warning"@ || l == "警告"@ {
        HealthStatus::Warning
    } else if l == "critical"@ || l == "严重"@ {
        HealthStatus::Critical
    } else if l == "offline"@ || l == "离线"@ {
        HealthStatus::Offline
    } else {
        HealthStatus::Unknown
    }
}

impl HealthStatus {
    /// Higher is more severe.
    pub fn priority(&self) -> (r: u8)
        ensures
            r == health_priority(*self),
    {
        match self {
            HealthStatus::Healthy => 0,
            HealthStatus::Unknown => 1,
            HealthStatus::Warning => 2,
            HealthStatus::Critical => 3,
            HealthStatus::Offline => 4,
        }
    }

    /// Parses a health name in English or Chinese, in any case.
    pub fn from_str(s: &str) -> (r: Self)
        ensures
            r == health_named(s@),
    {
        let l = to_lowercase(s);
        let l = l.as_str();
        if str_eq(l, "healthy") || str_eq(l, "健康") {
            HealthStatus::Healthy
        } else if str_eq(l, "warning") || str_eq(l, "警告") {
            HealthStatus::Warning
        } else if str_eq(l, "critical") || str_eq(l, "严重") {
            HealthStatus::Critical
        } else if str_eq(l, "offline") || str_eq(l, "离线") {
            HealthStatus::Offline
        } else {
            HealthStatus::Unknown
        }
    }
}

/// What is measured.
#[derive(Debug, Clone, Copy, PartialEq, Eq, Structural, Hash)]
pub enum MetricType {
    CpuUsage,
    MemoryUsage,
    DiskUsage,
    NetworkBandwidth,
    BlockSyncDelay,
    PeerCount,
    MempoolSize,
    Tps,
    BlockProcessTime,
    DbQueryTime,
}

impl View for MetricType {
    type V = MetricType;

    open spec fn view(&self) -> MetricType {
        *self
    }
}

impl MapKey for MetricType {
    fn key_eq(&self, other: &Self) -> (r: bool) {
        *self == *other
    }

    fn key_clone(&self) -> (r: Self) {
        *self
    }
}

/// One measurement; the value is in hundredths of the unit.
pub struct Metric {
    pub metric_type: MetricType,
    pub value: i64,
    pub unit: String,
    pub timestamp: u64,
    pub labels: KeyMap<String, String>,
}

/// How urgent an alert is.
#[derive(Debug, Clone, Copy, PartialEq, Eq, Structural)]
pub enum AlertSeverity {
    Info,
    Warning,
    Critical,
    Emergency,
}

/// A rule raising an alert when a metric crosses a threshold (in
/// hundredths) by the given comparison (`>`, `>=`, `<`, `<=`, `=`).
pub struct AlertRule {
    pub name: String,
    pub metric_type: MetricType,
    pub threshold: i64,
    pub operator: String,
    pub duration: u64,
    pub severity: AlertSeverity,
    pub enabled: bool,
}

/// The plain form of a rule.
pub type RuleView = (Seq<char>, MetricType, i64, Seq<char>, u64, AlertSeverity, bool);

impl View for AlertRule {
    type V = RuleView;

    open spec fn view(&self) -> RuleView {
        (
            self.name@,
            self.metric_type,
            self.threshold,
            self.operator@,
            self.duration,
            self.severity,
            self.enabled,
        )
    }
}

/// A raised alert; the metric value is in hundredths.
pub struct AlertEvent {
    pub id: String,
    pub rule_name: String,
    pub severity: AlertSeverity,
    pub message: String,
    pub triggered_at: u64,
    pub resolved_at: Option<u64>,
    pub metric_value: i64,
    pub suggested_action: String,
}

/// The plain form of an alert.
pub type AlertView = (Seq<char>, Seq<char>, AlertSeverity, Seq<char>, u64, Option<u64>, i64, Seq<char>);

impl View for AlertEvent {
    type V = AlertView;

    open spec fn view(&self) -> AlertView {
        (
            self.id@,
            self.rule_name@,
            self.severity,
            self.message@,
            self.triggered_at,
            self.resolved_at,
            self.metric_value,
            self.suggested_action@,
        )
    }
}

/// A node of the network as last reported.
pub struct NodeInfo {
    pub node_id: String,
    pub address: String,
    pub version: String,
    pub health: HealthStatus,
    pub last_heartbeat: u64,
    pub block_height: u64,
    pub peer_count: usize,
    pub uptime: u64,
    pub location: Option<String>,
}

/// An optimisation proposal.
pub struct OptimizationSuggestion {
    pub category: String,
    pub description: String,
    pub expected_improvement: String,
    pub difficulty: u8,
    pub priority: u8,
}

/// The direction of a metric over time.
#[derive(Debug, Clone, Copy, PartialEq, Eq, Structural)]
pub enum TrendDirection {
    Increasing,
    Decreasing,
    Stable,
    Fluctuating,
}

/// The monitor's settings.
pub struct MonitorConfig {
    pub history_size: usize,
    pub alert_cooldown: u64,
    pub auto_recovery: bool,
    pub health_check_interval: u64,
    pub report_interval: u64,
}

impl Default for MonitorConfig {
    fn default() -> (r: Self)
        ensures
            r.history_size == 1000,
            r.alert_cooldown == 300,
            r.auto_recovery,
            r.health_check_interval == 30,
            r.report_interval == 3600,
    {
        MonitorConfig {
            history_size: 1000,
            alert_cooldown: 300,
            auto_recovery: true,
            health_check_interval: 30,
            report_interval: 3600,
        }
    }
}

/// Totals over the nodes and alerts.
#[derive(Debug, Clone, Copy, PartialEq, Eq, Structural)]
pub struct SystemOverview {
    pub total_nodes: usize,
    pub healthy_nodes: usize,
    pub unhealthy_nodes: usize,
    pub active_alerts: usize,
    pub critical_alerts: usize,
    pub avg_block_height: u64,
    pub total_peers: usize,
}

/// The monitor: metric histories, alert rules, active and past alerts,
/// nodes and settings.
pub struct OpsMonitor {
    pub metrics_history: KeyMap<MetricType, Vec<Metric>>,
    pub alert_rules: Vec<AlertRule>,
    pub active_alerts: KeyMap<String, AlertEvent>,
    pub alert_history: Vec<AlertEvent>,
    pub nodes: KeyMap<String, NodeInfo>,
    pub config: MonitorConfig,
}

/// The rules installed at start.
pub open spec fn default_rules() -> Seq<RuleView> {
    seq![
        ("High CPU Usage"@, MetricType::CpuUsage, 8000i64, ">"@, 300u64, AlertSeverity::Warning, true),
        ("Critical CPU Usage"@, MetricType::CpuUsage, 9500i64, ">"@, 60u64, AlertSeverity::Critical, true),
        ("High Memory Usage"@, MetricType::MemoryUsage, 8500i64, ">"@, 300u64, AlertSeverity::Warning, true),
        ("Low Disk Space"@, MetricType::DiskUsage, 9000i64, ">"@, 60u64, AlertSeverity::Critical, true),
        ("Block Sync Delay"@, MetricType::BlockSyncDelay, 30000i64, ">"@, 180u64, AlertSeverity::Warning, true),
        ("No Peers"@, MetricType::PeerCount, 100i64, "<"@, 60u64, AlertSeverity::Critical, true),
        ("Low TPS"@, MetricType::Tps, 100i64, "<"@, 300u64, AlertSeverity::Warning, true),
    ]
}

/// The views of a list of rules.
pub open spec fn rule_views(rs: Seq<AlertRule>) -> Seq<RuleView> {
    rs.map_values(|r: AlertRule| r@)
}

/// The views of a list of alerts.
pub open spec fn alert_views(es: Seq<AlertEvent>) -> Seq<AlertView> {
    es.map_values(|e: AlertEvent| e@)
}

/// Whether a value crosses a threshold by the comparison (an unknown
/// comparison never does).
pub open spec fn crosses(op: Seq<char>, value: i64, threshold: i64) -> bool {
    if op == ">"@ {
        value > threshold
    } else if op == ">="@ {
        value >= threshold
    } else if op == "<"@ {
        value < threshold
    } else if op == "<="@ {
        value <= threshold
    } else if op == "="@ {
        value == threshold
    } else {
        false
    }
}

/// The advice attached to an alert on a metric.
pub open spec fn action_for(t: MetricType) -> Seq<char> {
    match t {
        MetricType::CpuUsage => "考虑增加CPU资源或优化节点配置"@,
        MetricType::MemoryUsage => "建议增加内存或重启节点释放内存"@,
        MetricType::DiskUsage => "请清理磁盘空间或扩展存储"@,
        MetricType::BlockSyncDelay => "检查网络连接，可能需要重启同步"@,
        MetricType::PeerCount => "检查网络配置和防火墙设置"@,
        _ => "请检查相关配置"@,
    }
}

/// A value in hundredths written with two decimals (`{:.2}`).
pub open spec fn centi_text(v: i64) -> Seq<char> {
    let a: nat = if v < 0 { (-v) as nat } else { v as nat };
    (if v < 0 { "-"@ } else { Seq::empty() }) + decimal(a / 100) + "."@ + padded_decimal(a % 100, 2)
}

/// The message of an alert.
pub open spec fn alert_message(rule: RuleView, value: i64) -> Seq<char> {
    rule.0 + " 触发: 当前值 "@ + centi_text(value) + ", 阈值 "@ + centi_text(rule.2)
}

/// An alert fired at `then` is within the cooldown at `now` (a firing time
/// after `now` counts as within it).
pub open spec fn within(then: u64, now: u64, cooldown: u64) -> bool {
    then > now || now - then < cooldown
}

/// The alert state: active alerts by id, and the alert history.
pub type AlertState = (Map<Seq<char>, AlertView>, Seq<AlertView>);

/// The views of a map of alerts.
pub open spec fn active_view(m: Map<Seq<char>, AlertEvent>) -> Map<Seq<char>, AlertView> {
    m.map_values(|a: AlertEvent| a@)
}

/// The history keeps its last thousand alerts.
pub open spec fn trimmed(h: Seq<AlertView>) -> Seq<AlertView> {
    if h.len() > 1000 {
        h.skip(h.len() - 1000)
    } else {
        h
    }
}

/// The id of an alert of a rule on a measurement taken at `ts`.
pub open spec fn alert_id(rule_name: Seq<char>, ts: u64) -> Seq<char> {
    rule_name + "_"@ + decimal(ts as nat)
}

/// Raising the alert of a rule for a measurement at `now`: nothing when the
/// same alert is active or the rule fired within the cooldown; otherwise
/// the alert becomes active and joins the history.
pub open spec fn trigger_step(st: AlertState, rule: RuleView, value: i64, ts: u64, now: u64, cooldown: u64) -> AlertState {
    let id = alert_id(rule.0, ts);
    if st.0.contains_key(id) {
        st
    } else if exists|i: int| 0 <= i < st.1.len() && (#[trigger] st.1[i]).1 == rule.0 && within(st.1[i].4, now, cooldown) {
        st
    } else {
        let a = (id, rule.0, rule.5, alert_message(rule, value), now, None::<u64>, value, action_for(rule.1));
        (st.0.insert(id, a), trimmed(st.1.push(a)))
    }
}

/// Clearing the active alerts of a rule.
pub open spec fn resolve_step(st: AlertState, name: Seq<char>) -> AlertState {
    (Map::new(|k: Seq<char>| st.0.contains_key(k) && st.0[k].1 != name, |k: Seq<char>| st.0[k]), st.1)
}

/// The enabled rules on a metric type, in order.
pub open spec fn rules_on(rs: Seq<RuleView>, t: MetricType) -> Seq<RuleView>
    decreases rs.len(),
{
    if rs.len() == 0 {
        Seq::empty()
    } else {
        let f = rules_on(rs.drop_last(), t);
        if rs.last().6 && rs.last().1 == t {
            f.push(rs.last())
        } else {
            f
        }
    }
}

/// The first rule with a name.
pub open spec fn first_named(rs: Seq<RuleView>, name: Seq<char>) -> Option<RuleView>
    decreases rs.len(),
{
    if rs.len() == 0 {
        None
    } else if rs[0].0 == name {
        Some(rs[0])
    } else {
        first_named(rs.drop_first(), name)
    }
}

/// The alert state after checking the enabled rules of a measurement in
/// turn: a crossed rule raises the alert of the first rule of its name, an
/// uncrossed one clears the alerts of its name.
pub open spec fn after_checks(
    st: AlertState,
    checked: Seq<RuleView>,
    all: Seq<RuleView>,
    value: i64,
    ts: u64,
    now: u64,
    cooldown: u64,
) -> AlertState
    decreases checked.len(),
{
    if checked.len() == 0 {
        st
    } else {
        let prev = after_checks(st, checked.drop_last(), all, value, ts, now, cooldown);
        let r = checked.last();
        if crosses(r.3, value, r.2) {
            match first_named(all, r.0) {
                Some(rule) => trigger_step(prev, rule, value, ts, now, cooldown),
                None => prev,
            }
        } else {
            resolve_step(prev, r.0)
        }
    }
}

/// A monitor's alert state.
pub open spec fn alert_state(m: &OpsMonitor) -> AlertState {
    (active_view(m.active_alerts@), alert_views(m.alert_history@))
}

/// How many nodes are healthy.
pub open spec fn healthy_count(ns: Seq<(String, NodeInfo)>) -> nat
    decreases ns.len(),
{
    if ns.len() == 0 {
        0
    } else {
        healthy_count(ns.drop_last()) + if ns.last().1.health == HealthStatus::Healthy { 1nat } else { 0nat }
    }
}

/// The total block height over the nodes.
pub open spec fn height_total(ns: Seq<(String, NodeInfo)>) -> nat
    decreases ns.len(),
{
    if ns.len() == 0 {
        0
    } else {
        height_total(ns.drop_last()) + ns.last().1.block_height as nat
    }
}

/// The total peer count over the nodes.
pub open spec fn peer_total(ns: Seq<(String, NodeInfo)>) -> nat
    decreases ns.len(),
{
    if ns.len() == 0 {
        0
    } else {
        peer_total(ns.drop_last()) + ns.last().1.peer_count as nat
    }
}

/// How many alerts are critical or emergencies.
pub open spec fn critical_count(es: Seq<(String, AlertEvent)>) -> nat
    decreases es.len(),
{
    if es.len() == 0 {
        0
    } else {
        critical_count(es.drop_last()) + if es.last().1.severity == AlertSeverity::Critical
            || es.last().1.severity == AlertSeverity::Emergency {
            1nat
        } else {
            0nat
        }
    }
}

/// The health of a node at `now`: offline after five minutes without a
/// heartbeat, otherwise by the latest CPU measurement (critical above 95%,
/// warning above 80%); unknown for an unknown node.
pub open spec fn node_health(m: &OpsMonitor, node_id: Seq<char>, now: u64) -> HealthStatus {
    if !m.nodes@.contains_key(node_id) {
        HealthStatus::Unknown
    } else {
        let n = m.nodes@[node_id];
        if n.last_heartbeat <= now && now - n.last_heartbeat > 300 {
            HealthStatus::Offline
        } else if m.metrics_history@.contains_key(MetricType::CpuUsage) && m.metrics_history@[MetricType::CpuUsage]@.len() > 0 {
            let v = m.metrics_history@[MetricType::CpuUsage]@.last().value;
            if v > 9500 {
                HealthStatus::Critical
            } else if v > 8000 {
                HealthStatus::Warning
            } else {
                HealthStatus::Healthy
            }
        } else {
            HealthStatus::Healthy
        }
    }
}

/// The plain form of a suggestion.
pub type SuggestionView = (Seq<char>, Seq<char>, Seq<char>, u8, u8);

/// The suggestions for the CPU, memory and sync scores (each below 60
/// gives one), highest priority first.
pub open spec fn suggestions_for_scores(cpu: Option<u8>, mem: Option<u8>, sync: Option<u8>) -> Seq<SuggestionView> {
    let a: Seq<SuggestionView> = match cpu {
        Some(s) => if s < 60 {
            seq![("CPU"@, "CPU使用率持续偏高，建议升级CPU或优化节点代码"@, "预计可提升30%的处理能力"@, 3u8, (90 - s) as u8)]
        } else {
            Seq::empty()
        },
        None => Seq::empty(),
    };
    let b: Seq<SuggestionView> = match mem {
        Some(s) => if s < 60 {
            seq![("内存"@, "内存使用接近上限，建议增加内存或优化缓存策略"@, "预计可减少50%的内存占用"@, 2u8, (90 - s) as u8)]
        } else {
            Seq::empty()
        },
        None => Seq::empty(),
    };
    let c: Seq<SuggestionView> = match sync {
        Some(s) => if s < 60 {
            seq![("同步"@, "区块同步延迟较大，建议优化网络连接或增加对等节点"@, "预计可减少70%的同步时间"@, 2u8, (95 - s) as u8)]
        } else {
            Seq::empty()
        },
        None => Seq::empty(),
    };
    a + b + c
}

/// The views of a list of suggestions.
pub open spec fn suggestion_views(v: Seq<OptimizationSuggestion>) -> Seq<SuggestionView> {
    v.map_values(
        |o: OptimizationSuggestion| (o.category@, o.description@, o.expected_improvement@, o.difficulty, o.priority),
    )
}

/// Sorted by priority, highest first.
pub open spec fn by_priority(v: Seq<SuggestionView>) -> bool {
    forall|i: int, j: int| 0 <= i < j < v.len() ==> v[i].4 >= v[j].4
}

/// Appends a value in hundredths with two decimals (see `centi_text`).
pub fn push_centi(s: &mut String, v: i64)
    ensures
        final(s)@ == old(s)@ + centi_text(v),
{
    let a: u64 = if v < 0 {
        ((-(v + 1)) as u64) + 1
    } else {
        v as u64
    };
    if v < 0 {
        push_str(s, "-");
    }
    push_decimal(s, a / 100);
    push_str(s, ".");
    push_padded(s, a % 100, 2);
    proof {
        reveal_strlit("-");
        assert(final(s)@ =~= old(s)@ + centi_text(v));
    }
}

fn make_rule(
    name: &str,
    metric_type: MetricType,
    threshold: i64,
    operator: &str,
    duration: u64,
    severity: AlertSeverity,
) -> (r: AlertRule)
    ensures
        r@ == (name@, metric_type, threshold, operator@, duration, severity, true),
{
    AlertRule {
        name: name.to_owned(),
        metric_type,
        threshold,
        operator: operator.to_owned(),
        duration,
        severity,
        enabled: true,
    }
}

/// A copy of an alert.
fn copy_alert(a: &AlertEvent) -> (r: AlertEvent)
    ensures
        r@ == a@,
{
    AlertEvent {
        id: a.id.clone(),
        rule_name: a.rule_name.clone(),
        severity: a.severity,
        message: a.message.clone(),
        triggered_at: a.triggered_at,
        resolved_at: a.resolved_at,
        metric_value: a.metric_value,
        suggested_action: a.suggested_action.clone(),
    }
}

/// A copy of a rule.
fn copy_rule(r: &AlertRule) -> (c: AlertRule)
    ensures
        c@ == r@,
{
    AlertRule {
        name: r.name.clone(),
        metric_type: r.metric_type,
        threshold: r.threshold,
        operator: r.operator.clone(),
        duration: r.duration,
        severity: r.severity,
        enabled: r.enabled,
    }
}

/// The advice for a metric (see `action_for`).
fn action_text(t: MetricType) -> (r: String)
    ensures
        r@ == action_for(t),
{
    match t {
        MetricType::CpuUsage => "考虑增加CPU资源或优化节点配置".to_owned(),
        MetricType::MemoryUsage => "建议增加内存或重启节点释放内存".to_owned(),
        MetricType::DiskUsage => "请清理磁盘空间或扩展存储".to_owned(),
        MetricType::BlockSyncDelay => "检查网络连接，可能需要重启同步".to_owned(),
        MetricType::PeerCount => "检查网络配置和防火墙设置".to_owned(),
        _ => "请检查相关配置".to_owned(),
    }
}

/// Whether a value crosses a threshold (see `crosses`).
fn crosses_exec(op: &str, value: i64, threshold: i64) -> (r: bool)
    ensures
        r == crosses(op@, value, threshold),
{
    if str_eq(op, ">") {
        value > threshold
    } else if str_eq(op, ">=") {
        value >= threshold
    } else if str_eq(op, "<") {
        value < threshold
    } else if str_eq(op, "<=") {
        value <= threshold
    } else if str_eq(op, "=") {
        value == threshold
    } else {
        false
    }
}

impl OpsMonitor {
    pub fn new() -> (r: Self)
        ensures
            rule_views(r.alert_rules@) == default_rules(),
            r.metrics_history@ == Map::<MetricType, Vec<Metric>>::empty(),
            r.active_alerts@ == Map::<Seq<char>, AlertEvent>::empty(),
            r.alert_history@.len() == 0,
            r.nodes@ == Map::<Seq<char>, NodeInfo>::empty(),
            r.config.history_size == 1000,
            r.config.alert_cooldown == 300,
            r.config.auto_recovery,
            r.config.health_check_interval == 30,
            r.config.report_interval == 3600,
    {
        let mut monitor = OpsMonitor {
            metrics_history: KeyMap::new(),
            alert_rules: Vec::new(),
            active_alerts: KeyMap::new(),
            alert_history: Vec::new(),
            nodes: KeyMap::new(),
            config: MonitorConfig::default(),
        };
        monitor.initialize_default_rules();
        monitor
    }

    /// Installs the default alert rules (see `default_rules`): CPU above 80%
    /// and 95%, memory above 85%, disk above 90%, sync delay above 300 s,
    /// fewer than one peer, fewer than one transaction per second.
    pub fn initialize_default_rules(&mut self)
        ensures
            rule_views(final(self).alert_rules@) == default_rules(),
            final(self).metrics_history == old(self).metrics_history,
            final(self).active_alerts == old(self).active_alerts,
            final(self).alert_history == old(self).alert_history,
            final(self).nodes == old(self).nodes,
            final(self).config == old(self).config,
    {
        let mut rules: Vec<AlertRule> = Vec::new();
        rules.push(make_rule("High CPU Usage", MetricType::CpuUsage, 8000, ">", 300, AlertSeverity::Warning));
        rules.push(make_rule("Critical CPU Usage", MetricType::CpuUsage, 9500, ">", 60, AlertSeverity::Critical));
        rules.push(make_rule("High Memory Usage", MetricType::MemoryUsage, 8500, ">", 300, AlertSeverity::Warning));
        rules.push(make_rule("Low Disk Space", MetricType::DiskUsage, 9000, ">", 60, AlertSeverity::Critical));
        rules.push(make_rule("Block Sync Delay", MetricType::BlockSyncDelay, 30000, ">", 180, AlertSeverity::Warning));
        rules.push(make_rule("No Peers", MetricType::PeerCount, 100, "<", 60, AlertSeverity::Critical));
        rules.push(make_rule("Low TPS", MetricType::Tps, 100, "<", 300, AlertSeverity::Warning));
        assert(rule_views(rules@) =~= default_rules());
        self.alert_rules = rules;
    }

    /// Raises the alert of a rule for a measurement at `now` (see
    /// `trigger_step`).
    pub fn trigger_alert(&mut self, rule: &AlertRule, metric: &Metric, now: u64)
        ensures
            alert_state(final(self)) == trigger_step(
                alert_state(old(self)),
                rule@,
                metric.value,
                metric.timestamp,
                now,
                old(self).config.alert_cooldown,
            ),
            final(self).alert_rules == old(self).alert_rules,
            final(self).metrics_history == old(self).metrics_history,
            final(self).nodes == old(self).nodes,
            final(self).config == old(self).config,
    {
        let mut alert_id = rule.name.clone();
        push_str(&mut alert_id, "_");
        push_decimal(&mut alert_id, metric.timestamp);
        if self.active_alerts.contains_key(&alert_id) {
            return;
        }
        let ghost hist = alert_views(self.alert_history@);
        let mut i: usize = 0;
        while i < self.alert_history.len()
            invariant
                i <= self.alert_history@.len(),
                hist == alert_views(self.alert_history@),
                forall|j: int| 0 <= j < i ==> !((#[trigger] hist[j]).1 == rule.name@ && within(hist[j].4, now, self.config.alert_cooldown)),
            decreases self.alert_history@.len() - i,
        {
            let a = &self.alert_history[i];
            assert(hist[i as int] == a@);
            if str_eq(a.rule_name.as_str(), rule.name.as_str()) && (a.triggered_at > now || now - a.triggered_at
                < self.config.alert_cooldown) {
                return;
            }
            i = i + 1;
        }
        let mut message = rule.name.clone();
        push_str(&mut message, " 触发: 当前值 ");
        push_centi(&mut message, metric.value);
        push_str(&mut message, ", 阈值 ");
        push_centi(&mut message, rule.threshold);
        let alert = AlertEvent {
            id: alert_id.clone(),
            rule_name: rule.name.clone(),
            severity: rule.severity,
            message,
            triggered_at: now,
            resolved_at: None,
            metric_value: metric.value,
            suggested_action: action_text(rule.metric_type),
        };
        let copy = copy_alert(&alert);
        let ghost before = alert_state(self);
        let ghost idv = alert_id@;
        let ghost old_active = self.active_alerts@;
        self.active_alerts.insert(alert_id, alert);
        assert(active_view(self.active_alerts@) =~= active_view(old_active).insert(idv, copy@));
        self.alert_history.push(copy);
        let ghost act = self.active_alerts;
        let ghost pushed = alert_views(self.alert_history@);
        assert(pushed =~= before.1.push(copy@));
        while self.alert_history.len() > 1000
            invariant
                self.alert_history@.len() >= 1000 ==> alert_views(self.alert_history@) == pushed.skip(pushed.len() - self.alert_history@.len()),
                self.alert_history@.len() <= pushed.len(),
                pushed.len() > 1000 ==> self.alert_history@.len() >= 1000,
                pushed.len() <= 1000 ==> alert_views(self.alert_history@) == pushed,
                self.active_alerts == act,
                self.alert_rules == old(self).alert_rules,
                self.metrics_history == old(self).metrics_history,
                self.nodes == old(self).nodes,
                self.config == old(self).config,
            decreases self.alert_history@.len(),
        {
            let ghost hv = self.alert_history@;
            let _ = self.alert_history.remove(0);
            assert(alert_views(self.alert_history@) =~= alert_views(hv).drop_first());
            assert(pushed.skip(pushed.len() - hv.len()).drop_first() =~= pushed.skip(pushed.len() - self.alert_history@.len()));
        }
        proof {
            if pushed.len() > 1000 {
                assert(self.alert_history@.len() == 1000);
            }
        }
    }

    /// Clears the active alerts of a rule (see `resolve_step`).
    pub fn resolve_alert(&mut self, rule_name: &str)
        ensures
            alert_state(final(self)) == resolve_step(alert_state(old(self)), rule_name@),
            final(self).alert_rules == old(self).alert_rules,
            final(self).metrics_history == old(self).metrics_history,
            final(self).nodes == old(self).nodes,
            final(self).config == old(self).config,
    {
        let ghost orig = self.active_alerts@;
        let mut remaining: KeyMap<String, AlertEvent> = KeyMap::new();
        std::mem::swap(&mut remaining, &mut self.active_alerts);
        let mut kept: KeyMap<String, AlertEvent> = KeyMap::new();
        while remaining.len() > 0
            invariant
                forall|k: Seq<char>| #[trigger] remaining@.contains_key(k) ==> orig.contains_key(k) && remaining@[k] == orig[k],
                forall|k: Seq<char>| #[trigger] kept@.contains_key(k) == (orig.contains_key(k) && orig[k].rule_name@
                    != rule_name@ && !remaining@.contains_key(k)),
                forall|k: Seq<char>| #[trigger] kept@.contains_key(k) ==> kept@[k] == orig[k],
                self.alert_rules == old(self).alert_rules,
                self.metrics_history == old(self).metrics_history,
                self.nodes == old(self).nodes,
                self.config == old(self).config,
                self.alert_history == old(self).alert_history,
            decreases remaining.entries().len(),
        {
            let ghost r0 = remaining@;
            let (k, v) = remaining.remove_at(0);
            if !str_eq(v.rule_name.as_str(), rule_name) {
                kept.insert(k, v);
            }
        }
        proof {
            assert(remaining@ =~= Map::<Seq<char>, AlertEvent>::empty());
        }
        self.active_alerts = kept;
        assert(active_view(self.active_alerts@) =~= resolve_step(alert_state(old(self)), rule_name@).0);
    }

    /// Checks a measurement at `now` against the enabled rules of its type
    /// (see `after_checks`).
    pub fn check_alert_rules(&mut self, metric: &Metric, now: u64)
        ensures
            alert_state(final(self)) == after_checks(
                alert_state(old(self)),
                rules_on(rule_views(old(self).alert_rules@), metric.metric_type),
                rule_views(old(self).alert_rules@),
                metric.value,
                metric.timestamp,
                now,
                old(self).config.alert_cooldown,
            ),
            final(self).alert_rules == old(self).alert_rules,
            final(self).metrics_history == old(self).metrics_history,
            final(self).nodes == old(self).nodes,
            final(self).config == old(self).config,
    {
        let ghost all = rule_views(self.alert_rules@);
        let ghost st0 = alert_state(self);
        let n = self.alert_rules.len();
        let mut i: usize = 0;
        while i < n
            invariant
                n == self.alert_rules@.len(),
                all == rule_views(self.alert_rules@),
                i <= n,
                self.alert_rules == old(self).alert_rules,
                self.metrics_history == old(self).metrics_history,
                self.nodes == old(self).nodes,
                self.config == old(self).config,
                alert_state(self) == after_checks(
                    st0,
                    rules_on(all.take(i as int), metric.metric_type),
                    all,
                    metric.value,
                    metric.timestamp,
                    now,
                    self.config.alert_cooldown,
                ),
            decreases n - i,
        {
            assert(all.take(i + 1).drop_last() =~= all.take(i as int));
            let rule = copy_rule(&self.alert_rules[i]);
            assert(rule@ == all[i as int]);
            let ghost checked = rules_on(all.take(i as int), metric.metric_type);
            let ghost checked2 = rules_on(all.take(i + 1), metric.metric_type);
            let ghost prev = after_checks(st0, checked, all, metric.value, metric.timestamp, now, self.config.alert_cooldown);
            proof {
                if rule.enabled && rule.metric_type == metric.metric_type {
                    assert(checked2 == checked.push(all[i as int]));
                    assert(checked2.drop_last() =~= checked);
                } else {
                    assert(checked2 == checked);
                }
            }
            if rule.enabled && rule.metric_type == metric.metric_type {
                if crosses_exec(rule.operator.as_str(), metric.value, rule.threshold) {
                    let found = self.find_rule(rule.name.as_str());
                    match found {
                        Some(j) => {
                            let r = copy_rule(&self.alert_rules[j]);
                            self.trigger_alert(&r, metric, now);
                        },
                        None => {},
                    }
                } else {
                    self.resolve_alert(rule.name.as_str());
                }
            }
            i = i + 1;
        }
        assert(all.take(n as int) =~= all);
    }

    /// The position of the first rule with a name (see `first_named`).
    fn find_rule(&self, name: &str) -> (r: Option<usize>)
        ensures
            match first_named(rule_views(self.alert_rules@), name@) {
                Some(v) => r matches Some(j) && j < self.alert_rules@.len() && self.alert_rules@[j as int]@ == v,
                None => r is None,
            },
    {
        let ghost all = rule_views(self.alert_rules@);
        let mut i: usize = 0;
        assert(all.skip(0) =~= all);
        while i < self.alert_rules.len()
            invariant
                i <= self.alert_rules@.len(),
                all == rule_views(self.alert_rules@),
                first_named(all, name@) == first_named(all.skip(i as int), name@),
            decreases self.alert_rules@.len() - i,
        {
            assert(all.skip(i as int)[0] == self.alert_rules@[i as int]@);
            if str_eq(self.alert_rules[i].name.as_str(), name) {
                return Some(i);
            }
            assert(all.skip(i as int).drop_first() =~= all.skip(i + 1));
            i = i + 1;
        }
        assert(all.skip(i as int) =~= Seq::<RuleView>::empty());
        None
    }

    /// Stores a measurement at `now` (dropping the oldest of a full
    /// history) and checks it against the rules.
    pub fn record_metric_at(&mut self, metric: Metric, now: u64)
        ensures
            final(self).metrics_history@.dom() == old(self).metrics_history@.dom().insert(metric.metric_type),
            final(self).metrics_history@[metric.metric_type]@ == {
                let h = if old(self).metrics_history@.contains_key(metric.metric_type) {
                    old(self).metrics_history@[metric.metric_type]@
                } else {
                    Seq::empty()
                };
                (if h.len() >= old(self).config.history_size && h.len() > 0 { h.drop_first() } else { h }).push(metric)
            },
            forall|t: MetricType| #[trigger] old(self).metrics_history@.contains_key(t) && t != metric.metric_type
                ==> final(self).metrics_history@[t] == old(self).metrics_history@[t],
            alert_state(final(self)) == after_checks(
                alert_state(old(self)),
                rules_on(rule_views(old(self).alert_rules@), metric.metric_type),
                rule_views(old(self).alert_rules@),
                metric.value,
                metric.timestamp,
                now,
                old(self).config.alert_cooldown,
            ),
            final(self).alert_rules == old(self).alert_rules,
            final(self).nodes == old(self).nodes,
            final(self).config == old(self).config,
    {
        self.check_alert_rules(&metric, now);
        let t = metric.metric_type;
        if !self.metrics_history.contains_key(&t) {
            self.metrics_history.insert(t, Vec::new());
        }
        let size = self.config.history_size;
        let history = self.metrics_history.value_mut(&t);
        if history.len() >= size && history.len() > 0 {
            let _ = history.remove(0);
        }
        history.push(metric);
    }

    /// Stores a measurement at the current time and checks it.
    pub fn record_metric(&mut self, metric: Metric)
        ensures
            final(self).metrics_history@.dom() == old(self).metrics_history@.dom().insert(metric.metric_type),
            final(self).alert_rules == old(self).alert_rules,
            final(self).nodes == old(self).nodes,
    {
        let now = unix_seconds();
        self.record_metric_at(metric, now);
    }

    /// Stores a node's report under its id.
    pub fn update_node(&mut self, node: NodeInfo)
        ensures
            final(self).nodes@ == old(self).nodes@.insert(node.node_id@, node),
            final(self).alert_rules == old(self).alert_rules,
            final(self).metrics_history == old(self).metrics_history,
            final(self).active_alerts == old(self).active_alerts,
    {
        let id = node.node_id.clone();
        self.nodes.insert(id, node);
    }

    /// The health of a node at `now` (see `node_health`).
    pub fn get_node_health_at(&self, node_id: &str, now: u64) -> (r: HealthStatus)
        ensures
            r == node_health(self, node_id@, now),
    {
        match self.nodes.get(&node_id.to_owned()) {
            Some(node) => {
                if node.last_heartbeat <= now && now - node.last_heartbeat > 300 {
                    return HealthStatus::Offline;
                }
                let mut worst = HealthStatus::Healthy;
                match self.metrics_history.get(&MetricType::CpuUsage) {
                    Some(history) => {
                        if history.len() > 0 {
                            let v = history[history.len() - 1].value;
                            if v > 9500 {
                                worst = HealthStatus::Critical;
                            } else if v > 8000 {
                                worst = HealthStatus::Warning;
                            }
                        }
                    },
                    None => {},
                }
                worst
            },
            None => HealthStatus::Unknown,
        }
    }

    /// The health of a node at the current time.
    pub fn get_node_health(&self, node_id: &str) -> (r: HealthStatus)
        ensures
            exists|now: u64| r == node_health(self, node_id@, now),
    {
        let now = unix_seconds();
        self.get_node_health_at(node_id, now)
    }

    /// The active alerts, in the order they were raised.
    pub fn get_active_alerts(&self) -> (r: Vec<&AlertEvent>)
        ensures
            r@.len() == self.active_alerts.entries().len(),
            forall|k: int| 0 <= k < r@.len() ==> *#[trigger] r@[k] == self.active_alerts.entries()[k].1,
    {
        let n = self.active_alerts.len();
        let mut out: Vec<&AlertEvent> = Vec::new();
        let mut i: usize = 0;
        while i < n
            invariant
                n == self.active_alerts.entries().len(),
                i <= n,
                out@.len() == i,
                forall|k: int| 0 <= k < i ==> *#[trigger] out@[k] == self.active_alerts.entries()[k].1,
            decreases n - i,
        {
            let (_, a) = self.active_alerts.entry_at(i);
            out.push(a);
            i = i + 1;
        }
        out
    }

    /// The latest `limit` alerts of the history, newest first.
    pub fn get_alert_history(&self, limit: usize) -> (r: Vec<&AlertEvent>)
        ensures
            r@.len() == if limit < self.alert_history@.len() { limit as int } else { self.alert_history@.len() as int },
            forall|k: int| 0 <= k < r@.len() ==> *#[trigger] r@[k] == self.alert_history@[self.alert_history@.len() - 1 - k],
    {
        let n = self.alert_history.len();
        let mut out: Vec<&AlertEvent> = Vec::new();
        let mut k: usize = 0;
        while k < limit && k < n
            invariant
                n == self.alert_history@.len(),
                k <= n,
                k <= limit,
                out@.len() == k,
                forall|j: int| 0 <= j < k ==> *#[trigger] out@[j] == self.alert_history@[n - 1 - j],
            decreases n - k,
        {
            out.push(&self.alert_history[n - 1 - k]);
            k = k + 1;
        }
        out
    }

    /// The nodes, in the order they first reported.
    pub fn get_nodes(&self) -> (r: Vec<&NodeInfo>)
        ensures
            r@.len() == self.nodes.entries().len(),
            forall|k: int| 0 <= k < r@.len() ==> *#[trigger] r@[k] == self.nodes.entries()[k].1,
    {
        let n = self.nodes.len();
        let mut out: Vec<&NodeInfo> = Vec::new();
        let mut i: usize = 0;
        while i < n
            invariant
                n == self.nodes.entries().len(),
                i <= n,
                out@.len() == i,
                forall|k: int| 0 <= k < i ==> *#[trigger] out@[k] == self.nodes.entries()[k].1,
            decreases n - i,
        {
            let (_, node) = self.nodes.entry_at(i);
            out.push(node);
            i = i + 1;
        }
        out
    }

    /// Totals over nodes and alerts; the average height is the integer mean.
    pub fn get_system_overview(&self) -> (r: SystemOverview)
        requires
            height_total(self.nodes.entries()) <= u64::MAX,
            peer_total(self.nodes.entries()) <= usize::MAX,
        ensures
            r.total_nodes == self.nodes@.len(),
            r.healthy_nodes == healthy_count(self.nodes.entries()),
            r.unhealthy_nodes == self.nodes@.len() - healthy_count(self.nodes.entries()),
            r.active_alerts == self.active_alerts@.len(),
            r.critical_alerts == critical_count(self.active_alerts.entries()),
            r.avg_block_height == height_total(self.nodes.entries()) / (if self.nodes@.len() == 0 { 1nat } else { self.nodes@.len() }),
            r.total_peers == peer_total(self.nodes.entries()),
    {
        let ghost ns = self.nodes.entries();
        let n = self.nodes.len();
        let mut healthy: usize = 0;
        let mut height: u64 = 0;
        let mut peers: usize = 0;
        let mut i: usize = 0;
        while i < n
            invariant
                n == ns.len(),
                ns == self.nodes.entries(),
                i <= n,
                healthy == healthy_count(ns.take(i as int)),
                healthy <= i,
                height == height_total(ns.take(i as int)),
                peers == peer_total(ns.take(i as int)),
                height_total(ns) <= u64::MAX,
                peer_total(ns) <= usize::MAX,
            decreases n - i,
        {
            let (_, node) = self.nodes.entry_at(i);
            assert(ns.take(i + 1).drop_last() =~= ns.take(i as int));
            proof {
                lemma_totals_prefix(ns, i + 1);
            }
            if node.health == HealthStatus::Healthy {
                healthy = healthy + 1;
            }
            height = height + node.block_height;
            peers = peers + node.peer_count;
            i = i + 1;
        }
        assert(ns.take(n as int) =~= ns);
        let ghost es = self.active_alerts.entries();
        let m = self.active_alerts.len();
        let mut critical: usize = 0;
        let mut j: usize = 0;
        while j < m
            invariant
                m == es.len(),
                es == self.active_alerts.entries(),
                j <= m,
                critical == critical_count(es.take(j as int)),
                critical <= j,
            decreases m - j,
        {
            let (_, a) = self.active_alerts.entry_at(j);
            assert(es.take(j + 1).drop_last() =~= es.take(j as int));
            if a.severity == AlertSeverity::Critical || a.severity == AlertSeverity::Emergency {
                critical = critical + 1;
            }
            j = j + 1;
        }
        assert(es.take(m as int) =~= es);
        let div: u64 = if n == 0 { 1 } else { n as u64 };
        SystemOverview {
            total_nodes: n,
            healthy_nodes: healthy,
            unhealthy_nodes: n - healthy,
            active_alerts: m,
            critical_alerts: critical,
            avg_block_height: height / div,
            total_peers: peers,
        }
    }

    /// The optimisation suggestions for the scores: CPU, memory and sync
    /// scores below 60 each give one, sorted by priority, highest first,
    /// equal priorities in that order.
    pub fn generate_recommendations(&self, scores: &KeyMap<MetricType, u8>) -> (r: Vec<OptimizationSuggestion>)
        ensures
            suggestion_views(r@) == sort_desc(suggestions_for_scores(
                score_of(scores@, MetricType::CpuUsage),
                score_of(scores@, MetricType::MemoryUsage),
                score_of(scores@, MetricType::BlockSyncDelay),
            )),
    {
        let mut items: Vec<OptimizationSuggestion> = Vec::new();
        match scores.get(&MetricType::CpuUsage) {
            Some(score) => {
                if *score < 60 {
                    items.push(OptimizationSuggestion {
                        category: "CPU".to_owned(),
                        description: "CPU使用率持续偏高，建议升级CPU或优化节点代码".to_owned(),
                        expected_improvement: "预计可提升30%的处理能力".to_owned(),
                        difficulty: 3,
                        priority: 90 - *score,
                    });
                }
            },
            None => {},
        }
        match scores.get(&MetricType::MemoryUsage) {
            Some(score) => {
                if *score < 60 {
                    items.push(OptimizationSuggestion {
                        category: "内存".to_owned(),
                        description: "内存使用接近上限，建议增加内存或优化缓存策略".to_owned(),
                        expected_improvement: "预计可减少50%的内存占用".to_owned(),
                        difficulty: 2,
                        priority: 90 - *score,
                    });
                }
            },
            None => {},
        }
        match scores.get(&MetricType::BlockSyncDelay) {
            Some(score) => {
                if *score < 60 {
                    items.push(OptimizationSuggestion {
                        category: "同步".to_owned(),
                        description: "区块同步延迟较大，建议优化网络连接或增加对等节点".to_owned(),
                        expected_improvement: "预计可减少70%的同步时间".to_owned(),
                        difficulty: 2,
                        priority: 95 - *score,
                    });
                }
            },
            None => {},
        }
        let ghost list = suggestion_views(items@);
        assert(list =~= suggestions_for_scores(
            score_of(scores@, MetricType::CpuUsage),
            score_of(scores@, MetricType::MemoryUsage),
            score_of(scores@, MetricType::BlockSyncDelay),
        ));
        let mut sorted: Vec<OptimizationSuggestion> = Vec::new();
        let mut rest = items;
        let ghost total = rest@.len();
        assert(total <= 3);
        let mut taken: usize = 0;
        while rest.len() > 0
            invariant
                taken + rest@.len() == total,
                total == list.len(),
                total <= 3,
                suggestion_views(rest@) == list.skip(taken as int),
                suggestion_views(sorted@) == sort_desc(list.take(taken as int)),
            decreases rest@.len(),
        {
            let ghost r0 = rest@;
            let x = rest.remove(0);
            assert(rest@ =~= r0.subrange(1, r0.len() as int));
            assert forall|j: int| 0 <= j < rest@.len() implies #[trigger] suggestion_views(rest@)[j] == list.skip(taken + 1)[j] by {
                assert(rest@[j] == r0[j + 1]);
                assert(suggestion_views(r0)[j + 1] == list.skip(taken as int)[j + 1]);
            }
            assert(suggestion_views(rest@) =~= list.skip(taken + 1));
            assert((x.category@, x.description@, x.expected_improvement@, x.difficulty, x.priority) == list[taken as int]) by {
                assert(suggestion_views(r0)[0] == list.skip(taken as int)[0]);
            }
            let mut k: usize = 0;
            let ghost sv = suggestion_views(sorted@);
            while k < sorted.len() && sorted[k].priority >= x.priority
                invariant
                    k <= sorted@.len(),
                    sv == suggestion_views(sorted@),
                    forall|j: int| 0 <= j < k ==> (#[trigger] sv[j]).4 >= x.priority,
                decreases sorted@.len() - k,
            {
                k = k + 1;
            }
            proof {
                lemma_first_lower(sv, x.priority, k as int);
            }
            let ghost xv = (x.category@, x.description@, x.expected_improvement@, x.difficulty, x.priority);
            sorted.insert(k, x);
            assert(suggestion_views(sorted@) =~= sv.insert(k as int, xv));
            assert(list.take(taken + 1).drop_last() =~= list.take(taken as int));
            taken = taken + 1;
        }
        assert(list.take(taken as int) =~= list);
        sorted
    }
}

/// The score of a metric, if any.
pub open spec fn score_of(m: Map<MetricType, u8>, t: MetricType) -> Option<u8> {
    if m.contains_key(t) {
        Some(m[t])
    } else {
        None
    }
}

/// The position before which every suggestion has at least priority `p`.
pub open spec fn first_lower(s: Seq<SuggestionView>, p: u8) -> int
    decreases s.len(),
{
    if s.len() == 0 {
        0
    } else if s[0].4 < p {
        0
    } else {
        1 + first_lower(s.drop_first(), p)
    }
}

/// A stable sort by priority, highest first (insertion after equals).
pub open spec fn sort_desc(v: Seq<SuggestionView>) -> Seq<SuggestionView>
    decreases v.len(),
{
    if v.len() == 0 {
        Seq::empty()
    } else {
        let s = sort_desc(v.drop_last());
        s.insert(first_lower(s, v.last().4), v.last())
    }
}

/// The first position with a lower priority is `k` when all before `k`
/// are at least `p` and `k` is the end or lower.
proof fn lemma_first_lower(s: Seq<SuggestionView>, p: u8, k: int)
    requires
        0 <= k <= s.len(),
        forall|j: int| 0 <= j < k ==> (#[trigger] s[j]).4 >= p,
        k < s.len() ==> s[k].4 < p,
    ensures
        first_lower(s, p) == k,
    decreases k,
{
    if k > 0 {
        assert(s.len() > 0);
        let t = s.drop_first();
        assert forall|j: int| 0 <= j < k - 1 implies (#[trigger] t[j]).4 >= p by {
            assert(t[j] == s[j + 1]);
        }
        if k - 1 < t.len() {
            assert(t[k - 1] == s[k]);
        }
        lemma_first_lower(t, p, k - 1);
    }
}

/// The running totals over a prefix of the nodes are at most the totals.
proof fn lemma_totals_prefix(ns: Seq<(String, NodeInfo)>, k: int)
    requires
        0 <= k <= ns.len(),
    ensures
        height_total(ns.take(k)) <= height_total(ns),
        peer_total(ns.take(k)) <= peer_total(ns),
    decreases ns.len() - k,
{
    if k < ns.len() {
        lemma_totals_prefix(ns, k + 1);
        assert(ns.take(k + 1).drop_last() =~= ns.take(k));
    } else {
        assert(ns.take(k) =~= ns);
    }
}

impl Default for OpsMonitor {
    fn default() -> (r: Self)
        ensures
            rule_views(r.alert_rules@) == default_rules(),
            r.metrics_history@ == Map::<MetricType, Vec<Metric>>::empty(),
            r.active_alerts@ == Map::<Seq<char>, AlertEvent>::empty(),
            r.alert_history@.len() == 0,
            r.nodes@ == Map::<Seq<char>, NodeInfo>::empty(),
            r.config.history_size == 1000,
            r.config.alert_cooldown == 300,
            r.config.auto_recovery,
            r.config.health_check_interval == 30,
            r.config.report_interval == 3600,
    {
        OpsMonitor::new()
    }
}

} // verus!
