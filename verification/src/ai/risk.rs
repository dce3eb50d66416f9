//! Transaction risk scoring: double spends, blacklisted addresses, large
//! and rapid transfers, laundering and dust patterns, account profiles and
//! block summaries.
use vstd::prelude::*;
use crate::chain::types::{Block, Transaction, TxInput, TxOutput, output_sum, sum_outputs};
use crate::clock::unix_seconds;
use crate::keymap::{KeyMap, MapKey, StrSet};
use crate::text::{decimal, push_decimal, push_str, str_eq};

verus! {

/// How risky something is.
#[derive(Debug, Clone, Copy, PartialEq, Eq, Structural)]
pub enum RiskLevel {
    NoRisk,
    Low,
    Medium,
    High,
    Critical,
}

/// The numeric weight of a level.
pub open spec fn level_value(l: RiskLevel) -> u8 {
    match l {
        RiskLevel::NoRisk => 0,
        RiskLevel::Low => 25,
        RiskLevel::Medium => 50,
        RiskLevel::High => 75,
        RiskLevel::Critical => 100,
    }
}

/// The level of a score.
pub open spec fn level_of(v: u8) -> RiskLevel {
    if v <= 10 {
        RiskLevel::NoRisk
    } else if v <= 35 {
        RiskLevel::Low
    } else if v <= 60 {
        RiskLevel::Medium
    } else if v <= 85 {
        RiskLevel::High
    } else {
        RiskLevel::Critical
    }
}

impl RiskLevel {
    pub fn value(&self) -> (r: u8)
        ensures
            r == level_value(*self),
    {
        match self {
            RiskLevel::NoRisk => 0,
            RiskLevel::Low => 25,
            RiskLevel::Medium => 50,
            RiskLevel::High => 75,
            RiskLevel::Critical => 100,
        }
    }

    pub fn from_value(value: u8) -> (r: Self)
        ensures
            r == level_of(value),
    {
        if value <= 10 {
            RiskLevel::NoRisk
        } else if value <= 35 {
            RiskLevel::Low
        } else if value <= 60 {
            RiskLevel::Medium
        } else if value <= 85 {
            RiskLevel::High
        } else {
            RiskLevel::Critical
        }
    }
}

/// Kinds of risk.
#[derive(Debug, Clone, Copy, PartialEq, Eq, Structural, Hash)]
pub enum RiskType {
    DoubleSpending,
    LargeTransaction,
    RapidTransactions,
    SuspiciousAddress,
    MoneyLaundering,
    ContractExploit,
    SybilAttack,
    DustAttack,
    TimelockManipulation,
    Other,
}

impl View for RiskType {
    type V = RiskType;

    open spec fn view(&self) -> RiskType {
        *self
    }
}

impl MapKey for RiskType {
    fn key_eq(&self, other: &Self) -> (r: bool) {
        *self == *other
    }

    fn key_clone(&self) -> (r: Self) {
        *self
    }
}

/// The name `{:?}` gives a risk type.
pub open spec fn risk_type_name(t: RiskType) -> Seq<char> {
    match t {
        RiskType::DoubleSpending => "DoubleSpending"@,
        RiskType::LargeTransaction => "LargeTransaction"@,
        RiskType::RapidTransactions => "RapidTransactions"@,
        RiskType::SuspiciousAddress => "SuspiciousAddress"@,
        RiskType::MoneyLaundering => "MoneyLaundering"@,
        RiskType::ContractExploit => "ContractExploit"@,
        RiskType::SybilAttack => "SybilAttack"@,
        RiskType::DustAttack => "DustAttack"@,
        RiskType::TimelockManipulation => "TimelockManipulation"@,
        RiskType::Other => "Other"@,
    }
}

/// What to do with a transaction.
#[derive(Debug, Clone, Copy, PartialEq, Eq, Structural)]
pub enum RiskAction {
    Allow,
    Monitor,
    Delay,
    RequireVerification,
    Reject,
    Freeze,
}

/// The verdict on a transaction.
pub struct RiskResult {
    pub level: RiskLevel,
    pub score: u8,
    pub risk_types: Vec<RiskType>,
    pub details: Vec<String>,
    pub recommended_action: RiskAction,
    pub timestamp: u64,
    pub confidence: u8,
}

/// One transaction in an account's history.
pub struct TransactionRecord {
    pub tx_id: String,
    pub timestamp: u64,
    pub amount: u64,
    pub is_sender: bool,
    pub counterparty: String,
}

/// Markers on an account.
#[derive(Debug, Clone, Copy, PartialEq, Eq, Structural, Hash)]
pub enum RiskFlag {
    HighFrequency,
    LargeTransfers,
    MixingBehavior,
    ContractInteractions,
    NewAccount,
    Blacklist,
}

impl View for RiskFlag {
    type V = RiskFlag;

    open spec fn view(&self) -> RiskFlag {
        *self
    }
}

impl MapKey for RiskFlag {
    fn key_eq(&self, other: &Self) -> (r: bool) {
        *self == *other
    }

    fn key_clone(&self) -> (r: Self) {
        *self
    }
}

/// What the engine knows of an account (the last hundred transactions).
pub struct AccountRiskProfile {
    pub address: String,
    pub transaction_history: Vec<TransactionRecord>,
    pub risk_score_history: Vec<(u64, u8)>,
    pub related_addresses: StrSet,
    pub total_volume: u64,
    pub flags: KeyMap<RiskFlag, ()>,
    pub last_updated: u64,
}

/// The detection thresholds.
pub struct RiskRules {
    pub large_tx_threshold: u64,
    pub rapid_tx_window: u64,
    pub rapid_tx_threshold: usize,
    pub new_account_period: u64,
    pub laundering_detection_depth: usize,
}

impl Default for RiskRules {
    fn default() -> (r: Self)
        ensures
            r.large_tx_threshold == 1_000_000_000,
            r.rapid_tx_window == 60,
            r.rapid_tx_threshold == 5,
            r.new_account_period == 86400,
            r.laundering_detection_depth == 3,
    {
        RiskRules {
            large_tx_threshold: 1_000_000_000,
            rapid_tx_window: 60,
            rapid_tx_threshold: 5,
            new_account_period: 86400,
            laundering_detection_depth: 3,
        }
    }
}

/// The score bounds of the levels.
pub struct RiskThresholds {
    pub low: u8,
    pub medium: u8,
    pub high: u8,
    pub critical: u8,
}

impl Default for RiskThresholds {
    fn default() -> (r: Self)
        ensures
            r.low == 25 && r.medium == 50 && r.high == 75 && r.critical == 90,
    {
        RiskThresholds { low: 25, medium: 50, high: 75, critical: 90 }
    }
}

/// A detected risk, kept in the event log.
pub struct RiskEvent {
    pub timestamp: u64,
    pub tx_id: String,
    pub risk_type: RiskType,
    pub level: RiskLevel,
    pub description: String,
}

impl View for RiskEvent {
    type V = (u64, Seq<char>, RiskType, RiskLevel, Seq<char>);

    open spec fn view(&self) -> (u64, Seq<char>, RiskType, RiskLevel, Seq<char>) {
        (self.timestamp, self.tx_id@, self.risk_type, self.level, self.description@)
    }
}

/// The risk engine: account profiles, address lists, known double spends,
/// rules and the event log.
pub struct RiskEngine {
    pub account_profiles: KeyMap<String, AccountRiskProfile>,
    pub blacklist: StrSet,
    pub greylist: StrSet,
    pub known_double_spends: StrSet,
    pub rules: RiskRules,
    pub risk_events: Vec<RiskEvent>,
    pub thresholds: RiskThresholds,
}

/// The risk analysis of a block.
pub struct BlockRiskAnalysis {
    pub block_hash: String,
    pub block_height: u64,
    pub average_risk_score: u8,
    pub high_risk_transactions: usize,
    pub risk_distribution: KeyMap<RiskType, usize>,
    pub flagged_transactions: Vec<(String, RiskResult)>,
}

/// Counts over the engine's state.
#[derive(Debug, Clone, Copy, PartialEq, Eq, Structural)]
pub struct RiskStats {
    pub total_monitored_accounts: usize,
    pub blacklisted_addresses: usize,
    pub greylisted_addresses: usize,
    pub total_risk_events: usize,
    pub high_risk_events: usize,
}

/// `a + b`, saturating at 255.
pub open spec fn sat_add(a: u8, b: u8) -> u8 {
    if a + b > 255 {
        255
    } else {
        (a + b) as u8
    }
}

/// The position of the first input already marked as double-spent.
pub open spec fn double_spent_at(inputs: Seq<TxInput>, marked: Set<Seq<char>>) -> Option<int>
    decreases inputs.len(),
{
    if inputs.len() == 0 {
        None
    } else if marked.contains(inputs[0].tx_id@) {
        Some(0)
    } else {
        match double_spent_at(inputs.drop_first(), marked) {
            Some(i) => Some(i + 1),
            None => None,
        }
    }
}

/// Some output pays a blacklisted address.
pub open spec fn pays_blacklisted(outputs: Seq<TxOutput>, black: Set<Seq<char>>) -> bool {
    exists|i: int| 0 <= i < outputs.len() && black.contains(#[trigger] outputs[i].script_pubkey@)
}

/// A record at `ts` is recent at `now` within `window` seconds (a record
/// from after `now` counts as recent).
pub open spec fn recent(ts: u64, now: u64, window: u64) -> bool {
    ts > now || now - ts < window
}

/// How many records are recent.
pub open spec fn recent_count(rs: Seq<TransactionRecord>, now: u64, window: u64) -> nat
    decreases rs.len(),
{
    if rs.len() == 0 {
        0
    } else {
        recent_count(rs.drop_last(), now, window) + if recent(rs.last().timestamp, now, window) {
            1nat
        } else {
            0nat
        }
    }
}

/// An account transacts rapidly: at least the threshold number of records,
/// and that many within the window.
pub open spec fn rapid(p: AccountRiskProfile, now: u64, rules: RiskRules) -> bool {
    p.transaction_history@.len() >= rules.rapid_tx_threshold && recent_count(
        p.transaction_history@,
        now,
        rules.rapid_tx_window,
    ) >= rules.rapid_tx_threshold
}

/// Some input names an account profile that transacts rapidly.
pub open spec fn rapid_input(
    inputs: Seq<TxInput>,
    profiles: Map<Seq<char>, AccountRiskProfile>,
    now: u64,
    rules: RiskRules,
) -> bool {
    exists|i: int|
        0 <= i < inputs.len() && profiles.contains_key(#[trigger] inputs[i].tx_id@) && rapid(
            profiles[inputs[i].tx_id@],
            now,
            rules,
        )
}

/// Many inputs into few outputs: at least five inputs, at most two
/// outputs, and more than three inputs per output.
pub open spec fn laundering(n_in: nat, n_out: nat) -> bool {
    n_in >= 5 && n_out <= 2 && (n_out == 0 || n_in > 3 * n_out)
}

/// How many outputs are dust (546 units or less).
pub open spec fn dust_count(outs: Seq<TxOutput>) -> nat
    decreases outs.len(),
{
    if outs.len() == 0 {
        0
    } else {
        dust_count(outs.drop_last()) + if outs.last().value <= 546 { 1nat } else { 0nat }
    }
}

/// The findings on a transaction, in detection order: the position of a
/// double-spent input, a blacklisted payee, a large total, a rapid account,
/// a laundering shape, dust.
pub type Findings = (Option<int>, bool, bool, bool, bool, bool);

/// The findings on a transaction at `now`.
pub open spec fn findings(e: &RiskEngine, tx: Transaction, now: u64) -> Findings {
    (
        double_spent_at(tx.inputs@, e.known_double_spends@),
        pays_blacklisted(tx.outputs@, e.blacklist@),
        output_sum(tx.outputs@) > e.rules.large_tx_threshold,
        rapid_input(tx.inputs@, e.account_profiles@, now, e.rules),
        laundering(tx.inputs@.len(), tx.outputs@.len()),
        dust_count(tx.outputs@) >= 10,
    )
}

/// The raw score of the findings (before the cap at 100).
pub open spec fn raw_score(f: Findings) -> u8 {
    let s1: u8 = if f.0 is Some { 50 } else { 0 };
    let s2: u8 = if f.1 { 100 } else { s1 };
    let s3 = if f.2 { sat_add(s2, 20) } else { s2 };
    let s4 = if f.3 { sat_add(s3, 15) } else { s3 };
    let s5 = if f.4 { sat_add(s4, 30) } else { s4 };
    if f.5 { sat_add(s5, 10) } else { s5 }
}

/// The risk types of the findings, in detection order.
pub open spec fn risk_types_of(f: Findings) -> Seq<RiskType> {
    let a: Seq<RiskType> = if f.0 is Some { seq![RiskType::DoubleSpending] } else { Seq::empty() };
    let b: Seq<RiskType> = if f.1 { seq![RiskType::SuspiciousAddress] } else { Seq::empty() };
    let c: Seq<RiskType> = if f.2 { seq![RiskType::LargeTransaction] } else { Seq::empty() };
    let d: Seq<RiskType> = if f.3 { seq![RiskType::RapidTransactions] } else { Seq::empty() };
    let g: Seq<RiskType> = if f.4 { seq![RiskType::MoneyLaundering] } else { Seq::empty() };
    let h: Seq<RiskType> = if f.5 { seq![RiskType::DustAttack] } else { Seq::empty() };
    a + b + c + d + g + h
}

/// The detail texts of the findings, in detection order.
pub open spec fn details_of(f: Findings, tx: Transaction) -> Seq<Seq<char>> {
    let a: Seq<Seq<char>> = match f.0 {
        Some(i) => seq![
            "输入 "@ + tx.inputs@[i].tx_id@ + ":"@ + decimal(tx.inputs@[i].vout as nat) + " 已被标记为双花"@,
        ],
        None => Seq::empty(),
    };
    let b: Seq<Seq<char>> = if f.1 { seq!["交易涉及黑名单地址"@] } else { Seq::empty() };
    let c: Seq<Seq<char>> = if f.2 {
        seq!["大额交易: "@ + decimal(output_sum(tx.outputs@) as nat) + " 聪"@]
    } else {
        Seq::empty()
    };
    let d: Seq<Seq<char>> = if f.3 { seq!["检测到快速连续交易模式"@] } else { Seq::empty() };
    let g: Seq<Seq<char>> = if f.4 { seq!["疑似洗钱交易模式"@] } else { Seq::empty() };
    let h: Seq<Seq<char>> = if f.5 { seq!["检测到粉尘攻击特征"@] } else { Seq::empty() };
    a + b + c + d + g + h
}

/// The action for a level and the risk types: a double spend is rejected,
/// a blacklisted address frozen, otherwise by level.
pub open spec fn action_of(level: RiskLevel, types: Seq<RiskType>) -> RiskAction {
    if types.contains(RiskType::DoubleSpending) {
        RiskAction::Reject
    } else if types.contains(RiskType::SuspiciousAddress) {
        RiskAction::Freeze
    } else {
        match level {
            RiskLevel::NoRisk => RiskAction::Allow,
            RiskLevel::Low => RiskAction::Monitor,
            RiskLevel::Medium => RiskAction::Delay,
            RiskLevel::High => RiskAction::RequireVerification,
            RiskLevel::Critical => RiskAction::Reject,
        }
    }
}

/// The confidence: 50, plus 5 for each input whose account has more than
/// ten records (saturating), capped at 100.
pub open spec fn confidence_of(inputs: Seq<TxInput>, profiles: Map<Seq<char>, AccountRiskProfile>) -> u8
    decreases inputs.len(),
{
    if inputs.len() == 0 {
        50
    } else {
        let c = confidence_of(inputs.drop_last(), profiles);
        let k = inputs.last().tx_id@;
        if profiles.contains_key(k) && profiles[k].transaction_history@.len() > 10 {
            sat_add(c, 5)
        } else {
            c
        }
    }
}

/// The events one detection adds: one per risk type.
pub open spec fn new_events(tx_id: Seq<char>, types: Seq<RiskType>, level: RiskLevel, now: u64) -> Seq<
    (u64, Seq<char>, RiskType, RiskLevel, Seq<char>),
> {
    types.map_values(|t: RiskType| (now, tx_id, t, level, risk_type_name(t) + " 风险检测"@))
}

/// The views of an event log.
pub open spec fn event_views(es: Seq<RiskEvent>) -> Seq<(u64, Seq<char>, RiskType, RiskLevel, Seq<char>)> {
    es.map_values(|e: RiskEvent| e@)
}

/// The event log after recording: the oldest event is dropped when the log
/// holds a thousand, then the new ones are appended.
pub open spec fn log_after(
    log: Seq<(u64, Seq<char>, RiskType, RiskLevel, Seq<char>)>,
    added: Seq<(u64, Seq<char>, RiskType, RiskLevel, Seq<char>)>,
) -> Seq<(u64, Seq<char>, RiskType, RiskLevel, Seq<char>)> {
    (if log.len() >= 1000 { log.drop_first() } else { log }) + added
}

/// The score of a transaction at `now`, capped at 100.
pub open spec fn capped_score(e: &RiskEngine, tx: Transaction, now: u64) -> u8 {
    let s = raw_score(findings(e, tx, now));
    if s > 100 { 100u8 } else { s }
}

/// The verdict on a transaction at `now`.
pub open spec fn verdict_matches(e: &RiskEngine, tx: Transaction, now: u64, r: RiskResult) -> bool {
    let f = findings(e, tx, now);
    let s = raw_score(f);
    let types = risk_types_of(f);
    &&& r.level == level_of(s)
    &&& r.score == capped_score(e, tx, now)
    &&& r.risk_types@ == types
    &&& r.details@.map_values(|d: String| d@) == details_of(f, tx)
    &&& r.recommended_action == action_of(level_of(s), types)
    &&& r.timestamp == now
    &&& r.confidence == (if confidence_of(tx.inputs@, e.account_profiles@) > 100 {
        100u8
    } else {
        confidence_of(tx.inputs@, e.account_profiles@)
    })
}

/// The event log after scoring a transaction at `now`.
pub open spec fn log_after_tx(
    e: &RiskEngine,
    log: Seq<(u64, Seq<char>, RiskType, RiskLevel, Seq<char>)>,
    tx: Transaction,
    now: u64,
) -> Seq<(u64, Seq<char>, RiskType, RiskLevel, Seq<char>)> {
    let f = findings(e, tx, now);
    let s = raw_score(f);
    if s > 0 {
        log_after(log, new_events(tx.id@, risk_types_of(f), level_of(s), now))
    } else {
        log
    }
}

/// Scoring leaves everything but the event log as it was.
pub open spec fn same_but_log(before: &RiskEngine, after: &RiskEngine) -> bool {
    &&& after.account_profiles == before.account_profiles
    &&& after.blacklist == before.blacklist
    &&& after.greylist == before.greylist
    &&& after.known_double_spends == before.known_double_spends
    &&& after.rules == before.rules
}

/// The verdict on a transaction at `now` and what it does to the log.
pub open spec fn detection_matches(
    before: &RiskEngine,
    after: &RiskEngine,
    tx: Transaction,
    now: u64,
    r: RiskResult,
) -> bool {
    &&& verdict_matches(before, tx, now, r)
    &&& event_views(after.risk_events@) == log_after_tx(before, event_views(before.risk_events@), tx, now)
    &&& same_but_log(before, after)
}

/// What a transaction adds to an account's volume: nothing for the sender,
/// the output total for a receiver.
pub open spec fn received_amount(tx: Transaction, is_sender: bool) -> int {
    if is_sender {
        0
    } else {
        output_sum(tx.outputs@)
    }
}

/// The plain form of a history record.
pub open spec fn record_views(rs: Seq<TransactionRecord>) -> Seq<(Seq<char>, u64, u64, bool, Seq<char>)> {
    rs.map_values(|r: TransactionRecord| (r.tx_id@, r.timestamp, r.amount, r.is_sender, r.counterparty@))
}

/// An account's profile after recording a transaction at `now`: the oldest
/// record goes when a hundred are kept, the new record is appended, the
/// volume grows by what was received, and more than fifty records flag high
/// frequency.
pub open spec fn profile_after(
    before: Map<Seq<char>, AccountRiskProfile>,
    p: AccountRiskProfile,
    address: Seq<char>,
    tx: Transaction,
    is_sender: bool,
    now: u64,
) -> bool {
    let existed = before.contains_key(address);
    let hist0 = if existed { record_views(before[address].transaction_history@) } else { Seq::empty() };
    let hist1 = if hist0.len() >= 100 { hist0.drop_first() } else { hist0 };
    let hist = hist1.push((tx.id@, now, received_amount(tx, is_sender) as u64, is_sender, "unknown"@));
    let flags0 = if existed { before[address].flags@.dom() } else { Set::empty() };
    &&& p.address@ == (if existed { before[address].address@ } else { address })
    &&& record_views(p.transaction_history@) == hist
    &&& p.total_volume == (if existed { before[address].total_volume as int } else { 0 })
        + received_amount(tx, is_sender)
    &&& p.last_updated == now
    &&& p.flags@.dom() == if hist.len() > 50 { flags0.insert(RiskFlag::HighFrequency) } else { flags0 }
}

/// The score an account's flags give.
pub open spec fn flag_score(flags: Set<RiskFlag>) -> u8 {
    let s0: u8 = if flags.contains(RiskFlag::Blacklist) { 100 } else { 0 };
    let s1 = if flags.contains(RiskFlag::MixingBehavior) { sat_add(s0, 30) } else { s0 };
    let s2 = if flags.contains(RiskFlag::HighFrequency) { sat_add(s1, 15) } else { s1 };
    let s3 = if flags.contains(RiskFlag::NewAccount) { sat_add(s2, 10) } else { s2 };
    if s3 > 100 { 100 } else { s3 }
}

/// How many events are of high or critical level.
pub open spec fn high_events(es: Seq<RiskEvent>) -> nat
    decreases es.len(),
{
    if es.len() == 0 {
        0
    } else {
        high_events(es.drop_last()) + if es.last().level == RiskLevel::High || es.last().level
            == RiskLevel::Critical {
            1nat
        } else {
            0nat
        }
    }
}

/// The positions of the transactions that score above zero.
pub open spec fn flagged_idx(e: &RiskEngine, txs: Seq<Transaction>, now: u64) -> Seq<int>
    decreases txs.len(),
{
    if txs.len() == 0 {
        Seq::empty()
    } else {
        let f = flagged_idx(e, txs.drop_last(), now);
        if capped_score(e, txs.last(), now) > 0 {
            f.push(txs.len() - 1)
        } else {
            f
        }
    }
}

/// The total of the capped scores.
pub open spec fn score_total(e: &RiskEngine, txs: Seq<Transaction>, now: u64) -> nat
    decreases txs.len(),
{
    if txs.len() == 0 {
        0
    } else {
        score_total(e, txs.drop_last(), now) + capped_score(e, txs.last(), now) as nat
    }
}

/// How often `t` occurs in a list of risk types.
pub open spec fn occurrences(types: Seq<RiskType>, t: RiskType) -> nat
    decreases types.len(),
{
    if types.len() == 0 {
        0
    } else {
        occurrences(types.drop_last(), t) + if types.last() == t { 1nat } else { 0nat }
    }
}

/// How often `t` is detected over the transactions.
pub open spec fn type_count(e: &RiskEngine, txs: Seq<Transaction>, now: u64, t: RiskType) -> nat
    decreases txs.len(),
{
    if txs.len() == 0 {
        0
    } else {
        type_count(e, txs.drop_last(), now, t) + occurrences(risk_types_of(findings(e, txs.last(), now)), t)
    }
}

/// The event log after scoring the transactions in turn.
pub open spec fn log_after_txs(
    e: &RiskEngine,
    log: Seq<(u64, Seq<char>, RiskType, RiskLevel, Seq<char>)>,
    txs: Seq<Transaction>,
    now: u64,
) -> Seq<(u64, Seq<char>, RiskType, RiskLevel, Seq<char>)>
    decreases txs.len(),
{
    if txs.len() == 0 {
        log
    } else {
        log_after_tx(e, log_after_txs(e, log, txs.drop_last(), now), txs.last(), now)
    }
}

/// Every transaction's outputs total a `u64`.
pub open spec fn outputs_fit(txs: Seq<Transaction>) -> bool {
    forall|i: int| 0 <= i < txs.len() ==> output_sum(#[trigger] txs[i].outputs@) <= u64::MAX
}

/// A flagged entry names the transaction at position `j` (before `bound`)
/// and carries its verdict.
pub open spec fn entry_ok(
    e: &RiskEngine,
    txs: Seq<Transaction>,
    now: u64,
    bound: int,
    j: int,
    entry: (String, RiskResult),
) -> bool {
    &&& 0 <= j < bound
    &&& entry.0@ == txs[j].id@
    &&& verdict_matches(e, txs[j], now, entry.1)
}

proof fn lemma_occurrences_le(types: Seq<RiskType>, t: RiskType)
    ensures
        occurrences(types, t) <= types.len(),
    decreases types.len(),
{
    if types.len() > 0 {
        lemma_occurrences_le(types.drop_last(), t);
    }
}

proof fn lemma_type_count_le(e: &RiskEngine, txs: Seq<Transaction>, now: u64, t: RiskType)
    ensures
        type_count(e, txs, now, t) <= 6 * txs.len(),
    decreases txs.len(),
{
    if txs.len() > 0 {
        lemma_type_count_le(e, txs.drop_last(), now, t);
        let types = risk_types_of(findings(e, txs.last(), now));
        lemma_occurrences_le(types, t);
        assert(types.len() <= 6);
    }
}

proof fn lemma_occurrences_prefix(types: Seq<RiskType>, t: RiskType, k: int)
    requires
        0 < k <= types.len(),
    ensures
        occurrences(types.take(k), t) == occurrences(types.take(k - 1), t) + if types[k - 1] == t {
            1nat
        } else {
            0nat
        },
{
    assert(types.take(k).drop_last() =~= types.take(k - 1));
}

proof fn lemma_occurrences_prefix_le(types: Seq<RiskType>, t: RiskType, k: int)
    requires
        0 <= k <= types.len(),
    ensures
        occurrences(types.take(k), t) <= occurrences(types, t),
    decreases types.len() - k,
{
    if k < types.len() {
        lemma_occurrences_prefix_le(types, t, k + 1);
        lemma_occurrences_prefix(types, t, k + 1);
    } else {
        assert(types.take(k) =~= types);
    }
}

proof fn lemma_score_total_le(e: &RiskEngine, txs: Seq<Transaction>, now: u64)
    ensures
        score_total(e, txs, now) <= 100 * txs.len(),
    decreases txs.len(),
{
    if txs.len() > 0 {
        lemma_score_total_le(e, txs.drop_last(), now);
    }
}

/// The name `{:?}` gives a risk type.
pub fn risk_type_label(t: RiskType) -> (r: &'static str)
    ensures
        r@ == risk_type_name(t),
{
    match t {
        RiskType::DoubleSpending => "DoubleSpending",
        RiskType::LargeTransaction => "LargeTransaction",
        RiskType::RapidTransactions => "RapidTransactions",
        RiskType::SuspiciousAddress => "SuspiciousAddress",
        RiskType::MoneyLaundering => "MoneyLaundering",
        RiskType::ContractExploit => "ContractExploit",
        RiskType::SybilAttack => "SybilAttack",
        RiskType::DustAttack => "DustAttack",
        RiskType::TimelockManipulation => "TimelockManipulation",
        RiskType::Other => "Other",
    }
}

fn sat(a: u8, b: u8) -> (r: u8)
    ensures
        r == sat_add(a, b),
{
    if a as u16 + b as u16 > 255 {
        255
    } else {
        a + b
    }
}

impl RiskEngine {
    pub fn new() -> (r: Self)
        ensures
            r.account_profiles@ == Map::<Seq<char>, AccountRiskProfile>::empty(),
            r.blacklist@ == Set::<Seq<char>>::empty(),
            r.greylist@ == Set::<Seq<char>>::empty(),
            r.known_double_spends@ == Set::<Seq<char>>::empty(),
            r.risk_events@.len() == 0,
            r.rules.large_tx_threshold == 1_000_000_000,
            r.rules.rapid_tx_window == 60,
            r.rules.rapid_tx_threshold == 5,
            r.rules.new_account_period == 86400,
            r.rules.laundering_detection_depth == 3,
            r.thresholds.low == 25,
            r.thresholds.medium == 50,
            r.thresholds.high == 75,
            r.thresholds.critical == 90,
    {
        RiskEngine {
            account_profiles: KeyMap::new(),
            blacklist: StrSet::new(),
            greylist: StrSet::new(),
            known_double_spends: StrSet::new(),
            rules: RiskRules::default(),
            risk_events: Vec::new(),
            thresholds: RiskThresholds::default(),
        }
    }

    /// The detail of the first input already marked as double-spent.
    pub fn check_double_spending(&self, tx: &Transaction) -> (r: Option<String>)
        ensures
            match double_spent_at(tx.inputs@, self.known_double_spends@) {
                Some(i) => r matches Some(d) && d@ == "输入 "@ + tx.inputs@[i].tx_id@ + ":"@ + decimal(
                    tx.inputs@[i].vout as nat,
                ) + " 已被标记为双花"@,
                None => r is None,
            },
    {
        let ghost ins = tx.inputs@;
        let mut i: usize = 0;
        assert(ins.skip(0) =~= ins);
        while i < tx.inputs.len()
            invariant
                i <= ins.len(),
                ins == tx.inputs@,
                double_spent_at(ins, self.known_double_spends@) == match double_spent_at(
                    ins.skip(i as int),
                    self.known_double_spends@,
                ) {
                    Some(x) => Some(x + i),
                    None => None,
                },
            decreases ins.len() - i,
        {
            assert(ins.skip(i as int)[0] == ins[i as int]);
            if self.known_double_spends.contains(tx.inputs[i].tx_id.as_str()) {
                let mut d = "输入 ".to_owned();
                push_str(&mut d, tx.inputs[i].tx_id.as_str());
                push_str(&mut d, ":");
                push_decimal(&mut d, tx.inputs[i].vout as u64);
                push_str(&mut d, " 已被标记为双花");
                return Some(d);
            }
            assert(ins.skip(i as int).drop_first() =~= ins.skip(i + 1));
            i = i + 1;
        }
        assert(ins.skip(i as int) =~= Seq::<TxInput>::empty());
        None
    }

    /// Whether some output pays a blacklisted address.
    pub fn check_blacklist(&self, tx: &Transaction) -> (r: bool)
        ensures
            r == pays_blacklisted(tx.outputs@, self.blacklist@),
    {
        let mut i: usize = 0;
        while i < tx.outputs.len()
            invariant
                i <= tx.outputs@.len(),
                forall|j: int| 0 <= j < i ==> !self.blacklist@.contains(#[trigger] tx.outputs@[j].script_pubkey@),
            decreases tx.outputs@.len() - i,
        {
            if self.blacklist.contains(tx.outputs[i].script_pubkey.as_str()) {
                return true;
            }
            i = i + 1;
        }
        false
    }

    /// Whether an account transacts rapidly at `now` (see `rapid`).
    pub fn check_rapid_transactions(&self, profile: &AccountRiskProfile, now: u64) -> (r: bool)
        ensures
            r == rapid(*profile, now, self.rules),
    {
        if profile.transaction_history.len() < self.rules.rapid_tx_threshold {
            return false;
        }
        let ghost rs = profile.transaction_history@;
        let mut count: usize = 0;
        let mut i: usize = 0;
        while i < profile.transaction_history.len()
            invariant
                i <= rs.len(),
                rs == profile.transaction_history@,
                count == recent_count(rs.take(i as int), now, self.rules.rapid_tx_window),
                count <= i,
            decreases rs.len() - i,
        {
            assert(rs.take(i + 1).drop_last() =~= rs.take(i as int));
            let ts = profile.transaction_history[i].timestamp;
            if ts > now || now - ts < self.rules.rapid_tx_window {
                count = count + 1;
            }
            i = i + 1;
        }
        assert(rs.take(rs.len() as int) =~= rs);
        count >= self.rules.rapid_tx_threshold
    }

    /// Many inputs into few outputs (see `laundering`).
    pub fn detect_money_laundering(&self, tx: &Transaction) -> (r: bool)
        ensures
            r == laundering(tx.inputs@.len(), tx.outputs@.len()),
    {
        let n_in = tx.inputs.len();
        let n_out = tx.outputs.len();
        if n_in >= 5 && n_out <= 2 {
            n_out == 0 || n_in > 3 * n_out
        } else {
            false
        }
    }

    /// At least ten dust outputs.
    pub fn detect_dust_attack(&self, tx: &Transaction) -> (r: bool)
        ensures
            r == (dust_count(tx.outputs@) >= 10),
    {
        let ghost os = tx.outputs@;
        let mut count: usize = 0;
        let mut i: usize = 0;
        while i < tx.outputs.len()
            invariant
                i <= os.len(),
                os == tx.outputs@,
                count == dust_count(os.take(i as int)),
                count <= i,
            decreases os.len() - i,
        {
            assert(os.take(i + 1).drop_last() =~= os.take(i as int));
            if tx.outputs[i].value <= 546 {
                count = count + 1;
            }
            i = i + 1;
        }
        assert(os.take(os.len() as int) =~= os);
        count >= 10
    }

    /// The action for a level and risk types (see `action_of`).
    pub fn determine_action(&self, level: RiskLevel, risk_types: &[RiskType]) -> (r: RiskAction)
        ensures
            r == action_of(level, risk_types@),
    {
        let mut has_ds = false;
        let mut has_sa = false;
        let mut i: usize = 0;
        while i < risk_types.len()
            invariant
                i <= risk_types@.len(),
                has_ds == risk_types@.take(i as int).contains(RiskType::DoubleSpending),
                has_sa == risk_types@.take(i as int).contains(RiskType::SuspiciousAddress),
            decreases risk_types@.len() - i,
        {
            let ghost t = risk_types@.take(i + 1);
            assert(t =~= risk_types@.take(i as int).push(risk_types@[i as int]));
            if risk_types[i] == RiskType::DoubleSpending {
                has_ds = true;
            }
            if risk_types[i] == RiskType::SuspiciousAddress {
                has_sa = true;
            }
            proof {
                if has_ds {
                    assert(t.contains(RiskType::DoubleSpending)) by {
                        if risk_types@[i as int] == RiskType::DoubleSpending {
                            assert(t[i as int] == RiskType::DoubleSpending);
                        } else {
                            let j = choose|j: int| 0 <= j < i && risk_types@.take(i as int)[j] == RiskType::DoubleSpending;
                            assert(t[j] == RiskType::DoubleSpending);
                        }
                    }
                }
                if has_sa {
                    assert(t.contains(RiskType::SuspiciousAddress)) by {
                        if risk_types@[i as int] == RiskType::SuspiciousAddress {
                            assert(t[i as int] == RiskType::SuspiciousAddress);
                        } else {
                            let j = choose|j: int| 0 <= j < i && risk_types@.take(i as int)[j] == RiskType::SuspiciousAddress;
                            assert(t[j] == RiskType::SuspiciousAddress);
                        }
                    }
                }
            }
            i = i + 1;
        }
        assert(risk_types@.take(risk_types@.len() as int) =~= risk_types@);
        if has_ds {
            return RiskAction::Reject;
        }
        if has_sa {
            return RiskAction::Freeze;
        }
        match level {
            RiskLevel::NoRisk => RiskAction::Allow,
            RiskLevel::Low => RiskAction::Monitor,
            RiskLevel::Medium => RiskAction::Delay,
            RiskLevel::High => RiskAction::RequireVerification,
            RiskLevel::Critical => RiskAction::Reject,
        }
    }

    /// The confidence of a verdict (see `confidence_of`), capped at 100.
    pub fn calculate_confidence(&self, tx: &Transaction) -> (r: u8)
        ensures
            r == (if confidence_of(tx.inputs@, self.account_profiles@) > 100 {
                100u8
            } else {
                confidence_of(tx.inputs@, self.account_profiles@)
            }),
    {
        let ghost ins = tx.inputs@;
        let mut confidence: u8 = 50;
        let mut i: usize = 0;
        while i < tx.inputs.len()
            invariant
                i <= ins.len(),
                ins == tx.inputs@,
                confidence == confidence_of(ins.take(i as int), self.account_profiles@),
            decreases ins.len() - i,
        {
            assert(ins.take(i + 1).drop_last() =~= ins.take(i as int));
            match self.account_profiles.get(&tx.inputs[i].tx_id) {
                Some(profile) => {
                    if profile.transaction_history.len() > 10 {
                        confidence = sat(confidence, 5);
                    }
                },
                None => {},
            }
            i = i + 1;
        }
        assert(ins.take(ins.len() as int) =~= ins);
        if confidence > 100 {
            100
        } else {
            confidence
        }
    }

    /// Logs one event per risk type (dropping the oldest event of a full log).
    pub fn record_risk_event(&mut self, tx_id: String, risk_types: &[RiskType], level: RiskLevel, now: u64)
        ensures
            event_views(final(self).risk_events@) == log_after(
                event_views(old(self).risk_events@),
                new_events(tx_id@, risk_types@, level, now),
            ),
            same_but_log(old(self), final(self)),
    {
        if self.risk_events.len() >= 1000 {
            let ghost before = self.risk_events@;
            let _ = self.risk_events.remove(0);
            assert(event_views(self.risk_events@) =~= event_views(before).drop_first());
        }
        let ghost base = event_views(self.risk_events@);
        let mut i: usize = 0;
        while i < risk_types.len()
            invariant
                i <= risk_types@.len(),
                event_views(self.risk_events@) == base + new_events(tx_id@, risk_types@.take(i as int), level, now),
                same_but_log(old(self), self),
            decreases risk_types@.len() - i,
        {
            let t = risk_types[i];
            let mut description = risk_type_label(t).to_owned();
            push_str(&mut description, " 风险检测");
            let ghost before = event_views(self.risk_events@);
            self.risk_events.push(RiskEvent { timestamp: now, tx_id: tx_id.clone(), risk_type: t, level, description });
            assert(risk_types@.take(i + 1) =~= risk_types@.take(i as int).push(t));
            let ghost ev = (now, tx_id@, t, level, risk_type_name(t) + " 风险检测"@);
            assert(self.risk_events@.last()@ == ev);
            assert(event_views(self.risk_events@) =~= before.push(ev));
            assert(new_events(tx_id@, risk_types@.take(i + 1), level, now) =~= new_events(
                tx_id@,
                risk_types@.take(i as int),
                level,
                now,
            ).push(ev));
            assert(event_views(self.risk_events@) =~= base + new_events(tx_id@, risk_types@.take(i + 1), level, now));
            i = i + 1;
        }
        assert(risk_types@.take(risk_types@.len() as int) =~= risk_types@);
    }

    /// Whether some input names an account that transacts rapidly at `now`.
    fn rapid_inputs(&self, tx: &Transaction, now: u64) -> (r: bool)
        ensures
            r == rapid_input(tx.inputs@, self.account_profiles@, now, self.rules),
    {
        let mut i: usize = 0;
        while i < tx.inputs.len()
            invariant
                i <= tx.inputs@.len(),
                forall|j: int|
                    0 <= j < i ==> !(self.account_profiles@.contains_key(#[trigger] tx.inputs@[j].tx_id@)
                        && rapid(self.account_profiles@[tx.inputs@[j].tx_id@], now, self.rules)),
            decreases tx.inputs@.len() - i,
        {
            match self.account_profiles.get(&tx.inputs[i].tx_id) {
                Some(profile) => {
                    if self.check_rapid_transactions(profile, now) {
                        return true;
                    }
                },
                None => {},
            }
            i = i + 1;
        }
        false
    }

    /// The raw score, risk types and details of a transaction at `now`.
    #[verifier::rlimit(60)]
    fn assess(&self, tx: &Transaction, now: u64) -> (r: (u8, Vec<RiskType>, Vec<String>))
        requires
            output_sum(tx.outputs@) <= u64::MAX,
        ensures
            r.0 == raw_score(findings(self, *tx, now)),
            r.1@ == risk_types_of(findings(self, *tx, now)),
            r.2@.map_values(|d: String| d@) == details_of(findings(self, *tx, now), *tx),
    {
        let ghost f = findings(self, *tx, now);
        let mut score: u8 = 0;
        let mut detected: Vec<RiskType> = Vec::new();
        let mut details: Vec<String> = Vec::new();
        match self.check_double_spending(tx) {
            Some(d) => {
                score = sat(score, 50);
                detected.push(RiskType::DoubleSpending);
                details.push(d);
            },
            None => {},
        }
        let ghost t1 = detected@;
        let ghost d1 = details@.map_values(|d: String| d@);
        let black = self.check_blacklist(tx);
        if black {
            score = 100;
            detected.push(RiskType::SuspiciousAddress);
            details.push("交易涉及黑名单地址".to_owned());
        }
        assert(details@.map_values(|d: String| d@) =~= d1 + if black { seq!["交易涉及黑名单地址"@] } else { Seq::empty() });
        assert(detected@ =~= t1 + if black { seq![RiskType::SuspiciousAddress] } else { Seq::<RiskType>::empty() });
        let ghost t2 = detected@;
        let ghost d2 = details@.map_values(|d: String| d@);
        let total_output = sum_outputs(&tx.outputs);
        let large = total_output > self.rules.large_tx_threshold;
        if large {
            score = sat(score, 20);
            detected.push(RiskType::LargeTransaction);
            let mut d = "大额交易: ".to_owned();
            push_decimal(&mut d, total_output);
            push_str(&mut d, " 聪");
            details.push(d);
        }
        assert(details@.map_values(|d: String| d@) =~= d2 + if large {
            seq!["大额交易: "@ + decimal(output_sum(tx.outputs@) as nat) + " 聪"@]
        } else {
            Seq::empty()
        });
        assert(detected@ =~= t2 + if large { seq![RiskType::LargeTransaction] } else { Seq::<RiskType>::empty() });
        let ghost t3 = detected@;
        let ghost d3 = details@.map_values(|d: String| d@);
        let rapid = self.rapid_inputs(tx, now);
        if rapid {
            score = sat(score, 15);
            detected.push(RiskType::RapidTransactions);
            details.push("检测到快速连续交易模式".to_owned());
        }
        assert(details@.map_values(|d: String| d@) =~= d3 + if rapid { seq!["检测到快速连续交易模式"@] } else { Seq::empty() });
        assert(detected@ =~= t3 + if rapid { seq![RiskType::RapidTransactions] } else { Seq::<RiskType>::empty() });
        let ghost t4 = detected@;
        let ghost d4 = details@.map_values(|d: String| d@);
        let ml = self.detect_money_laundering(tx);
        if ml {
            score = sat(score, 30);
            detected.push(RiskType::MoneyLaundering);
            details.push("疑似洗钱交易模式".to_owned());
        }
        assert(details@.map_values(|d: String| d@) =~= d4 + if ml { seq!["疑似洗钱交易模式"@] } else { Seq::empty() });
        assert(detected@ =~= t4 + if ml { seq![RiskType::MoneyLaundering] } else { Seq::<RiskType>::empty() });
        let ghost t5 = detected@;
        let ghost d5 = details@.map_values(|d: String| d@);
        let dust = self.detect_dust_attack(tx);
        if dust {
            score = sat(score, 10);
            detected.push(RiskType::DustAttack);
            details.push("检测到粉尘攻击特征".to_owned());
        }
        assert(details@.map_values(|d: String| d@) =~= d5 + if dust { seq!["检测到粉尘攻击特征"@] } else { Seq::empty() });
        assert(detected@ =~= t5 + if dust { seq![RiskType::DustAttack] } else { Seq::<RiskType>::empty() });
        assert(detected@ =~= risk_types_of(f));
        assert(details@.map_values(|d: String| d@) =~= details_of(f, *tx));
        (score, detected, details)
    }

    /// Scores a transaction at `now` (see `detection_matches`): each finding
    /// adds to the score (a blacklisted payee sets it to 100), the level
    /// and action follow, and a risky transaction is logged.
    pub fn detect_transaction_risk_at(&mut self, tx: &Transaction, now: u64) -> (r: RiskResult)
        requires
            output_sum(tx.outputs@) <= u64::MAX,
        ensures
            detection_matches(old(self), final(self), *tx, now, r),
    {
        let (score, detected, details) = self.assess(tx, now);
        let level = RiskLevel::from_value(score);
        let action = self.determine_action(level, detected.as_slice());
        let confidence = self.calculate_confidence(tx);
        if score > 0 {
            self.record_risk_event(tx.id.clone(), detected.as_slice(), level, now);
        }
        RiskResult {
            level,
            score: if score > 100 { 100 } else { score },
            risk_types: detected,
            details,
            recommended_action: action,
            timestamp: now,
            confidence,
        }
    }

    /// Scores a transaction against the clock (see
    /// `detect_transaction_risk_at`); the result carries the time used.
    pub fn detect_transaction_risk(&mut self, tx: &Transaction) -> (r: RiskResult)
        requires
            output_sum(tx.outputs@) <= u64::MAX,
        ensures
            detection_matches(old(self), final(self), *tx, r.timestamp, r),
    {
        let now = unix_seconds();
        self.detect_transaction_risk_at(tx, now)
    }

    /// Records a transaction in an account's profile at `now` (see
    /// `profile_after`), creating the profile when needed.
    pub fn update_account_profile_at(&mut self, address: &str, tx: &Transaction, is_sender: bool, now: u64)
        requires
            output_sum(tx.outputs@) <= u64::MAX,
            old(self).account_profiles@.contains_key(address@) ==> old(self).account_profiles@[address@].total_volume
                + received_amount(*tx, is_sender) <= u64::MAX,
        ensures
            final(self).account_profiles@.dom() == old(self).account_profiles@.dom().insert(address@),
            forall|k: Seq<char>| #[trigger]
                old(self).account_profiles@.contains_key(k) && k != address@ ==> final(self).account_profiles@[k]
                    == old(self).account_profiles@[k],
            profile_after(
                old(self).account_profiles@,
                final(self).account_profiles@[address@],
                address@,
                *tx,
                is_sender,
                now,
            ),
            final(self).blacklist == old(self).blacklist,
            final(self).greylist == old(self).greylist,
            final(self).known_double_spends == old(self).known_double_spends,
            final(self).rules == old(self).rules,
            final(self).risk_events == old(self).risk_events,
    {
        let key = address.to_owned();
        let ghost before = self.account_profiles@;
        let ghost existed = before.contains_key(address@);
        if !self.account_profiles.contains_key(&key) {
            let profile = AccountRiskProfile {
                address: address.to_owned(),
                transaction_history: Vec::new(),
                risk_score_history: Vec::new(),
                related_addresses: StrSet::new(),
                total_volume: 0,
                flags: KeyMap::new(),
                last_updated: now,
            };
            self.account_profiles.insert(address.to_owned(), profile);
        }
        let ghost mid = self.account_profiles@;
        assert(mid.dom() =~= before.dom().insert(address@));
        assert(existed ==> mid[address@] == before[address@]);
        assert(!existed ==> mid[address@].transaction_history@.len() == 0 && mid[address@].flags@ == Map::<
            RiskFlag,
            (),
        >::empty() && mid[address@].total_volume == 0 && mid[address@].address@ == address@);
        let amount: u64 = if is_sender {
            0
        } else {
            sum_outputs(&tx.outputs)
        };
        assert(amount == received_amount(*tx, is_sender));
        let profile = self.account_profiles.value_mut(&key);
        let ghost h0 = record_views(profile.transaction_history@);
        assert(h0 == (if existed { record_views(before[address@].transaction_history@) } else { Seq::empty() }));
        if profile.transaction_history.len() >= 100 {
            let ghost hv = profile.transaction_history@;
            let _ = profile.transaction_history.remove(0);
            assert(record_views(profile.transaction_history@) =~= record_views(hv).drop_first());
        }
        let ghost h1 = record_views(profile.transaction_history@);
        assert(h1 == (if h0.len() >= 100 { h0.drop_first() } else { h0 }));
        profile.transaction_history.push(
            TransactionRecord {
                tx_id: tx.id.clone(),
                timestamp: now,
                amount,
                is_sender,
                counterparty: "unknown".to_owned(),
            },
        );
        assert(record_views(profile.transaction_history@) =~= h1.push(
            (tx.id@, now, amount, is_sender, "unknown"@),
        ));
        profile.total_volume = profile.total_volume + amount;
        profile.last_updated = now;
        let ghost f0 = profile.flags@.dom();
        if profile.transaction_history.len() > 50 {
            profile.flags.insert(RiskFlag::HighFrequency, ());
            assert(profile.flags@.dom() =~= f0.insert(RiskFlag::HighFrequency));
        }
    }

    /// Records a transaction in an account's profile at the current time.
    pub fn update_account_profile(&mut self, address: &str, tx: &Transaction, is_sender: bool)
        requires
            output_sum(tx.outputs@) <= u64::MAX,
            old(self).account_profiles@.contains_key(address@) ==> old(self).account_profiles@[address@].total_volume
                + received_amount(*tx, is_sender) <= u64::MAX,
        ensures
            final(self).account_profiles@.dom() == old(self).account_profiles@.dom().insert(address@),
            forall|k: Seq<char>| #[trigger]
                old(self).account_profiles@.contains_key(k) && k != address@ ==> final(self).account_profiles@[k]
                    == old(self).account_profiles@[k],
            exists|now: u64|
                profile_after(
                    old(self).account_profiles@,
                    #[trigger] final(self).account_profiles@[address@],
                    address@,
                    *tx,
                    is_sender,
                    now,
                ),
            final(self).blacklist == old(self).blacklist,
            final(self).risk_events == old(self).risk_events,
    {
        let now = unix_seconds();
        self.update_account_profile_at(address, tx, is_sender, now);
    }

    pub fn add_to_blacklist(&mut self, address: &str)
        ensures
            final(self).blacklist@ == old(self).blacklist@.insert(address@),
            final(self).greylist == old(self).greylist,
            final(self).account_profiles == old(self).account_profiles,
    {
        self.blacklist.insert(address);
    }

    pub fn remove_from_blacklist(&mut self, address: &str)
        ensures
            final(self).blacklist@ == old(self).blacklist@.remove(address@),
            final(self).greylist == old(self).greylist,
            final(self).account_profiles == old(self).account_profiles,
    {
        self.blacklist.remove(address);
    }

    pub fn add_to_greylist(&mut self, address: &str)
        ensures
            final(self).greylist@ == old(self).greylist@.insert(address@),
            final(self).blacklist == old(self).blacklist,
            final(self).account_profiles == old(self).account_profiles,
    {
        self.greylist.insert(address);
    }

    /// An account's score from its flags (see `flag_score`); 10 for an
    /// unknown account.
    pub fn get_account_risk_score(&self, address: &str) -> (r: u8)
        ensures
            r == if self.account_profiles@.contains_key(address@) {
                flag_score(self.account_profiles@[address@].flags@.dom())
            } else {
                10u8
            },
    {
        let key = address.to_owned();
        match self.account_profiles.get(&key) {
            Some(profile) => {
                let mut score: u8 = 0;
                if profile.flags.contains_key(&RiskFlag::Blacklist) {
                    score = 100;
                }
                if profile.flags.contains_key(&RiskFlag::MixingBehavior) {
                    score = sat(score, 30);
                }
                if profile.flags.contains_key(&RiskFlag::HighFrequency) {
                    score = sat(score, 15);
                }
                if profile.flags.contains_key(&RiskFlag::NewAccount) {
                    score = sat(score, 10);
                }
                if score > 100 {
                    100
                } else {
                    score
                }
            },
            None => 10,
        }
    }

    /// Counts of accounts, list entries and events (high and critical ones
    /// apart).
    pub fn get_risk_stats(&self) -> (r: RiskStats)
        ensures
            r.total_monitored_accounts == self.account_profiles@.len(),
            r.blacklisted_addresses == self.blacklist@.len(),
            r.greylisted_addresses == self.greylist@.len(),
            r.total_risk_events == self.risk_events@.len(),
            r.high_risk_events == high_events(self.risk_events@),
    {
        let mut high: usize = 0;
        let mut i: usize = 0;
        while i < self.risk_events.len()
            invariant
                i <= self.risk_events@.len(),
                high == high_events(self.risk_events@.take(i as int)),
                high <= i,
            decreases self.risk_events@.len() - i,
        {
            assert(self.risk_events@.take(i + 1).drop_last() =~= self.risk_events@.take(i as int));
            if self.risk_events[i].level == RiskLevel::High || self.risk_events[i].level == RiskLevel::Critical {
                high = high + 1;
            }
            i = i + 1;
        }
        assert(self.risk_events@.take(self.risk_events@.len() as int) =~= self.risk_events@);
        RiskStats {
            total_monitored_accounts: self.account_profiles.len(),
            blacklisted_addresses: self.blacklist.len(),
            greylisted_addresses: self.greylist.len(),
            total_risk_events: self.risk_events.len(),
            high_risk_events: high,
        }
    }

    /// The latest `limit` events, newest first.
    pub fn get_recent_risk_events(&self, limit: usize) -> (r: Vec<&RiskEvent>)
        ensures
            r@.len() == if limit < self.risk_events@.len() { limit as int } else { self.risk_events@.len() as int },
            forall|k: int| 0 <= k < r@.len() ==> *#[trigger] r@[k] == self.risk_events@[self.risk_events@.len() - 1 - k],
    {
        let n = self.risk_events.len();
        let mut out: Vec<&RiskEvent> = Vec::new();
        let mut k: usize = 0;
        while k < limit && k < n
            invariant
                n == self.risk_events@.len(),
                k <= n,
                k <= limit,
                out@.len() == k,
                forall|j: int| 0 <= j < k ==> *#[trigger] out@[j] == self.risk_events@[n - 1 - j],
            decreases n - k,
        {
            out.push(&self.risk_events[n - 1 - k]);
            k = k + 1;
        }
        out
    }

    /// Scores every transaction of a block at `now`: the flagged ones (score
    /// above zero) with their verdicts, the average score, and how often
    /// each risk type was found.
    pub fn analyze_block_risk_at(&mut self, block: &Block, now: u64) -> (r: BlockRiskAnalysis)
        requires
            outputs_fit(block.transactions@),
            block.transactions@.len() * 100 <= u32::MAX,
        ensures
            r.block_hash@ == block.hash@,
            r.block_height == block.height,
            r.high_risk_transactions == r.flagged_transactions@.len(),
            r.flagged_transactions@.len() == flagged_idx(old(self), block.transactions@, now).len(),
            forall|k: int|
                0 <= k < r.flagged_transactions@.len() ==> #[trigger] entry_ok(
                    old(self),
                    block.transactions@,
                    now,
                    block.transactions@.len() as int,
                    flagged_idx(old(self), block.transactions@, now)[k],
                    r.flagged_transactions@[k],
                ),
            r.average_risk_score == if block.transactions@.len() == 0 {
                0u8
            } else {
                (score_total(old(self), block.transactions@, now) / block.transactions@.len()) as u8
            },
            forall|t: RiskType| #[trigger] r.risk_distribution@.contains_key(t) == (type_count(
                old(self),
                block.transactions@,
                now,
                t,
            ) > 0),
            forall|t: RiskType| #[trigger] r.risk_distribution@.contains_key(t) ==> r.risk_distribution@[t]
                == type_count(old(self), block.transactions@, now, t),
            event_views(final(self).risk_events@) == log_after_txs(
                old(self),
                event_views(old(self).risk_events@),
                block.transactions@,
                now,
            ),
            same_but_log(old(self), final(self)),
    {
        let ghost e0 = *old(self);
        let ghost txs = block.transactions@;
        let n = block.transactions.len();
        let mut total_score: u32 = 0;
        let mut risk_txs: Vec<(String, RiskResult)> = Vec::new();
        let mut dist: KeyMap<RiskType, usize> = KeyMap::new();
        let mut i: usize = 0;
        while i < n
            invariant
                n == txs.len(),
                txs == block.transactions@,
                outputs_fit(txs),
                n * 100 <= u32::MAX,
                i <= n,
                same_but_log(&e0, self),
                event_views(self.risk_events@) == log_after_txs(&e0, event_views(e0.risk_events@), txs.take(i as int), now),
                total_score == score_total(&e0, txs.take(i as int), now),
                risk_txs@.len() == flagged_idx(&e0, txs.take(i as int), now).len(),
                forall|k: int|
                    0 <= k < risk_txs@.len() ==> #[trigger] entry_ok(&e0, txs, now, i as int, flagged_idx(&e0, txs.take(i as int), now)[k], risk_txs@[k]),
                forall|t: RiskType| #[trigger] dist@.contains_key(t) == (type_count(&e0, txs.take(i as int), now, t) > 0),
                forall|t: RiskType| #[trigger] dist@.contains_key(t) ==> dist@[t] == type_count(&e0, txs.take(i as int), now, t),
            decreases n - i,
        {
            let tx = &block.transactions[i];
            assert(txs.take(i + 1).drop_last() =~= txs.take(i as int));
            assert(txs.take(i + 1).last() == txs[i as int]);
            assert(output_sum(txs[i as int].outputs@) <= u64::MAX);
            let ghost before = *self;
            let result = self.detect_transaction_risk_at(tx, now);
            proof {
                lemma_score_total_le(&e0, txs.take(i as int), now);
                assert(findings(&before, txs[i as int], now) == findings(&e0, txs[i as int], now));
            }
            let ghost types = result.risk_types@;
            let mut j: usize = 0;
            while j < result.risk_types.len()
                invariant
                    j <= types.len(),
                    types == result.risk_types@,
                    types == risk_types_of(findings(&e0, txs[i as int], now)),
                    i < n,
                    n == txs.len(),
                    n * 100 <= u32::MAX,
                    risk_txs@.len() == flagged_idx(&e0, txs.take(i as int), now).len(),
                    forall|k: int|
                        0 <= k < risk_txs@.len() ==> #[trigger] entry_ok(&e0, txs, now, i as int, flagged_idx(&e0, txs.take(i as int), now)[k], risk_txs@[k]),
                    total_score == score_total(&e0, txs.take(i as int), now),
                    forall|t: RiskType| #[trigger] dist@.contains_key(t) == (type_count(&e0, txs.take(i as int), now, t)
                        + occurrences(types.take(j as int), t) > 0),
                    forall|t: RiskType| #[trigger] dist@.contains_key(t) ==> dist@[t] == type_count(&e0, txs.take(i as int), now, t)
                        + occurrences(types.take(j as int), t),
                decreases types.len() - j,
            {
                let t = result.risk_types[j];
                proof {
                    lemma_type_count_le(&e0, txs.take(i + 1), now, t);
                    lemma_occurrences_le(types.take(j as int), t);
                    lemma_occurrences_le(types, t);
                    assert(txs.take(i + 1).drop_last() =~= txs.take(i as int));
                    assert(type_count(&e0, txs.take(i + 1), now, t) == type_count(&e0, txs.take(i as int), now, t)
                        + occurrences(types, t));
                    lemma_occurrences_prefix(types, t, j + 1);
                    lemma_occurrences_prefix_le(types, t, j as int);
                }
                match dist.get_mut(&t) {
                    Some(c) => {
                        *c = *c + 1;
                    },
                    None => {
                        dist.insert(t, 1);
                    },
                }
                assert forall|u: RiskType| u != t implies occurrences(types.take(j + 1), u) == occurrences(types.take(j as int), u) by {
                    lemma_occurrences_prefix(types, u, j + 1);
                }
                j = j + 1;
            }
            assert(types.take(types.len() as int) =~= types);
            proof {
                assert forall|t: RiskType| type_count(&e0, txs.take(i + 1), now, t) == type_count(&e0, txs.take(i as int), now, t)
                    + occurrences(types, t) by {
                    assert(txs.take(i + 1).drop_last() =~= txs.take(i as int));
                }
            }
            proof {
                assert(verdict_matches(&e0, txs[i as int], now, result));
                let fi = flagged_idx(&e0, txs.take(i as int), now);
                assert(flagged_idx(&e0, txs.take(i + 1), now) == if capped_score(&e0, txs[i as int], now) > 0 {
                    fi.push(i as int)
                } else {
                    fi
                });
                assert(score_total(&e0, txs.take(i + 1), now) == score_total(&e0, txs.take(i as int), now)
                    + capped_score(&e0, txs[i as int], now));
                assert(log_after_txs(&e0, event_views(e0.risk_events@), txs.take(i + 1), now) == log_after_tx(
                    &e0,
                    log_after_txs(&e0, event_views(e0.risk_events@), txs.take(i as int), now),
                    txs[i as int],
                    now,
                ));
            }
            let ghost rt_before = risk_txs@;
            let ghost fi = flagged_idx(&e0, txs.take(i as int), now);
            let ghost fi2 = flagged_idx(&e0, txs.take(i + 1), now);
            if result.score > 0 {
                total_score = total_score + result.score as u32;
                risk_txs.push((tx.id.clone(), result));
            }
            assert(risk_txs@.len() == fi2.len());
            i = i + 1;
            assert(fi2 == flagged_idx(&e0, txs.take(i as int), now));
            assert forall|k: int| 0 <= k < risk_txs@.len() implies #[trigger] entry_ok(&e0, txs, now, i as int, flagged_idx(&e0, txs.take(i as int), now)[k], risk_txs@[k]) by {
                assert(fi2[k] == flagged_idx(&e0, txs.take(i as int), now)[k]);
                if k < rt_before.len() {
                    assert(risk_txs@[k] == rt_before[k]);
                    assert(fi2[k] == fi[k]);
                    assert(entry_ok(&e0, txs, now, i - 1, fi[k], rt_before[k]));
                } else {
                    assert(fi2[k] == i - 1);
                    assert(risk_txs@[k].1 == result);
                }
            }
        }
        assert(txs.take(n as int) =~= txs);
        assert(n as u32 == n);
        let avg: u8 = if n == 0 {
            0
        } else {
            let q = total_score / (n as u32);
            assert(q == score_total(&e0, txs, now) / (n as nat));
            q as u8
        };
        BlockRiskAnalysis {
            block_hash: block.hash.clone(),
            block_height: block.height,
            average_risk_score: avg,
            high_risk_transactions: risk_txs.len(),
            risk_distribution: dist,
            flagged_transactions: risk_txs,
        }
    }

    /// Scores every transaction of a block against the clock (see
    /// `analyze_block_risk_at`).
    pub fn analyze_block_risk(&mut self, block: &Block) -> (r: BlockRiskAnalysis)
        requires
            outputs_fit(block.transactions@),
            block.transactions@.len() * 100 <= u32::MAX,
        ensures
            r.block_hash@ == block.hash@,
            r.block_height == block.height,
            r.high_risk_transactions == r.flagged_transactions@.len(),
            same_but_log(old(self), final(self)),
    {
        let now = unix_seconds();
        self.analyze_block_risk_at(block, now)
    }
}

impl Default for RiskEngine {
    fn default() -> (r: Self)
        ensures
            r.account_profiles@ == Map::<Seq<char>, AccountRiskProfile>::empty(),
            r.blacklist@ == Set::<Seq<char>>::empty(),
            r.greylist@ == Set::<Seq<char>>::empty(),
            r.known_double_spends@ == Set::<Seq<char>>::empty(),
            r.risk_events@.len() == 0,
            r.rules.large_tx_threshold == 1_000_000_000,
            r.rules.rapid_tx_window == 60,
            r.rules.rapid_tx_threshold == 5,
            r.rules.new_account_period == 86400,
            r.rules.laundering_detection_depth == 3,
            r.thresholds.low == 25,
            r.thresholds.medium == 50,
            r.thresholds.high == 75,
            r.thresholds.critical == 90,
    {
        RiskEngine::new()
    }
}

} // verus!

verus! {

/// A transaction that pays an address on the blacklist is critical: its
/// score is 100, it is flagged as a suspicious address, and the action is
/// to reject it when it also double-spends, else to freeze it.
pub proof fn lemma_blacklisted_payee_critical(
    before: &RiskEngine,
    after: &RiskEngine,
    tx: Transaction,
    now: u64,
    r: RiskResult,
    i: int,
)
    requires
        detection_matches(before, after, tx, now, r),
        0 <= i < tx.outputs@.len(),
        before.blacklist@.contains(tx.outputs@[i].script_pubkey@),
    ensures
        r.score == 100,
        r.level == RiskLevel::Critical,
        r.risk_types@.contains(RiskType::SuspiciousAddress),
        r.recommended_action == (if r.risk_types@.contains(RiskType::DoubleSpending) {
            RiskAction::Reject
        } else {
            RiskAction::Freeze
        }),
{
    let f = findings(before, tx, now);
    assert(f.1);
    let s = raw_score(f);
    let s1: u8 = if f.0 is Some { 50 } else { 0 };
    let s3 = if f.2 { sat_add(100, 20) } else { 100u8 };
    let s4 = if f.3 { sat_add(s3, 15) } else { s3 };
    let s5 = if f.4 { sat_add(s4, 30) } else { s4 };
    assert(s3 >= 100);
    assert(s4 >= 100);
    assert(s5 >= 100);
    assert(s >= 100);
    let types = risk_types_of(f);
    let a: Seq<RiskType> = if f.0 is Some { seq![RiskType::DoubleSpending] } else { Seq::empty() };
    let b: Seq<RiskType> = seq![RiskType::SuspiciousAddress];
    assert((a + b)[a.len() as int] == RiskType::SuspiciousAddress);
    let c: Seq<RiskType> = if f.2 { seq![RiskType::LargeTransaction] } else { Seq::empty() };
    let d: Seq<RiskType> = if f.3 { seq![RiskType::RapidTransactions] } else { Seq::empty() };
    let g: Seq<RiskType> = if f.4 { seq![RiskType::MoneyLaundering] } else { Seq::empty() };
    let h: Seq<RiskType> = if f.5 { seq![RiskType::DustAttack] } else { Seq::empty() };
    assert(types == a + b + c + d + g + h);
    assert(types[a.len() as int] == RiskType::SuspiciousAddress);
    assert(r.risk_types@ == types);
    assert(r.risk_types@.contains(RiskType::SuspiciousAddress));
}

/// Every verdict's score is at most 100, and new risk events are logged
/// exactly when the score is above zero: one per risk type found, after
/// the oldest is dropped from a full log; otherwise the log is unchanged.
pub proof fn lemma_score_bounded_and_logged(
    before: &RiskEngine,
    after: &RiskEngine,
    tx: Transaction,
    now: u64,
    r: RiskResult,
)
    requires
        detection_matches(before, after, tx, now, r),
    ensures
        r.score <= 100,
        r.score == 0 ==> event_views(after.risk_events@) == event_views(before.risk_events@),
        r.score > 0 ==> r.risk_types@.len() > 0 && event_views(after.risk_events@) == log_after(
            event_views(before.risk_events@),
            new_events(tx.id@, r.risk_types@, r.level, now),
        ),
{
    let f = findings(before, tx, now);
    let s = raw_score(f);
    if s > 0 {
        assert(f.0 is Some || f.1 || f.2 || f.3 || f.4 || f.5) by {
            if !(f.0 is Some || f.1 || f.2 || f.3 || f.4 || f.5) {
                assert(s == 0);
            }
        }
        let a: Seq<RiskType> = if f.0 is Some { seq![RiskType::DoubleSpending] } else { Seq::empty() };
        let b: Seq<RiskType> = if f.1 { seq![RiskType::SuspiciousAddress] } else { Seq::empty() };
        let c: Seq<RiskType> = if f.2 { seq![RiskType::LargeTransaction] } else { Seq::empty() };
        let d: Seq<RiskType> = if f.3 { seq![RiskType::RapidTransactions] } else { Seq::empty() };
        let g: Seq<RiskType> = if f.4 { seq![RiskType::MoneyLaundering] } else { Seq::empty() };
        let h: Seq<RiskType> = if f.5 { seq![RiskType::DustAttack] } else { Seq::empty() };
        assert(risk_types_of(f).len() == a.len() + b.len() + c.len() + d.len() + g.len() + h.len());
    }
}

} // verus!

verus! {

/// The recommended action: a double spend is rejected, a blacklisted
/// payee frozen; otherwise the action escalates with the level: no risk is
/// allowed, low risk monitored, medium delayed, high needs verification,
/// critical is rejected.
pub proof fn lemma_action_by_level(level: RiskLevel, types: Seq<RiskType>)
    ensures
        types.contains(RiskType::DoubleSpending) ==> action_of(level, types) == RiskAction::Reject,
        !types.contains(RiskType::DoubleSpending) && types.contains(RiskType::SuspiciousAddress)
            ==> action_of(level, types) == RiskAction::Freeze,
        !types.contains(RiskType::DoubleSpending) && !types.contains(RiskType::SuspiciousAddress) ==> {
            &&& level == RiskLevel::NoRisk ==> action_of(level, types) == RiskAction::Allow
            &&& level == RiskLevel::Low ==> action_of(level, types) == RiskAction::Monitor
            &&& level == RiskLevel::Medium ==> action_of(level, types) == RiskAction::Delay
            &&& level == RiskLevel::High ==> action_of(level, types) == RiskAction::RequireVerification
            &&& level == RiskLevel::Critical ==> action_of(level, types) == RiskAction::Reject
        },
{
}

/// A scored transaction is only let through unchecked when its score is at
/// most 10: above 10 it is never allowed, above 35 neither allowed nor
/// merely monitored, and without a double spend or blacklisted payee a
/// score from 36 to 60 delays it.
pub proof fn lemma_risky_never_allowed(
    before: &RiskEngine,
    after: &RiskEngine,
    tx: Transaction,
    now: u64,
    r: RiskResult,
)
    requires
        detection_matches(before, after, tx, now, r),
    ensures
        r.score > 10 ==> r.recommended_action != RiskAction::Allow,
        r.score > 35 ==> r.recommended_action != RiskAction::Allow && r.recommended_action
            != RiskAction::Monitor,
        35 < r.score <= 60 && !r.risk_types@.contains(RiskType::DoubleSpending)
            && !r.risk_types@.contains(RiskType::SuspiciousAddress) ==> r.recommended_action
            == RiskAction::Delay,
{
    lemma_action_by_level(r.level, r.risk_types@);
}

} // verus!
