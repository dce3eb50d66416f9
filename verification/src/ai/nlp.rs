//! Natural-language queries over the chain: intent recognition by keyword
//! patterns, parameter extraction, answers, suggestions and sessions.
use vstd::prelude::*;
use vstd::utf8::{decode_utf8, encode_utf8, is_char_boundary, encode_utf8_decode_utf8};
use vstd::string::StringSliceAdditionalSpecFns;
use crate::ai::templates::NLP_HELP_TEXT;
use crate::clock::unix_seconds;
use crate::keymap::{KeyMap, MapKey};
use crate::text::{
    clone_opt, coins_short, contains, decimal, lowercase_of, opt_str, parse_u64, parse_u64_spec,
    push_coins_short, push_decimal, push_str, seq_contains, split_words, starts_with, to_lowercase,
    occurs_at, words_of,
};

verus! {

/// What a query asks for.
#[derive(Debug, Clone, Copy, PartialEq, Eq, Structural, Hash)]
pub enum QueryIntent {
    QueryBalance,
    QueryTransaction,
    QueryBlock,
    QueryStats,
    QueryAddressHistory,
    QueryMiningInfo,
    QueryNetworkStatus,
    QueryContract,
    QueryComparison,
    QueryTrend,
    QueryHelp,
    Unknown,
}

impl View for QueryIntent {
    type V = QueryIntent;

    open spec fn view(&self) -> QueryIntent {
        *self
    }
}

impl MapKey for QueryIntent {
    fn key_eq(&self, other: &Self) -> (r: bool) {
        *self == *other
    }

    fn key_clone(&self) -> (r: Self) {
        *self
    }
}

/// A matching score: `hits` of `total` patterns found (never more than one).
#[derive(Debug, Clone, Copy, PartialEq, Eq, Structural)]
pub struct Score {
    pub hits: usize,
    pub total: usize,
}

/// A query as typed or spoken.
pub struct NLPQuery {
    pub text: String,
    pub session_id: Option<String>,
    pub user_address: Option<String>,
}

/// The parameters found in a query.
pub struct QueryParameters {
    pub address: Option<String>,
    pub tx_id: Option<String>,
    pub block_height: Option<u64>,
    pub block_hash: Option<String>,
    pub time_range: Option<(u64, u64)>,
    pub amount_range: Option<(u64, u64)>,
    pub extra: KeyMap<String, String>,
}

/// The parameters that the extraction fills: address, transaction id and
/// block height.
pub type ParamsView = (Option<Seq<char>>, Option<Seq<char>>, Option<u64>);

impl QueryParameters {
    /// The extracted parameters, with the others empty.
    pub open spec fn extracted(&self) -> ParamsView {
        (opt_str(self.address), opt_str(self.tx_id), self.block_height)
    }

    /// Only the extracted parameters are set.
    pub open spec fn only_extracted(&self) -> bool {
        &&& self.block_hash is None
        &&& self.time_range is None
        &&& self.amount_range is None
        &&& self.extra@.dom().len() == 0
    }

    /// No parameter is set.
    pub fn empty() -> (r: Self)
        ensures
            r.extracted() == (None::<Seq<char>>, None::<Seq<char>>, None::<u64>),
            r.only_extracted(),
    {
        let extra = KeyMap::new();
        proof {
            assert(extra@.dom() =~= Set::empty());
        }
        QueryParameters {
            address: None,
            tx_id: None,
            block_height: None,
            block_hash: None,
            time_range: None,
            amount_range: None,
            extra,
        }
    }

    /// A copy of extracted parameters.
    fn duplicate(&self) -> (r: Self)
        requires
            self.only_extracted(),
        ensures
            r.extracted() == self.extracted(),
            r.only_extracted(),
    {
        let mut r = QueryParameters::empty();
        r.address = clone_opt(&self.address);
        r.tx_id = clone_opt(&self.tx_id);
        r.block_height = self.block_height;
        r
    }
}

impl Default for QueryParameters {
    fn default() -> (r: Self)
        ensures
            r.extracted() == (None::<Seq<char>>, None::<Seq<char>>, None::<u64>),
            r.only_extracted(),
    {
        QueryParameters::empty()
    }
}

/// One output of a transaction in an answer.
pub struct OutputDetail {
    pub address: String,
    pub amount: u64,
}

/// A transaction in an answer.
pub struct TransactionDetail {
    pub id: String,
    pub status: String,
    pub confirmations: u64,
    pub timestamp: i64,
    pub from: Vec<String>,
    pub to: Vec<OutputDetail>,
    pub fee: u64,
    pub total_value: u64,
}

/// A block in an answer.
pub struct BlockSummary {
    pub height: u64,
    pub hash: String,
    pub timestamp: i64,
    pub transaction_count: usize,
    pub miner: String,
    pub reward: u64,
    pub size: usize,
}

/// Chain statistics in an answer; the average block time is in whole
/// seconds.
pub struct ChainStats {
    pub height: u64,
    pub total_transactions: u64,
    pub total_addresses: u64,
    pub avg_block_time: u64,
    pub network_hashrate: String,
    pub difficulty: usize,
    pub mempool_size: usize,
}

/// An address's history in an answer.
pub struct AddressHistory {
    pub address: String,
    pub total_received: u64,
    pub total_sent: u64,
    pub current_balance: u64,
    pub transaction_count: usize,
    pub first_seen: Option<i64>,
    pub last_seen: Option<i64>,
}

/// One line of a list answer.
pub struct ListItem {
    pub title: String,
    pub subtitle: String,
    pub value: String,
    pub link: Option<String>,
}

/// The data answering a query.
pub enum QueryResult {
    Balance { address: String, balance: u64, formatted: String },
    Transaction(TransactionDetail),
    Block(BlockSummary),
    Stats(ChainStats),
    AddressHistory(AddressHistory),
    List(Vec<ListItem>),
    Text(String),
    Error(String),
}

/// The full answer to a query.
pub struct NLPResponse {
    pub intent: QueryIntent,
    pub parameters: QueryParameters,
    pub result: QueryResult,
    pub natural_answer: String,
    pub suggestions: Vec<String>,
    pub confidence: Score,
}

/// What the engine remembers of a session.
pub struct SessionContext {
    pub last_intent: QueryIntent,
    pub last_parameters: QueryParameters,
    pub query_count: usize,
    pub last_query_time: u64,
}

/// The query engine: keyword patterns per intent, sessions and history.
pub struct NLPQueryEngine {
    pub intent_patterns: KeyMap<QueryIntent, Vec<String>>,
    pub sessions: KeyMap<String, SessionContext>,
    pub query_history: Vec<NLPQuery>,
}

/// The keyword patterns of each intent, in the order they are tried.
pub open spec fn pattern_table() -> Seq<(QueryIntent, Seq<Seq<char>>)> {
    seq![
        (QueryIntent::QueryBalance, seq!["余额"@, "balance"@, "有多少"@, "资产"@, "钱"@]),
        (QueryIntent::QueryTransaction, seq!["交易"@, "transaction"@, "转账"@, "tx"@, "transaction"@]),
        (QueryIntent::QueryBlock, seq!["区块"@, "block"@, "高度"@, "height"@]),
        (QueryIntent::QueryStats, seq!["统计"@, "stats"@, "状态"@, "status"@, "概况"@, "overview"@]),
        (QueryIntent::QueryAddressHistory, seq!["历史"@, "history"@, "记录"@, "record"@]),
        (QueryIntent::QueryMiningInfo, seq!["挖矿"@, "mining"@, "miner"@, "算力"@, "hashrate"@]),
        (QueryIntent::QueryNetworkStatus, seq!["网络"@, "network"@, "节点"@, "node"@, "连接"@]),
        (QueryIntent::QueryComparison, seq!["比较"@, "compare"@, "对比"@, "vs"@, "difference"@]),
        (QueryIntent::QueryTrend, seq!["趋势"@, "trend"@, "变化"@, "增长"@, "下降"@]),
        (QueryIntent::QueryHelp, seq!["帮助"@, "help"@, "怎么用"@, "how"@, "?"@]),
    ]
}

/// The views of the string lists of a pattern map.
pub open spec fn patterns_view(es: Seq<(QueryIntent, Vec<String>)>) -> Seq<(QueryIntent, Seq<Seq<char>>)> {
    es.map_values(|e: (QueryIntent, Vec<String>)| (e.0, e.1@.map_values(|s: String| s@)))
}

/// How many patterns occur (in lower case) in the lower-cased text.
pub open spec fn count_hits(lower: Seq<char>, pats: Seq<Seq<char>>) -> nat
    decreases pats.len(),
{
    if pats.len() == 0 {
        0
    } else {
        count_hits(lower, pats.drop_last()) + if seq_contains(lower, lowercase_of(pats.last())) {
            1nat
        } else {
            0nat
        }
    }
}

/// The score of a pattern list: hits over the number of patterns (at least one).
pub open spec fn score_of(lower: Seq<char>, pats: Seq<Seq<char>>) -> (nat, nat) {
    (count_hits(lower, pats), if pats.len() == 0 { 1nat } else { pats.len() })
}

/// The first intent with the strictly highest score, starting from
/// `Unknown` with score zero.
pub open spec fn best_of(lower: Seq<char>, t: Seq<(QueryIntent, Seq<Seq<char>>)>) -> (QueryIntent, nat, nat)
    decreases t.len(),
{
    if t.len() == 0 {
        (QueryIntent::Unknown, 0, 1)
    } else {
        let b = best_of(lower, t.drop_last());
        let (h, n) = score_of(lower, t.last().1);
        if h * b.2 > b.1 * n {
            (t.last().0, h, n)
        } else {
            b
        }
    }
}

/// The intent guessed from question words when no pattern scores well.
pub open spec fn inferred_intent(lower: Seq<char>) -> QueryIntent {
    if seq_contains(lower, "?"@) || seq_contains(lower, "什么"@) || seq_contains(lower, "多少"@) {
        if seq_contains(lower, "地址"@) || seq_contains(lower, "address"@) {
            QueryIntent::QueryBalance
        } else if seq_contains(lower, "最新"@) || seq_contains(lower, "latest"@) {
            QueryIntent::QueryBlock
        } else {
            QueryIntent::QueryStats
        }
    } else {
        QueryIntent::Unknown
    }
}

/// The recognised intent of a text with its score: the best-scoring intent,
/// or the guess from question words when the best score is under 0.3.
pub open spec fn intent_of(text: Seq<char>) -> (QueryIntent, nat, nat) {
    let lower = lowercase_of(text);
    let b = best_of(lower, pattern_table());
    if 10 * b.1 < 3 * b.2 {
        (inferred_intent(lower), b.1, b.2)
    } else {
        b
    }
}

/// The kinds of words the extraction looks for.
#[derive(Debug, Clone, Copy, PartialEq, Eq, Structural)]
pub enum WordKind {
    Address,
    Height,
    TxId,
}

/// A word that looks like an address: more than 30 bytes, starting with `Y`.
pub open spec fn address_like(w: Seq<char>) -> bool {
    encode_utf8(w).len() > 30 && occurs_at(w, "Y"@, 0)
}

/// A word that is a plausible block height.
pub open spec fn height_like(w: Seq<char>) -> bool {
    parse_u64_spec(w) matches Some(h) && h < 10000000
}

/// A word that looks like a transaction id: 64 bytes.
pub open spec fn txid_like(w: Seq<char>) -> bool {
    encode_utf8(w).len() == 64
}

/// Whether a word is of the given kind.
pub open spec fn word_fits(kind: WordKind, w: Seq<char>) -> bool {
    match kind {
        WordKind::Address => address_like(w),
        WordKind::Height => height_like(w),
        WordKind::TxId => txid_like(w),
    }
}

/// The first word of the given kind.
pub open spec fn first_word(ws: Seq<Seq<char>>, kind: WordKind) -> Option<Seq<char>>
    decreases ws.len(),
{
    if ws.len() == 0 {
        None
    } else if word_fits(kind, ws[0]) {
        Some(ws[0])
    } else {
        first_word(ws.drop_first(), kind)
    }
}

/// The parameters found in a text for an intent.
pub open spec fn params_of(text: Seq<char>, intent: QueryIntent) -> ParamsView {
    let ws = words_of(text);
    let address = if seq_contains(text, "地址"@) || seq_contains(text, "address"@) {
        first_word(ws, WordKind::Address)
    } else {
        None
    };
    let height = if intent == QueryIntent::QueryBlock {
        match first_word(ws, WordKind::Height) {
            Some(w) => parse_u64_spec(w),
            None => None,
        }
    } else {
        None
    };
    let tx = if intent == QueryIntent::QueryTransaction {
        first_word(ws, WordKind::TxId)
    } else {
        None
    };
    (address, tx, height)
}

/// The text shortened for display (first 10 and last 6 bytes around `...`)
/// when it is longer than 20 bytes.
pub open spec fn shorten(a: Seq<char>) -> Seq<char> {
    let b = encode_utf8(a);
    if b.len() > 20 {
        decode_utf8(b.take(10)) + "..."@ + decode_utf8(b.skip(b.len() - 6))
    } else {
        a
    }
}

/// Shortening cuts the text at character boundaries.
pub open spec fn shortenable(a: Seq<char>) -> bool {
    let b = encode_utf8(a);
    b.len() > 20 ==> is_char_boundary(b, 10) && is_char_boundary(b, b.len() - 6)
}

/// The data answering an intent with its parameters.
pub open spec fn result_matches(r: QueryResult, intent: QueryIntent, p: ParamsView) -> bool {
    match intent {
        QueryIntent::QueryBalance => match p.0 {
            Some(a) => r matches QueryResult::Balance { address, balance, formatted } && address@ == a
                && balance == 1000000000 && formatted@ == "10.00 YRU"@,
            None => r matches QueryResult::Error(e) && e@ == "请提供要查询的地址"@,
        },
        QueryIntent::QueryTransaction => match p.1 {
            Some(t) => r matches QueryResult::Transaction(d) && d.id@ == t && d.status@ == "已确认"@
                && d.confirmations == 128 && d.timestamp == 1700000000 && d.from@.len() == 1
                && d.from@[0]@ == "Y1abc..."@ && d.to@.len() == 1 && d.to@[0].address@ == "Y2def..."@
                && d.to@[0].amount == 500000000 && d.fee == 10000 && d.total_value == 500000000,
            None => r matches QueryResult::Error(e) && e@ == "请提供交易ID"@,
        },
        QueryIntent::QueryBlock => r matches QueryResult::Block(b) && b.height == (match p.2 {
            Some(h) => h,
            None => 1000u64,
        }) && b.hash@ == "0000abc..."@ && b.timestamp == 1700000000 && b.transaction_count == 5
            && b.miner@ == "YMiner..."@ && b.reward == 5000000000 && b.size == 2048,
        QueryIntent::QueryStats => r matches QueryResult::Stats(s) && s.height == 10000
            && s.total_transactions == 50000 && s.total_addresses == 10000 && s.avg_block_time == 600
            && s.network_hashrate@ == "10 TH/s"@ && s.difficulty == 4 && s.mempool_size == 15,
        QueryIntent::QueryAddressHistory => match p.0 {
            Some(a) => r matches QueryResult::AddressHistory(h) && h.address@ == a
                && h.total_received == 5000000000 && h.total_sent == 4000000000
                && h.current_balance == 1000000000 && h.transaction_count == 50
                && h.first_seen == Some(1699000000i64) && h.last_seen == Some(1700000000i64),
            None => r matches QueryResult::Error(e) && e@ == "请提供地址"@,
        },
        QueryIntent::QueryHelp => r matches QueryResult::Text(t) && t@ == NLP_HELP_TEXT@,
        _ => r matches QueryResult::Text(t) && t@ == "该功能正在开发中"@,
    }
}

/// An answer can be written for the data: the block hash has a 16-byte
/// prefix and every shortened text is cut at character boundaries.
pub open spec fn answerable(r: QueryResult) -> bool {
    match r {
        QueryResult::Balance { address, .. } => shortenable(address@),
        QueryResult::Transaction(d) => shortenable(d.id@),
        QueryResult::Block(b) => encode_utf8(b.hash@).len() >= 16 && is_char_boundary(
            encode_utf8(b.hash@),
            16,
        ) && shortenable(b.miner@),
        QueryResult::AddressHistory(h) => shortenable(h.address@),
        _ => true,
    }
}

/// The sentence answering the data.
pub open spec fn answer_text(r: QueryResult) -> Seq<char> {
    match r {
        QueryResult::Balance { address, formatted, .. } => "地址 "@ + shorten(address@)
            + " 的当前余额为 "@ + formatted@,
        QueryResult::Transaction(d) => "交易 "@ + shorten(d.id@) + " 的状态为"@ + d.status@
            + "，已有 "@ + decimal(d.confirmations as nat) + " 个确认，转账金额 "@ + coins_short(
            d.total_value as nat,
        ) + " YRU，手续费 "@ + decimal(d.fee as nat) + " 聪"@,
        QueryResult::Block(b) => "区块 #"@ + decimal(b.height as nat) + " (哈希: "@ + decode_utf8(
            encode_utf8(b.hash@).take(16),
        ) + "...) 包含 "@ + decimal(b.transaction_count as nat) + " 笔交易，由 "@ + shorten(b.miner@)
            + " 挖出，区块奖励 "@ + coins_short(b.reward as nat) + " YRU"@,
        QueryResult::Stats(s) => "区块链当前高度 "@ + decimal(s.height as nat) + "，总交易数 "@ + decimal(
            s.total_transactions as nat,
        ) + "，活跃地址数 "@ + decimal(s.total_addresses as nat) + "，平均出块时间 "@ + decimal(
            s.avg_block_time as nat,
        ) + ".0 秒，网络算力 "@ + s.network_hashrate@ + "，内存池待处理交易 "@ + decimal(
            s.mempool_size as nat,
        ) + " 笔"@,
        QueryResult::AddressHistory(h) => "地址 "@ + shorten(h.address@) + " 共接收 "@ + coins_short(
            h.total_received as nat,
        ) + " YRU，发送 "@ + coins_short(h.total_sent as nat) + " YRU，当前余额 "@ + coins_short(
            h.current_balance as nat,
        ) + " YRU，总交易次数 "@ + decimal(h.transaction_count as nat) + " 次"@,
        QueryResult::Text(t) => t@,
        QueryResult::Error(e) => "抱歉，查询失败: "@ + e@,
        QueryResult::List(_) => "查询完成"@,
    }
}

/// The follow-up suggestions for an intent.
pub open spec fn suggestions_for(intent: QueryIntent) -> Seq<Seq<char>> {
    match intent {
        QueryIntent::QueryBalance => seq!["查看交易历史"@, "查看该地址的挖矿收益"@],
        QueryIntent::QueryTransaction => seq!["查看发送方地址详情"@, "查看接收方地址详情"@, "查看交易所在区块"@],
        QueryIntent::QueryBlock => seq!["查看上一个区块"@, "查看区块中的交易"@, "查看最新区块"@],
        QueryIntent::QueryStats => seq!["查看挖矿统计"@, "查看网络节点"@, "查看地址增长趋势"@],
        _ => seq!["查看区块链统计"@, "查询地址余额"@, "查看最新区块"@],
    }
}

/// The views of a list of strings.
pub open spec fn strs(v: Seq<String>) -> Seq<Seq<char>> {
    v.map_values(|s: String| s@)
}

/// A query text the engine answers without failing: the data for its
/// intent and parameters can be put into words.
pub open spec fn query_supported(text: Seq<char>) -> bool {
    let i = intent_of(text).0;
    let p = params_of(text, i);
    &&& i != QueryIntent::QueryBlock
    &&& (i == QueryIntent::QueryBalance || i == QueryIntent::QueryAddressHistory) ==> (p.0 matches Some(
        a,
    ) ==> shortenable(a))
    &&& i == QueryIntent::QueryTransaction ==> (p.1 matches Some(t) ==> shortenable(t))
}

/// Owned copies of four string slices.
pub(crate) fn owned4(a: &str, b: &str, c: &str, d: &str) -> (r: Vec<String>)
    ensures
        strs(r@) == seq![a@, b@, c@, d@],
{
    let mut v: Vec<String> = Vec::new();
    v.push(a.to_owned());
    v.push(b.to_owned());
    v.push(c.to_owned());
    v.push(d.to_owned());
    assert(strs(v@) =~= seq![a@, b@, c@, d@]);
    v
}

/// Owned copies of five string slices.
pub(crate) fn owned5(a: &str, b: &str, c: &str, d: &str, e: &str) -> (r: Vec<String>)
    ensures
        strs(r@) == seq![a@, b@, c@, d@, e@],
{
    let mut v: Vec<String> = Vec::new();
    v.push(a.to_owned());
    v.push(b.to_owned());
    v.push(c.to_owned());
    v.push(d.to_owned());
    v.push(e.to_owned());
    assert(strs(v@) =~= seq![a@, b@, c@, d@, e@]);
    v
}

/// Owned copies of six string slices.
pub(crate) fn owned6(a: &str, b: &str, c: &str, d: &str, e: &str, f: &str) -> (r: Vec<String>)
    ensures
        strs(r@) == seq![a@, b@, c@, d@, e@, f@],
{
    let mut v: Vec<String> = Vec::new();
    v.push(a.to_owned());
    v.push(b.to_owned());
    v.push(c.to_owned());
    v.push(d.to_owned());
    v.push(e.to_owned());
    v.push(f.to_owned());
    assert(strs(v@) =~= seq![a@, b@, c@, d@, e@, f@]);
    v
}

/// The pattern lists have at most six entries.
proof fn lemma_table_small()
    ensures
        pattern_table().len() == 10,
        forall|i: int| 0 <= i < 10 ==> (#[trigger] pattern_table()[i]).1.len() <= 6,
{
    assert forall|i: int| 0 <= i < 10 implies (#[trigger] pattern_table()[i]).1.len() <= 6 by {
        if i == 0 {
        } else if i == 1 {
        } else if i == 2 {
        } else if i == 3 {
        } else if i == 4 {
        } else if i == 5 {
        } else if i == 6 {
        } else if i == 7 {
        } else if i == 8 {
        } else {
        }
    }
}

/// Adds an entry under a key the map does not hold yet.
fn put_new(m: &mut KeyMap<QueryIntent, Vec<String>>, k: QueryIntent, v: Vec<String>)
    requires
        forall|i: int| 0 <= i < old(m).entries().len() ==> (#[trigger] old(m).entries()[i]).0 != k,
    ensures
        final(m).entries() == old(m).entries().push((k, v)),
{
    proof {
        m.lemma_contains_key(k);
    }
    m.insert(k, v);
}

/// The session map after a query of session `id` with the given intent and
/// parameters: the session's last intent, parameters and count are updated
/// (a new session starts at one), other sessions are unchanged.
pub open spec fn session_updated(
    before: Map<Seq<char>, SessionContext>,
    after: Map<Seq<char>, SessionContext>,
    id: Seq<char>,
    intent: QueryIntent,
    p: ParamsView,
) -> bool {
    &&& after.dom() == before.dom().insert(id)
    &&& after[id].last_intent == intent
    &&& after[id].last_parameters.extracted() == p
    &&& after[id].query_count == if before.contains_key(id) {
        if before[id].query_count < usize::MAX {
            (before[id].query_count + 1) as usize
        } else {
            0usize
        }
    } else {
        1usize
    }
    &&& forall|k: Seq<char>| #[trigger] before.contains_key(k) && k != id ==> after[k] == before[k]
}

impl View for NLPQuery {
    type V = (Seq<char>, Option<Seq<char>>, Option<Seq<char>>);

    open spec fn view(&self) -> (Seq<char>, Option<Seq<char>>, Option<Seq<char>>) {
        (self.text@, opt_str(self.session_id), opt_str(self.user_address))
    }
}

/// A copy of a query.
fn copy_query(q: &NLPQuery) -> (r: NLPQuery)
    ensures
        r@ == q@,
{
    NLPQuery {
        text: q.text.clone(),
        session_id: clone_opt(&q.session_id),
        user_address: clone_opt(&q.user_address),
    }
}

/// A text shortened for display (see `shorten`).
fn shorten_text(a: &str) -> (r: String)
    requires
        shortenable(a@),
    ensures
        r@ == shorten(a@),
{
    let n = a.as_bytes().len();
    assert(a.spec_bytes() == encode_utf8(a@));
    if n > 20 {
        let (head, _) = a.split_at(10);
        let (_, tail) = a.split_at(n - 6);
        proof {
            encode_utf8_decode_utf8(head@);
            encode_utf8_decode_utf8(tail@);
            assert(encode_utf8(a@).take(10) =~= head.spec_bytes());
            assert(encode_utf8(a@).skip(n - 6) =~= tail.spec_bytes());
        }
        let mut out = head.to_owned();
        push_str(&mut out, "...");
        push_str(&mut out, tail);
        out
    } else {
        a.to_owned()
    }
}

/// Whether a word is of the given kind (see `word_fits`).
fn fits(kind: WordKind, w: &str) -> (r: bool)
    ensures
        r == word_fits(kind, w@),
{
    match kind {
        WordKind::Address => w.as_bytes().len() > 30 && starts_with(w, "Y"),
        WordKind::Height => match parse_u64(w) {
            Some(h) => h < 10000000,
            None => false,
        },
        WordKind::TxId => w.as_bytes().len() == 64,
    }
}

/// The first word of the given kind (see `first_word`).
pub(crate) fn find_word(words: &Vec<String>, kind: WordKind) -> (r: Option<String>)
    ensures
        opt_str(r) == first_word(strs(words@), kind),
{
    let ghost ws = strs(words@);
    let mut i: usize = 0;
    assert(ws.skip(0) =~= ws);
    while i < words.len()
        invariant
            i <= words@.len(),
            ws == strs(words@),
            first_word(ws, kind) == first_word(ws.skip(i as int), kind),
        decreases words@.len() - i,
    {
        assert(ws.skip(i as int)[0] == words@[i as int]@);
        if fits(kind, words[i].as_str()) {
            return Some(words[i].clone());
        }
        assert(ws.skip(i as int).drop_first() =~= ws.skip(i + 1));
        i = i + 1;
    }
    assert(ws.skip(i as int) =~= Seq::<Seq<char>>::empty());
    None
}

impl NLPQueryEngine {
    /// The pattern table is the fixed one.
    pub open spec fn wf(&self) -> bool {
        patterns_view(self.intent_patterns.entries()) == pattern_table()
    }

    pub fn new() -> (r: Self)
        ensures
            r.wf(),
            r.sessions@ == Map::<Seq<char>, SessionContext>::empty(),
            r.query_history@.len() == 0,
    {
        let mut engine = NLPQueryEngine {
            intent_patterns: KeyMap::new(),
            sessions: KeyMap::new(),
            query_history: Vec::new(),
        };
        engine.initialize_patterns();
        engine
    }

    /// Installs the keyword patterns of each intent (see `pattern_table`).
    fn initialize_patterns(&mut self)
        ensures
            final(self).wf(),
            final(self).sessions == old(self).sessions,
            final(self).query_history == old(self).query_history,
    {
        let mut m: KeyMap<QueryIntent, Vec<String>> = KeyMap::new();
        put_new(&mut m, QueryIntent::QueryBalance, owned5("余额", "balance", "有多少", "资产", "钱"));
        put_new(
            &mut m,
            QueryIntent::QueryTransaction,
            owned5("交易", "transaction", "转账", "tx", "transaction"),
        );
        put_new(&mut m, QueryIntent::QueryBlock, owned4("区块", "block", "高度", "height"));
        put_new(
            &mut m,
            QueryIntent::QueryStats,
            owned6("统计", "stats", "状态", "status", "概况", "overview"),
        );
        put_new(
            &mut m,
            QueryIntent::QueryAddressHistory,
            owned4("历史", "history", "记录", "record"),
        );
        put_new(
            &mut m,
            QueryIntent::QueryMiningInfo,
            owned5("挖矿", "mining", "miner", "算力", "hashrate"),
        );
        put_new(
            &mut m,
            QueryIntent::QueryNetworkStatus,
            owned5("网络", "network", "节点", "node", "连接"),
        );
        put_new(
            &mut m,
            QueryIntent::QueryComparison,
            owned5("比较", "compare", "对比", "vs", "difference"),
        );
        put_new(&mut m, QueryIntent::QueryTrend, owned5("趋势", "trend", "变化", "增长", "下降"));
        put_new(&mut m, QueryIntent::QueryHelp, owned5("帮助", "help", "怎么用", "how", "?"));
        assert(patterns_view(m.entries()) =~= pattern_table());
        self.intent_patterns = m;
    }

    /// The score of one pattern list against a lower-cased text.
    pub fn calculate_intent_score(&self, text: &str, patterns: &[String]) -> (r: Score)
        ensures
            (r.hits as nat, r.total as nat) == score_of(text@, strs(patterns@)),
            r.hits <= patterns@.len(),
    {
        let ghost ps = strs(patterns@);
        let mut matches: usize = 0;
        let mut i: usize = 0;
        while i < patterns.len()
            invariant
                i <= patterns@.len(),
                ps == strs(patterns@),
                matches == count_hits(text@, ps.take(i as int)),
                matches <= i,
            decreases patterns@.len() - i,
        {
            let p = to_lowercase(patterns[i].as_str());
            assert(ps.take(i + 1).drop_last() =~= ps.take(i as int));
            if contains(text, p.as_str()) {
                matches = matches + 1;
            }
            i = i + 1;
        }
        assert(ps.take(patterns@.len() as int) =~= ps);
        let total = if patterns.len() == 0 { 1 } else { patterns.len() };
        Score { hits: matches, total }
    }

    /// The intent guessed from question words (see `inferred_intent`).
    pub fn infer_intent_from_keywords(&self, text: &str) -> (r: QueryIntent)
        ensures
            r == inferred_intent(text@),
    {
        if contains(text, "?") || contains(text, "什么") || contains(text, "多少") {
            if contains(text, "地址") || contains(text, "address") {
                QueryIntent::QueryBalance
            } else if contains(text, "最新") || contains(text, "latest") {
                QueryIntent::QueryBlock
            } else {
                QueryIntent::QueryStats
            }
        } else {
            QueryIntent::Unknown
        }
    }

    /// The intent of a text with its score (see `intent_of`).
    pub fn recognize_intent(&self, text: &str) -> (r: (QueryIntent, Score))
        requires
            self.wf(),
        ensures
            r.0 == intent_of(text@).0,
            r.1.hits == intent_of(text@).1,
            r.1.total == intent_of(text@).2,
    {
        let lower = to_lowercase(text);
        let ghost table = pattern_table();
        let ghost es = self.intent_patterns.entries();
        let mut best_intent = QueryIntent::Unknown;
        let mut best = Score { hits: 0, total: 1 };
        let n = self.intent_patterns.len();
        proof {
            lemma_table_small();
        }
        let mut i: usize = 0;
        while i < n
            invariant
                n == es.len(),
                es == self.intent_patterns.entries(),
                patterns_view(es) == table,
                table == pattern_table(),
                i <= n,
                lower@ == lowercase_of(text@),
                (best_intent, best.hits as nat, best.total as nat) == best_of(lower@, table.take(i as int)),
                best.hits <= 6,
                1 <= best.total <= 6,
                table.len() == 10,
                forall|j: int| 0 <= j < 10 ==> (#[trigger] table[j]).1.len() <= 6,
            decreases n - i,
        {
            let (intent, patterns) = self.intent_patterns.entry_at(i);
            let score = self.calculate_intent_score(lower.as_str(), patterns.as_slice());
            assert(table.take(i + 1).drop_last() =~= table.take(i as int));
            assert(table[i as int] == patterns_view(es)[i as int]);
            assert(strs(patterns@) == table[i as int].1);
            assert(table[i as int].1.len() <= 6);
            let a = score.hits as u64;
            let b = best.total as u64;
            let c = best.hits as u64;
            let d = score.total as u64;
            assert(a * b <= 36 && c * d <= 36) by (nonlinear_arith)
                requires
                    a <= 6,
                    b <= 6,
                    c <= 6,
                    d <= 6,
            ;
            if a * b > c * d {
                best = score;
                best_intent = *intent;
            }
            i = i + 1;
        }
        assert(table.take(n as int) =~= table);
        if (best.hits as u64) * 10 < (best.total as u64) * 3 {
            best_intent = self.infer_intent_from_keywords(lower.as_str());
        }
        (best_intent, best)
    }

    /// The parameters a text gives for an intent (see `params_of`).
    pub fn extract_parameters(&self, text: &str, intent: QueryIntent) -> (r: QueryParameters)
        ensures
            r.extracted() == params_of(text@, intent),
            r.only_extracted(),
    {
        let mut params = QueryParameters::empty();
        let words = split_words(text);
        if contains(text, "地址") || contains(text, "address") {
            params.address = find_word(&words, WordKind::Address);
        }
        if intent == QueryIntent::QueryBlock {
            match find_word(&words, WordKind::Height) {
                Some(w) => {
                    params.block_height = parse_u64(w.as_str());
                },
                None => {},
            }
        }
        if intent == QueryIntent::QueryTransaction {
            params.tx_id = find_word(&words, WordKind::TxId);
        }
        params
    }

    /// The data for an intent (see `result_matches`); the figures are fixed
    /// sample values.
    pub fn execute_query(
        &self,
        intent: QueryIntent,
        params: &QueryParameters,
        _context: Option<&SessionContext>,
    ) -> (r: QueryResult)
        ensures
            result_matches(r, intent, params.extracted()),
    {
        match intent {
            QueryIntent::QueryBalance => match &params.address {
                Some(address) => QueryResult::Balance {
                    address: address.clone(),
                    balance: 1000000000,
                    formatted: "10.00 YRU".to_owned(),
                },
                None => QueryResult::Error("请提供要查询的地址".to_owned()),
            },
            QueryIntent::QueryTransaction => match &params.tx_id {
                Some(tx_id) => {
                    let mut from = Vec::new();
                    from.push("Y1abc...".to_owned());
                    let mut to = Vec::new();
                    to.push(OutputDetail { address: "Y2def...".to_owned(), amount: 500000000 });
                    QueryResult::Transaction(
                        TransactionDetail {
                            id: tx_id.clone(),
                            status: "已确认".to_owned(),
                            confirmations: 128,
                            timestamp: 1700000000,
                            from,
                            to,
                            fee: 10000,
                            total_value: 500000000,
                        },
                    )
                },
                None => QueryResult::Error("请提供交易ID".to_owned()),
            },
            QueryIntent::QueryBlock => {
                let height = match params.block_height {
                    Some(h) => h,
                    None => 1000,
                };
                QueryResult::Block(
                    BlockSummary {
                        height,
                        hash: "0000abc...".to_owned(),
                        timestamp: 1700000000,
                        transaction_count: 5,
                        miner: "YMiner...".to_owned(),
                        reward: 5000000000,
                        size: 2048,
                    },
                )
            },
            QueryIntent::QueryStats => QueryResult::Stats(
                ChainStats {
                    height: 10000,
                    total_transactions: 50000,
                    total_addresses: 10000,
                    avg_block_time: 600,
                    network_hashrate: "10 TH/s".to_owned(),
                    difficulty: 4,
                    mempool_size: 15,
                },
            ),
            QueryIntent::QueryAddressHistory => match &params.address {
                Some(address) => QueryResult::AddressHistory(
                    AddressHistory {
                        address: address.clone(),
                        total_received: 5000000000,
                        total_sent: 4000000000,
                        current_balance: 1000000000,
                        transaction_count: 50,
                        first_seen: Some(1699000000),
                        last_seen: Some(1700000000),
                    },
                ),
                None => QueryResult::Error("请提供地址".to_owned()),
            },
            QueryIntent::QueryHelp => QueryResult::Text(self.get_help_text()),
            _ => QueryResult::Text("该功能正在开发中".to_owned()),
        }
    }

    /// The help page.
    pub fn get_help_text(&self) -> (r: String)
        ensures
            r@ == NLP_HELP_TEXT@,
    {
        NLP_HELP_TEXT.to_owned()
    }

    /// An address shortened for display (see `shorten`).
    pub fn truncate_address(&self, address: &str) -> (r: String)
        requires
            shortenable(address@),
        ensures
            r@ == shorten(address@),
    {
        shorten_text(address)
    }

    /// A transaction id shortened for display (see `shorten`).
    pub fn truncate_txid(&self, txid: &str) -> (r: String)
        requires
            shortenable(txid@),
        ensures
            r@ == shorten(txid@),
    {
        shorten_text(txid)
    }

    /// The sentence answering the data (see `answer_text`).
    pub fn generate_natural_answer(
        &self,
        _intent: QueryIntent,
        result: &QueryResult,
        _params: &QueryParameters,
    ) -> (r: String)
        requires
            answerable(*result),
        ensures
            r@ == answer_text(*result),
    {
        let mut out = String::new();
        match result {
            QueryResult::Balance { address, formatted, .. } => {
                push_str(&mut out, "地址 ");
                push_str(&mut out, self.truncate_address(address.as_str()).as_str());
                push_str(&mut out, " 的当前余额为 ");
                push_str(&mut out, formatted.as_str());
            },
            QueryResult::Transaction(tx) => {
                push_str(&mut out, "交易 ");
                push_str(&mut out, self.truncate_txid(tx.id.as_str()).as_str());
                push_str(&mut out, " 的状态为");
                push_str(&mut out, tx.status.as_str());
                push_str(&mut out, "，已有 ");
                push_decimal(&mut out, tx.confirmations);
                push_str(&mut out, " 个确认，转账金额 ");
                push_coins_short(&mut out, tx.total_value);
                push_str(&mut out, " YRU，手续费 ");
                push_decimal(&mut out, tx.fee);
                push_str(&mut out, " 聪");
            },
            QueryResult::Block(block) => {
                let hash = block.hash.as_str();
                assert(hash.spec_bytes() == encode_utf8(hash@));
                let (head, _) = hash.split_at(16);
                proof {
                    encode_utf8_decode_utf8(head@);
                    assert(encode_utf8(block.hash@).take(16) =~= head.spec_bytes());
                }
                push_str(&mut out, "区块 #");
                push_decimal(&mut out, block.height);
                push_str(&mut out, " (哈希: ");
                push_str(&mut out, head);
                push_str(&mut out, "...) 包含 ");
                push_decimal(&mut out, block.transaction_count as u64);
                push_str(&mut out, " 笔交易，由 ");
                push_str(&mut out, self.truncate_address(block.miner.as_str()).as_str());
                push_str(&mut out, " 挖出，区块奖励 ");
                push_coins_short(&mut out, block.reward);
                push_str(&mut out, " YRU");
            },
            QueryResult::Stats(stats) => {
                push_str(&mut out, "区块链当前高度 ");
                push_decimal(&mut out, stats.height);
                push_str(&mut out, "，总交易数 ");
                push_decimal(&mut out, stats.total_transactions);
                push_str(&mut out, "，活跃地址数 ");
                push_decimal(&mut out, stats.total_addresses);
                push_str(&mut out, "，平均出块时间 ");
                push_decimal(&mut out, stats.avg_block_time);
                push_str(&mut out, ".0 秒，网络算力 ");
                push_str(&mut out, stats.network_hashrate.as_str());
                push_str(&mut out, "，内存池待处理交易 ");
                push_decimal(&mut out, stats.mempool_size as u64);
                push_str(&mut out, " 笔");
            },
            QueryResult::AddressHistory(history) => {
                push_str(&mut out, "地址 ");
                push_str(&mut out, self.truncate_address(history.address.as_str()).as_str());
                push_str(&mut out, " 共接收 ");
                push_coins_short(&mut out, history.total_received);
                push_str(&mut out, " YRU，发送 ");
                push_coins_short(&mut out, history.total_sent);
                push_str(&mut out, " YRU，当前余额 ");
                push_coins_short(&mut out, history.current_balance);
                push_str(&mut out, " YRU，总交易次数 ");
                push_decimal(&mut out, history.transaction_count as u64);
                push_str(&mut out, " 次");
            },
            QueryResult::Text(text) => {
                push_str(&mut out, text.as_str());
            },
            QueryResult::Error(err) => {
                push_str(&mut out, "抱歉，查询失败: ");
                push_str(&mut out, err.as_str());
            },
            QueryResult::List(_) => {
                push_str(&mut out, "查询完成");
            },
        }
        out
    }

    /// The follow-up suggestions for an intent (see `suggestions_for`).
    pub fn generate_suggestions(&self, intent: QueryIntent, _result: &QueryResult) -> (r: Vec<String>)
        ensures
            strs(r@) == suggestions_for(intent),
    {
        let mut v: Vec<String> = Vec::new();
        match intent {
            QueryIntent::QueryBalance => {
                v.push("查看交易历史".to_owned());
                v.push("查看该地址的挖矿收益".to_owned());
            },
            QueryIntent::QueryTransaction => {
                v.push("查看发送方地址详情".to_owned());
                v.push("查看接收方地址详情".to_owned());
                v.push("查看交易所在区块".to_owned());
            },
            QueryIntent::QueryBlock => {
                v.push("查看上一个区块".to_owned());
                v.push("查看区块中的交易".to_owned());
                v.push("查看最新区块".to_owned());
            },
            QueryIntent::QueryStats => {
                v.push("查看挖矿统计".to_owned());
                v.push("查看网络节点".to_owned());
                v.push("查看地址增长趋势".to_owned());
            },
            _ => {
                v.push("查看区块链统计".to_owned());
                v.push("查询地址余额".to_owned());
                v.push("查看最新区块".to_owned());
            },
        }
        assert(strs(v@) =~= suggestions_for(intent));
        v
    }

    /// Records the intent and parameters of the latest query of a session.
    pub fn update_session(&mut self, session_id: String, intent: QueryIntent, params: QueryParameters)
        requires
            params.only_extracted(),
        ensures
            final(self).intent_patterns == old(self).intent_patterns,
            final(self).query_history == old(self).query_history,
            session_updated(old(self).sessions@, final(self).sessions@, session_id@, intent, params.extracted()),
    {
        let now = unix_seconds();
        let ghost p = params.extracted();
        match self.sessions.get_mut(&session_id) {
            Some(existing) => {
                existing.last_intent = intent;
                existing.last_parameters = params;
                existing.query_count = if existing.query_count < usize::MAX {
                    existing.query_count + 1
                } else {
                    0
                };
                existing.last_query_time = now;
            },
            None => {
                self.sessions.insert(
                    session_id,
                    SessionContext {
                        last_intent: intent,
                        last_parameters: params,
                        query_count: 1,
                        last_query_time: now,
                    },
                );
            },
        }
    }

    /// Answers a query: recognises its intent, extracts its parameters,
    /// looks up the data, puts it into words with suggestions, and records
    /// the query in the history and in its session.
    pub fn process_query(&mut self, query: NLPQuery) -> (r: NLPResponse)
        requires
            old(self).wf(),
            query_supported(query.text@),
        ensures
            final(self).wf(),
            final(self).intent_patterns == old(self).intent_patterns,
            final(self).query_history@.len() == old(self).query_history@.len() + 1,
            final(self).query_history@.last()@ == query@,
            forall|j: int| 0 <= j < old(self).query_history@.len() ==> #[trigger] final(self).query_history@[j] == old(self).query_history@[j],
            r.intent == intent_of(query.text@).0,
            r.confidence.hits == intent_of(query.text@).1,
            r.confidence.total == intent_of(query.text@).2,
            r.parameters.extracted() == params_of(query.text@, r.intent),
            r.parameters.only_extracted(),
            result_matches(r.result, r.intent, r.parameters.extracted()),
            r.natural_answer@ == answer_text(r.result),
            strs(r.suggestions@) == suggestions_for(r.intent),
            match query.session_id {
                Some(id) => session_updated(
                    old(self).sessions@,
                    final(self).sessions@,
                    id@,
                    r.intent,
                    r.parameters.extracted(),
                ),
                None => final(self).sessions == old(self).sessions,
            },
    {
        let copy = copy_query(&query);
        self.query_history.push(copy);
        let (intent, confidence) = self.recognize_intent(query.text.as_str());
        let parameters = self.extract_parameters(query.text.as_str(), intent);
        let result = match &query.session_id {
            Some(id) => {
                let context = self.sessions.get(id);
                self.execute_query(intent, &parameters, context)
            },
            None => self.execute_query(intent, &parameters, None),
        };
        let natural_answer = self.generate_natural_answer(intent, &result, &parameters);
        let suggestions = self.generate_suggestions(intent, &result);
        match query.session_id {
            Some(session_id) => {
                let kept = parameters.duplicate();
                self.update_session(session_id, intent, kept);
            },
            None => {},
        }
        NLPResponse { intent, parameters, result, natural_answer, suggestions, confidence }
    }

    /// Answers a spoken query given as its transcript.
    pub fn process_voice_query(&mut self, transcript: &str, session_id: Option<String>) -> (r: NLPResponse)
        requires
            old(self).wf(),
            query_supported(transcript@),
        ensures
            final(self).wf(),
            final(self).query_history@.len() == old(self).query_history@.len() + 1,
            final(self).query_history@.last().text@ == transcript@,
            r.intent == intent_of(transcript@).0,
            r.parameters.extracted() == params_of(transcript@, r.intent),
            result_matches(r.result, r.intent, r.parameters.extracted()),
            r.natural_answer@ == answer_text(r.result),
            strs(r.suggestions@) == suggestions_for(r.intent),
            match session_id {
                Some(id) => session_updated(
                    old(self).sessions@,
                    final(self).sessions@,
                    id@,
                    r.intent,
                    r.parameters.extracted(),
                ),
                None => final(self).sessions == old(self).sessions,
            },
    {
        let query = NLPQuery { text: transcript.to_owned(), session_id, user_address: None };
        self.process_query(query)
    }

    /// Answers several queries in turn, without sessions.
    pub fn batch_query(&mut self, queries: Vec<String>) -> (r: Vec<NLPResponse>)
        requires
            old(self).wf(),
            forall|i: int| 0 <= i < queries@.len() ==> query_supported(#[trigger] queries@[i]@),
        ensures
            final(self).wf(),
            final(self).sessions == old(self).sessions,
            r@.len() == queries@.len(),
            final(self).query_history@.len() == old(self).query_history@.len() + queries@.len(),
            forall|i: int| #![trigger r@[i]] 0 <= i < queries@.len() ==> {
                &&& r@[i].intent == intent_of(queries@[i]@).0
                &&& r@[i].parameters.extracted() == params_of(queries@[i]@, r@[i].intent)
                &&& result_matches(r@[i].result, r@[i].intent, r@[i].parameters.extracted())
                &&& r@[i].natural_answer@ == answer_text(r@[i].result)
                &&& strs(r@[i].suggestions@) == suggestions_for(r@[i].intent)
            },
    {
        let mut out: Vec<NLPResponse> = Vec::new();
        let mut i: usize = 0;
        while i < queries.len()
            invariant
                i <= queries@.len(),
                self.wf(),
                self.sessions == old(self).sessions,
                out@.len() == i,
                self.query_history@.len() == old(self).query_history@.len() + i,
                forall|i: int| 0 <= i < queries@.len() ==> query_supported(#[trigger] queries@[i]@),
                forall|k: int| #![trigger out@[k]] 0 <= k < i ==> {
                    &&& out@[k].intent == intent_of(queries@[k]@).0
                    &&& out@[k].parameters.extracted() == params_of(queries@[k]@, out@[k].intent)
                    &&& result_matches(out@[k].result, out@[k].intent, out@[k].parameters.extracted())
                    &&& out@[k].natural_answer@ == answer_text(out@[k].result)
                    &&& strs(out@[k].suggestions@) == suggestions_for(out@[k].intent)
                },
            decreases queries@.len() - i,
        {
            let query = NLPQuery { text: queries[i].clone(), session_id: None, user_address: None };
            assert(query_supported(queries@[i as int]@));
            let resp = self.process_query(query);
            out.push(resp);
            i = i + 1;
        }
        out
    }
}

impl Default for NLPQueryEngine {
    fn default() -> (r: Self)
        ensures
            r.wf(),
            r.sessions@ == Map::<Seq<char>, SessionContext>::empty(),
            r.query_history@.len() == 0,
    {
        NLPQueryEngine::new()
    }
}

} // verus!

verus! {

/// When no pattern scores 0.3, question words decide: a text that is no
/// question (no `?`, 什么 or 多少) is not understood; a question about an
/// address (地址, address) asks for a balance, one about the latest (最新,
/// latest) asks for a block, any other question asks for statistics.
pub proof fn lemma_question_intent(text: Seq<char>)
    ensures
        ({
            let lower = lowercase_of(text);
            let b = best_of(lower, pattern_table());
            let question = seq_contains(lower, "?"@) || seq_contains(lower, "什么"@) || seq_contains(
                lower,
                "多少"@,
            );
            let about_address = seq_contains(lower, "地址"@) || seq_contains(lower, "address"@);
            let about_latest = seq_contains(lower, "最新"@) || seq_contains(lower, "latest"@);
            &&& 10 * b.1 >= 3 * b.2 ==> intent_of(text).0 == b.0
            &&& 10 * b.1 < 3 * b.2 ==> {
                &&& !question ==> intent_of(text).0 == QueryIntent::Unknown
                &&& question && about_address ==> intent_of(text).0 == QueryIntent::QueryBalance
                &&& question && !about_address && about_latest ==> intent_of(text).0
                    == QueryIntent::QueryBlock
                &&& question && !about_address && !about_latest ==> intent_of(text).0
                    == QueryIntent::QueryStats
            }
        }),
{
}

/// The keyword guess on its own (`infer_intent_from_keywords`): no question
/// is not understood; a question about an address asks for a balance, one
/// about the latest asks for a block, any other for statistics.
pub proof fn lemma_keyword_intent(t: Seq<char>)
    ensures
        ({
            let question = seq_contains(t, "?"@) || seq_contains(t, "什么"@) || seq_contains(t, "多少"@);
            let about_address = seq_contains(t, "地址"@) || seq_contains(t, "address"@);
            let about_latest = seq_contains(t, "最新"@) || seq_contains(t, "latest"@);
            &&& !question ==> inferred_intent(t) == QueryIntent::Unknown
            &&& question && about_address ==> inferred_intent(t) == QueryIntent::QueryBalance
            &&& question && !about_address && about_latest ==> inferred_intent(t) == QueryIntent::QueryBlock
            &&& question && !about_address && !about_latest ==> inferred_intent(t) == QueryIntent::QueryStats
        }),
{
}

} // verus!
