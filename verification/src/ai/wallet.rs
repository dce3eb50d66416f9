//! The wallet assistant: spoken transfer commands, the address book,
//! reminders, transaction analysis and recommendations.
use vstd::prelude::*;
use crate::ai::AIError;
use crate::ai::nlp::{first_word, strs, WordKind, address_like, owned4, owned5, find_word};
use crate::ai::templates::VOICE_HELP_TEXT;
use crate::chain::types::{Transaction, TxOutput, output_sum, sum_outputs};
use crate::clock::unix_seconds;
use crate::keymap::{KeyMap, MapKey};
use crate::text::{
    chars_of, clone_opt, coins_fixed, contains, lowercase_of, opt_str, push_char, push_coins_fixed,
    push_str, replace, replace_all, seq_contains, split_words, starts_with, to_lowercase, words_of,
    digits_value, all_digits,
};
use crate::num::{pow10, lemma_pow10_mono};

verus! {

/// What a spoken command asks for.
#[derive(Debug, Clone, Copy, PartialEq, Eq, Structural, Hash)]
pub enum VoiceCommand {
    Transfer,
    CheckBalance,
    CheckHistory,
    AddContact,
    SetReminder,
    GetRecommendation,
    Help,
    Unknown,
}

impl View for VoiceCommand {
    type V = VoiceCommand;

    open spec fn view(&self) -> VoiceCommand {
        *self
    }
}

impl MapKey for VoiceCommand {
    fn key_eq(&self, other: &Self) -> (r: bool) {
        *self == *other
    }

    fn key_clone(&self) -> (r: Self) {
        *self
    }
}

/// A spoken transfer, with what the speech recogniser already filled in.
pub struct VoiceTransferRequest {
    pub transcript: String,
    pub from_address: String,
    pub amount: Option<u64>,
    pub recipient: Option<String>,
    pub token: Option<String>,
}

/// The understood transfer, or why it was not understood.
pub struct VoiceTransferResult {
    pub success: bool,
    pub command: VoiceCommand,
    pub amount: Option<u64>,
    pub to_address: Option<String>,
    pub token: String,
    pub confirmation_message: String,
    pub requires_confirmation: bool,
    pub error: Option<String>,
}

/// Kinds of reminders.
#[derive(Debug, Clone, Copy, PartialEq, Eq, Structural)]
pub enum ReminderType {
    PriceAlert,
    TransactionConfirm,
    LowBalance,
    LargeTransfer,
    PeriodicReport,
    SecurityAlert,
}

/// When a reminder fires.
#[derive(Debug, Clone)]
pub enum TriggerCondition {
    PriceThreshold { token: String, above: Option<u64>, below: Option<u64> },
    BalanceThreshold { below: u64 },
    TransactionAmount { above: u64 },
    TimeInterval { seconds: u64 },
    Event { event_type: String },
}

/// A reminder with its firing state.
#[derive(Debug, Clone)]
pub struct SmartReminder {
    pub id: String,
    pub reminder_type: ReminderType,
    pub trigger_condition: TriggerCondition,
    pub message: String,
    pub enabled: bool,
    pub created_at: u64,
    pub last_triggered: Option<u64>,
}

/// An address-book entry.
#[derive(Debug, Clone)]
pub struct Contact {
    pub name: String,
    pub address: String,
    pub tags: Vec<String>,
    pub transaction_count: u32,
    pub total_volume: u64,
    pub added_at: u64,
}

/// A recurring pattern in the history; frequency and confidence are in
/// hundredths.
#[derive(Debug, Clone)]
pub struct TransactionPattern {
    pub pattern_type: String,
    pub description: String,
    pub frequency: u32,
    pub confidence: u32,
}

/// An unusual transaction.
#[derive(Debug, Clone)]
pub struct Anomaly {
    pub anomaly_type: String,
    pub description: String,
    pub severity: u8,
    pub related_tx: Option<String>,
}

/// The summary of a transaction history.
pub struct TransactionAnalysis {
    pub total_transactions: u32,
    pub total_sent: u64,
    pub total_received: u64,
    pub total_fees: u64,
    pub top_contacts: Vec<(String, u32)>,
    pub patterns: Vec<TransactionPattern>,
    pub anomalies: Vec<Anomaly>,
}

/// Kinds of recommendations.
#[derive(Debug, Clone, Copy, PartialEq, Eq, Structural)]
pub enum RecommendationType {
    SaveFees,
    Security,
    Investment,
    Optimization,
    NewFeature,
}

/// A recommendation; its confidence is in hundredths.
#[derive(Debug, Clone)]
pub struct SmartRecommendation {
    pub recommendation_type: RecommendationType,
    pub title: String,
    pub description: String,
    pub confidence: u32,
    pub action: Option<String>,
}

/// The user's settings.
pub struct UserPreferences {
    pub default_token: String,
    pub reminders_enabled: bool,
    pub voice_confirmation: bool,
    pub large_amount_threshold: u64,
    pub frequent_contacts: Vec<String>,
}

impl Default for UserPreferences {
    fn default() -> (r: Self)
        ensures
            r.default_token@ == "YRU"@,
            r.reminders_enabled,
            r.voice_confirmation,
            r.large_amount_threshold == 1_000_000_000,
            r.frequent_contacts@.len() == 0,
    {
        UserPreferences {
            default_token: "YRU".to_owned(),
            reminders_enabled: true,
            voice_confirmation: true,
            large_amount_threshold: 1_000_000_000,
            frequent_contacts: Vec::new(),
        }
    }
}

/// The assistant with its address book, reminders, history and settings.
pub struct AIWalletAssistant {
    pub address_book: KeyMap<String, Contact>,
    pub reminders: Vec<SmartReminder>,
    pub transaction_history: Vec<Transaction>,
    pub preferences: UserPreferences,
    pub voice_patterns: KeyMap<VoiceCommand, Vec<String>>,
}

/// The phrases of each command, in the order they are tried.
pub open spec fn command_table() -> Seq<(VoiceCommand, Seq<Seq<char>>)> {
    seq![
        (VoiceCommand::Transfer, seq!["转账"@, "发送"@, "转给"@, "转钱"@, "send"@, "transfer"@, "pay"@]),
        (VoiceCommand::CheckBalance, seq!["余额"@, "多少钱"@, "有多少"@, "balance"@, "how much"@]),
        (VoiceCommand::CheckHistory, seq!["历史"@, "记录"@, "交易"@, "history"@, "transactions"@]),
        (VoiceCommand::AddContact, seq!["添加联系人"@, "保存地址"@, "add contact"@, "save address"@]),
        (VoiceCommand::SetReminder, seq!["提醒"@, "设置提醒"@, "remind"@, "alert"@]),
        (VoiceCommand::Help, seq!["帮助"@, "怎么用"@, "help"@, "how to"@]),
    ]
}

/// The views of the phrase lists of a command map.
pub open spec fn commands_view(es: Seq<(VoiceCommand, Vec<String>)>) -> Seq<(VoiceCommand, Seq<Seq<char>>)> {
    es.map_values(|e: (VoiceCommand, Vec<String>)| (e.0, strs(e.1@)))
}

/// Some phrase (in lower case) occurs in the lower-cased text.
pub open spec fn any_phrase(lower: Seq<char>, pats: Seq<Seq<char>>) -> bool {
    exists|i: int| 0 <= i < pats.len() && seq_contains(lower, lowercase_of(#[trigger] pats[i]))
}

/// The first command one of whose phrases occurs in the lower-cased text.
pub open spec fn command_in(lower: Seq<char>, t: Seq<(VoiceCommand, Seq<Seq<char>>)>) -> VoiceCommand
    decreases t.len(),
{
    if t.len() == 0 {
        VoiceCommand::Unknown
    } else if any_phrase(lower, t[0].1) {
        t[0].0
    } else {
        command_in(lower, t.drop_first())
    }
}

/// The command a transcript expresses.
pub open spec fn command_of(transcript: Seq<char>) -> VoiceCommand {
    command_in(lowercase_of(transcript), command_table())
}

/// A character that can be part of a spoken number.
pub open spec fn num_char(c: char) -> bool {
    '0' <= c <= '9' || c == '.'
}

/// Scanning for the first number: the characters collected, whether a
/// digit or point was seen, and whether the scan stopped.
pub open spec fn number_scan(s: Seq<char>) -> (Seq<char>, bool, bool)
    decreases s.len(),
{
    if s.len() == 0 {
        (Seq::empty(), false, false)
    } else {
        let st = number_scan(s.drop_last());
        let c = s.last();
        if st.2 {
            st
        } else if num_char(c) {
            (st.0.push(c), true, false)
        } else if st.1 && st.0.last() != '.' {
            (st.0, st.1, true)
        } else {
            st
        }
    }
}

/// The first run of digits and points in a text (a trailing point lets the
/// run continue after other characters).
pub open spec fn number_in(s: Seq<char>) -> Option<Seq<char>> {
    let st = number_scan(s);
    if st.1 {
        Some(st.0)
    } else {
        None
    }
}

/// The position of the first occurrence of `c`, if any.
pub open spec fn index_of(s: Seq<char>, c: char) -> Option<int>
    decreases s.len(),
{
    if s.len() == 0 {
        None
    } else if s[0] == c {
        Some(0)
    } else {
        match index_of(s.drop_first(), c) {
            Some(i) => Some(i + 1),
            None => None,
        }
    }
}

/// How many times `c` occurs.
pub open spec fn count_char(s: Seq<char>, c: char) -> nat
    decreases s.len(),
{
    if s.len() == 0 {
        0
    } else {
        count_char(s.drop_last(), c) + if s.last() == c { 1nat } else { 0nat }
    }
}

/// The base units (10^8 per coin) a number of digits and at most one point
/// stands for, rounded down and capped at the largest `u64`; `None` when it
/// is not a number (no digit, or more than one point).
pub open spec fn units_of(ns: Seq<char>) -> Option<u64> {
    let k = match index_of(ns, '.') {
        Some(i) => i,
        None => ns.len() as int,
    };
    let ip = ns.take(k);
    let fp = if k < ns.len() { ns.skip(k + 1) } else { Seq::empty() };
    if count_char(ns, '.') > 1 || ip.len() + fp.len() == 0 {
        None
    } else {
        let v = digits_value(ip) * 100000000 + digits_value((fp + seq!['0', '0', '0', '0', '0', '0', '0', '0']).take(8));
        Some(if v > u64::MAX { u64::MAX } else { v as u64 })
    }
}

/// The amount spoken in a transcript (thousands separators ignored).
pub open spec fn amount_in(text: Seq<char>) -> Option<u64> {
    let t = replace_all(replace_all(text, ","@, Seq::empty()), "，"@, Seq::empty());
    match number_in(t) {
        Some(ns) => units_of(ns),
        None => None,
    }
}

/// The address of the first contact whose name occurs in the text.
pub open spec fn contact_in(es: Seq<(String, Contact)>, text: Seq<char>) -> Option<Seq<char>>
    decreases es.len(),
{
    if es.len() == 0 {
        None
    } else if seq_contains(text, es[0].0@) {
        Some(es[0].1.address@)
    } else {
        contact_in(es.drop_first(), text)
    }
}

/// A character that ends a name after `给`: ASCII whitespace or a comma.
pub open spec fn name_end(c: char) -> bool {
    c == ' ' || c == '\t' || c == '\n' || c == '\x0C' || c == '\r' || c == '，' || c == ','
}

/// The position of the first character ending a name, if any.
pub open spec fn name_end_index(s: Seq<char>) -> Option<int>
    decreases s.len(),
{
    if s.len() == 0 {
        None
    } else if name_end(s[0]) {
        Some(0)
    } else {
        match name_end_index(s.drop_first()) {
            Some(i) => Some(i + 1),
            None => None,
        }
    }
}

/// The name following the first `给`, when something ends it.
pub open spec fn name_after_gei(text: Seq<char>) -> Option<Seq<char>> {
    match index_of(text, '给') {
        Some(p) => {
            let after = text.skip(p + 1);
            match name_end_index(after) {
                Some(e) => Some(after.take(e)),
                None => None,
            }
        },
        None => None,
    }
}

/// The recipient a transcript names: a contact whose name occurs in it, an
/// address-like word, or a contact named after `给`.
pub open spec fn recipient_in(book: &KeyMap<String, Contact>, text: Seq<char>) -> Option<Seq<char>> {
    match contact_in(book.entries(), text) {
        Some(a) => Some(a),
        None => match first_word(words_of(text), WordKind::Address) {
            Some(w) => Some(w),
            None => match name_after_gei(text) {
                Some(n) => if book@.contains_key(n) {
                    Some(book@[n].address@)
                } else {
                    None
                },
                None => None,
            },
        },
    }
}

/// The first known token symbol in the text, else the default.
pub open spec fn token_in(text: Seq<char>, default: Seq<char>) -> Seq<char> {
    if seq_contains(text, "YRU"@) {
        "YRU"@
    } else if seq_contains(text, "BTC"@) {
        "BTC"@
    } else if seq_contains(text, "ETH"@) {
        "ETH"@
    } else if seq_contains(text, "USDT"@) {
        "USDT"@
    } else if seq_contains(text, "DAI"@) {
        "DAI"@
    } else {
        default
    }
}

/// The views of a transfer result: success, command, amount, recipient,
/// token, message, confirmation flag, error.
pub type TransferView = (
    bool,
    VoiceCommand,
    Option<u64>,
    Option<Seq<char>>,
    Seq<char>,
    Seq<char>,
    bool,
    Option<Seq<char>>,
);

impl View for VoiceTransferResult {
    type V = TransferView;

    open spec fn view(&self) -> TransferView {
        (
            self.success,
            self.command,
            self.amount,
            opt_str(self.to_address),
            self.token@,
            self.confirmation_message@,
            self.requires_confirmation,
            opt_str(self.error),
        )
    }
}

/// The answer to a spoken transfer.
pub open spec fn transfer_outcome(
    request: VoiceTransferRequest,
    book: &KeyMap<String, Contact>,
    prefs: UserPreferences,
) -> TransferView {
    let t = request.transcript@;
    let command = command_of(t);
    if command != VoiceCommand::Transfer {
        (
            false,
            command,
            None,
            None,
            prefs.default_token@,
            "未识别为转账指令"@,
            false,
            Some("请使用转账相关的语音指令"@),
        )
    } else {
        let amount = match request.amount {
            Some(a) => Some(a),
            None => amount_in(t),
        };
        let recipient = match request.recipient {
            Some(r) => Some(r@),
            None => recipient_in(book, t),
        };
        let token = match request.token {
            Some(tk) => tk@,
            None => token_in(t, prefs.default_token@),
        };
        match (amount, recipient) {
            (Some(a), Some(r)) => (
                true,
                command,
                Some(a),
                Some(r),
                token,
                "确认转账 "@ + coins_fixed(a as nat) + " "@ + token + " 给 "@ + r + "?"@,
                prefs.voice_confirmation || a > prefs.large_amount_threshold,
                None,
            ),
            (None, _) => (
                false,
                command,
                None,
                recipient,
                token,
                "未识别转账金额"@,
                false,
                Some("请明确说出转账金额"@),
            ),
            (_, None) => (
                false,
                command,
                amount,
                None,
                token,
                "未识别接收者"@,
                false,
                Some("请明确说出接收者名称或地址"@),
            ),
        }
    }
}

/// Owned copies of seven string slices.
fn owned7(a: &str, b: &str, c: &str, d: &str, e: &str, f: &str, g: &str) -> (r: Vec<String>)
    ensures
        strs(r@) == seq![a@, b@, c@, d@, e@, f@, g@],
{
    let mut v: Vec<String> = Vec::new();
    v.push(a.to_owned());
    v.push(b.to_owned());
    v.push(c.to_owned());
    v.push(d.to_owned());
    v.push(e.to_owned());
    v.push(f.to_owned());
    v.push(g.to_owned());
    assert(strs(v@) =~= seq![a@, b@, c@, d@, e@, f@, g@]);
    v
}

/// Adds an entry under a command the map does not hold yet.
fn put_command(m: &mut KeyMap<VoiceCommand, Vec<String>>, k: VoiceCommand, v: Vec<String>)
    requires
        forall|i: int| 0 <= i < old(m).entries().len() ==> (#[trigger] old(m).entries()[i]).0 != k,
    ensures
        final(m).entries() == old(m).entries().push((k, v)),
{
    proof {
        m.lemma_contains_key(k);
    }
    m.insert(k, v);
}

/// Once the scan has stopped, later characters change nothing.
proof fn lemma_scan_stopped(s: Seq<char>, i: int)
    requires
        0 <= i <= s.len(),
        number_scan(s.take(i)).2,
    ensures
        number_scan(s) == number_scan(s.take(i)),
    decreases s.len() - i,
{
    if i < s.len() {
        let t = s.take(i + 1);
        assert(t.drop_last() =~= s.take(i));
        lemma_scan_stopped(s, i + 1);
    } else {
        assert(s.take(i) =~= s);
    }
}

/// The collected characters are digits and points.
proof fn lemma_scan_chars(s: Seq<char>)
    ensures
        forall|j: int| 0 <= j < number_scan(s).0.len() ==> num_char(#[trigger] number_scan(s).0[j]),
        number_scan(s).1 ==> number_scan(s).0.len() > 0,
    decreases s.len(),
{
    if s.len() > 0 {
        lemma_scan_chars(s.drop_last());
    }
}

/// The first run of digits and points (see `number_in`).
fn scan_number(text: &str) -> (r: Option<String>)
    ensures
        opt_str(r) == number_in(text@),
{
    let n = text.unicode_len();
    let mut result = String::new();
    let mut found = false;
    let mut i: usize = 0;
    while i < n
        invariant
            n == text@.len(),
            i <= n,
            number_scan(text@.take(i as int)) == (result@, found, false),
        decreases n - i,
    {
        let c = text.get_char(i);
        let ghost t = text@.take(i + 1);
        assert(t.drop_last() =~= text@.take(i as int));
        if ('0' <= c && c <= '9') || c == '.' {
            push_char(&mut result, c);
            found = true;
        } else if found && result.unicode_len() > 0 && result.get_char(result.unicode_len() - 1) != '.' {
            proof {
                lemma_scan_stopped(text@, i + 1);
            }
            return Some(result);
        } else if found && result.unicode_len() == 0 {
            proof {
                lemma_scan_chars(text@.take(i as int));
            }
        }
        i = i + 1;
    }
    assert(text@.take(n as int) =~= text@);
    if found {
        Some(result)
    } else {
        None
    }
}

/// Two occurrences of `c` make a count of at least two.
proof fn lemma_count_two(s: Seq<char>, i: int, j: int)
    requires
        0 <= i < j < s.len(),
        s[i] == s[j],
    ensures
        count_char(s, s[i]) >= 2,
    decreases s.len(),
{
    if j < s.len() - 1 {
        lemma_count_two(s.drop_last(), i, j);
    } else {
        lemma_count_one(s.drop_last(), i);
    }
}

/// One occurrence of `c` makes a count of at least one.
proof fn lemma_count_one(s: Seq<char>, i: int)
    requires
        0 <= i < s.len(),
    ensures
        count_char(s, s[i]) >= 1,
    decreases s.len(),
{
    if i < s.len() - 1 {
        lemma_count_one(s.drop_last(), i);
    }
}

/// The base units a number of digits and points stands for (see `units_of`).
fn units_from(ns: &str) -> (r: Option<u64>)
    requires
        forall|j: int| 0 <= j < ns@.len() ==> num_char(#[trigger] ns@[j]),
    ensures
        r == units_of(ns@),
{
    let cs = chars_of(ns);
    let n = cs.len();
    let mut k: usize = 0;
    assert(ns@.skip(0) =~= ns@);
    while k < n && cs[k] != '.'
        invariant
            cs@ == ns@,
            n == cs@.len(),
            k <= n,
            forall|j: int| 0 <= j < k ==> cs@[j] != '.',
            index_of(ns@, '.') == match index_of(ns@.skip(k as int), '.') {
                Some(x) => Some(x + k),
                None => None,
            },
        decreases n - k,
    {
        assert(ns@.skip(k as int).drop_first() =~= ns@.skip(k + 1));
        k = k + 1;
    }
    let mut dots: usize = 0;
    let mut j: usize = 0;
    while j < n
        invariant
            cs@ == ns@,
            n == cs@.len(),
            j <= n,
            dots == count_char(ns@.take(j as int), '.'),
            dots <= j,
        decreases n - j,
    {
        assert(ns@.take(j + 1).drop_last() =~= ns@.take(j as int));
        if cs[j] == '.' {
            dots = dots + 1;
        }
        j = j + 1;
    }
    assert(ns@.take(n as int) =~= ns@);
    proof {
        if k < n {
            assert(ns@.skip(k as int)[0] == '.');
        } else {
            assert(ns@.skip(k as int) =~= Seq::<char>::empty());
        }
    }
    let ghost ip = ns@.take(k as int);
    let ghost fp = if k < n { ns@.skip(k + 1) } else { Seq::<char>::empty() };
    let flen: usize = if k < n { n - k - 1 } else { 0 };
    if dots > 1 || k + flen == 0 {
        return None;
    }
    let cap: u128 = 0x1_0000_0000_0000_0000;
    let mut v: u128 = 0;
    let mut a: usize = 0;
    while a < k
        invariant
            cs@ == ns@,
            k <= n == cs@.len(),
            a <= k,
            ip == ns@.take(k as int),
            forall|j: int| 0 <= j < ns@.len() ==> num_char(#[trigger] ns@[j]),
            forall|j: int| 0 <= j < k ==> cs@[j] != '.',
            v == if digits_value(ip.take(a as int)) >= cap { cap as nat } else { digits_value(ip.take(a as int)) },
            v <= cap,
            cap == 0x1_0000_0000_0000_0000,
        decreases k - a,
    {
        assert(ip.take(a + 1).drop_last() =~= ip.take(a as int));
        assert(num_char(ns@[a as int]));
        let d = (cs[a] as u32 - '0' as u32) as u128;
        assert(d <= 9);
        let w = v * 10 + d;
        v = if w >= cap { cap } else { w };
        a = a + 1;
    }
    assert(ip.take(k as int) =~= ip);
    let ghost padded = (fp + seq!['0', '0', '0', '0', '0', '0', '0', '0']).take(8);
    let mut f: u128 = 0;
    let mut b: usize = 0;
    proof {
        reveal_with_fuel(pow10, 9);
        assert(pow10(8) == 100000000);
    }
    while b < 8
        invariant
            cs@ == ns@,
            n == cs@.len(),
            k <= n,
            b <= 8,
            flen == fp.len(),
            fp == if k < n { ns@.skip(k + 1) } else { Seq::<char>::empty() },
            padded == (fp + seq!['0', '0', '0', '0', '0', '0', '0', '0']).take(8),
            forall|j: int| 0 <= j < ns@.len() ==> num_char(#[trigger] ns@[j]),
            count_char(ns@, '.') <= 1,
            k < n ==> cs@[k as int] == '.',
            f == digits_value(padded.take(b as int)),
            f < pow10(b as nat),
            pow10(8) == 100000000,
        decreases 8 - b,
    {
        assert(padded.take(b + 1).drop_last() =~= padded.take(b as int));
        let c = if b < flen { cs[k + 1 + b] } else { '0' };
        assert(padded[b as int] == c);
        proof {
            if b < flen {
                assert(fp[b as int] == ns@[k + 1 + b]);
                assert(num_char(ns@[k + 1 + b]));
                if c == '.' {
                    lemma_count_two(ns@, k as int, k + 1 + b);
                }
            }
        }
        let d = (c as u32 - '0' as u32) as u128;
        proof {
            lemma_pow10_mono((b + 1) as nat, 8);
        }
        assert(d <= 9);
        f = f * 10 + d;
        b = b + 1;
    }
    assert(padded.take(8) =~= padded);
    let total = v * 100000000 + f;
    if total > 0xffff_ffff_ffff_ffff {
        Some(0xffff_ffff_ffff_ffff)
    } else {
        Some(total as u64)
    }
}
/// The plain form of a trigger condition: its kind (0 price, 1 balance,
/// 2 transaction amount, 3 interval, 4 event), its text, its two optional
/// bounds and its number.
pub type ConditionView = (nat, Seq<char>, Option<u64>, Option<u64>, u64);

impl View for TriggerCondition {
    type V = ConditionView;

    open spec fn view(&self) -> ConditionView {
        match self {
            TriggerCondition::PriceThreshold { token, above, below } => (0, token@, *above, *below, 0),
            TriggerCondition::BalanceThreshold { below } => (1, Seq::empty(), None, None, *below),
            TriggerCondition::TransactionAmount { above } => (2, Seq::empty(), None, None, *above),
            TriggerCondition::TimeInterval { seconds } => (3, Seq::empty(), None, None, *seconds),
            TriggerCondition::Event { event_type } => (4, event_type@, None, None, 0),
        }
    }
}

/// The plain form of a reminder.
pub type ReminderView = (Seq<char>, ReminderType, ConditionView, Seq<char>, bool, u64, Option<u64>);

impl View for SmartReminder {
    type V = ReminderView;

    open spec fn view(&self) -> ReminderView {
        (
            self.id@,
            self.reminder_type,
            self.trigger_condition@,
            self.message@,
            self.enabled,
            self.created_at,
            self.last_triggered,
        )
    }
}

/// A reminder that fired at `last` is still cooling down at `now` (within
/// the hour; a firing time after `now` counts as cooling).
pub open spec fn cooling(last: u64, now: u64) -> bool {
    last > now || now - last < 3600
}

/// Whether a reminder fires at `now` for the balance.
pub open spec fn fires(r: ReminderView, now: u64, balance: u64) -> bool {
    &&& r.4
    &&& !(r.6 matches Some(l) && cooling(l, now))
    &&& if r.2.0 == 1 {
        balance < r.2.4
    } else if r.2.0 == 3 {
        match r.6 {
            None => true,
            Some(l) => now - l >= r.2.4,
        }
    } else {
        false
    }
}

/// A reminder after a check at `now`: a fired one records the time.
pub open spec fn after_check(r: ReminderView, now: u64, balance: u64) -> ReminderView {
    if fires(r, now, balance) {
        (r.0, r.1, r.2, r.3, r.4, r.5, Some(now))
    } else {
        r
    }
}

/// The reminders that fire at `now`, as they are after the check.
pub open spec fn fired(rs: Seq<ReminderView>, now: u64, balance: u64) -> Seq<ReminderView>
    decreases rs.len(),
{
    if rs.len() == 0 {
        Seq::empty()
    } else {
        let f = fired(rs.drop_last(), now, balance);
        if fires(rs.last(), now, balance) {
            f.push(after_check(rs.last(), now, balance))
        } else {
            f
        }
    }
}

/// The views of a list of reminders.
pub open spec fn reminder_views(rs: Seq<SmartReminder>) -> Seq<ReminderView> {
    rs.map_values(|r: SmartReminder| r@)
}

/// Whether a contact matches a search text by name, address or a tag.
pub open spec fn contact_matches(c: Contact, q: Seq<char>) -> bool {
    seq_contains(c.name@, q) || seq_contains(c.address@, q) || exists|i: int|
        0 <= i < c.tags@.len() && seq_contains(#[trigger] c.tags@[i]@, q)
}

/// The contacts matching a search text, in address-book order.
pub open spec fn matching_contacts(es: Seq<(String, Contact)>, q: Seq<char>) -> Seq<Contact>
    decreases es.len(),
{
    if es.len() == 0 {
        Seq::empty()
    } else {
        let m = matching_contacts(es.drop_last(), q);
        if contact_matches(es.last().1, q) {
            m.push(es.last().1)
        } else {
            m
        }
    }
}

/// What the transactions paid to an address.
pub open spec fn received(txs: Seq<Transaction>, addr: Seq<char>) -> int
    decreases txs.len(),
{
    if txs.len() == 0 {
        0
    } else {
        received(txs.drop_last(), addr) + paid_to(txs.last().outputs@, addr)
    }
}

/// What a list of outputs pays to an address.
pub open spec fn paid_to(outs: Seq<TxOutput>, addr: Seq<char>) -> int
    decreases outs.len(),
{
    if outs.len() == 0 {
        0
    } else {
        paid_to(outs.drop_last(), addr) + if outs.last().script_pubkey@ == addr {
            outs.last().value as int
        } else {
            0
        }
    }
}

/// The ids of the transactions whose outputs total more than `limit`.
pub open spec fn large_ids(txs: Seq<Transaction>, limit: int) -> Seq<Seq<char>>
    decreases txs.len(),
{
    if txs.len() == 0 {
        Seq::empty()
    } else {
        let ids = large_ids(txs.drop_last(), limit);
        if output_sum(txs.last().outputs@) > limit {
            ids.push(txs.last().id@)
        } else {
            ids
        }
    }
}

/// Every transaction's outputs total a `u64`.
pub open spec fn sums_fit(txs: Seq<Transaction>) -> bool {
    forall|i: int| 0 <= i < txs.len() ==> output_sum(#[trigger] txs[i].outputs@) <= u64::MAX
}

/// The plain form of a pattern.
pub open spec fn pattern_views(v: Seq<TransactionPattern>) -> Seq<(Seq<char>, Seq<char>, u32, u32)> {
    v.map_values(|p: TransactionPattern| (p.pattern_type@, p.description@, p.frequency, p.confidence))
}

/// The patterns of a history of `n` transactions.
pub open spec fn patterns_for(n: nat) -> Seq<(Seq<char>, Seq<char>, u32, u32)> {
    if n > 10 {
        seq![("活跃用户"@, "您是一个活跃的用户，经常进行交易"@, 80u32, 90u32)]
    } else {
        Seq::empty()
    }
}

/// The transactions named by a list of anomalies.
pub open spec fn anomaly_ids(v: Seq<Anomaly>) -> Seq<Seq<char>> {
    v.map_values(|a: Anomaly| match a.related_tx {
        Some(t) => t@,
        None => Seq::empty(),
    })
}

/// A large-transaction anomaly.
pub open spec fn anomaly_plain(a: Anomaly) -> bool {
    &&& a.anomaly_type@ == "大额交易"@
    &&& a.description@ == "检测到一笔异常大额交易"@
    &&& a.severity == 5
    &&& a.related_tx is Some
}

/// The plain form of a recommendation.
pub open spec fn recommendation_views(v: Seq<SmartRecommendation>) -> Seq<
    (RecommendationType, Seq<char>, Seq<char>, u32, Option<Seq<char>>),
> {
    v.map_values(
        |r: SmartRecommendation|
            (r.recommendation_type, r.title@, r.description@, r.confidence, opt_str(r.action)),
    )
}

/// The recommendations for a history of `txs` transactions and a book of
/// `contacts` entries.
pub open spec fn recommendations_for(txs: nat, contacts: nat) -> Seq<
    (RecommendationType, Seq<char>, Seq<char>, u32, Option<Seq<char>>),
> {
    let a: Seq<(RecommendationType, Seq<char>, Seq<char>, u32, Option<Seq<char>>)> = if txs > 20 {
        seq![(RecommendationType::Optimization, "批量转账"@, "您经常进行多笔转账，建议使用批量转账功能节省手续费"@, 85u32, Some("查看批量转账"@))]
    } else {
        Seq::empty()
    };
    let b: Seq<(RecommendationType, Seq<char>, Seq<char>, u32, Option<Seq<char>>)> = if contacts > 5 {
        seq![(RecommendationType::Security, "备份地址簿"@, "您的地址簿中有多个联系人，建议定期备份"@, 95u32, Some("导出地址簿"@))]
    } else {
        Seq::empty()
    };
    a + b
}

/// What a prefix of the history received is at most the whole.
proof fn lemma_received_prefix(txs: Seq<Transaction>, addr: Seq<char>, k: int)
    requires
        0 <= k <= txs.len(),
    ensures
        received(txs.take(k), addr) <= received(txs, addr),
        k > 0 ==> received(txs.take(k), addr) == received(txs.take(k - 1), addr) + paid_to(
            txs[k - 1].outputs@,
            addr,
        ),
    decreases txs.len() - k,
{
    if k < txs.len() {
        lemma_received_prefix(txs, addr, k + 1);
        assert(txs.take(k + 1).drop_last() =~= txs.take(k));
        lemma_paid_nonneg(txs[k].outputs@, addr);
    } else {
        assert(txs.take(k) =~= txs);
    }
    if k > 0 {
        assert(txs.take(k).drop_last() =~= txs.take(k - 1));
    }
}

/// What a prefix of the outputs pays is at most the whole.
proof fn lemma_paid_prefix(outs: Seq<TxOutput>, addr: Seq<char>, k: int)
    requires
        0 <= k <= outs.len(),
    ensures
        paid_to(outs.take(k), addr) <= paid_to(outs, addr),
    decreases outs.len() - k,
{
    if k < outs.len() {
        lemma_paid_prefix(outs, addr, k + 1);
        assert(outs.take(k + 1).drop_last() =~= outs.take(k));
    } else {
        assert(outs.take(k) =~= outs);
    }
}

/// Payments are never negative.
proof fn lemma_paid_nonneg(outs: Seq<TxOutput>, addr: Seq<char>)
    ensures
        paid_to(outs, addr) >= 0,
    decreases outs.len(),
{
    if outs.len() > 0 {
        lemma_paid_nonneg(outs.drop_last(), addr);
    }
}

/// Whether a string equals a string slice.
fn str_eq_string(a: &String, b: &str) -> (r: bool)
    ensures
        r == (a@ == b@),
{
    crate::text::str_eq(a.as_str(), b)
}

/// A copy of a trigger condition.
fn copy_condition(c: &TriggerCondition) -> (r: TriggerCondition)
    ensures
        r@ == c@,
{
    match c {
        TriggerCondition::PriceThreshold { token, above, below } => TriggerCondition::PriceThreshold {
            token: token.clone(),
            above: *above,
            below: *below,
        },
        TriggerCondition::BalanceThreshold { below } => TriggerCondition::BalanceThreshold { below: *below },
        TriggerCondition::TransactionAmount { above } => TriggerCondition::TransactionAmount { above: *above },
        TriggerCondition::TimeInterval { seconds } => TriggerCondition::TimeInterval { seconds: *seconds },
        TriggerCondition::Event { event_type } => TriggerCondition::Event { event_type: event_type.clone() },
    }
}

/// A copy of a reminder.
fn copy_reminder(r: &SmartReminder) -> (c: SmartReminder)
    ensures
        c@ == r@,
{
    SmartReminder {
        id: r.id.clone(),
        reminder_type: r.reminder_type,
        trigger_condition: copy_condition(&r.trigger_condition),
        message: r.message.clone(),
        enabled: r.enabled,
        created_at: r.created_at,
        last_triggered: r.last_triggered,
    }
}

/// The name following the first `给` (see `name_after_gei`).
fn name_after(text: &str) -> (r: Option<String>)
    ensures
        opt_str(r) == name_after_gei(text@),
{
    let cs = chars_of(text);
    let n = cs.len();
    let mut p: usize = 0;
    assert(text@.skip(0) =~= text@);
    while p < n && cs[p] != '给'
        invariant
            cs@ == text@,
            n == cs@.len(),
            p <= n,
            index_of(text@, '给') == match index_of(text@.skip(p as int), '给') {
                Some(x) => Some(x + p),
                None => None,
            },
        decreases n - p,
    {
        assert(text@.skip(p as int).drop_first() =~= text@.skip(p + 1));
        p = p + 1;
    }
    if p == n {
        assert(text@.skip(p as int) =~= Seq::<char>::empty());
        return None;
    }
    assert(text@.skip(p as int)[0] == '给');
    let ghost after = text@.skip(p + 1);
    let mut e: usize = p + 1;
    assert(after.skip(0) =~= after);
    while e < n && !(cs[e] == ' ' || cs[e] == '\t' || cs[e] == '\n' || cs[e] == '\x0C' || cs[e] == '\r'
        || cs[e] == '，' || cs[e] == ',')
        invariant
            cs@ == text@,
            n == cs@.len(),
            p < n,
            p + 1 <= e <= n,
            after == text@.skip(p + 1),
            name_end_index(after) == match name_end_index(after.skip(e - p - 1)) {
                Some(x) => Some(x + (e - p - 1)),
                None => None,
            },
        decreases n - e,
    {
        assert(after.skip(e - p - 1).drop_first() =~= after.skip(e - p));
        e = e + 1;
    }
    if e == n {
        assert(after.skip(e - p - 1) =~= Seq::<char>::empty());
        return None;
    }
    assert(after.skip(e - p - 1)[0] == cs@[e as int]);
    let mut name = String::new();
    let mut q: usize = p + 1;
    while q < e
        invariant
            cs@ == text@,
            p + 1 <= q <= e < n == cs@.len(),
            name@ == text@.subrange(p + 1, q as int),
        decreases e - q,
    {
        push_char(&mut name, cs[q]);
        q = q + 1;
        assert(name@ =~= text@.subrange(p + 1, q as int));
    }
    assert(after.take(e - p - 1) =~= text@.subrange(p + 1, e as int));
    Some(name)
}

impl AIWalletAssistant {
    /// The phrase table is the fixed one.
    pub open spec fn wf(&self) -> bool {
        commands_view(self.voice_patterns.entries()) == command_table()
    }

    pub fn new() -> (r: Self)
        ensures
            r.wf(),
            r.address_book@ == Map::<Seq<char>, Contact>::empty(),
            r.reminders@.len() == 0,
            r.transaction_history@.len() == 0,
            r.preferences.default_token@ == "YRU"@,
            r.preferences.voice_confirmation,
            r.preferences.large_amount_threshold == 1_000_000_000,
            r.preferences.reminders_enabled,
            r.preferences.frequent_contacts@.len() == 0,
    {
        let mut assistant = AIWalletAssistant {
            address_book: KeyMap::new(),
            reminders: Vec::new(),
            transaction_history: Vec::new(),
            preferences: UserPreferences::default(),
            voice_patterns: KeyMap::new(),
        };
        assistant.initialize_voice_patterns();
        assistant
    }

    /// Installs the phrases of each command (see `command_table`).
    fn initialize_voice_patterns(&mut self)
        ensures
            final(self).wf(),
            final(self).address_book == old(self).address_book,
            final(self).reminders == old(self).reminders,
            final(self).transaction_history == old(self).transaction_history,
            final(self).preferences == old(self).preferences,
    {
        let mut m: KeyMap<VoiceCommand, Vec<String>> = KeyMap::new();
        put_command(
            &mut m,
            VoiceCommand::Transfer,
            owned7("转账", "发送", "转给", "转钱", "send", "transfer", "pay"),
        );
        put_command(
            &mut m,
            VoiceCommand::CheckBalance,
            owned5("余额", "多少钱", "有多少", "balance", "how much"),
        );
        put_command(
            &mut m,
            VoiceCommand::CheckHistory,
            owned5("历史", "记录", "交易", "history", "transactions"),
        );
        put_command(
            &mut m,
            VoiceCommand::AddContact,
            owned4("添加联系人", "保存地址", "add contact", "save address"),
        );
        put_command(&mut m, VoiceCommand::SetReminder, owned4("提醒", "设置提醒", "remind", "alert"));
        put_command(&mut m, VoiceCommand::Help, owned4("帮助", "怎么用", "help", "how to"));
        assert(commands_view(m.entries()) =~= command_table());
        self.voice_patterns = m;
    }

    /// The command a transcript expresses (see `command_of`).
    pub fn recognize_command(&self, transcript: &str) -> (r: VoiceCommand)
        requires
            self.wf(),
        ensures
            r == command_of(transcript@),
    {
        let text = to_lowercase(transcript);
        let ghost table = command_table();
        let ghost es = self.voice_patterns.entries();
        let n = self.voice_patterns.len();
        let mut i: usize = 0;
        assert(table.skip(0) =~= table);
        while i < n
            invariant
                n == es.len(),
                es == self.voice_patterns.entries(),
                commands_view(es) == table,
                table == command_table(),
                i <= n,
                text@ == lowercase_of(transcript@),
                command_of(transcript@) == command_in(text@, table.skip(i as int)),
            decreases n - i,
        {
            let (command, patterns) = self.voice_patterns.entry_at(i);
            let ghost pats = strs(patterns@);
            assert(table.skip(i as int)[0] == (*command, pats));
            let mut j: usize = 0;
            while j < patterns.len()
                invariant
                    j <= patterns@.len(),
                    pats == strs(patterns@),
                    forall|q: int| 0 <= q < j ==> !seq_contains(text@, lowercase_of(#[trigger] pats[q])),
                    i < n,
                    n == es.len(),
                    commands_view(es) == table,
                    table.skip(i as int)[0] == (*command, pats),
                    command_of(transcript@) == command_in(text@, table.skip(i as int)),
                decreases patterns@.len() - j,
            {
                let p = to_lowercase(patterns[j].as_str());
                assert(pats[j as int] == patterns@[j as int]@);
                if contains(text.as_str(), p.as_str()) {
                    assert(seq_contains(text@, lowercase_of(pats[j as int])));
                    assert(any_phrase(text@, pats));
                    assert(table.skip(i as int).len() > 0);
                    assert(any_phrase(text@, table.skip(i as int)[0].1));
                    assert(command_in(text@, table.skip(i as int)) == *command);
                    return *command;
                }
                j = j + 1;
            }
            assert(!any_phrase(text@, pats));
            assert(table.skip(i as int).drop_first() =~= table.skip(i + 1));
            i = i + 1;
        }
        assert(table.skip(n as int) =~= Seq::<(VoiceCommand, Seq<Seq<char>>)>::empty());
        VoiceCommand::Unknown
    }

    /// The first run of digits and points in a text (see `number_in`).
    pub fn extract_number_after_keyword(&self, text: &str, _pattern: &str) -> (r: Option<String>)
        ensures
            opt_str(r) == number_in(text@),
    {
        scan_number(text)
    }

    /// The amount spoken in a transcript (see `amount_in`).
    pub fn parse_amount(&self, text: &str) -> (r: Option<u64>)
        ensures
            r == amount_in(text@),
    {
        proof {
            reveal_strlit(",");
            reveal_strlit("，");
            reveal_strlit("");
        }
        let t1 = replace(text, ",", "");
        let t2 = replace(t1.as_str(), "，", "");
        assert(""@ =~= Seq::<char>::empty());
        match scan_number(t2.as_str()) {
            Some(ns) => {
                proof {
                    lemma_scan_chars(t2@);
                }
                units_from(ns.as_str())
            },
            None => None,
        }
    }

    /// The recipient a transcript names (see `recipient_in`).
    pub fn parse_recipient(&self, text: &str) -> (r: Option<String>)
        ensures
            opt_str(r) == recipient_in(&self.address_book, text@),
    {
        let ghost es = self.address_book.entries();
        let n = self.address_book.len();
        let mut i: usize = 0;
        assert(es.skip(0) =~= es);
        while i < n
            invariant
                n == es.len(),
                es == self.address_book.entries(),
                i <= n,
                contact_in(es, text@) == contact_in(es.skip(i as int), text@),
            decreases n - i,
        {
            let (name, contact) = self.address_book.entry_at(i);
            assert(es.skip(i as int)[0] == es[i as int]);
            if contains(text, name.as_str()) {
                return Some(contact.address.clone());
            }
            assert(es.skip(i as int).drop_first() =~= es.skip(i + 1));
            i = i + 1;
        }
        assert(es.skip(n as int) =~= Seq::<(String, Contact)>::empty());
        let words = split_words(text);
        match find_word(&words, WordKind::Address) {
            Some(w) => {
                return Some(w);
            },
            None => {},
        }
        match name_after(text) {
            Some(name) => match self.address_book.get(&name) {
                Some(contact) => Some(contact.address.clone()),
                None => None,
            },
            None => None,
        }
    }

    /// The token named in a text, else the default one (see `token_in`).
    pub fn parse_token(&self, text: &str) -> (r: String)
        ensures
            r@ == token_in(text@, self.preferences.default_token@),
    {
        if contains(text, "YRU") {
            "YRU".to_owned()
        } else if contains(text, "BTC") {
            "BTC".to_owned()
        } else if contains(text, "ETH") {
            "ETH".to_owned()
        } else if contains(text, "USDT") {
            "USDT".to_owned()
        } else if contains(text, "DAI") {
            "DAI".to_owned()
        } else {
            self.preferences.default_token.clone()
        }
    }

    /// An amount as coins with eight decimals (see `coins_fixed`).
    pub fn format_amount(&self, amount: u64) -> (r: String)
        ensures
            r@ == coins_fixed(amount as nat),
    {
        let mut s = String::new();
        push_coins_fixed(&mut s, amount);
        s
    }

    /// Understands a spoken transfer (see `transfer_outcome`): it must be a
    /// transfer command with an amount and a recipient, spoken or given.
    pub fn process_voice_transfer(&self, request: VoiceTransferRequest) -> (r: VoiceTransferResult)
        requires
            self.wf(),
        ensures
            r@ == transfer_outcome(request, &self.address_book, self.preferences),
    {
        let command = self.recognize_command(request.transcript.as_str());
        if command != VoiceCommand::Transfer {
            return VoiceTransferResult {
                success: false,
                command,
                amount: None,
                to_address: None,
                token: self.preferences.default_token.clone(),
                confirmation_message: "未识别为转账指令".to_owned(),
                requires_confirmation: false,
                error: Some("请使用转账相关的语音指令".to_owned()),
            };
        }
        let amount = match request.amount {
            Some(a) => Some(a),
            None => self.parse_amount(request.transcript.as_str()),
        };
        let recipient = match request.recipient {
            Some(r) => Some(r),
            None => self.parse_recipient(request.transcript.as_str()),
        };
        let token = match request.token {
            Some(t) => t,
            None => self.parse_token(request.transcript.as_str()),
        };
        match (amount, recipient) {
            (Some(amt), Some(recip)) => {
                let mut msg = "确认转账 ".to_owned();
                push_str(&mut msg, self.format_amount(amt).as_str());
                push_str(&mut msg, " ");
                push_str(&mut msg, token.as_str());
                push_str(&mut msg, " 给 ");
                push_str(&mut msg, recip.as_str());
                push_str(&mut msg, "?");
                VoiceTransferResult {
                    success: true,
                    command,
                    amount: Some(amt),
                    to_address: Some(recip),
                    token,
                    confirmation_message: msg,
                    requires_confirmation: self.preferences.voice_confirmation || amt
                        > self.preferences.large_amount_threshold,
                    error: None,
                }
            },
            (None, recipient) => VoiceTransferResult {
                success: false,
                command,
                amount: None,
                to_address: recipient,
                token,
                confirmation_message: "未识别转账金额".to_owned(),
                requires_confirmation: false,
                error: Some("请明确说出转账金额".to_owned()),
            },
            (amount, None) => VoiceTransferResult {
                success: false,
                command,
                amount,
                to_address: None,
                token,
                confirmation_message: "未识别接收者".to_owned(),
                requires_confirmation: false,
                error: Some("请明确说出接收者名称或地址".to_owned()),
            },
        }
    }

    /// Adds a contact under a new name; an existing name is refused.
    pub fn add_contact(&mut self, name: String, address: String, tags: Vec<String>) -> (r: Result<(), AIError>)
        ensures
            final(self).voice_patterns == old(self).voice_patterns,
            final(self).reminders == old(self).reminders,
            final(self).transaction_history == old(self).transaction_history,
            final(self).preferences == old(self).preferences,
            old(self).address_book@.contains_key(name@) ==> (r matches Err(AIError::WalletError(m))
                && m@ == "联系人已存在"@ && final(self).address_book == old(self).address_book),
            !old(self).address_book@.contains_key(name@) ==> {
                let book = final(self).address_book@;
                &&& r is Ok
                &&& book.dom() == old(self).address_book@.dom().insert(name@)
                &&& book[name@].name@ == name@
                &&& book[name@].address@ == address@
                &&& book[name@].tags == tags
                &&& book[name@].transaction_count == 0
                &&& book[name@].total_volume == 0
                &&& forall|k: Seq<char>| #[trigger]
                    old(self).address_book@.contains_key(k) ==> book[k] == old(self).address_book@[k]
            },
    {
        if self.address_book.contains_key(&name) {
            return Err(AIError::WalletError("联系人已存在".to_owned()));
        }
        let contact = Contact {
            name: name.clone(),
            address,
            tags,
            transaction_count: 0,
            total_volume: 0,
            added_at: unix_seconds(),
        };
        self.address_book.insert(name, contact);
        Ok(())
    }

    /// The contact of a name.
    pub fn get_contact(&self, name: &str) -> (r: Option<&Contact>)
        ensures
            match r {
                Some(c) => self.address_book@.contains_key(name@) && *c == self.address_book@[name@],
                None => !self.address_book@.contains_key(name@),
            },
    {
        let key = name.to_owned();
        self.address_book.get(&key)
    }

    /// Whether a contact matches a search text (see `contact_matches`).
    fn matches_contact(c: &Contact, query: &str) -> (r: bool)
        ensures
            r == contact_matches(*c, query@),
    {
        if contains(c.name.as_str(), query) || contains(c.address.as_str(), query) {
            return true;
        }
        let mut i: usize = 0;
        while i < c.tags.len()
            invariant
                i <= c.tags@.len(),
                forall|k: int| 0 <= k < i ==> !seq_contains(#[trigger] c.tags@[k]@, query@),
            decreases c.tags@.len() - i,
        {
            if contains(c.tags[i].as_str(), query) {
                return true;
            }
            i = i + 1;
        }
        false
    }

    /// The contacts matching a search text, in address-book order.
    pub fn search_contacts(&self, query: &str) -> (r: Vec<&Contact>)
        ensures
            r@.map_values(|c: &Contact| *c) == matching_contacts(self.address_book.entries(), query@),
    {
        let ghost es = self.address_book.entries();
        let n = self.address_book.len();
        let mut out: Vec<&Contact> = Vec::new();
        let mut i: usize = 0;
        while i < n
            invariant
                n == es.len(),
                es == self.address_book.entries(),
                i <= n,
                out@.map_values(|c: &Contact| *c) == matching_contacts(es.take(i as int), query@),
            decreases n - i,
        {
            let (_, contact) = self.address_book.entry_at(i);
            assert(es.take(i + 1).drop_last() =~= es.take(i as int));
            if Self::matches_contact(contact, query) {
                out.push(contact);
            }
            i = i + 1;
            assert(out@.map_values(|c: &Contact| *c) =~= matching_contacts(es.take(i as int), query@));
        }
        assert(es.take(n as int) =~= es);
        out
    }

    /// Adds a reminder at the end.
    pub fn add_reminder(&mut self, reminder: SmartReminder)
        ensures
            final(self).reminders@ == old(self).reminders@.push(reminder),
            final(self).address_book == old(self).address_book,
            final(self).voice_patterns == old(self).voice_patterns,
            final(self).transaction_history == old(self).transaction_history,
            final(self).preferences == old(self).preferences,
    {
        self.reminders.push(reminder);
    }

    /// Checks the reminders against the clock and the balance; see
    /// `check_reminders_at`.
    pub fn check_reminders(&mut self, current_balance: u64, _pending_txs: &[Transaction]) -> (r: Vec<SmartReminder>)
        ensures
            exists|now: u64| {
                &&& reminder_views(final(self).reminders@) == reminder_views(old(self).reminders@).map_values(
                    |v: ReminderView| after_check(v, now, current_balance),
                )
                &&& reminder_views(r@) == fired(reminder_views(old(self).reminders@), now, current_balance)
            },
            final(self).address_book == old(self).address_book,
            final(self).voice_patterns == old(self).voice_patterns,
            final(self).transaction_history == old(self).transaction_history,
            final(self).preferences == old(self).preferences,
    {
        let now = unix_seconds();
        self.check_reminders_at(now, current_balance)
    }

    /// Fires the enabled reminders whose condition holds at `now` (balance
    /// below a threshold, or an interval elapsed) and that did not fire in
    /// the last hour; each records `now` and a copy is returned.
    pub fn check_reminders_at(&mut self, now: u64, current_balance: u64) -> (r: Vec<SmartReminder>)
        ensures
            reminder_views(final(self).reminders@) == reminder_views(old(self).reminders@).map_values(
                |v: ReminderView| after_check(v, now, current_balance),
            ),
            reminder_views(r@) == fired(reminder_views(old(self).reminders@), now, current_balance),
            final(self).address_book == old(self).address_book,
            final(self).voice_patterns == old(self).voice_patterns,
            final(self).transaction_history == old(self).transaction_history,
            final(self).preferences == old(self).preferences,
    {
        let ghost olds = reminder_views(self.reminders@);
        let mut rest: Vec<SmartReminder> = Vec::new();
        std::mem::swap(&mut rest, &mut self.reminders);
        let n = rest.len();
        let mut kept: Vec<SmartReminder> = Vec::new();
        let mut triggered: Vec<SmartReminder> = Vec::new();
        let mut i: usize = 0;
        while i < n
            invariant
                n == olds.len(),
                i <= n,
                rest@.len() == n - i,
                reminder_views(rest@) == olds.skip(i as int),
                reminder_views(kept@) == olds.take(i as int).map_values(
                    |v: ReminderView| after_check(v, now, current_balance),
                ),
                reminder_views(triggered@) == fired(olds.take(i as int), now, current_balance),
            decreases n - i,
        {
            let ghost br = rest@;
            let mut rem = rest.remove(0);
            assert(rem == br[0]);
            assert(rest@ =~= br.subrange(1, br.len() as int));
            assert(reminder_views(br)[0] == olds.skip(i as int)[0]);
            assert(rem@ == olds[i as int]);
            assert(reminder_views(rest@) =~= olds.skip(i + 1)) by {
                assert forall|k: int| 0 <= k < rest@.len() implies #[trigger] reminder_views(rest@)[k]
                    == olds.skip(i + 1)[k] by {
                    assert(rest@[k] == br[k + 1]);
                    assert(reminder_views(br)[k + 1] == olds.skip(i as int)[k + 1]);
                }
            }
            assert(olds.take(i + 1).drop_last() =~= olds.take(i as int));
            let ghost before = rem@;
            let mut cool = false;
            match rem.last_triggered {
                Some(last) => {
                    if last > now || now - last < 3600 {
                        cool = true;
                    }
                },
                None => {},
            }
            let should = if !rem.enabled || cool {
                false
            } else {
                match &rem.trigger_condition {
                    TriggerCondition::BalanceThreshold { below } => current_balance < *below,
                    TriggerCondition::TimeInterval { seconds } => match rem.last_triggered {
                        None => true,
                        Some(last) => now - last >= *seconds,
                    },
                    _ => false,
                }
            };
            assert(should == fires(before, now, current_balance));
            if should {
                rem.last_triggered = Some(now);
                triggered.push(copy_reminder(&rem));
            }
            assert(rem@ == after_check(before, now, current_balance));
            let ghost bk = kept@;
            kept.push(rem);
            assert(reminder_views(kept@) =~= reminder_views(bk).push(after_check(before, now, current_balance)));
            i = i + 1;
            assert(reminder_views(kept@) =~= olds.take(i as int).map_values(
                |v: ReminderView| after_check(v, now, current_balance),
            ));
            assert(reminder_views(triggered@) =~= fired(olds.take(i as int), now, current_balance));
        }
        assert(olds.take(n as int) =~= olds);
        self.reminders = kept;
        triggered
    }

    /// A summary of the history: what it paid to `address`, its large
    /// transactions, and whether the user is an active one.
    pub fn analyze_transactions(&self, address: &str) -> (r: TransactionAnalysis)
        requires
            received(self.transaction_history@, address@) <= u64::MAX,
            sums_fit(self.transaction_history@),
            self.preferences.large_amount_threshold * 10 <= u64::MAX,
        ensures
            r.total_transactions == self.transaction_history@.len() as u32,
            r.total_sent == 0,
            r.total_received == received(self.transaction_history@, address@),
            r.total_fees == 0,
            r.top_contacts@.len() == 0,
            pattern_views(r.patterns@) == patterns_for(self.transaction_history@.len()),
            anomaly_ids(r.anomalies@) == large_ids(
                self.transaction_history@,
                self.preferences.large_amount_threshold * 10,
            ),
            forall|k: int| 0 <= k < r.anomalies@.len() ==> #[trigger] anomaly_plain(r.anomalies@[k]),
    {
        let mut total_received: u64 = 0;
        let mut i: usize = 0;
        while i < self.transaction_history.len()
            invariant
                i <= self.transaction_history@.len(),
                received(self.transaction_history@, address@) <= u64::MAX,
                total_received == received(self.transaction_history@.take(i as int), address@),
            decreases self.transaction_history@.len() - i,
        {
            let tx = &self.transaction_history[i];
            assert(self.transaction_history@.take(i + 1).drop_last() =~= self.transaction_history@.take(i as int));
            proof {
                lemma_received_prefix(self.transaction_history@, address@, i + 1);
            }
            let mut j: usize = 0;
            let ghost base = total_received;
            while j < tx.outputs.len()
                invariant
                    j <= tx.outputs@.len(),
                    total_received == base + paid_to(tx.outputs@.take(j as int), address@),
                    base + paid_to(tx.outputs@, address@) <= u64::MAX,
                decreases tx.outputs@.len() - j,
            {
                assert(tx.outputs@.take(j + 1).drop_last() =~= tx.outputs@.take(j as int));
                proof {
                    lemma_paid_prefix(tx.outputs@, address@, j + 1);
                }
                if str_eq_string(&tx.outputs[j].script_pubkey, address) {
                    total_received = total_received + tx.outputs[j].value;
                }
                j = j + 1;
            }
            assert(tx.outputs@.take(tx.outputs@.len() as int) =~= tx.outputs@);
            i = i + 1;
        }
        assert(self.transaction_history@.take(self.transaction_history@.len() as int)
            =~= self.transaction_history@);
        TransactionAnalysis {
            total_transactions: self.transaction_history.len() as u32,
            total_sent: 0,
            total_received,
            total_fees: 0,
            top_contacts: Vec::new(),
            patterns: self.detect_patterns(),
            anomalies: self.detect_anomalies(),
        }
    }

    /// The activity pattern: an active user has more than ten transactions.
    pub fn detect_patterns(&self) -> (r: Vec<TransactionPattern>)
        ensures
            pattern_views(r@) == patterns_for(self.transaction_history@.len()),
    {
        let mut v: Vec<TransactionPattern> = Vec::new();
        if self.transaction_history.len() > 10 {
            v.push(TransactionPattern {
                pattern_type: "活跃用户".to_owned(),
                description: "您是一个活跃的用户，经常进行交易".to_owned(),
                frequency: 80,
                confidence: 90,
            });
        }
        assert(pattern_views(v@) =~= patterns_for(self.transaction_history@.len()));
        v
    }

    /// The transactions whose outputs total more than ten times the large
    /// amount threshold.
    pub fn detect_anomalies(&self) -> (r: Vec<Anomaly>)
        requires
            sums_fit(self.transaction_history@),
            self.preferences.large_amount_threshold * 10 <= u64::MAX,
        ensures
            anomaly_ids(r@) == large_ids(self.transaction_history@, self.preferences.large_amount_threshold * 10),
            forall|k: int| 0 <= k < r@.len() ==> #[trigger] anomaly_plain(r@[k]),
    {
        let limit = self.preferences.large_amount_threshold * 10;
        let mut v: Vec<Anomaly> = Vec::new();
        let mut i: usize = 0;
        while i < self.transaction_history.len()
            invariant
                i <= self.transaction_history@.len(),
                sums_fit(self.transaction_history@),
                limit == self.preferences.large_amount_threshold * 10,
                anomaly_ids(v@) == large_ids(self.transaction_history@.take(i as int), limit as int),
                forall|k: int| 0 <= k < v@.len() ==> #[trigger] anomaly_plain(v@[k]),
            decreases self.transaction_history@.len() - i,
        {
            let tx = &self.transaction_history[i];
            assert(self.transaction_history@.take(i + 1).drop_last() =~= self.transaction_history@.take(i as int));
            assert(output_sum(self.transaction_history@[i as int].outputs@) <= u64::MAX);
            let total = sum_outputs(&tx.outputs);
            if total > limit {
                v.push(Anomaly {
                    anomaly_type: "大额交易".to_owned(),
                    description: "检测到一笔异常大额交易".to_owned(),
                    severity: 5,
                    related_tx: Some(tx.id.clone()),
                });
            }
            i = i + 1;
            assert(anomaly_ids(v@) =~= large_ids(self.transaction_history@.take(i as int), limit as int));
        }
        assert(self.transaction_history@.take(self.transaction_history@.len() as int)
            =~= self.transaction_history@);
        v
    }

    /// Batch transfers for a busy history (more than twenty transactions)
    /// and an address-book backup for more than five contacts.
    pub fn generate_recommendations(&self) -> (r: Vec<SmartRecommendation>)
        ensures
            recommendation_views(r@) == recommendations_for(
                self.transaction_history@.len(),
                self.address_book@.len(),
            ),
    {
        let mut v: Vec<SmartRecommendation> = Vec::new();
        if self.transaction_history.len() > 20 {
            v.push(SmartRecommendation {
                recommendation_type: RecommendationType::Optimization,
                title: "批量转账".to_owned(),
                description: "您经常进行多笔转账，建议使用批量转账功能节省手续费".to_owned(),
                confidence: 85,
                action: Some("查看批量转账".to_owned()),
            });
        }
        if self.address_book.len() > 5 {
            v.push(SmartRecommendation {
                recommendation_type: RecommendationType::Security,
                title: "备份地址簿".to_owned(),
                description: "您的地址簿中有多个联系人，建议定期备份".to_owned(),
                confidence: 95,
                action: Some("导出地址簿".to_owned()),
            });
        }
        assert(recommendation_views(v@) =~= recommendations_for(
            self.transaction_history@.len(),
            self.address_book@.len(),
        ));
        v
    }

    /// The voice help page.
    pub fn get_voice_help(&self) -> (r: String)
        ensures
            r@ == VOICE_HELP_TEXT@,
    {
        VOICE_HELP_TEXT.to_owned()
    }

    /// Replaces the settings.
    pub fn update_preferences(&mut self, preferences: UserPreferences)
        ensures
            final(self).preferences == preferences,
            final(self).address_book == old(self).address_book,
            final(self).voice_patterns == old(self).voice_patterns,
            final(self).reminders == old(self).reminders,
            final(self).transaction_history == old(self).transaction_history,
    {
        self.preferences = preferences;
    }

    /// The settings.
    pub fn get_preferences(&self) -> (r: &UserPreferences)
        ensures
            *r == self.preferences,
    {
        &self.preferences
    }
}

impl Default for AIWalletAssistant {
    fn default() -> (r: Self)
        ensures
            r.wf(),
            r.address_book@ == Map::<Seq<char>, Contact>::empty(),
            r.reminders@.len() == 0,
            r.transaction_history@.len() == 0,
            r.preferences.default_token@ == "YRU"@,
            r.preferences.voice_confirmation,
            r.preferences.large_amount_threshold == 1_000_000_000,
            r.preferences.reminders_enabled,
            r.preferences.frequent_contacts@.len() == 0,
    {
        AIWalletAssistant::new()
    }
}

} // verus!

verus! {

/// The known token symbols, in order of preference.
pub open spec fn token_symbols() -> Seq<Seq<char>> {
    seq!["YRU"@, "BTC"@, "ETH"@, "USDT"@, "DAI"@]
}

/// The token of a spoken transfer: when the text names known symbols, the
/// token is one of them that occurs in the text, and no symbol earlier in
/// the preference order occurs; the default is used only when the text
/// names none.
pub proof fn lemma_token_named(text: Seq<char>, default: Seq<char>)
    ensures
        (exists|j: int| 0 <= j < 5 && seq_contains(text, #[trigger] token_symbols()[j])) ==> exists|k: int|
            0 <= k < 5 && token_in(text, default) == #[trigger] token_symbols()[k] && seq_contains(
                text,
                token_symbols()[k],
            ) && forall|j: int| 0 <= j < k ==> !seq_contains(text, #[trigger] token_symbols()[j]),
        (forall|j: int| 0 <= j < 5 ==> !seq_contains(text, #[trigger] token_symbols()[j])) ==> token_in(
            text,
            default,
        ) == default,
{
    let s = token_symbols();
    if seq_contains(text, s[0]) {
        assert(token_in(text, default) == s[0]);
    } else if seq_contains(text, s[1]) {
        assert(token_in(text, default) == s[1]);
    } else if seq_contains(text, s[2]) {
        assert(token_in(text, default) == s[2]);
    } else if seq_contains(text, s[3]) {
        assert(token_in(text, default) == s[3]);
    } else if seq_contains(text, s[4]) {
        assert(token_in(text, default) == s[4]);
    } else {
        assert forall|j: int| 0 <= j < 5 implies !seq_contains(text, #[trigger] s[j]) by {
            assert(j == 0 || j == 1 || j == 2 || j == 3 || j == 4);
        }
    }
}

} // verus!
