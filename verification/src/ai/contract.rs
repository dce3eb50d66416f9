//! Contract generation from a description: template choice, hardening,
//! parameter substitution, ABI, deployment parameters, audit and guide.
use vstd::prelude::*;
use crate::ai::AIError;
use crate::ai::templates::{
    ERC20_TEMPLATE, MULTISIG_TEMPLATE, STAKING_TEMPLATE, ACCESS_CONTROL_SNIPPET,
    REENTRANCY_GUARD_SNIPPET, SAFE_MATH_SNIPPET, CUSTOM_HEAD, CUSTOM_AFTER_NAME,
    CUSTOM_AFTER_DESCRIPTION, CUSTOM_AFTER_STRUCT, CUSTOM_AFTER_IMPL, CUSTOM_TAIL,
};
use crate::keymap::{KeyMap, MapKey};
use crate::text::{
    contains, push_str, replace, replace_all, seq_contains, to_lowercase, lowercase_of, opt_str,
};

verus! {

/// The contract kinds the generator knows.
#[derive(Debug, Clone, Copy, PartialEq, Eq, Structural, Hash)]
pub enum ContractTemplate {
    ERC20,
    ERC721,
    MultiSigWallet,
    Timelock,
    Crowdfunding,
    Voting,
    Staking,
    LiquidityPool,
    Insurance,
    Custom,
}

impl View for ContractTemplate {
    type V = ContractTemplate;

    open spec fn view(&self) -> ContractTemplate {
        *self
    }
}

impl MapKey for ContractTemplate {
    fn key_eq(&self, other: &Self) -> (r: bool) {
        *self == *other
    }

    fn key_clone(&self) -> (r: Self) {
        *self
    }
}

/// The display name of a template.
pub open spec fn template_name(t: ContractTemplate) -> Seq<char> {
    match t {
        ContractTemplate::ERC20 => "ERC20 Token"@,
        ContractTemplate::ERC721 => "ERC721 NFT"@,
        ContractTemplate::MultiSigWallet => "Multi-Signature Wallet"@,
        ContractTemplate::Timelock => "Timelock"@,
        ContractTemplate::Crowdfunding => "Crowdfunding"@,
        ContractTemplate::Voting => "Voting"@,
        ContractTemplate::Staking => "Staking"@,
        ContractTemplate::LiquidityPool => "Liquidity Pool"@,
        ContractTemplate::Insurance => "Insurance"@,
        ContractTemplate::Custom => "Custom"@,
    }
}

/// The one-line description of a template.
pub open spec fn template_description(t: ContractTemplate) -> Seq<char> {
    match t {
        ContractTemplate::ERC20 => "标准可替代代币合约，支持转账、授权、查询余额等功能"@,
        ContractTemplate::ERC721 => "非同质化代币合约，支持唯一资产的创建和转移"@,
        ContractTemplate::MultiSigWallet => "需要多个签名才能执行交易的多签钱包"@,
        ContractTemplate::Timelock => "延迟执行交易的时间锁合约"@,
        ContractTemplate::Crowdfunding => "去中心化众筹合约，支持目标金额和退款机制"@,
        ContractTemplate::Voting => "链上投票合约，支持提案创建和投票计数"@,
        ContractTemplate::Staking => "代币质押挖矿合约，支持质押、解押和收益分配"@,
        ContractTemplate::LiquidityPool => "去中心化交易所流动性池合约"@,
        ContractTemplate::Insurance => "去中心化保险合约，支持理赔和保费管理"@,
        ContractTemplate::Custom => "自定义合约，根据需求生成"@,
    }
}

/// The gas estimate for deploying a template.
pub open spec fn template_gas(t: ContractTemplate) -> u64 {
    match t {
        ContractTemplate::ERC20 => 500000,
        ContractTemplate::ERC721 => 800000,
        ContractTemplate::MultiSigWallet => 1200000,
        ContractTemplate::Staking => 1500000,
        ContractTemplate::Timelock => 600000,
        ContractTemplate::Crowdfunding => 1000000,
        ContractTemplate::Voting => 900000,
        ContractTemplate::LiquidityPool => 2000000,
        ContractTemplate::Insurance => 1800000,
        ContractTemplate::Custom => 1000000,
    }
}

/// The source text of the templates that have one.
pub open spec fn template_text(t: ContractTemplate) -> Option<Seq<char>> {
    match t {
        ContractTemplate::ERC20 => Some(ERC20_TEMPLATE@),
        ContractTemplate::MultiSigWallet => Some(MULTISIG_TEMPLATE@),
        ContractTemplate::Staking => Some(STAKING_TEMPLATE@),
        _ => None,
    }
}

impl ContractTemplate {
    pub fn name(&self) -> (r: &'static str)
        ensures
            r@ == template_name(*self),
    {
        match self {
            ContractTemplate::ERC20 => "ERC20 Token",
            ContractTemplate::ERC721 => "ERC721 NFT",
            ContractTemplate::MultiSigWallet => "Multi-Signature Wallet",
            ContractTemplate::Timelock => "Timelock",
            ContractTemplate::Crowdfunding => "Crowdfunding",
            ContractTemplate::Voting => "Voting",
            ContractTemplate::Staking => "Staking",
            ContractTemplate::LiquidityPool => "Liquidity Pool",
            ContractTemplate::Insurance => "Insurance",
            ContractTemplate::Custom => "Custom",
        }
    }

    pub fn description(&self) -> (r: &'static str)
        ensures
            r@ == template_description(*self),
    {
        match self {
            ContractTemplate::ERC20 => "标准可替代代币合约，支持转账、授权、查询余额等功能",
            ContractTemplate::ERC721 => "非同质化代币合约，支持唯一资产的创建和转移",
            ContractTemplate::MultiSigWallet => "需要多个签名才能执行交易的多签钱包",
            ContractTemplate::Timelock => "延迟执行交易的时间锁合约",
            ContractTemplate::Crowdfunding => "去中心化众筹合约，支持目标金额和退款机制",
            ContractTemplate::Voting => "链上投票合约，支持提案创建和投票计数",
            ContractTemplate::Staking => "代币质押挖矿合约，支持质押、解押和收益分配",
            ContractTemplate::LiquidityPool => "去中心化交易所流动性池合约",
            ContractTemplate::Insurance => "去中心化保险合约，支持理赔和保费管理",
            ContractTemplate::Custom => "自定义合约，根据需求生成",
        }
    }
}

/// The language the contract is written for.
#[derive(Debug, Clone, Copy, PartialEq, Eq, Structural)]
pub enum ContractLanguage {
    Rust,
    Solidity,
    Move,
}

/// How much protective code to add.
#[derive(Debug, Clone, Copy, PartialEq, Eq, Structural)]
pub enum SecurityLevel {
    Basic,
    Standard,
    High,
    Audited,
}

/// What to generate.
pub struct ContractGenerationRequest {
    pub description: String,
    pub template: Option<ContractTemplate>,
    pub name: String,
    pub symbol: Option<String>,
    pub parameters: KeyMap<String, String>,
    pub language: ContractLanguage,
    pub security_level: SecurityLevel,
}

/// Kind of an ABI entry.
#[derive(Debug, Clone, Copy, PartialEq, Eq, Structural)]
pub enum AbiType {
    Function,
    Event,
    Constructor,
    Fallback,
}

/// State mutability of an ABI entry.
#[derive(Debug, Clone, Copy, PartialEq, Eq, Structural)]
pub enum StateMutability {
    Pure,
    View,
    NonPayable,
    Payable,
}

/// A parameter of an ABI entry.
#[derive(Debug, Clone)]
pub struct AbiParam {
    pub name: String,
    pub param_type: String,
    pub indexed: bool,
}

impl View for AbiParam {
    type V = (Seq<char>, Seq<char>, bool);

    open spec fn view(&self) -> (Seq<char>, Seq<char>, bool) {
        (self.name@, self.param_type@, self.indexed)
    }
}

/// The views of a list of ABI parameters.
pub open spec fn param_views(ps: Seq<AbiParam>) -> Seq<(Seq<char>, Seq<char>, bool)> {
    ps.map_values(|p: AbiParam| p@)
}

/// A function or event of the contract interface.
#[derive(Debug, Clone)]
pub struct ContractAbi {
    pub name: String,
    pub abi_type: AbiType,
    pub inputs: Vec<AbiParam>,
    pub outputs: Vec<AbiParam>,
    pub state_mutability: StateMutability,
}

/// The plain form of an ABI entry.
pub type AbiView = (
    Seq<char>,
    AbiType,
    Seq<(Seq<char>, Seq<char>, bool)>,
    Seq<(Seq<char>, Seq<char>, bool)>,
    StateMutability,
);

impl View for ContractAbi {
    type V = AbiView;

    open spec fn view(&self) -> AbiView {
        (
            self.name@,
            self.abi_type,
            param_views(self.inputs@),
            param_views(self.outputs@),
            self.state_mutability,
        )
    }
}

/// The views of a list of ABI entries.
pub open spec fn abi_views(v: Seq<ContractAbi>) -> Seq<AbiView> {
    v.map_values(|a: ContractAbi| a@)
}

/// A constructor argument with its documentation.
#[derive(Debug, Clone)]
pub struct DeployParam {
    pub name: String,
    pub param_type: String,
    pub description: String,
    pub required: bool,
    pub default_value: Option<String>,
}

/// The plain form of a deployment parameter.
pub type DeployView = (Seq<char>, Seq<char>, Seq<char>, bool, Option<Seq<char>>);

impl View for DeployParam {
    type V = DeployView;

    open spec fn view(&self) -> DeployView {
        (self.name@, self.param_type@, self.description@, self.required, opt_str(self.default_value))
    }
}

/// The views of a list of deployment parameters.
pub open spec fn deploy_views(v: Seq<DeployParam>) -> Seq<DeployView> {
    v.map_values(|d: DeployParam| d@)
}

/// The overall verdict of an audit.
#[derive(Debug, Clone, Copy, PartialEq, Eq, Structural)]
pub enum RiskLevel {
    Low,
    Medium,
    High,
    Critical,
}

/// How serious a finding is.
#[derive(Debug, Clone, Copy, PartialEq, Eq, Structural)]
pub enum IssueSeverity {
    Info,
    Warning,
    Error,
    Critical,
}

/// One finding of an audit.
#[derive(Debug, Clone)]
pub struct SecurityIssue {
    pub severity: IssueSeverity,
    pub title: String,
    pub description: String,
    pub location: String,
    pub fix_suggestion: String,
}

/// The plain form of a finding.
pub type IssueView = (IssueSeverity, Seq<char>, Seq<char>, Seq<char>, Seq<char>);

impl View for SecurityIssue {
    type V = IssueView;

    open spec fn view(&self) -> IssueView {
        (self.severity, self.title@, self.description@, self.location@, self.fix_suggestion@)
    }
}

/// The views of a list of findings.
pub open spec fn issue_views(v: Seq<SecurityIssue>) -> Seq<IssueView> {
    v.map_values(|i: SecurityIssue| i@)
}

/// The result of an audit.
#[derive(Debug, Clone)]
pub struct SecurityReport {
    pub risk_level: RiskLevel,
    pub issues: Vec<SecurityIssue>,
    pub recommendations: Vec<String>,
    pub total_checks: usize,
    pub passed_checks: usize,
}

/// The generated contract with everything that goes with it.
pub struct ContractGenerationResult {
    pub code: String,
    pub language: ContractLanguage,
    pub abi: Vec<ContractAbi>,
    pub bytecode: Option<String>,
    pub deploy_params: Vec<DeployParam>,
    pub security_report: SecurityReport,
    pub usage_guide: String,
    pub estimated_gas: u64,
}

/// The generator with its template and snippet libraries.
pub struct ContractGenerator {
    pub api_endpoint: Option<String>,
    pub templates: KeyMap<ContractTemplate, String>,
    pub snippets: KeyMap<String, String>,
}

/// The text of each named snippet.
pub open spec fn snippet_text(name: Seq<char>) -> Option<Seq<char>> {
    if name == "access_control"@ {
        Some(ACCESS_CONTROL_SNIPPET@)
    } else if name == "reentrancy_guard"@ {
        Some(REENTRANCY_GUARD_SNIPPET@)
    } else if name == "safe_math"@ {
        Some(SAFE_MATH_SNIPPET@)
    } else {
        None
    }
}

/// The template the description points to, by the first matching keyword of
/// its lower-case form.
pub open spec fn inferred_template(description: Seq<char>) -> ContractTemplate {
    let d = lowercase_of(description);
    if seq_contains(d, "token"@) || seq_contains(d, "代币"@) || seq_contains(d, "erc20"@) {
        ContractTemplate::ERC20
    } else if seq_contains(d, "nft"@) || seq_contains(d, "erc721"@) {
        ContractTemplate::ERC721
    } else if seq_contains(d, "multi"@) || seq_contains(d, "多签"@) {
        ContractTemplate::MultiSigWallet
    } else if seq_contains(d, "staking"@) || seq_contains(d, "质押"@) {
        ContractTemplate::Staking
    } else if seq_contains(d, "vote"@) || seq_contains(d, "投票"@) {
        ContractTemplate::Voting
    } else if seq_contains(d, "crowd"@) || seq_contains(d, "众筹"@) {
        ContractTemplate::Crowdfunding
    } else if seq_contains(d, "time"@) || seq_contains(d, "时间锁"@) {
        ContractTemplate::Timelock
    } else if seq_contains(d, "liquidity"@) || seq_contains(d, "流动性"@) {
        ContractTemplate::LiquidityPool
    } else if seq_contains(d, "insurance"@) || seq_contains(d, "保险"@) {
        ContractTemplate::Insurance
    } else {
        ContractTemplate::Custom
    }
}


/// The template a request asks for, or the one its description points to.
pub open spec fn chosen_template(request: ContractGenerationRequest) -> ContractTemplate {
    match request.template {
        Some(t) => t,
        None => inferred_template(request.description@),
    }
}

/// The skeleton written for a template without source text.
pub open spec fn custom_code(name: Seq<char>, description: Seq<char>) -> Seq<char> {
    CUSTOM_HEAD@ + name + CUSTOM_AFTER_NAME@ + description + CUSTOM_AFTER_DESCRIPTION@ + name
        + CUSTOM_AFTER_STRUCT@ + name + CUSTOM_AFTER_IMPL@ + name + CUSTOM_TAIL@
}

/// The code with the protective snippets that a security level asks for:
/// none for `Basic`; the checked arithmetic for `Standard` unless `safe_add`
/// is already there; the reentrancy lock and the checked arithmetic above.
pub open spec fn secured_code(code: Seq<char>, level: SecurityLevel) -> Seq<char> {
    match level {
        SecurityLevel::Basic => code,
        SecurityLevel::Standard => if !seq_contains(code, "safe_add"@) {
            SAFE_MATH_SNIPPET@ + "\n"@ + code
        } else {
            code
        },
        _ => REENTRANCY_GUARD_SNIPPET@ + "\n"@ + (SAFE_MATH_SNIPPET@ + "\n"@ + code),
    }
}

/// The plain form of the parameter entries of a request, in order.
pub open spec fn param_entries(es: Seq<(String, String)>) -> Seq<(Seq<char>, Seq<char>)> {
    es.map_values(|e: (String, String)| (e.0@, e.1@))
}

/// Each `{{key}}` placeholder replaced by its value, entry after entry.
pub open spec fn fill_placeholders(code: Seq<char>, es: Seq<(Seq<char>, Seq<char>)>) -> Seq<char>
    decreases es.len(),
{
    if es.len() == 0 {
        code
    } else {
        replace_all(
            fill_placeholders(code, es.drop_last()),
            "{{"@ + es.last().0 + "}}"@,
            es.last().1,
        )
    }
}

/// The template's type names replaced by the contract name, the symbol
/// field given its value, then the placeholders filled.
pub open spec fn filled_code(
    code: Seq<char>,
    name: Seq<char>,
    symbol: Option<Seq<char>>,
    es: Seq<(Seq<char>, Seq<char>)>,
) -> Seq<char> {
    let a = replace_all(
        replace_all(replace_all(code, "ERC20Token"@, name), "MultiSigWallet"@, name),
        "StakingContract"@,
        name,
    );
    let b = match symbol {
        Some(sym) => replace_all(
            a,
            "symbol: String"@,
            "symbol: String = \""@ + sym + "\".to_string()"@,
        ),
        None => a,
    };
    fill_placeholders(b, es)
}

/// The code generated for a request.
pub open spec fn generated_code(request: ContractGenerationRequest) -> Seq<char> {
    let t = chosen_template(request);
    let base = match template_text(t) {
        Some(c) => c,
        None => custom_code(request.name@, request.description@),
    };
    filled_code(
        secured_code(base, request.security_level),
        request.name@,
        opt_str(request.symbol),
        param_entries(request.parameters.entries()),
    )
}

/// The deployment parameters of a template.
pub open spec fn deploy_spec(t: ContractTemplate, name: Seq<char>, symbol: Option<Seq<char>>) -> Seq<
    DeployView,
> {
    match t {
        ContractTemplate::ERC20 => seq![
            ("name"@, "string"@, "代币名称"@, true, Some(name)),
            ("symbol"@, "string"@, "代币符号"@, true, symbol),
            ("decimals"@, "uint8"@, "小数位数"@, false, Some("18"@)),
            ("initialSupply"@, "uint256"@, "初始供应量"@, true, Some("1000000000000000000000000"@)),
        ],
        ContractTemplate::MultiSigWallet => seq![
            ("owners"@, "address[]"@, "所有者地址列表"@, true, None),
            ("required"@, "uint256"@, "需要的确认数"@, true, Some("2"@)),
        ],
        ContractTemplate::Staking => seq![
            ("stakingToken"@, "address"@, "质押代币地址"@, true, None),
            ("rewardToken"@, "address"@, "奖励代币地址"@, true, None),
            ("rewardPerBlock"@, "uint256"@, "每区块奖励"@, true, Some("1000000000000000000"@)),
        ],
        _ => Seq::empty(),
    }
}

/// The interface entries of a template (only ERC20 has them).
pub open spec fn abi_spec(t: ContractTemplate) -> Seq<AbiView> {
    match t {
        ContractTemplate::ERC20 => seq![
            (
                "transfer"@,
                AbiType::Function,
                seq![("to"@, "address"@, false), ("amount"@, "uint256"@, false)],
                seq![("success"@, "bool"@, false)],
                StateMutability::NonPayable,
            ),
            (
                "balanceOf"@,
                AbiType::Function,
                seq![("account"@, "address"@, false)],
                seq![("balance"@, "uint256"@, false)],
                StateMutability::View,
            ),
            (
                "Transfer"@,
                AbiType::Event,
                seq![("from"@, "address"@, true), ("to"@, "address"@, true), ("amount"@, "uint256"@, false)],
                Seq::empty(),
                StateMutability::View,
            ),
        ],
        _ => Seq::empty(),
    }
}

/// The code uses checked or safe addition.
pub open spec fn overflow_guarded(code: Seq<char>) -> bool {
    seq_contains(code, "checked_add"@) || seq_contains(code, "safe_add"@)
}

/// The code has a reentrancy lock.
pub open spec fn reentrancy_guarded(code: Seq<char>) -> bool {
    seq_contains(code, "non_reentrant"@) || seq_contains(code, "LOCKED"@)
}

/// The code checks who calls it.
pub open spec fn access_guarded(code: Seq<char>) -> bool {
    seq_contains(code, "only_owner"@) || seq_contains(code, "require"@)
}

/// The finding for unchecked arithmetic.
pub open spec fn overflow_issue() -> IssueView {
    (IssueSeverity::Error, "整数溢出风险"@, "未使用安全数学运算"@, "全局"@, "使用 safe_add, safe_sub 等安全数学函数"@)
}

/// The finding for transfers without a reentrancy lock.
pub open spec fn reentrancy_issue() -> IssueView {
    (IssueSeverity::Warning, "潜在重入风险"@, "转账操作可能受到重入攻击"@, "transfer 函数"@, "添加重入锁保护"@)
}

/// The finding for missing access control.
pub open spec fn access_issue() -> IssueView {
    (IssueSeverity::Warning, "缺少访问控制"@, "关键函数缺少访问控制检查"@, "全局"@, "添加 only_owner 或其他访问控制修饰符"@)
}

/// The findings of the three checks, in order.
pub open spec fn audit_issues(code: Seq<char>) -> Seq<IssueView> {
    let a: Seq<IssueView> = if overflow_guarded(code) { Seq::empty() } else { seq![overflow_issue()] };
    let b: Seq<IssueView> = if !reentrancy_guarded(code) && seq_contains(code, "transfer"@) {
        seq![reentrancy_issue()]
    } else {
        Seq::empty()
    };
    let c: Seq<IssueView> = if access_guarded(code) { Seq::empty() } else { seq![access_issue()] };
    a + b + c
}

/// The verdict of a list of findings: the worst severity found.
pub open spec fn risk_of(issues: Seq<IssueView>) -> RiskLevel {
    if exists|i: int| 0 <= i < issues.len() && (#[trigger] issues[i]).0 == IssueSeverity::Critical {
        RiskLevel::Critical
    } else if exists|i: int| 0 <= i < issues.len() && (#[trigger] issues[i]).0 == IssueSeverity::Error {
        RiskLevel::High
    } else if issues.len() > 0 {
        RiskLevel::Medium
    } else {
        RiskLevel::Low
    }
}

/// The advice that goes with a list of findings.
pub open spec fn audit_advice(issues: Seq<IssueView>) -> Seq<Seq<char>> {
    if issues.len() == 0 {
        seq!["合约看起来安全，建议进行专业审计"@]
    } else {
        seq!["请修复所有安全问题后再部署"@, "建议聘请专业安全团队进行审计"@]
    }
}

/// The name `{:?}` gives a state mutability.
pub open spec fn mutability_name(m: StateMutability) -> Seq<char> {
    match m {
        StateMutability::Pure => "Pure"@,
        StateMutability::View => "View"@,
        StateMutability::NonPayable => "NonPayable"@,
        StateMutability::Payable => "Payable"@,
    }
}

/// One line per input parameter.
pub open spec fn inputs_text(ps: Seq<(Seq<char>, Seq<char>, bool)>) -> Seq<char>
    decreases ps.len(),
{
    if ps.len() == 0 {
        Seq::empty()
    } else {
        inputs_text(ps.drop_last()) + "  - "@ + ps.last().0 + ": "@ + ps.last().1 + "\n"@
    }
}

/// The section of each function of the interface (events are skipped).
pub open spec fn functions_text(abis: Seq<AbiView>) -> Seq<char>
    decreases abis.len(),
{
    if abis.len() == 0 {
        Seq::empty()
    } else {
        functions_text(abis.drop_last()) + section_text(abis.last())
    }
}

/// The section of one interface entry: its name, mutability and inputs for
/// a function, nothing for an event.
pub open spec fn section_text(a: AbiView) -> Seq<char> {
    if a.1 == AbiType::Function {
        "### "@ + a.0 + "\n"@ + "- 状态可变性: "@ + mutability_name(a.4) + "\n"@ + "- 输入参数:\n"@
            + inputs_text(a.2) + "\n"@
    } else {
        Seq::empty()
    }
}

/// The usage guide of a template with its interface.
pub open spec fn usage_guide_text(t: ContractTemplate, abis: Seq<AbiView>) -> Seq<char> {
    "# "@ + template_name(t) + " 使用说明\n\n"@ + "## 部署步骤\n\n"@ + "1. 准备部署参数\n"@
        + "2. 编译合约\n"@ + "3. 部署到区块链\n"@ + "4. 验证部署\n\n"@ + "## 函数接口\n\n"@
        + functions_text(abis) + "## 注意事项\n\n"@ + "- 请确保有足够的 Gas 费用\n"@
        + "- 部署前请在测试网测试\n"@ + "- 保存好合约地址和 ABI\n"@
}

/// What an audit of `code` reports.
pub open spec fn report_matches(r: SecurityReport, code: Seq<char>) -> bool {
    &&& issue_views(r.issues@) == audit_issues(code)
    &&& r.risk_level == risk_of(audit_issues(code))
    &&& r.recommendations@.map_values(|s: String| s@) == audit_advice(audit_issues(code))
    &&& r.total_checks == 3
    &&& r.passed_checks == 3 - audit_issues(code).len()
}

/// The name `{:?}` gives a state mutability.
pub fn mutability_label(m: StateMutability) -> (r: &'static str)
    ensures
        r@ == mutability_name(m),
{
    match m {
        StateMutability::Pure => "Pure",
        StateMutability::View => "View",
        StateMutability::NonPayable => "NonPayable",
        StateMutability::Payable => "Payable",
    }
}

/// The guide section of one interface entry (see `section_text`).
fn function_section(item: &ContractAbi) -> (r: String)
    ensures
        r@ == section_text(item@),
{
    let mut guide = String::new();
    if item.abi_type == AbiType::Function {
        push_str(&mut guide, "### ");
        push_str(&mut guide, item.name.as_str());
        push_str(&mut guide, "\n");
        push_str(&mut guide, "- 状态可变性: ");
        push_str(&mut guide, mutability_label(item.state_mutability));
        push_str(&mut guide, "\n");
        push_str(&mut guide, "- 输入参数:\n");
        let ghost mid = guide@;
        let ghost ps = param_views(item.inputs@);
        let mut j: usize = 0;
        while j < item.inputs.len()
            invariant
                j <= item.inputs@.len(),
                ps == param_views(item.inputs@),
                guide@ == mid + inputs_text(ps.take(j as int)),
            decreases item.inputs@.len() - j,
        {
            assert(ps.take(j + 1).drop_last() =~= ps.take(j as int));
            push_str(&mut guide, "  - ");
            push_str(&mut guide, item.inputs[j].name.as_str());
            push_str(&mut guide, ": ");
            push_str(&mut guide, item.inputs[j].param_type.as_str());
            push_str(&mut guide, "\n");
            j = j + 1;
        }
        assert(ps.take(item.inputs@.len() as int) =~= ps);
        push_str(&mut guide, "\n");
    } else {
        assert(guide@ =~= Seq::<char>::empty());
    }
    guide
}

impl ContractGenerator {
    /// The libraries hold exactly the three templates and three snippets.
    pub open spec fn wf(&self) -> bool {
        &&& forall|t: ContractTemplate| #[trigger]
            self.templates@.contains_key(t) == (template_text(t) is Some)
        &&& forall|t: ContractTemplate| #[trigger]
            self.templates@.contains_key(t) ==> self.templates@[t]@ == template_text(t).unwrap()
        &&& forall|n: Seq<char>| #[trigger]
            self.snippets@.contains_key(n) == (snippet_text(n) is Some)
        &&& forall|n: Seq<char>| #[trigger]
            self.snippets@.contains_key(n) ==> self.snippets@[n]@ == snippet_text(n).unwrap()
    }

    pub fn new(api_endpoint: Option<String>) -> (r: Self)
        ensures
            r.wf(),
            r.api_endpoint == api_endpoint,
    {
        let mut generator = ContractGenerator {
            api_endpoint,
            templates: KeyMap::new(),
            snippets: KeyMap::new(),
        };
        generator.initialize_templates();
        generator.initialize_snippets();
        generator
    }

    fn initialize_templates(&mut self)
        ensures
            final(self).snippets == old(self).snippets,
            final(self).api_endpoint == old(self).api_endpoint,
            forall|t: ContractTemplate| #[trigger]
                final(self).templates@.contains_key(t) == (old(self).templates@.contains_key(t)
                    || template_text(t) is Some),
            forall|t: ContractTemplate| #[trigger]
                final(self).templates@.contains_key(t) ==> if template_text(t) is Some {
                    final(self).templates@[t]@ == template_text(t).unwrap()
                } else {
                    final(self).templates@[t] == old(self).templates@[t]
                },
    {
        self.templates.insert(ContractTemplate::ERC20, ERC20_TEMPLATE.to_owned());
        self.templates.insert(ContractTemplate::MultiSigWallet, MULTISIG_TEMPLATE.to_owned());
        self.templates.insert(ContractTemplate::Staking, STAKING_TEMPLATE.to_owned());
    }

    fn initialize_snippets(&mut self)
        ensures
            final(self).templates == old(self).templates,
            final(self).api_endpoint == old(self).api_endpoint,
            forall|n: Seq<char>| #[trigger]
                final(self).snippets@.contains_key(n) == (old(self).snippets@.contains_key(n)
                    || snippet_text(n) is Some),
            forall|n: Seq<char>| #[trigger]
                final(self).snippets@.contains_key(n) ==> if snippet_text(n) is Some {
                    final(self).snippets@[n]@ == snippet_text(n).unwrap()
                } else {
                    final(self).snippets@[n] == old(self).snippets@[n]
                },
    {
        proof {
            reveal_strlit("access_control");
            reveal_strlit("reentrancy_guard");
            reveal_strlit("safe_math");
        }
        let ghost m0 = self.snippets@;
        let k1 = "access_control".to_owned();
        let v1 = ACCESS_CONTROL_SNIPPET.to_owned();
        let k2 = "reentrancy_guard".to_owned();
        let v2 = REENTRANCY_GUARD_SNIPPET.to_owned();
        let k3 = "safe_math".to_owned();
        let v3 = SAFE_MATH_SNIPPET.to_owned();
        assert(k1@.len() == 14 && k2@.len() == 16 && k3@.len() == 9);
        self.snippets.insert(k1, v1);
        self.snippets.insert(k2, v2);
        self.snippets.insert(k3, v3);
        assert(self.snippets@ == m0.insert(k1@, v1).insert(k2@, v2).insert(k3@, v3));
    }

    /// The template the description points to (see `inferred_template`).
    pub fn infer_template_from_description(&self, description: &str) -> (r: ContractTemplate)
        ensures
            r == inferred_template(description@),
    {
        let d = to_lowercase(description);
        let d = d.as_str();
        if contains(d, "token") || contains(d, "代币") || contains(d, "erc20") {
            ContractTemplate::ERC20
        } else if contains(d, "nft") || contains(d, "erc721") {
            ContractTemplate::ERC721
        } else if contains(d, "multi") || contains(d, "多签") {
            ContractTemplate::MultiSigWallet
        } else if contains(d, "staking") || contains(d, "质押") {
            ContractTemplate::Staking
        } else if contains(d, "vote") || contains(d, "投票") {
            ContractTemplate::Voting
        } else if contains(d, "crowd") || contains(d, "众筹") {
            ContractTemplate::Crowdfunding
        } else if contains(d, "time") || contains(d, "时间锁") {
            ContractTemplate::Timelock
        } else if contains(d, "liquidity") || contains(d, "流动性") {
            ContractTemplate::LiquidityPool
        } else if contains(d, "insurance") || contains(d, "保险") {
            ContractTemplate::Insurance
        } else {
            ContractTemplate::Custom
        }
    }

    /// The gas estimate for a template.
    pub fn estimate_gas(&self, template: &ContractTemplate) -> (r: u64)
        ensures
            r == template_gas(*template),
    {
        match template {
            ContractTemplate::ERC20 => 500000,
            ContractTemplate::ERC721 => 800000,
            ContractTemplate::MultiSigWallet => 1200000,
            ContractTemplate::Staking => 1500000,
            ContractTemplate::Timelock => 600000,
            ContractTemplate::Crowdfunding => 1000000,
            ContractTemplate::Voting => 900000,
            ContractTemplate::LiquidityPool => 2000000,
            ContractTemplate::Insurance => 1800000,
            ContractTemplate::Custom => 1000000,
        }
    }

    /// The deployment parameters of a template (see `deploy_spec`).
    pub fn generate_deploy_params(
        &self,
        template: &ContractTemplate,
        request: &ContractGenerationRequest,
    ) -> (r: Vec<DeployParam>)
        ensures
            deploy_views(r@) == deploy_spec(*template, request.name@, opt_str(request.symbol)),
    {
        let mut v: Vec<DeployParam> = Vec::new();
        match template {
            ContractTemplate::ERC20 => {
                let symbol = match &request.symbol {
                    Some(sym) => Some(sym.clone()),
                    None => None,
                };
                v.push(DeployParam {
                    name: "name".to_owned(),
                    param_type: "string".to_owned(),
                    description: "代币名称".to_owned(),
                    required: true,
                    default_value: Some(request.name.clone()),
                });
                v.push(DeployParam {
                    name: "symbol".to_owned(),
                    param_type: "string".to_owned(),
                    description: "代币符号".to_owned(),
                    required: true,
                    default_value: symbol,
                });
                v.push(DeployParam {
                    name: "decimals".to_owned(),
                    param_type: "uint8".to_owned(),
                    description: "小数位数".to_owned(),
                    required: false,
                    default_value: Some("18".to_owned()),
                });
                v.push(DeployParam {
                    name: "initialSupply".to_owned(),
                    param_type: "uint256".to_owned(),
                    description: "初始供应量".to_owned(),
                    required: true,
                    default_value: Some("1000000000000000000000000".to_owned()),
                });
            },
            ContractTemplate::MultiSigWallet => {
                v.push(DeployParam {
                    name: "owners".to_owned(),
                    param_type: "address[]".to_owned(),
                    description: "所有者地址列表".to_owned(),
                    required: true,
                    default_value: None,
                });
                v.push(DeployParam {
                    name: "required".to_owned(),
                    param_type: "uint256".to_owned(),
                    description: "需要的确认数".to_owned(),
                    required: true,
                    default_value: Some("2".to_owned()),
                });
            },
            ContractTemplate::Staking => {
                v.push(DeployParam {
                    name: "stakingToken".to_owned(),
                    param_type: "address".to_owned(),
                    description: "质押代币地址".to_owned(),
                    required: true,
                    default_value: None,
                });
                v.push(DeployParam {
                    name: "rewardToken".to_owned(),
                    param_type: "address".to_owned(),
                    description: "奖励代币地址".to_owned(),
                    required: true,
                    default_value: None,
                });
                v.push(DeployParam {
                    name: "rewardPerBlock".to_owned(),
                    param_type: "uint256".to_owned(),
                    description: "每区块奖励".to_owned(),
                    required: true,
                    default_value: Some("1000000000000000000".to_owned()),
                });
            },
            _ => {},
        }
        assert(deploy_views(v@) =~= deploy_spec(*template, request.name@, opt_str(request.symbol)));
        v
    }

    /// One finding of an audit.
    fn issue(
        severity: IssueSeverity,
        title: &str,
        description: &str,
        location: &str,
        fix: &str,
    ) -> (r: SecurityIssue)
        ensures
            r@ == (severity, title@, description@, location@, fix@),
    {
        SecurityIssue {
            severity,
            title: title.to_owned(),
            description: description.to_owned(),
            location: location.to_owned(),
            fix_suggestion: fix.to_owned(),
        }
    }

    /// Audits code for unchecked arithmetic, unguarded transfers and missing
    /// access control (see `audit_issues`, `risk_of`, `audit_advice`).
    pub fn perform_security_audit(&self, code: &str) -> (r: SecurityReport)
        ensures
            report_matches(r, code@),
    {
        let mut issues: Vec<SecurityIssue> = Vec::new();
        let mut recommendations: Vec<String> = Vec::new();
        let mut total_checks: usize = 0;
        let mut passed_checks: usize = 0;

        total_checks = total_checks + 1;
        if contains(code, "checked_add") || contains(code, "safe_add") {
            passed_checks = passed_checks + 1;
        } else {
            issues.push(
                Self::issue(
                    IssueSeverity::Error,
                    "整数溢出风险",
                    "未使用安全数学运算",
                    "全局",
                    "使用 safe_add, safe_sub 等安全数学函数",
                ),
            );
        }

        total_checks = total_checks + 1;
        if contains(code, "non_reentrant") || contains(code, "LOCKED") {
            passed_checks = passed_checks + 1;
        } else if contains(code, "transfer") {
            issues.push(
                Self::issue(
                    IssueSeverity::Warning,
                    "潜在重入风险",
                    "转账操作可能受到重入攻击",
                    "transfer 函数",
                    "添加重入锁保护",
                ),
            );
        } else {
            passed_checks = passed_checks + 1;
        }

        total_checks = total_checks + 1;
        if contains(code, "only_owner") || contains(code, "require") {
            passed_checks = passed_checks + 1;
        } else {
            issues.push(
                Self::issue(
                    IssueSeverity::Warning,
                    "缺少访问控制",
                    "关键函数缺少访问控制检查",
                    "全局",
                    "添加 only_owner 或其他访问控制修饰符",
                ),
            );
        }
        assert(issue_views(issues@) =~= audit_issues(code@));

        if issues.len() == 0 {
            recommendations.push("合约看起来安全，建议进行专业审计".to_owned());
        } else {
            recommendations.push("请修复所有安全问题后再部署".to_owned());
            recommendations.push("建议聘请专业安全团队进行审计".to_owned());
        }
        assert(recommendations@.map_values(|s: String| s@) =~= audit_advice(audit_issues(code@)));

        let mut any_critical = false;
        let mut any_error = false;
        let mut i: usize = 0;
        while i < issues.len()
            invariant
                i <= issues@.len(),
                any_critical == exists|j: int|
                    0 <= j < i && (#[trigger] issues@[j]).severity == IssueSeverity::Critical,
                any_error == exists|j: int|
                    0 <= j < i && (#[trigger] issues@[j]).severity == IssueSeverity::Error,
            decreases issues@.len() - i,
        {
            if issues[i].severity == IssueSeverity::Critical {
                any_critical = true;
            }
            if issues[i].severity == IssueSeverity::Error {
                any_error = true;
            }
            i = i + 1;
        }
        let ghost iv = issue_views(issues@);
        assert(any_critical == exists|j: int|
            0 <= j < iv.len() && (#[trigger] iv[j]).0 == IssueSeverity::Critical) by {
            if any_critical {
                let j = choose|j: int|
                    0 <= j < issues@.len() && (#[trigger] issues@[j]).severity
                        == IssueSeverity::Critical;
                assert(iv[j].0 == IssueSeverity::Critical);
            }
        }
        assert(any_error == exists|j: int|
            0 <= j < iv.len() && (#[trigger] iv[j]).0 == IssueSeverity::Error) by {
            if any_error {
                let j = choose|j: int|
                    0 <= j < issues@.len() && (#[trigger] issues@[j]).severity
                        == IssueSeverity::Error;
                assert(iv[j].0 == IssueSeverity::Error);
            }
        }
        let risk_level = if any_critical {
            RiskLevel::Critical
        } else if any_error {
            RiskLevel::High
        } else if issues.len() > 0 {
            RiskLevel::Medium
        } else {
            RiskLevel::Low
        };
        SecurityReport { risk_level, issues, recommendations, total_checks, passed_checks }
    }

    fn param(name: &str, param_type: &str, indexed: bool) -> (r: AbiParam)
        ensures
            r@ == (name@, param_type@, indexed),
    {
        AbiParam { name: name.to_owned(), param_type: param_type.to_owned(), indexed }
    }

    /// The interface entries of a template (see `abi_spec`).
    pub fn generate_abi(
        &self,
        template: &ContractTemplate,
        _request: &ContractGenerationRequest,
    ) -> (r: Vec<ContractAbi>)
        ensures
            abi_views(r@) == abi_spec(*template),
    {
        let mut v: Vec<ContractAbi> = Vec::new();
        match template {
            ContractTemplate::ERC20 => {
                let mut i1 = Vec::new();
                i1.push(Self::param("to", "address", false));
                i1.push(Self::param("amount", "uint256", false));
                let mut o1 = Vec::new();
                o1.push(Self::param("success", "bool", false));
                assert(param_views(i1@) =~= seq![("to"@, "address"@, false), ("amount"@, "uint256"@, false)]);
                assert(param_views(o1@) =~= seq![("success"@, "bool"@, false)]);
                v.push(ContractAbi {
                    name: "transfer".to_owned(),
                    abi_type: AbiType::Function,
                    inputs: i1,
                    outputs: o1,
                    state_mutability: StateMutability::NonPayable,
                });
                let mut i2 = Vec::new();
                i2.push(Self::param("account", "address", false));
                let mut o2 = Vec::new();
                o2.push(Self::param("balance", "uint256", false));
                assert(param_views(i2@) =~= seq![("account"@, "address"@, false)]);
                assert(param_views(o2@) =~= seq![("balance"@, "uint256"@, false)]);
                v.push(ContractAbi {
                    name: "balanceOf".to_owned(),
                    abi_type: AbiType::Function,
                    inputs: i2,
                    outputs: o2,
                    state_mutability: StateMutability::View,
                });
                let mut i3 = Vec::new();
                i3.push(Self::param("from", "address", true));
                i3.push(Self::param("to", "address", true));
                i3.push(Self::param("amount", "uint256", false));
                let o3: Vec<AbiParam> = Vec::new();
                assert(param_views(i3@) =~= seq![("from"@, "address"@, true), ("to"@, "address"@, true), ("amount"@, "uint256"@, false)]);
                assert(param_views(o3@) =~= Seq::empty());
                v.push(ContractAbi {
                    name: "Transfer".to_owned(),
                    abi_type: AbiType::Event,
                    inputs: i3,
                    outputs: o3,
                    state_mutability: StateMutability::View,
                });
            },
            _ => {},
        }
        assert(abi_views(v@) =~= abi_spec(*template));
        v
    }

    /// The code with the snippets its security level asks for (see
    /// `secured_code`).
    pub fn apply_security_features(&self, code: String, level: SecurityLevel) -> (r: String)
        requires
            self.wf(),
        ensures
            r@ == secured_code(code@, level),
    {
        let safe_math = self.snippets.get(&"safe_math".to_owned());
        let reentrancy = self.snippets.get(&"reentrancy_guard".to_owned());
        proof {
            reveal_strlit("safe_math");
            reveal_strlit("reentrancy_guard");
            reveal_strlit("access_control");
            assert("safe_math"@.len() == 9 && "access_control"@.len() == 14
                && "reentrancy_guard"@.len() == 16);
            assert(snippet_text("safe_math"@) == Some(SAFE_MATH_SNIPPET@));
            assert(snippet_text("reentrancy_guard"@) == Some(REENTRANCY_GUARD_SNIPPET@));
        }
        match level {
            SecurityLevel::Basic => code,
            SecurityLevel::Standard => {
                if !contains(code.as_str(), "safe_add") {
                    match safe_math {
                        Some(sm) => {
                            let mut out = sm.clone();
                            push_str(&mut out, "\n");
                            push_str(&mut out, code.as_str());
                            out
                        },
                        None => code,
                    }
                } else {
                    code
                }
            },
            _ => {
                let mut code = code;
                match safe_math {
                    Some(sm) => {
                        let mut out = sm.clone();
                        push_str(&mut out, "\n");
                        push_str(&mut out, code.as_str());
                        code = out;
                    },
                    None => {},
                }
                match reentrancy {
                    Some(rg) => {
                        let mut out = rg.clone();
                        push_str(&mut out, "\n");
                        push_str(&mut out, code.as_str());
                        code = out;
                    },
                    None => {},
                }
                code
            },
        }
    }

    /// The skeleton for a request without a template text (see
    /// `custom_code`).
    pub fn generate_custom_contract(&self, request: &ContractGenerationRequest) -> (r: String)
        ensures
            r@ == custom_code(request.name@, request.description@),
    {
        let name = request.name.as_str();
        let mut out = CUSTOM_HEAD.to_owned();
        push_str(&mut out, name);
        push_str(&mut out, CUSTOM_AFTER_NAME);
        push_str(&mut out, request.description.as_str());
        push_str(&mut out, CUSTOM_AFTER_DESCRIPTION);
        push_str(&mut out, name);
        push_str(&mut out, CUSTOM_AFTER_STRUCT);
        push_str(&mut out, name);
        push_str(&mut out, CUSTOM_AFTER_IMPL);
        push_str(&mut out, name);
        push_str(&mut out, CUSTOM_TAIL);
        out
    }

    /// The template's type names, the symbol and the `{{key}}` placeholders
    /// replaced (see `filled_code`).
    pub fn replace_parameters(&self, code: String, request: &ContractGenerationRequest) -> (r: String)
        ensures
            r@ == filled_code(
                code@,
                request.name@,
                opt_str(request.symbol),
                param_entries(request.parameters.entries()),
            ),
    {
        proof {
            reveal_strlit("ERC20Token");
            reveal_strlit("MultiSigWallet");
            reveal_strlit("StakingContract");
            reveal_strlit("symbol: String");
        }
        let name = request.name.as_str();
        let mut result = replace(code.as_str(), "ERC20Token", name);
        result = replace(result.as_str(), "MultiSigWallet", name);
        result = replace(result.as_str(), "StakingContract", name);
        match &request.symbol {
            Some(symbol) => {
                let mut to = "symbol: String = \"".to_owned();
                push_str(&mut to, symbol.as_str());
                push_str(&mut to, "\".to_string()");
                result = replace(result.as_str(), "symbol: String", to.as_str());
            },
            None => {},
        }
        let ghost start = result@;
        let ghost es = param_entries(request.parameters.entries());
        let n = request.parameters.len();
        let mut i: usize = 0;
        while i < n
            invariant
                n == request.parameters.entries().len(),
                es == param_entries(request.parameters.entries()),
                i <= n,
                result@ == fill_placeholders(start, es.take(i as int)),
            decreases n - i,
        {
            let (key, value) = request.parameters.entry_at(i);
            let mut pat = "{{".to_owned();
            push_str(&mut pat, key.as_str());
            push_str(&mut pat, "}}");
            proof {
                reveal_strlit("{{");
            }
            assert(es.take(i + 1).drop_last() =~= es.take(i as int));
            result = replace(result.as_str(), pat.as_str(), value.as_str());
            i = i + 1;
        }
        assert(es.take(n as int) =~= es);
        result
    }

    /// The usage guide of a template (see `usage_guide_text`).
    pub fn generate_usage_guide(&self, template: &ContractTemplate, abi: &[ContractAbi]) -> (r: String)
        ensures
            r@ == usage_guide_text(*template, abi_views(abi@)),
    {
        let mut guide = "# ".to_owned();
        push_str(&mut guide, template.name());
        push_str(&mut guide, " 使用说明\n\n");
        push_str(&mut guide, "## 部署步骤\n\n");
        push_str(&mut guide, "1. 准备部署参数\n");
        push_str(&mut guide, "2. 编译合约\n");
        push_str(&mut guide, "3. 部署到区块链\n");
        push_str(&mut guide, "4. 验证部署\n\n");
        push_str(&mut guide, "## 函数接口\n\n");
        let ghost head = guide@;
        let ghost av = abi_views(abi@);
        let mut i: usize = 0;
        while i < abi.len()
            invariant
                i <= abi@.len(),
                av == abi_views(abi@),
                guide@ == head + functions_text(av.take(i as int)),
            decreases abi@.len() - i,
        {
            assert(av.take(i + 1).drop_last() =~= av.take(i as int));
            let section = function_section(&abi[i]);
            push_str(&mut guide, section.as_str());
            i = i + 1;
        }
        assert(av.take(abi@.len() as int) =~= av);
        push_str(&mut guide, "## 注意事项\n\n");
        push_str(&mut guide, "- 请确保有足够的 Gas 费用\n");
        push_str(&mut guide, "- 部署前请在测试网测试\n");
        push_str(&mut guide, "- 保存好合约地址和 ABI\n");
        guide
    }

    /// Generates a contract: the chosen template's text (or a skeleton),
    /// hardened for the security level, with names, symbol and placeholders
    /// filled; its interface, deployment parameters, audit, guide and gas.
    /// Generation always succeeds.
    pub fn generate_contract(&self, request: ContractGenerationRequest) -> (r: Result<
        ContractGenerationResult,
        AIError,
    >)
        requires
            self.wf(),
        ensures
            r matches Ok(res) && {
                let t = chosen_template(request);
                &&& res.code@ == generated_code(request)
                &&& res.language == request.language
                &&& abi_views(res.abi@) == abi_spec(t)
                &&& res.bytecode is None
                &&& deploy_views(res.deploy_params@) == deploy_spec(
                    t,
                    request.name@,
                    opt_str(request.symbol),
                )
                &&& report_matches(res.security_report, generated_code(request))
                &&& res.usage_guide@ == usage_guide_text(t, abi_spec(t))
                &&& res.estimated_gas == template_gas(t)
            },
    {
        let template = match request.template {
            Some(t) => t,
            None => self.infer_template_from_description(request.description.as_str()),
        };
        let code = match self.templates.get(&template) {
            Some(c) => c.clone(),
            None => self.generate_custom_contract(&request),
        };
        let code = self.apply_security_features(code, request.security_level);
        let code = self.replace_parameters(code, &request);
        let abi = self.generate_abi(&template, &request);
        let deploy_params = self.generate_deploy_params(&template, &request);
        let security_report = self.perform_security_audit(code.as_str());
        let usage_guide = self.generate_usage_guide(&template, abi.as_slice());
        let estimated_gas = self.estimate_gas(&template);
        Ok(ContractGenerationResult {
            code,
            language: request.language,
            abi,
            bytecode: None,
            deploy_params,
            security_report,
            usage_guide,
            estimated_gas,
        })
    }

    /// Every template with its name and description, in declaration order.
    pub fn get_available_templates(&self) -> (r: Vec<(ContractTemplate, &'static str, &'static str)>)
        ensures
            r@.len() == 10,
            forall|i: int| #![trigger r@[i]]
                0 <= i < 10 ==> r@[i].1@ == template_name(r@[i].0) && r@[i].2@
                    == template_description(r@[i].0),
            r@[0].0 == ContractTemplate::ERC20,
            r@[1].0 == ContractTemplate::ERC721,
            r@[2].0 == ContractTemplate::MultiSigWallet,
            r@[3].0 == ContractTemplate::Timelock,
            r@[4].0 == ContractTemplate::Crowdfunding,
            r@[5].0 == ContractTemplate::Voting,
            r@[6].0 == ContractTemplate::Staking,
            r@[7].0 == ContractTemplate::LiquidityPool,
            r@[8].0 == ContractTemplate::Insurance,
            r@[9].0 == ContractTemplate::Custom,
    {
        let all = [
            ContractTemplate::ERC20,
            ContractTemplate::ERC721,
            ContractTemplate::MultiSigWallet,
            ContractTemplate::Timelock,
            ContractTemplate::Crowdfunding,
            ContractTemplate::Voting,
            ContractTemplate::Staking,
            ContractTemplate::LiquidityPool,
            ContractTemplate::Insurance,
            ContractTemplate::Custom,
        ];
        let mut v: Vec<(ContractTemplate, &'static str, &'static str)> = Vec::new();
        let mut i: usize = 0;
        while i < 10
            invariant
                i <= 10,
                v@.len() == i,
                all@ == seq![
                    ContractTemplate::ERC20,
                    ContractTemplate::ERC721,
                    ContractTemplate::MultiSigWallet,
                    ContractTemplate::Timelock,
                    ContractTemplate::Crowdfunding,
                    ContractTemplate::Voting,
                    ContractTemplate::Staking,
                    ContractTemplate::LiquidityPool,
                    ContractTemplate::Insurance,
                    ContractTemplate::Custom,
                ],
                forall|k: int| #![trigger v@[k]]
                    0 <= k < i ==> v@[k].0 == all@[k] && v@[k].1@ == template_name(v@[k].0)
                        && v@[k].2@ == template_description(v@[k].0),
            decreases 10 - i,
        {
            let t = all[i];
            v.push((t, t.name(), t.description()));
            i = i + 1;
        }
        v
    }
}

impl Default for ContractGenerator {
    fn default() -> (r: Self)
        ensures
            r.wf(),
            r.api_endpoint is None,
    {
        ContractGenerator::new(None)
    }
}

} // verus!
