//! Assistants for the chain: contract generation, natural-language queries,
//! risk scoring, operations monitoring and wallet help.
use vstd::prelude::*;

pub mod templates;
pub mod contract;
pub mod nlp;
pub mod wallet;
pub mod risk;
pub mod ops;
pub mod mining;

use crate::text::{clone_opt, opt_str};

verus! {

/// Which assistants are enabled, and the language-model service to use.
pub struct AIConfig {
    pub enable_smart_mining: bool,
    pub enable_risk_detection: bool,
    pub enable_nlp_query: bool,
    pub enable_smart_ops: bool,
    pub enable_ai_contract: bool,
    pub enable_ai_wallet: bool,
    pub ai_api_endpoint: Option<String>,
    pub ai_api_key: Option<String>,
}

impl AIConfig {
    /// The plain form: the six switches, the endpoint and the key.
    pub open spec fn plain(&self) -> (bool, bool, bool, bool, bool, bool, Option<Seq<char>>, Option<Seq<char>>) {
        (
            self.enable_smart_mining,
            self.enable_risk_detection,
            self.enable_nlp_query,
            self.enable_smart_ops,
            self.enable_ai_contract,
            self.enable_ai_wallet,
            opt_str(self.ai_api_endpoint),
            opt_str(self.ai_api_key),
        )
    }

    /// A copy of the settings.
    pub fn duplicate(&self) -> (r: Self)
        ensures
            r.plain() == self.plain(),
    {
        AIConfig {
            enable_smart_mining: self.enable_smart_mining,
            enable_risk_detection: self.enable_risk_detection,
            enable_nlp_query: self.enable_nlp_query,
            enable_smart_ops: self.enable_smart_ops,
            enable_ai_contract: self.enable_ai_contract,
            enable_ai_wallet: self.enable_ai_wallet,
            ai_api_endpoint: clone_opt(&self.ai_api_endpoint),
            ai_api_key: clone_opt(&self.ai_api_key),
        }
    }
}

impl Default for AIConfig {
    fn default() -> (r: Self)
        ensures
            r.plain() == (true, true, true, true, true, true, None::<Seq<char>>, None::<Seq<char>>),
    {
        AIConfig {
            enable_smart_mining: true,
            enable_risk_detection: true,
            enable_nlp_query: true,
            enable_smart_ops: true,
            enable_ai_contract: true,
            enable_ai_wallet: true,
            ai_api_endpoint: None,
            ai_api_key: None,
        }
    }
}

/// The assistants together with their settings.
pub struct AIService {
    pub config: AIConfig,
    pub risk: risk::RiskEngine,
    pub nlp: nlp::NLPQueryEngine,
    pub ops: ops::OpsMonitor,
    pub contract: contract::ContractGenerator,
    pub wallet: wallet::AIWalletAssistant,
}

impl AIService {
    /// All assistants, fresh; the contract generator uses the configured
    /// endpoint.
    pub fn new(config: AIConfig) -> (r: Self)
        ensures
            r.config.plain() == config.plain(),
            r.nlp.wf(),
            r.contract.wf(),
            opt_str(r.contract.api_endpoint) == opt_str(config.ai_api_endpoint),
            r.wallet.wf(),
            ops::rule_views(r.ops.alert_rules@) == ops::default_rules(),
            r.risk.risk_events@.len() == 0,
    {
        let copy = config.duplicate();
        AIService {
            config: copy,
            risk: risk::RiskEngine::new(),
            nlp: nlp::NLPQueryEngine::new(),
            ops: ops::OpsMonitor::new(),
            contract: contract::ContractGenerator::new(config.ai_api_endpoint),
            wallet: wallet::AIWalletAssistant::new(),
        }
    }

    /// The service with the default settings.
    pub fn default() -> (r: Self)
        ensures
            r.config.plain() == (true, true, true, true, true, true, None::<Seq<char>>, None::<Seq<char>>),
            r.nlp.wf(),
            r.contract.wf(),
            r.wallet.wf(),
    {
        AIService::new(AIConfig::default())
    }
}

/// The errors of the assistants, each with its message.
#[derive(Debug, Clone)]
pub enum AIError {
    MiningError(String),
    RiskError(String),
    NLPError(String),
    OpsError(String),
    ContractError(String),
    WalletError(String),
    APIError(String),
    ConfigError(String),
}

} // verus!
