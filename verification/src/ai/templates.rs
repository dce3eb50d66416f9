//! Long fixed texts: contract templates, security snippets and help pages.
use vstd::prelude::*;

verus! {

/// The ERC20 token template.
pub const ERC20_TEMPLATE: &'static str = r#"// ERC20 Token Contract
// Generated by YRust AI Contract Generator

pub struct ERC20Token {
    name: String,
    symbol: String,
    decimals: u8,
    total_supply: u128,
    balances: HashMap<String, u128>,
    allowances: HashMap<(String, String), u128>,
}

impl ERC20Token {
    pub fn new(name: String, symbol: String, decimals: u8, initial_supply: u128) -> Self {
        let mut token = ERC20Token {
            name,
            symbol,
            decimals,
            total_supply: initial_supply,
            balances: HashMap::new(),
            allowances: HashMap::new(),
        };
        token.balances.insert(msg::sender(), initial_supply);
        token
    }

    pub fn transfer(&mut self, to: String, amount: u128) -> Result<(), &'static str> {
        let from = msg::sender();
        let from_balance = self.balances.get(&from).copied().unwrap_or(0);
        
        if from_balance < amount {
            return Err("Insufficient balance");
        }
        
        self.balances.insert(from.clone(), from_balance - amount);
        let to_balance = self.balances.get(&to).copied().unwrap_or(0);
        self.balances.insert(to, to_balance + amount);
        
        emit!(Transfer { from, to, amount });
        Ok(())
    }

    pub fn approve(&mut self, spender: String, amount: u128) {
        let owner = msg::sender();
        self.allowances.insert((owner.clone(), spender.clone()), amount);
        emit!(Approval { owner, spender, amount });
    }

    pub fn transfer_from(&mut self, from: String, to: String, amount: u128) -> Result<(), &'static str> {
        let spender = msg::sender();
        let allowance = self.allowances.get(&(from.clone(), spender.clone())).copied().unwrap_or(0);
        
        if allowance < amount {
            return Err("Insufficient allowance");
        }
        
        let from_balance = self.balances.get(&from).copied().unwrap_or(0);
        if from_balance < amount {
            return Err("Insufficient balance");
        }
        
        self.allowances.insert((from.clone(), spender.clone()), allowance - amount);
        self.balances.insert(from.clone(), from_balance - amount);
        let to_balance = self.balances.get(&to).copied().unwrap_or(0);
        self.balances.insert(to, to_balance + amount);
        
        emit!(Transfer { from, to, amount });
        Ok(())
    }

    pub fn balance_of(&self, account: String) -> u128 {
        self.balances.get(&account).copied().unwrap_or(0)
    }

    pub fn allowance(&self, owner: String, spender: String) -> u128 {
        self.allowances.get(&(owner, spender)).copied().unwrap_or(0)
    }
}

event Transfer {
    from: String,
    to: String,
    amount: u128,
}

event Approval {
    owner: String,
    spender: String,
    amount: u128,
}"#;

/// The multi-signature wallet template.
pub const MULTISIG_TEMPLATE: &'static str = r#"// Multi-Signature Wallet Contract
// Generated by YRust AI Contract Generator

pub struct MultiSigWallet {
    owners: Vec<String>,
    required_confirmations: u32,
    transactions: Vec<Transaction>,
    confirmations: HashMap<(u64, String), bool>,
}

struct Transaction {
    to: String,
    value: u128,
    data: Vec<u8>,
    executed: bool,
}

impl MultiSigWallet {
    pub fn new(owners: Vec<String>, required: u32) -> Result<Self, &'static str> {
        if owners.is_empty() {
            return Err("Owners required");
        }
        if required == 0 || required > owners.len() as u32 {
            return Err("Invalid required confirmations");
        }
        
        Ok(MultiSigWallet {
            owners,
            required_confirmations: required,
            transactions: Vec::new(),
            confirmations: HashMap::new(),
        })
    }

    pub fn submit_transaction(&mut self, to: String, value: u128, data: Vec<u8>) -> u64 {
        let tx_index = self.transactions.len() as u64;
        self.transactions.push(Transaction {
            to,
            value,
            data,
            executed: false,
        });
        emit!(Submission { transaction_id: tx_index });
        tx_index
    }

    pub fn confirm_transaction(&mut self, tx_id: u64) -> Result<(), &'static str> {
        let sender = msg::sender();
        
        if !self.is_owner(&sender) {
            return Err("Not an owner");
        }
        
        self.confirmations.insert((tx_id, sender), true);
        emit!(Confirmation { sender, transaction_id: tx_id });
        
        if self.is_confirmed(tx_id) {
            self.execute_transaction(tx_id)?;
        }
        
        Ok(())
    }

    fn is_confirmed(&self, tx_id: u64) -> bool {
        let count = self.owners
            .iter()
            .filter(|owner| self.confirmations.get(&(tx_id, owner.to_string())).copied().unwrap_or(false))
            .count() as u32;
        count >= self.required_confirmations
    }

    fn execute_transaction(&mut self, tx_id: u64) -> Result<(), &'static str> {
        let tx = self.transactions.get_mut(tx_id as usize)
            .ok_or("Transaction does not exist")?;
        
        if tx.executed {
            return Err("Already executed");
        }
        
        tx.executed = true;
        // 执行转账逻辑...
        
        emit!(Execution { transaction_id: tx_id });
        Ok(())
    }

    fn is_owner(&self, addr: &str) -> bool {
        self.owners.contains(&addr.to_string())
    }
}

event Submission { transaction_id: u64 }
event Confirmation { sender: String, transaction_id: u64 }
event Execution { transaction_id: u64 }"#;

/// The staking template.
pub const STAKING_TEMPLATE: &'static str = r#"// Staking Contract
// Generated by YRust AI Contract Generator

pub struct StakingContract {
    staking_token: String,
    reward_token: String,
    reward_per_block: u128,
    total_staked: u128,
    pool_info: PoolInfo,
    user_info: HashMap<String, UserInfo>,
}

struct PoolInfo {
    last_reward_block: u64,
    acc_reward_per_share: u128,
}

struct UserInfo {
    amount: u128,
    reward_debt: u128,
    pending_rewards: u128,
}

impl StakingContract {
    pub fn new(staking_token: String, reward_token: String, reward_per_block: u128) -> Self {
        StakingContract {
            staking_token,
            reward_token,
            reward_per_block,
            total_staked: 0,
            pool_info: PoolInfo {
                last_reward_block: block::number(),
                acc_reward_per_share: 0,
            },
            user_info: HashMap::new(),
        }
    }

    pub fn deposit(&mut self, amount: u128) -> Result<(), &'static str> {
        self.update_pool();
        
        let sender = msg::sender();
        let user = self.user_info.entry(sender.clone()).or_insert(UserInfo {
            amount: 0,
            reward_debt: 0,
            pending_rewards: 0,
        });
        
        if user.amount > 0 {
            let pending = self.pending_reward(&sender);
            user.pending_rewards += pending;
        }
        
        // 转账逻辑...
        user.amount += amount;
        self.total_staked += amount;
        user.reward_debt = user.amount * self.pool_info.acc_reward_per_share / 1e12 as u128;
        
        emit!(Deposit { user: sender, amount });
        Ok(())
    }

    pub fn withdraw(&mut self, amount: u128) -> Result<(), &'static str> {
        self.update_pool();
        
        let sender = msg::sender();
        let user = self.user_info.get_mut(&sender).ok_or("No deposit")?;
        
        if user.amount < amount {
            return Err("Insufficient staked amount");
        }
        
        let pending = self.pending_reward(&sender);
        user.pending_rewards += pending;
        
        user.amount -= amount;
        self.total_staked -= amount;
        user.reward_debt = user.amount * self.pool_info.acc_reward_per_share / 1e12 as u128;
        
        // 转账逻辑...
        
        emit!(Withdraw { user: sender, amount });
        Ok(())
    }

    pub fn claim(&mut self) -> Result<u128, &'static str> {
        self.update_pool();
        
        let sender = msg::sender();
        let user = self.user_info.get_mut(&sender).ok_or("No deposit")?;
        
        let pending = self.pending_reward(&sender) + user.pending_rewards;
        if pending == 0 {
            return Err("No rewards to claim");
        }
        
        user.pending_rewards = 0;
        user.reward_debt = user.amount * self.pool_info.acc_reward_per_share / 1e12 as u128;
        
        // 转账奖励...
        
        emit!(Claim { user: sender, amount: pending });
        Ok(pending)
    }

    fn update_pool(&mut self) {
        let current_block = block::number();
        if current_block <= self.pool_info.last_reward_block {
            return;
        }
        
        if self.total_staked == 0 {
            self.pool_info.last_reward_block = current_block;
            return;
        }
        
        let multiplier = current_block - self.pool_info.last_reward_block;
        let reward = multiplier as u128 * self.reward_per_block;
        self.pool_info.acc_reward_per_share += reward * 1e12 as u128 / self.total_staked;
        self.pool_info.last_reward_block = current_block;
    }

    fn pending_reward(&self, user: &str) -> u128 {
        let user_info = match self.user_info.get(user) {
            Some(u) => u,
            None => return 0,
        };
        
        let acc_reward = self.pool_info.acc_reward_per_share;
        user_info.amount * acc_reward / 1e12 as u128 - user_info.reward_debt
    }
}

event Deposit { user: String, amount: u128 }
event Withdraw { user: String, amount: u128 }
event Claim { user: String, amount: u128 }"#;

/// The owner-only access check.
pub const ACCESS_CONTROL_SNIPPET: &'static str = r#"
// Access Control Modifier
fn only_owner(&self) -> Result<(), &'static str> {
    if msg::sender() != self.owner {
        return Err("Only owner can call this function");
    }
    Ok(())
}
"#;

/// The reentrancy lock.
pub const REENTRANCY_GUARD_SNIPPET: &'static str = r#"
// Reentrancy Guard
static mut LOCKED: bool = false;

fn non_reentrant<F, R>(f: F) -> R
where
    F: FnOnce() -> R,
{
    unsafe {
        require!(!LOCKED, "Reentrant call");
        LOCKED = true;
        let result = f();
        LOCKED = false;
        result
    }
}
"#;

/// The checked arithmetic helpers.
pub const SAFE_MATH_SNIPPET: &'static str = r#"
// Safe Math
fn safe_add(a: u128, b: u128) -> Result<u128, &'static str> {
    a.checked_add(b).ok_or("Addition overflow")
}

fn safe_sub(a: u128, b: u128) -> Result<u128, &'static str> {
    a.checked_sub(b).ok_or("Subtraction underflow")
}

fn safe_mul(a: u128, b: u128) -> Result<u128, &'static str> {
    a.checked_mul(b).ok_or("Multiplication overflow")
}

fn safe_div(a: u128, b: u128) -> Result<u128, &'static str> {
    if b == 0 {
        return Err("Division by zero");
    }
    Ok(a / b)
}
"#;

/// Custom contract text before the name.
pub const CUSTOM_HEAD: &'static str = r#"// Custom Contract: "#;

/// Custom contract text between the name and the description.
pub const CUSTOM_AFTER_NAME: &'static str = r#"
// Generated by YRust AI Contract Generator
// Description: "#;

/// Custom contract text between the description and the struct name.
pub const CUSTOM_AFTER_DESCRIPTION: &'static str = r#"

use std::collections::HashMap;

pub struct "#;

/// Custom contract text between the struct name and the impl name.
pub const CUSTOM_AFTER_STRUCT: &'static str = r#" {
    owner: String,
    // TODO: Add your state variables here
}

impl "#;

/// Custom contract text between the impl name and the constructor name.
pub const CUSTOM_AFTER_IMPL: &'static str = r#" {
    pub fn new() -> Self {
        "#;

/// Custom contract text after the constructor name.
pub const CUSTOM_TAIL: &'static str = r#" {
            owner: msg::sender(),
        }
    }

    // TODO: Add your functions here
    
    fn only_owner(&self) -> Result<(), &'static str> {
        if msg::sender() != self.owner {
            return Err("Only owner");
        }
        Ok(())
    }
}
"#;

/// The help text of the query engine.
pub const NLP_HELP_TEXT: &'static str = r#"YRust Chain AI 区块浏览器使用帮助:

支持的查询类型:
1. 余额查询 - "查询地址 Yxxx 的余额"
2. 交易查询 - "查找交易 0xabc..."
3. 区块查询 - "查看区块 1000" 或 "最新区块"
4. 统计信息 - "区块链统计" 或 "网络状态"
5. 地址历史 - "地址 Yxxx 的交易历史"
6. 挖矿信息 - "当前挖矿难度" 或 "网络算力"

示例:
- "我的余额是多少" (需要先设置用户地址)
- "最新区块有多少交易"
- "地址 Y1abc... 收到过多少转账"

你可以用自然语言提问，我会尽力理解你的意图!"#;

/// The help text of the voice assistant.
pub const VOICE_HELP_TEXT: &'static str = r#"语音助手使用指南:

转账指令示例:
- "转账 10 个 YRU 给张三"
- "发送 5 YRU 到地址 Y1abc..."
- "转给李四 100 代币"

查询指令:
- "查询余额"
- "查看交易历史"
- "显示我的资产"

其他指令:
- "添加联系人 王五 地址 Y2def..."
- "设置价格提醒"
- "需要帮助"

提示:
- 说话时请保持清晰
- 金额和地址是关键信息
- 大额转账需要二次确认
"#;

} // verus!
