//! The data of a slot-addressed contract runtime: contract interfaces,
//! per-contract storage slots, call contexts and results.
use vstd::prelude::*;
use crate::keymap::KeyMap;
use crate::text::push_str;

verus! {

/// A deployed contract.
#[derive(Debug, Clone)]
pub struct Contract {
    pub address: String,
    pub code: Vec<u8>,
    pub abi: ContractAbi,
    pub creator: String,
    pub created_at: i64,
}

/// A contract's interface: functions, events and state variables.
#[derive(Debug, Clone)]
pub struct ContractAbi {
    pub functions: Vec<FunctionDef>,
    pub events: Vec<EventDef>,
    pub state_vars: Vec<StateVar>,
}

/// A callable function.
#[derive(Debug, Clone)]
pub struct FunctionDef {
    pub name: String,
    pub inputs: Vec<Param>,
    pub outputs: Vec<Param>,
    pub state_mutability: StateMutability,
}

/// A named, typed parameter.
#[derive(Debug, Clone)]
pub struct Param {
    pub name: String,
    pub param_type: String,
}

/// What a function may do to the contract's state.
#[derive(Debug, Clone, Copy, PartialEq, Eq, Structural)]
pub enum StateMutability {
    /// Neither reads nor writes the state.
    Pure,
    /// Reads the state only.
    View,
    /// Accepts tokens.
    Payable,
    /// Writes the state.
    NonPayable,
}

/// An event a contract emits.
#[derive(Debug, Clone)]
pub struct EventDef {
    pub name: String,
    pub params: Vec<EventParam>,
}

/// A parameter of an event, possibly indexed.
#[derive(Debug, Clone)]
pub struct EventParam {
    pub name: String,
    pub param_type: String,
    pub indexed: bool,
}

/// A state variable and the storage slot holding it.
#[derive(Debug, Clone)]
pub struct StateVar {
    pub name: String,
    pub var_type: String,
    pub slot: u32,
}

/// A contract's storage slots and balance.
pub struct ContractState {
    pub storage: KeyMap<u32, Vec<u8>>,
    pub balance: u64,
}

impl ContractState {
    /// Empty storage and a zero balance.
    pub fn new() -> (r: Self)
        ensures
            r.storage@ == Map::<u32, Vec<u8>>::empty(),
            r.balance == 0,
    {
        ContractState { storage: KeyMap::new(), balance: 0 }
    }

    /// A copy of the value in `slot`; empty for a slot never written.
    pub fn load(&self, slot: u32) -> (r: Vec<u8>)
        ensures
            self.storage@.contains_key(slot) ==> r@ == self.storage@[slot]@,
            !self.storage@.contains_key(slot) ==> r@ == Seq::<u8>::empty(),
    {
        match self.storage.get(&slot) {
            Some(v) => crate::bytes::to_vec(v.as_slice()),
            None => Vec::new(),
        }
    }

    /// Writes `value` into `slot`.
    pub fn store(&mut self, slot: u32, value: Vec<u8>)
        ensures
            final(self).storage@ == old(self).storage@.insert(slot, value),
            final(self).balance == old(self).balance,
    {
        self.storage.insert(slot, value);
    }
}

/// Who calls which contract, with what value and limits, in which block.
#[derive(Debug, Clone)]
pub struct CallContext {
    pub caller: String,
    pub contract: String,
    pub value: u64,
    pub gas_limit: u64,
    pub block_number: u64,
    pub block_timestamp: i64,
}

/// The outcome of a call.
#[derive(Debug, Clone)]
pub struct ExecutionResult {
    pub success: bool,
    pub return_data: Vec<u8>,
    pub gas_used: u64,
    pub logs: Vec<LogEntry>,
    pub error: Option<String>,
}

/// An event record.
#[derive(Debug, Clone)]
pub struct LogEntry {
    pub address: String,
    pub topics: Vec<String>,
    pub data: Vec<u8>,
}

/// Why a contract operation failed.
#[derive(Debug)]
pub enum ContractError {
    InvalidBytecode(String),
    ContractNotFound,
    FunctionNotFound(String),
    ExecutionError(String),
    InstantiationError(String),
    InsufficientBalance,
}

/// The message of each error.
pub open spec fn error_text(e: ContractError) -> Seq<char> {
    match e {
        ContractError::InvalidBytecode(m) => "Invalid bytecode: "@ + m@,
        ContractError::ContractNotFound => "Contract not found"@,
        ContractError::FunctionNotFound(n) => "Function not found: "@ + n@,
        ContractError::ExecutionError(m) => "Execution error: "@ + m@,
        ContractError::InstantiationError(m) => "Instantiation error: "@ + m@,
        ContractError::InsufficientBalance => "Insufficient balance"@,
    }
}

impl ContractError {
    /// The message shown for the error.
    pub fn message(&self) -> (r: String)
        ensures
            r@ == error_text(*self),
    {
        let mut s = String::new();
        match self {
            ContractError::InvalidBytecode(m) => {
                push_str(&mut s, "Invalid bytecode: ");
                push_str(&mut s, m.as_str());
            },
            ContractError::ContractNotFound => push_str(&mut s, "Contract not found"),
            ContractError::FunctionNotFound(n) => {
                push_str(&mut s, "Function not found: ");
                push_str(&mut s, n.as_str());
            },
            ContractError::ExecutionError(m) => {
                push_str(&mut s, "Execution error: ");
                push_str(&mut s, m.as_str());
            },
            ContractError::InstantiationError(m) => {
                push_str(&mut s, "Instantiation error: ");
                push_str(&mut s, m.as_str());
            },
            ContractError::InsufficientBalance => push_str(&mut s, "Insufficient balance"),
        }
        s
    }
}

} // verus!
