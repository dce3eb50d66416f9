//! Contract engine: deploying bytecode under an address derived from its
//! hash, per-contract key-value storage, and recorded calls.
use vstd::prelude::*;

pub mod engine;
use crate::keymap::KeyMap;
use crate::text::{push_str, push_decimal, decimal, prefix, hex_encode, hex_lower};
use crate::crypto::{sha256, sha256_spec};

verus! {

/// Deployed bytecode with its interface and hash.
pub struct ContractCode {
    pub bytecode: Vec<u8>,
    pub abi: ContractAbi,
    pub hash: String,
}

/// A contract interface: functions and events.
pub struct ContractAbi {
    pub functions: Vec<FunctionDef>,
    pub events: Vec<EventDef>,
}

/// A function of an interface.
pub struct FunctionDef {
    pub name: String,
    pub inputs: Vec<ParamDef>,
    pub outputs: Vec<ParamDef>,
    pub is_payable: bool,
}

/// A named, typed parameter.
pub struct ParamDef {
    pub name: String,
    pub param_type: String,
}

/// An event of an interface.
pub struct EventDef {
    pub name: String,
    pub params: Vec<ParamDef>,
}

/// The state of a deployed contract.
pub struct ContractState {
    pub address: String,
    pub code_hash: String,
    pub storage: KeyMap<String, Vec<u8>>,
    pub balance: u64,
    pub owner: String,
}

/// Who calls, with what value, under which limits.
pub struct CallContext {
    pub caller: String,
    pub contract: String,
    pub value: u64,
    pub gas_limit: u64,
    pub block_number: u64,
    pub timestamp: i64,
}

/// The outcome of a call.
pub struct ExecutionResult {
    pub success: bool,
    pub return_data: Vec<u8>,
    pub gas_used: u64,
    pub logs: Vec<LogEntry>,
    pub error: Option<String>,
}

/// A log record.
pub struct LogEntry {
    pub address: String,
    pub topics: Vec<String>,
    pub data: Vec<u8>,
}

/// Why an engine operation failed.
#[derive(Debug)]
pub enum ContractError {
    InvalidBytecode(String),
    ContractNotFound,
    FunctionNotFound(String),
    ExecutionError(String),
    InsufficientBalance,
    InvalidArguments,
    StorageError,
}

/// The message of each error.
pub open spec fn contract_error_text(e: ContractError) -> Seq<char> {
    match e {
        ContractError::InvalidBytecode(m) => "无效的字节码: "@ + m@,
        ContractError::ContractNotFound => "合约未找到"@,
        ContractError::FunctionNotFound(n) => "函数未找到: "@ + n@,
        ContractError::ExecutionError(m) => "执行错误: "@ + m@,
        ContractError::InsufficientBalance => "余额不足"@,
        ContractError::InvalidArguments => "无效的参数"@,
        ContractError::StorageError => "存储错误"@,
    }
}

impl ContractError {
    /// The message shown for the error.
    pub fn message(&self) -> (r: String)
        ensures
            r@ == contract_error_text(*self),
    {
        let mut s = String::new();
        match self {
            ContractError::InvalidBytecode(m) => {
                push_str(&mut s, "无效的字节码: ");
                push_str(&mut s, m.as_str());
            },
            ContractError::ContractNotFound => push_str(&mut s, "合约未找到"),
            ContractError::FunctionNotFound(n) => {
                push_str(&mut s, "函数未找到: ");
                push_str(&mut s, n.as_str());
            },
            ContractError::ExecutionError(m) => {
                push_str(&mut s, "执行错误: ");
                push_str(&mut s, m.as_str());
            },
            ContractError::InsufficientBalance => push_str(&mut s, "余额不足"),
            ContractError::InvalidArguments => push_str(&mut s, "无效的参数"),
            ContractError::StorageError => push_str(&mut s, "存储错误"),
        }
        s
    }
}

/// Lower-case hexadecimal SHA-256 of the bytecode.
pub open spec fn code_hash_of(code: Seq<u8>) -> Seq<char> {
    hex_lower(sha256_spec(code))
}

/// The address of a contract: `0x` and the first 40 characters of its code hash.
pub open spec fn contract_address(code: Seq<u8>) -> Seq<char> {
    "0x"@ + code_hash_of(code).take(40)
}

/// The engine: code by hash, states by address, storage by address.
pub struct ContractEngine {
    contracts: KeyMap<String, ContractCode>,
    states: KeyMap<String, ContractState>,
    storage_db: KeyMap<String, KeyMap<String, Vec<u8>>>,
}

impl ContractEngine {
    /// Deployed code by hash.
    pub closed spec fn codes(&self) -> Map<Seq<char>, ContractCode> {
        self.contracts@
    }

    /// Contract states by address.
    pub closed spec fn states(&self) -> Map<Seq<char>, ContractState> {
        self.states@
    }

    /// Whether storage exists for `address`.
    pub closed spec fn has_storage(&self, address: Seq<char>) -> bool {
        self.storage_db@.contains_key(address)
    }

    /// The value stored under `key` for `address`, if any.
    pub closed spec fn stored(&self, address: Seq<char>, key: Seq<char>) -> Option<Seq<u8>> {
        if self.storage_db@.contains_key(address) && self.storage_db@[address]@.contains_key(key) {
            Some(self.storage_db@[address]@[key]@)
        } else {
            None
        }
    }

    /// An empty engine.
    pub fn new() -> (r: Result<Self, ContractError>)
        ensures
            r matches Ok(e) && e.codes() == Map::<Seq<char>, ContractCode>::empty() && e.states()
                == Map::<Seq<char>, ContractState>::empty() && forall|a: Seq<char>| !e.has_storage(a),
    {
        Ok(ContractEngine { contracts: KeyMap::new(), states: KeyMap::new(), storage_db: KeyMap::new() })
    }

    /// Hexadecimal SHA-256 of `code`.
    fn calculate_code_hash(code: &[u8]) -> (r: String)
        ensures
            r@ == code_hash_of(code@),
            r@.len() == 64,
    {
        let d = sha256(code);
        hex_encode(d.as_slice())
    }

    /// Deploys `code` at `contract_address(code)` with `initial_balance`, owned
    /// by `deployer`, with empty storage.
    pub fn deploy_contract(&mut self, code: Vec<u8>, abi: ContractAbi, deployer: String, initial_balance: u64) -> (r:
        Result<String, ContractError>)
        ensures
            r matches Ok(a) && a@ == contract_address(code@),
            final(self).codes().contains_key(code_hash_of(code@)),
            final(self).codes()[code_hash_of(code@)].bytecode@ == code@,
            final(self).states().contains_key(contract_address(code@)),
            final(self).states()[contract_address(code@)].address@ == contract_address(code@),
            final(self).states()[contract_address(code@)].code_hash@ == code_hash_of(code@),
            final(self).states()[contract_address(code@)].storage@ == Map::<Seq<char>, Vec<u8>>::empty(),
            final(self).states()[contract_address(code@)].balance == initial_balance,
            final(self).states()[contract_address(code@)].owner@ == deployer@,
            final(self).has_storage(contract_address(code@)),
            forall|k: Seq<char>| final(self).stored(contract_address(code@), k) is None,
            forall|a: Seq<char>, k: Seq<char>| a != contract_address(code@) ==> final(self).stored(a, k) == old(self).stored(a, k),
    {
        let hash = Self::calculate_code_hash(code.as_slice());
        let head = prefix(hash.as_str(), 40);
        let mut address = String::new();
        proof {
            reveal_strlit("0x");
        }
        push_str(&mut address, "0x");
        push_str(&mut address, head.as_str());
        let ghost code_view = code@;
        let contract_code = ContractCode { bytecode: code, abi, hash: hash.clone() };
        let state = ContractState {
            address: address.clone(),
            code_hash: hash.clone(),
            storage: KeyMap::new(),
            balance: initial_balance,
            owner: deployer,
        };
        self.contracts.insert(hash, contract_code);
        self.states.insert(address.clone(), state);
        let ghost old_db = self.storage_db@;
        let empty: KeyMap<String, Vec<u8>> = KeyMap::new();
        self.storage_db.insert(address.clone(), empty);
        assert(address@ == contract_address(code_view));
        Ok(address)
    }

    /// Records a call of `function` on the contract at `contract_addr`; the
    /// code is not run. Refused for an unknown contract or code.
    pub fn call_contract(&mut self, contract_addr: &str, function: &str, args: Vec<Vec<u8>>, ctx: CallContext) -> (r:
        Result<ExecutionResult, ContractError>)
        ensures
            *final(self) == *old(self),
            !(old(self).states().contains_key(contract_addr@) && old(self).codes().contains_key(
                old(self).states()[contract_addr@].code_hash@,
            )) ==> (r matches Err(e) && e is ContractNotFound),
            old(self).states().contains_key(contract_addr@) && old(self).codes().contains_key(
                old(self).states()[contract_addr@].code_hash@,
            ) ==> (r matches Ok(res) && res.success && res.return_data@.len() == 0 && res.gas_used == 21000
                && res.error is None && res.logs@.len() == 1 && res.logs@[0].address@ == contract_addr@
                && res.logs@[0].topics@.len() == 1 && res.logs@[0].topics@[0]@ == "FunctionCalled: "@
                + function@ && res.logs@[0].data@ == vstd::utf8::encode_utf8(
                "caller: "@ + ctx.caller@ + ", value: "@ + decimal(ctx.value as nat),
            )),
    {
        let state = match self.states.get(&contract_addr.to_string()) {
            Some(s) => s,
            None => {
                return Err(ContractError::ContractNotFound);
            },
        };
        if !self.contracts.contains_key(&state.code_hash) {
            return Err(ContractError::ContractNotFound);
        }
        let mut topic = String::new();
        push_str(&mut topic, "FunctionCalled: ");
        push_str(&mut topic, function);
        let mut topics: Vec<String> = Vec::new();
        topics.push(topic);
        let mut data = String::new();
        push_str(&mut data, "caller: ");
        push_str(&mut data, ctx.caller.as_str());
        push_str(&mut data, ", value: ");
        push_decimal(&mut data, ctx.value);
        let bytes = crate::bytes::to_vec(data.as_str().as_bytes());
        let log = LogEntry { address: contract_addr.to_string(), topics, data: bytes };
        let mut logs: Vec<LogEntry> = Vec::new();
        logs.push(log);
        Ok(ExecutionResult { success: true, return_data: Vec::new(), gas_used: 21000, logs, error: None })
    }

    /// The state of the contract at `address`.
    pub fn get_contract_state(&self, address: &str) -> (r: Option<&ContractState>)
        ensures
            self.states().contains_key(address@) ==> (r matches Some(s) && *s == self.states()[address@]),
            !self.states().contains_key(address@) ==> r is None,
    {
        self.states.get(&address.to_string())
    }

    /// A copy of the value stored under `key` for `address`.
    pub fn get_storage(&self, address: &str, key: &str) -> (r: Option<Vec<u8>>)
        ensures
            match self.stored(address@, key@) {
                Some(v) => r matches Some(x) && x@ == v,
                None => r is None,
            },
    {
        match self.storage_db.get(&address.to_string()) {
            Some(inner) => match inner.get(&key.to_string()) {
                Some(v) => Some(crate::bytes::to_vec(v.as_slice())),
                None => None,
            },
            None => None,
        }
    }

    /// Stores `value` under `key` for `address`; refused for an unknown address.
    pub fn set_storage(&mut self, address: &str, key: &str, value: Vec<u8>) -> (r: Result<(), ContractError>)
        ensures
            !old(self).has_storage(address@) ==> (r matches Err(e) && e is ContractNotFound) && final(self).stored(address@, key@) == old(self).stored(address@, key@),
            old(self).has_storage(address@) ==> r is Ok && final(self).stored(address@, key@) == Some(value@),
            forall|a: Seq<char>, k: Seq<char>| (a != address@ || k != key@) ==> final(self).stored(a, k) == old(self).stored(a, k),
            forall|a: Seq<char>| final(self).has_storage(a) == old(self).has_storage(a),
            final(self).states() == old(self).states(),
            final(self).codes() == old(self).codes(),
    {
        let addr = address.to_string();
        if !self.storage_db.contains_key(&addr) {
            return Err(ContractError::ContractNotFound);
        }
        let ghost old_db = self.storage_db@;
        let inner = self.storage_db.value_mut(&addr);
        inner.insert(key.to_string(), value);
        Ok(())
    }
}

impl Default for ContractEngine {
    fn default() -> (r: Self)
        ensures
            r.codes() == Map::<Seq<char>, ContractCode>::empty(),
            r.states() == Map::<Seq<char>, ContractState>::empty(),
            forall|a: Seq<char>| !r.has_storage(a),
    {
        match Self::new() {
            Ok(e) => e,
            Err(_) => {
                proof {
                    assert(false);
                }
                ContractEngine { contracts: KeyMap::new(), states: KeyMap::new(), storage_db: KeyMap::new() }
            },
        }
    }
}

/// A counter contract in the WebAssembly text format.
pub const COUNTER_CONTRACT_WAT: &'static str = r#"
(module
    ;; 导入主机函数
    (import "env" "storage_read" (func $storage_read (param i32 i32 i32 i32) (result i32)))
    (import "env" "storage_write" (func $storage_write (param i32 i32 i32 i32) (result i32)))
    (import "env" "log" (func $log (param i32 i32)))
    
    ;; 内存
    (memory 1)
    
    ;; 数据段
    (data (i32.const 0) "count")
    
    ;; 计数器值存储在内存位置 100
    (global $counter (mut i32) (i32.const 0))
    
    ;; 获取计数器值
    (func $get (result i32)
        global.get $counter
    )
    
    ;; 增加计数器
    (func $increment (result i32)
        global.get $counter
        i32.const 1
        i32.add
        global.set $counter
        i32.const 0  ;; 成功返回 0
    )
    
    ;; 减少计数器
    (func $decrement (result i32)
        global.get $counter
        i32.const 1
        i32.sub
        global.set $counter
        i32.const 0  ;; 成功返回 0
    )
    
    ;; 导出函数
    (export "get" (func $get))
    (export "increment" (func $increment))
    (export "decrement" (func $decrement))
    (export "memory" (memory 0))
)
"#;

/// What the text-format assembler makes of a module: its binary, or `None`
/// when the text does not parse.
pub uninterp spec fn wat_binary(src: Seq<char>) -> Option<Seq<u8>>;

/// `wat::parse_str`, the error rendered with `to_string`.
#[verifier::external_body]
fn parse_wat(src: &str) -> (r: Result<Vec<u8>, String>)
    ensures
        r matches Ok(b) ==> wat_binary(src@) == Some(b@),
        r is Err ==> wat_binary(src@) is None,
{
    wat::parse_str(src).map_err(|e| e.to_string())
}

/// Assembles a module from the text format.
pub fn compile_wat(wat: &str) -> (r: Result<Vec<u8>, String>)
    ensures
        r matches Ok(b) ==> wat_binary(wat@) == Some(b@),
        r is Err ==> wat_binary(wat@) is None,
{
    parse_wat(wat)
}

fn param(name: &str, param_type: &str) -> (r: ParamDef)
    ensures
        r.name@ == name@,
        r.param_type@ == param_type@,
{
    ParamDef { name: name.to_string(), param_type: param_type.to_string() }
}

fn function(name: &str, output: &str) -> (r: FunctionDef)
    ensures
        r.name@ == name@,
        r.inputs@.len() == 0,
        r.outputs@.len() == 1,
        r.outputs@[0].name@ == output@,
        r.outputs@[0].param_type@ == "i32"@,
        !r.is_payable,
{
    let mut outputs: Vec<ParamDef> = Vec::new();
    outputs.push(param(output, "i32"));
    FunctionDef { name: name.to_string(), inputs: Vec::new(), outputs, is_payable: false }
}

/// The counter contract's binary and interface: `get`, `increment` and
/// `decrement`, each returning one `i32`.
pub fn create_counter_contract() -> (r: Result<(Vec<u8>, ContractAbi), String>)
    ensures
        r matches Ok((b, abi)) ==> wat_binary(COUNTER_CONTRACT_WAT@) == Some(b@) && abi.functions@.len() == 3
            && abi.functions@[0].name@ == "get"@ && abi.functions@[1].name@ == "increment"@
            && abi.functions@[2].name@ == "decrement"@ && abi.events@.len() == 0,
        r is Err ==> wat_binary(COUNTER_CONTRACT_WAT@) is None,
{
    let wasm = match compile_wat(COUNTER_CONTRACT_WAT) {
        Ok(w) => w,
        Err(e) => {
            return Err(e);
        },
    };
    let mut functions: Vec<FunctionDef> = Vec::new();
    functions.push(function("get", "count"));
    functions.push(function("increment", "success"));
    functions.push(function("decrement", "success"));
    Ok((wasm, ContractAbi { functions, events: Vec::new() }))
}

} // verus!
