use yrust_chain::vm::{compile_wat, create_counter_contract, CallContext, ContractEngine, ContractError, COUNTER_CONTRACT_WAT};

#[test]
fn test_contract_engine_creation() {
    let engine = ContractEngine::new();
    assert!(engine.is_ok());
}

#[test]
fn test_compile_wat() {
    let result = compile_wat(COUNTER_CONTRACT_WAT);
    assert!(result.is_ok());
    assert!(!result.unwrap().is_empty());
}

#[test]
fn test_deploy_contract() {
    let mut engine = ContractEngine::new().unwrap();
    let (wasm, abi) = create_counter_contract().unwrap();

    let address = engine.deploy_contract(wasm, abi, "deployer".to_string(), 0).unwrap();

    assert!(!address.is_empty());
    assert!(engine.get_contract_state(&address).is_some());
}

#[test]
fn test_contract_storage() {
    let mut engine = ContractEngine::new().unwrap();
    let (wasm, abi) = create_counter_contract().unwrap();

    let address = engine.deploy_contract(wasm, abi, "deployer".to_string(), 0).unwrap();

    engine.set_storage(&address, "key1", vec![1, 2, 3]).unwrap();
    let value = engine.get_storage(&address, "key1").unwrap();
    assert_eq!(value, vec![1, 2, 3]);
}

#[test]
fn test_call_contract() {
    let mut engine = ContractEngine::new().unwrap();
    let (wasm, abi) = create_counter_contract().unwrap();

    let address = engine.deploy_contract(wasm, abi, "deployer".to_string(), 0).unwrap();

    let ctx = CallContext {
        caller: "alice".to_string(),
        contract: address.clone(),
        value: 0,
        gas_limit: 100000,
        block_number: 1,
        timestamp: 1234567890,
    };

    let result = engine.call_contract(&address, "increment", vec![], ctx).unwrap();
    assert!(result.success);
}

#[test]
fn vm_address_is_hash_prefix_and_call_is_logged() {
    let mut engine = ContractEngine::default();
    let code = vec![0u8, 97, 115, 109];
    let (_, abi) = create_counter_contract().unwrap();
    let address = engine.deploy_contract(code, abi, "bob".to_string(), 7).unwrap();
    // sha256 of 00 61 73 6d
    assert_eq!(address.len(), 42);
    assert!(address.starts_with("0x"));
    let state = engine.get_contract_state(&address).unwrap();
    assert_eq!(state.balance, 7);
    assert_eq!(state.owner, "bob");
    assert_eq!(&state.code_hash[..40], &address[2..]);
    let ctx = CallContext {
        caller: "alice".to_string(),
        contract: address.clone(),
        value: 5,
        gas_limit: 1,
        block_number: 1,
        timestamp: 0,
    };
    let res = engine.call_contract(&address, "get", vec![], ctx).unwrap();
    assert_eq!(res.gas_used, 21000);
    assert_eq!(res.logs.len(), 1);
    assert_eq!(res.logs[0].topics, vec!["FunctionCalled: get".to_string()]);
    assert_eq!(res.logs[0].data, b"caller: alice, value: 5".to_vec());
    assert!(engine.get_storage(&address, "missing").is_none());
}

#[test]
fn vm_unknown_contract_is_refused() {
    let mut engine = ContractEngine::new().unwrap();
    let ctx = CallContext {
        caller: "alice".to_string(),
        contract: "0xnone".to_string(),
        value: 0,
        gas_limit: 1,
        block_number: 1,
        timestamp: 0,
    };
    let r = engine.call_contract("0xnone", "get", vec![], ctx);
    assert!(matches!(r, Err(ContractError::ContractNotFound)));
    let r = engine.set_storage("0xnone", "k", vec![1]);
    assert!(matches!(r, Err(ContractError::ContractNotFound)));
    assert_eq!(ContractError::ContractNotFound.message(), "合约未找到");
    assert_eq!(ContractError::FunctionNotFound("f".to_string()).message(), "函数未找到: f");
    assert!(compile_wat("(module").is_err());
}
