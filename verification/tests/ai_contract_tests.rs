use yrust_chain::ai::contract::{
    ContractGenerationRequest, ContractGenerator, ContractLanguage, ContractTemplate, IssueSeverity,
    RiskLevel, SecurityLevel,
};
use yrust_chain::keymap::KeyMap;

fn request(template: Option<ContractTemplate>, level: SecurityLevel) -> ContractGenerationRequest {
    ContractGenerationRequest {
        description: "创建一个代币".to_string(),
        template,
        name: "MyToken".to_string(),
        symbol: Some("MTK".to_string()),
        parameters: KeyMap::new(),
        language: ContractLanguage::Rust,
        security_level: level,
    }
}

#[test]
fn test_contract_generator_creation() {
    let generator = ContractGenerator::new(None);
    assert!(!generator.templates.is_empty());
}

#[test]
fn test_generate_erc20() {
    let generator = ContractGenerator::new(None);
    let request = request(Some(ContractTemplate::ERC20), SecurityLevel::Standard);
    let result = generator.generate_contract(request).unwrap();
    assert!(result.code.contains("MyToken"));
    assert!(!result.abi.is_empty());
    assert!(result.estimated_gas > 0);
}

#[test]
fn test_security_audit() {
    let generator = ContractGenerator::new(None);
    let safe_code = r#"
            fn safe_add(a: u128, b: u128) -> u128 {
                a.checked_add(b).unwrap()
            }
        "#;
    let report = generator.perform_security_audit(safe_code);
    assert!(report.passed_checks > 0);
}

#[test]
fn test_template_inference() {
    let generator = ContractGenerator::new(None);
    assert_eq!(generator.infer_template_from_description("创建一个代币"), ContractTemplate::ERC20);
    assert_eq!(generator.infer_template_from_description("多签钱包"), ContractTemplate::MultiSigWallet);
    assert_eq!(generator.infer_template_from_description("质押挖矿"), ContractTemplate::Staking);
}

#[test]
fn inference_is_case_insensitive_and_falls_back_to_custom() {
    let generator = ContractGenerator::new(None);
    assert_eq!(generator.infer_template_from_description("An NFT collection"), ContractTemplate::ERC721);
    assert_eq!(generator.infer_template_from_description("hello world"), ContractTemplate::Custom);
}

#[test]
fn erc20_generation_fills_symbol_and_deploy_params() {
    let generator = ContractGenerator::new(None);
    let result = generator
        .generate_contract(request(Some(ContractTemplate::ERC20), SecurityLevel::Basic))
        .unwrap();
    assert!(result.code.contains("pub struct MyToken {"));
    assert!(!result.code.contains("ERC20Token"));
    assert!(result.code.contains("symbol: String = \"MTK\".to_string()"));
    assert_eq!(result.deploy_params.len(), 4);
    assert_eq!(result.deploy_params[1].default_value, Some("MTK".to_string()));
    assert_eq!(result.deploy_params[2].default_value, Some("18".to_string()));
    assert!(!result.deploy_params[2].required);
    assert_eq!(result.abi.len(), 3);
    assert_eq!(result.estimated_gas, 500000);
    assert!(result.usage_guide.starts_with("# ERC20 Token 使用说明"));
    assert!(result.usage_guide.contains("### transfer\n- 状态可变性: NonPayable\n- 输入参数:\n  - to: address\n  - amount: uint256\n"));
    assert!(!result.usage_guide.contains("### Transfer"));
}

#[test]
fn audit_of_bare_code_finds_three_issues() {
    let generator = ContractGenerator::new(None);
    let report = generator.perform_security_audit("fn transfer() {}");
    assert_eq!(report.total_checks, 3);
    assert_eq!(report.passed_checks, 0);
    assert_eq!(report.issues.len(), 3);
    assert_eq!(report.issues[0].severity, IssueSeverity::Error);
    assert_eq!(report.risk_level, RiskLevel::High);
    assert_eq!(report.recommendations.len(), 2);
    let clean = generator.perform_security_audit("safe_add LOCKED only_owner");
    assert_eq!(clean.passed_checks, 3);
    assert_eq!(clean.risk_level, RiskLevel::Low);
    assert_eq!(clean.recommendations, vec!["合约看起来安全，建议进行专业审计".to_string()]);
}

#[test]
fn custom_contract_and_placeholders() {
    let generator = ContractGenerator::new(None);
    let mut req = request(None, SecurityLevel::High);
    req.description = "something else {{owner}}".to_string();
    req.name = "Thing".to_string();
    req.parameters.insert("owner".to_string(), "alice".to_string());
    let result = generator.generate_contract(req).unwrap();
    assert!(result.code.contains("// Custom Contract: Thing"));
    assert!(result.code.contains("// Description: something else alice"));
    assert!(result.code.contains("// Reentrancy Guard"));
    assert!(result.code.contains("// Safe Math"));
    assert!(result.deploy_params.is_empty());
    assert!(result.abi.is_empty());
    assert_eq!(result.estimated_gas, 1000000);
}

#[test]
fn available_templates_are_listed_in_order() {
    let generator = ContractGenerator::default();
    let all = generator.get_available_templates();
    assert_eq!(all.len(), 10);
    assert_eq!(all[0], (ContractTemplate::ERC20, "ERC20 Token", "标准可替代代币合约，支持转账、授权、查询余额等功能"));
    assert_eq!(all[9].0, ContractTemplate::Custom);
}
