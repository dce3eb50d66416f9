use yrust_chain::ai::wallet::{
    AIWalletAssistant, ReminderType, SmartReminder, TriggerCondition, VoiceCommand,
    VoiceTransferRequest,
};
use yrust_chain::ai::AIError;
use yrust_chain::chain::types::{Transaction, TxOutput};

fn request(transcript: &str) -> VoiceTransferRequest {
    VoiceTransferRequest {
        transcript: transcript.to_string(),
        from_address: "Y1sender...".to_string(),
        amount: None,
        recipient: None,
        token: None,
    }
}

#[test]
fn test_wallet_assistant_creation() {
    let assistant = AIWalletAssistant::new();
    assert!(assistant.address_book.is_empty());
    assert!(!assistant.voice_patterns.is_empty());
}

#[test]
fn test_add_contact() {
    let mut assistant = AIWalletAssistant::new();
    assistant
        .add_contact("张三".to_string(), "Y1abc123def456".to_string(), vec!["朋友".to_string()])
        .unwrap();
    let contact = assistant.get_contact("张三");
    assert!(contact.is_some());
    assert_eq!(contact.unwrap().address, "Y1abc123def456");
}

#[test]
fn test_recognize_command() {
    let assistant = AIWalletAssistant::new();
    assert_eq!(assistant.recognize_command("转账给张三"), VoiceCommand::Transfer);
    assert_eq!(assistant.recognize_command("查询余额"), VoiceCommand::CheckBalance);
    assert_eq!(assistant.recognize_command("未知指令"), VoiceCommand::Unknown);
}

#[test]
fn test_parse_amount() {
    let assistant = AIWalletAssistant::new();
    let amount = assistant.parse_amount("转账 10 个 YRU");
    assert!(amount.is_some());
    let amount = assistant.parse_amount("转给张三 5.5 代币");
    assert!(amount.is_some());
}

#[test]
fn test_voice_transfer() {
    let assistant = AIWalletAssistant::new();
    let result = assistant.process_voice_transfer(request("转账 10 个 YRU 给张三"));
    assert!(result.success || result.error.is_some());
}

#[test]
fn amounts_are_exact_base_units() {
    let assistant = AIWalletAssistant::new();
    assert_eq!(assistant.parse_amount("转账 10 个 YRU"), Some(1_000_000_000));
    assert_eq!(assistant.parse_amount("转给张三 5.5 代币"), Some(550_000_000));
    assert_eq!(assistant.parse_amount("pay 1,234.5 YRU"), Some(123_450_000_000));
    assert_eq!(assistant.parse_amount("0.123456789"), Some(12_345_678));
    assert_eq!(assistant.parse_amount("no number here"), None);
    assert_eq!(assistant.parse_amount("1.2.3"), None);
    assert_eq!(assistant.format_amount(150_000_000), "1.50000000");
}

#[test]
fn transfer_to_a_known_contact() {
    let mut assistant = AIWalletAssistant::new();
    assistant.add_contact("张三".to_string(), "Y1abc123def456".to_string(), vec![]).unwrap();
    let result = assistant.process_voice_transfer(request("转账 10 个 YRU 给张三"));
    assert!(result.success);
    assert_eq!(result.amount, Some(1_000_000_000));
    assert_eq!(result.to_address, Some("Y1abc123def456".to_string()));
    assert_eq!(result.token, "YRU");
    assert_eq!(result.confirmation_message, "确认转账 10.00000000 YRU 给 Y1abc123def456?");
    assert!(result.requires_confirmation);
}

#[test]
fn transfer_failures_say_what_is_missing() {
    let assistant = AIWalletAssistant::new();
    let no_recipient = assistant.process_voice_transfer(request("转账 10 个 YRU 给张三"));
    assert!(!no_recipient.success);
    assert_eq!(no_recipient.amount, Some(1_000_000_000));
    assert_eq!(no_recipient.error, Some("请明确说出接收者名称或地址".to_string()));
    let no_amount = assistant.process_voice_transfer(request("send to Yabcdefghijklmnopqrstuvwxyzabcdefgh ETH"));
    assert!(!no_amount.success);
    assert_eq!(no_amount.to_address, Some("Yabcdefghijklmnopqrstuvwxyzabcdefgh".to_string()));
    assert_eq!(no_amount.token, "ETH");
    assert_eq!(no_amount.error, Some("请明确说出转账金额".to_string()));
    let not_transfer = assistant.process_voice_transfer(request("查询余额"));
    assert_eq!(not_transfer.command, VoiceCommand::CheckBalance);
    assert_eq!(not_transfer.confirmation_message, "未识别为转账指令");
}

#[test]
fn duplicate_contacts_are_refused() {
    let mut assistant = AIWalletAssistant::new();
    assistant.add_contact("李四".to_string(), "Y2".to_string(), vec!["work".to_string()]).unwrap();
    let again = assistant.add_contact("李四".to_string(), "Y3".to_string(), vec![]);
    assert!(matches!(again, Err(AIError::WalletError(ref m)) if m == "联系人已存在"));
    assert_eq!(assistant.get_contact("李四").unwrap().address, "Y2");
    assert_eq!(assistant.search_contacts("wor").len(), 1);
    assert_eq!(assistant.search_contacts("zzz").len(), 0);
}

#[test]
fn reminders_fire_once_per_hour() {
    let mut assistant = AIWalletAssistant::new();
    assistant.add_reminder(SmartReminder {
        id: "low".to_string(),
        reminder_type: ReminderType::LowBalance,
        trigger_condition: TriggerCondition::BalanceThreshold { below: 100 },
        message: "low balance".to_string(),
        enabled: true,
        created_at: 0,
        last_triggered: None,
    });
    let first = assistant.check_reminders_at(10_000, 50);
    assert_eq!(first.len(), 1);
    assert_eq!(first[0].last_triggered, Some(10_000));
    assert!(assistant.check_reminders_at(10_100, 50).is_empty());
    assert_eq!(assistant.check_reminders_at(20_000, 50).len(), 1);
    assert!(assistant.check_reminders_at(30_000, 500).is_empty());
}

#[test]
fn analysis_counts_received_and_large_transactions() {
    let mut assistant = AIWalletAssistant::new();
    for i in 0..12u64 {
        assistant.transaction_history.push(Transaction {
            id: format!("t{}", i),
            timestamp: 0,
            inputs: vec![],
            outputs: vec![
                TxOutput { value: 5, script_pubkey: "me".to_string() },
                TxOutput { value: if i == 3 { 20_000_000_000 } else { 1 }, script_pubkey: "other".to_string() },
            ],
            version: 1,
        });
    }
    let a = assistant.analyze_transactions("me");
    assert_eq!(a.total_transactions, 12);
    assert_eq!(a.total_received, 60);
    assert_eq!(a.patterns.len(), 1);
    assert_eq!(a.anomalies.len(), 1);
    assert_eq!(a.anomalies[0].related_tx, Some("t3".to_string()));
    assert!(assistant.generate_recommendations().is_empty());
}
