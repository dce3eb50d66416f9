use yrust_chain::ai::nlp::{NLPQuery, NLPQueryEngine, QueryIntent, QueryResult};

fn query(text: &str, session: Option<&str>) -> NLPQuery {
    NLPQuery {
        text: text.to_string(),
        session_id: session.map(|s| s.to_string()),
        user_address: None,
    }
}

#[test]
fn test_nlp_engine_creation() {
    let engine = NLPQueryEngine::new();
    assert!(!engine.intent_patterns.is_empty());
}

#[test]
fn test_intent_recognition() {
    let engine = NLPQueryEngine::new();
    let (intent, _) = engine.recognize_intent("查询我的余额");
    assert!(matches!(intent, QueryIntent::QueryBalance | QueryIntent::Unknown));
    let (intent, _) = engine.recognize_intent("查看最新区块");
    assert!(matches!(intent, QueryIntent::QueryBlock | QueryIntent::Unknown));
    let (intent, _) = engine.recognize_intent("网络状态怎么样");
    assert!(matches!(intent, QueryIntent::QueryNetworkStatus | QueryIntent::Unknown));
}

#[test]
fn test_query_processing() {
    let mut engine = NLPQueryEngine::new();
    let response = engine.process_query(query("区块链统计", Some("test_session")));
    assert!(!response.natural_answer.is_empty());
    assert!(
        response.natural_answer.contains("区块")
            || response.natural_answer.contains("统计")
            || response.natural_answer.contains("正在开发")
    );
}

#[test]
fn scores_pick_the_best_intent() {
    let engine = NLPQueryEngine::new();
    let (intent, score) = engine.recognize_intent("Balance 余额 资产");
    assert_eq!(intent, QueryIntent::QueryBalance);
    assert_eq!((score.hits, score.total), (3, 5));
    let (intent, score) = engine.recognize_intent("什么 地址");
    assert_eq!(intent, QueryIntent::QueryBalance);
    assert_eq!(score.hits, 0);
    let (intent, _) = engine.recognize_intent("hello");
    assert_eq!(intent, QueryIntent::Unknown);
}

#[test]
fn balance_answer_shortens_the_address() {
    let mut engine = NLPQueryEngine::new();
    let addr = "Y1111111112222222222333333333344444";
    let text = format!("address {} balance 余额", addr);
    let response = engine.process_query(query(&text, None));
    assert_eq!(response.intent, QueryIntent::QueryBalance);
    assert_eq!(response.parameters.address, Some(addr.to_string()));
    assert_eq!(response.natural_answer, "地址 Y111111111...344444 的当前余额为 10.00 YRU");
    assert_eq!(response.suggestions, vec!["查看交易历史".to_string(), "查看该地址的挖矿收益".to_string()]);
    assert_eq!(engine.query_history.len(), 1);
}

#[test]
fn missing_address_is_an_error_answer() {
    let mut engine = NLPQueryEngine::new();
    let response = engine.process_query(query("balance 余额 资产", None));
    assert!(matches!(response.result, QueryResult::Error(_)));
    assert_eq!(response.natural_answer, "抱歉，查询失败: 请提供要查询的地址");
}

#[test]
fn transaction_and_stats_answers() {
    let mut engine = NLPQueryEngine::new();
    let id = "a".repeat(64);
    let response = engine.process_query(query(&format!("tx transaction {}", id), None));
    assert_eq!(response.intent, QueryIntent::QueryTransaction);
    assert_eq!(
        response.natural_answer,
        "交易 aaaaaaaaaa...aaaaaa 的状态为已确认，已有 128 个确认，转账金额 5 YRU，手续费 10000 聪"
    );
    let stats = engine.process_query(query("stats status overview", None));
    assert_eq!(stats.intent, QueryIntent::QueryStats);
    assert_eq!(
        stats.natural_answer,
        "区块链当前高度 10000，总交易数 50000，活跃地址数 10000，平均出块时间 600.0 秒，网络算力 10 TH/s，内存池待处理交易 15 笔"
    );
}

#[test]
fn sessions_count_their_queries() {
    let mut engine = NLPQueryEngine::new();
    engine.process_query(query("help how ?", Some("s1")));
    let second = engine.process_query(query("help how ?", Some("s1")));
    assert_eq!(second.intent, QueryIntent::QueryHelp);
    assert!(second.natural_answer.starts_with("YRust Chain AI 区块浏览器使用帮助"));
    let ctx = engine.sessions.get(&"s1".to_string()).unwrap();
    assert_eq!(ctx.query_count, 2);
    assert_eq!(ctx.last_intent, QueryIntent::QueryHelp);
}

#[test]
fn batch_queries_answer_each_text() {
    let mut engine = NLPQueryEngine::new();
    let out = engine.batch_query(vec!["hello".to_string(), "stats status overview".to_string()]);
    assert_eq!(out.len(), 2);
    assert_eq!(out[0].natural_answer, "该功能正在开发中");
    assert_eq!(out[1].intent, QueryIntent::QueryStats);
    assert_eq!(engine.query_history.len(), 2);
}
