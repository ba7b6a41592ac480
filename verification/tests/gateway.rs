use owo_agent_core::chat::ChatMessage;
use owo_agent_core::gateway::stream::{parse_sse_payload, StreamReader, ToolCallAccumulators};
use owo_agent_core::gateway::{
    after_post, budget_violation, choose_proxy, parse_usage_value, read_completion, request_body, request_refusal,
    ModelOutput, OpenAiCompatibleConfig, PostNext, PostOutcome, TokenUsage,
};
use owo_agent_core::json::{read_json, Json};

#[test]
fn parses_content_delta() {
    let delta = parse_sse_payload(r#"{"choices":[{"delta":{"content":"你好"}}]}"#).unwrap();
    assert_eq!(delta.content.as_deref(), Some("你好"));
    assert!(delta.tool_call_fragments.is_empty());
}

#[test]
fn parses_tool_call_fragments_and_assembles() {
    let delta = parse_sse_payload(
        r#"{"choices":[{"delta":{"tool_calls":[{"index":0,"id":"call_1","function":{"name":"read_file","arguments":"{\"path\":"}}]}}]}"#,
    )
    .unwrap();
    assert_eq!(delta.content, None);
    assert_eq!(delta.tool_call_fragments.len(), 1);
    let mut accumulators = ToolCallAccumulators::new();
    accumulators.accumulate_tool_fragments(&delta.tool_call_fragments);
    let delta2 = parse_sse_payload(
        r#"{"choices":[{"delta":{"tool_calls":[{"index":0,"function":{"arguments":"\"a.txt\"}"}}]}}]}"#,
    )
    .unwrap();
    accumulators.accumulate_tool_fragments(&delta2.tool_call_fragments);
    let calls = accumulators.build_tool_calls().unwrap();
    assert_eq!(calls.len(), 1);
    assert_eq!(calls[0].name, "read_file");
    assert_eq!(calls[0].arguments.text_at("path").unwrap(), "a.txt");
}

#[test]
fn ignores_heartbeat_and_done() {
    assert!(parse_sse_payload("").is_none());
    assert!(parse_sse_payload("[DONE]").is_none());
    assert!(parse_sse_payload(": keep-alive").is_none());
}

#[test]
fn parses_usage_value_for_openai_and_ollama_fields() {
    let openai = parse_usage_value(
        &read_json("{ \"prompt_tokens\": 120, \"completion_tokens\": 30, \"total_tokens\": 150 }").unwrap(),
    );
    assert_eq!(openai.prompt_tokens, 120);
    assert_eq!(openai.completion_tokens, 30);
    assert_eq!(openai.total_tokens, 150);
    let ollama = parse_usage_value(&read_json("{ \"prompt_eval_count\": 40, \"eval_count\": 12 }").unwrap());
    assert_eq!(ollama.prompt_tokens, 40);
    assert_eq!(ollama.completion_tokens, 12);
    assert_eq!(ollama.total_tokens, 52);
    let none = parse_usage_value(&Json::Null);
    assert_eq!((none.prompt_tokens, none.completion_tokens, none.total_tokens), (0, 0, 0));
}

#[test]
fn token_usage_arithmetic_and_cost_estimate() {
    let mut usage = TokenUsage { prompt_tokens: 100, completion_tokens: 50, total_tokens: 150 };
    usage.add(&TokenUsage { prompt_tokens: 200, completion_tokens: 30, total_tokens: 230 });
    assert_eq!(usage.total_tokens, 380);
    let before = TokenUsage { prompt_tokens: 300, completion_tokens: 80, total_tokens: 380 };
    let delta = usage.saturating_sub(&before);
    assert_eq!(delta.total_tokens, 0);
    let delta = before.saturating_sub(&TokenUsage::default());
    assert_eq!(delta.prompt_tokens, 300);
    assert_eq!(delta.completion_tokens, 80);
}

#[test]
fn budget_violation_blocks_when_caps_exceeded() {
    let usage = TokenUsage { prompt_tokens: 900, completion_tokens: 200, total_tokens: 1100 };
    assert!(budget_violation(&usage, None, None).is_none());
    assert!(budget_violation(&usage, Some(2000), None).is_none());
    let violation = budget_violation(&usage, Some(1000), None).expect("token 超限应熔断");
    assert!(violation.contains("用量预算"));
    assert!(violation.contains("1100"));
    let first = budget_violation(&usage, Some(1000), Some("成本预算".to_string())).expect("token 超限应熔断");
    assert!(first.contains("用量预算") && !first.contains("成本预算"));
}

#[test]
fn parse_sse_payload_extracts_trailing_usage_block() {
    let payload = r#"{"choices":[{"delta":{},"finish_reason":"stop"}],"usage":{"prompt_tokens":10,"completion_tokens":5,"total_tokens":15}}"#;
    let delta = parse_sse_payload(payload).expect("usage 块应返回 Some");
    assert_eq!(delta.content, None);
    let usage = delta.usage.expect("usage 应被解析");
    assert_eq!(usage.total_tokens, 15);
    assert!(parse_sse_payload(r#"{"choices":[{"delta":{},"finish_reason":"stop"}]}"#).is_none());
}

fn config(cloud: Option<&str>, model: &str) -> OpenAiCompatibleConfig {
    OpenAiCompatibleConfig::from_env(
        Some("test".to_string()),
        Some("http://127.0.0.1:9".to_string()),
        Some(model.to_string()),
        cloud.map(|c| c.to_string()),
    )
    .unwrap_or_else(|e| panic!("{}", e))
}

#[test]
fn cloud_disabled_rejects_requests_before_network() {
    let config = config(Some("false"), "mock");
    assert!(!config.cloud_enabled);
    let enabled = config.cloud_enabled(&Some("false".to_string()));
    let error = request_refusal(enabled, None).unwrap();
    assert!(error.contains("数据出境"));
}

#[test]
fn cloud_switch_applies_without_reconstruction() {
    let config = config(None, "mock");
    assert!(config.cloud_enabled);
    assert!(request_refusal(config.cloud_enabled(&None), None).is_none());
    let error = request_refusal(config.cloud_enabled(&Some("false".to_string())), None).unwrap();
    assert!(error.contains("数据出境"));
}

#[test]
fn model_switch_applies_without_reconstruction() {
    let config = config(None, "model-a");
    let body = request_body(&config.model(Some("model-a".to_string())), &vec![], &vec![], false);
    assert_eq!(body.text_at("model").unwrap(), "model-a");
    let body = request_body(&config.model(Some("model-b".to_string())), &vec![], &vec![], false);
    assert_eq!(body.text_at("model").unwrap(), "model-b");
    let body = request_body(&config.model(Some("".to_string())), &vec![], &vec![], false);
    assert_eq!(body.text_at("model").unwrap(), "model-a");
}

#[test]
fn missing_key_is_an_error_and_slashes_are_dropped() {
    assert!(OpenAiCompatibleConfig::from_env(None, None, None, None).is_err());
    let mut c = config(None, "m");
    c.base_url = "http://x/v1//".to_string();
    assert_eq!(c.endpoint(), "http://x/v1/chat/completions");
}

#[test]
fn first_named_proxy_is_used() {
    let named = vec![None, Some("  ".to_string()), Some("http://p".to_string())];
    assert_eq!(choose_proxy(&named), Some(2));
    assert_eq!(choose_proxy(&vec![None]), None);
}

#[test]
fn unsent_request_is_tried_directly_once() {
    let unsent = || PostOutcome::Unsent("refused".to_string());
    assert!(matches!(after_post(true, false, unsent()), PostNext::RetryDirect));
    assert!(matches!(after_post(false, false, unsent()), PostNext::Fail(_)));
    assert!(matches!(after_post(true, false, PostOutcome::Accepted), PostNext::Deliver));
    assert!(matches!(
        after_post(true, false, PostOutcome::Refused("500".to_string(), "x".to_string())),
        PostNext::Fail(_)
    ));
}

#[test]
fn completion_is_read_and_usage_counted() {
    let mut usage = TokenUsage::default();
    let payload = read_json(
        r#"{"choices":[{"message":{"content":"hi"}}],"usage":{"prompt_tokens":1,"completion_tokens":2,"total_tokens":3}}"#,
    )
    .unwrap();
    match read_completion(&payload, &mut usage) {
        Ok(ModelOutput::Text(t)) => assert_eq!(t, "hi"),
        _ => panic!("text expected"),
    }
    assert_eq!(usage.total_tokens, 3);
    let messages = vec![ChatMessage::user("q".to_string())];
    let body = request_body("m", &messages, &vec![], true);
    assert_eq!(body.bool_at("stream"), Some(true));
    assert_eq!(body.list_at("messages").unwrap().len(), 1);
}

#[test]
fn streamed_words_are_shown_and_put_together() {
    let mut reader = StreamReader::new();
    let mut usage = TokenUsage::default();
    let shown = reader.push_chunk("data: {\"choices\":[{\"delta\":{\"content\":\"he\"}}]}\ndata: {\"cho", &mut usage);
    assert_eq!(shown, vec!["he".to_string()]);
    let shown = reader.push_chunk("ices\":[{\"delta\":{\"content\":\"llo\"}}]}\ndata: [DONE]\n", &mut usage);
    assert_eq!(shown, vec!["llo".to_string()]);
    match reader.finish() {
        ModelOutput::Text(t) => assert_eq!(t, "hello"),
        _ => panic!("text expected"),
    }
}
