use codex_mimo_shim::convert::ConversionDefaults;
use codex_mimo_shim::json::{Json, Number};
use codex_mimo_shim::models::{access_counts, ModelRoute, ModelRouting};
use codex_mimo_shim::reasoning::ReasoningPolicy;
use codex_mimo_shim::respond::chat_result_from_provider;
use codex_mimo_shim::service::{
    annotate_gateway, prepare_chat_request, record_chat_result, record_chat_result_at,
    ShimSettings,
};
use codex_mimo_shim::store::ResponseStore;
use codex_mimo_shim::usage::ProviderTokenStats;

fn flow_value(v: &serde_json::Value) -> Json {
    match v {
        serde_json::Value::Null => Json::Null,
        serde_json::Value::Bool(b) => Json::Bool(*b),
        serde_json::Value::Number(n) => {
            if let Some(u) = n.as_u64() {
                Json::Number(Number::PosInt(u))
            } else if let Some(i) = n.as_i64() {
                Json::Number(Number::NegInt(i))
            } else {
                Json::Number(Number::Float(n.to_string()))
            }
        }
        serde_json::Value::String(s) => Json::Str(s.clone()),
        serde_json::Value::Array(a) => Json::Array(a.iter().map(flow_value).collect()),
        serde_json::Value::Object(m) => {
            Json::object(m.iter().map(|(k, v)| (k.clone(), flow_value(v))).collect())
        }
    }
}

fn flow_json(text: &str) -> Json {
    flow_value(&serde_json::from_str(text).expect("test JSON"))
}

fn settings(fallback: bool) -> ShimSettings {
    ShimSettings {
        routing: ModelRouting {
            mimo_model: "mimo-v2.5".to_string(),
            mimo_models: vec!["mimo-v2.5".to_string(), "mimo-v2.5-pro".to_string()],
            model_aliases: vec![("codex-auto-review".to_string(), "mimo-v2.5-pro".to_string())],
            fallback_unknown_model_to_default: fallback,
        },
        defaults: ConversionDefaults::default(),
        reasoning_policy: ReasoningPolicy::default(),
        forward_parallel_tool_calls: false,
    }
}

fn provider_answer(text: &str) -> Json {
    flow_json(&format!(
        r#"{{"id": "chatcmpl_1", "choices": [{{"index": 0, "finish_reason": "stop",
             "message": {{"role": "assistant", "content": "{text}"}}}}],
            "usage": {{"prompt_tokens": 4, "completion_tokens": 2, "total_tokens": 6}}}}"#
    ))
}

#[test]
fn unknown_previous_response_is_not_found() {
    let store = ResponseStore::new(8);
    let err = prepare_chat_request(
        &flow_json(r#"{"input": "hi", "previous_response_id": "resp_missing"}"#),
        &store,
        &settings(true),
    )
    .unwrap_err();
    assert_eq!(err.status(), 404);
    assert_eq!(err.message(), "response not found: resp_missing");
}

#[test]
fn unsupported_models_are_rejected_before_conversion() {
    let store = ResponseStore::new(8);
    let err = prepare_chat_request(&flow_json(r#"{"model": "gpt-x", "input": 3}"#), &store, &settings(false))
        .unwrap_err();
    assert!(err.message().starts_with("unsupported model gpt-x"));
    let err = prepare_chat_request(&flow_json(r#"{"model": "gpt-x", "input": 3}"#), &store, &settings(true))
        .unwrap_err();
    assert_eq!(err.message(), "input must be string or array");
}

#[test]
fn recorded_responses_are_read_back_and_continued() {
    let mut store = ResponseStore::new(8);
    let first = prepare_chat_request(
        &flow_json(r#"{"model": "codex-auto-review", "input": "hello", "store": false}"#),
        &store,
        &settings(false),
    )
    .unwrap();
    assert_eq!(first.route, ModelRoute::ConfiguredAlias);
    assert_eq!(first.converted.provider_model, "mimo-v2.5-pro");
    let answer = chat_result_from_provider(provider_answer("hi there")).unwrap();
    let response = record_chat_result(
        &mut store,
        &first,
        answer,
        ReasoningPolicy::default(),
        "TRC-1",
        25,
    )
    .unwrap();
    let gateway = response.get("local_gateway").unwrap();
    assert_eq!(gateway.get_str("trace_id"), Some("TRC-1"));
    assert_eq!(gateway.get_u64("provider_ms"), Some(25));
    assert_eq!(gateway.get_str("client_model"), Some("codex-auto-review"));
    assert_eq!(gateway.get_str("provider_model"), Some("mimo-v2.5-pro"));
    assert_eq!(gateway.get_str("model_route"), Some("configured_alias"));
    assert_eq!(gateway.get_str("name"), Some("codex-mimo-shim"));
    assert_eq!(response.get_str("model"), Some("codex-auto-review"));

    let id = first.converted.response_id.clone();
    let stored = store.get(&id).unwrap();
    assert_eq!(stored.response_object.to_text(), response.to_text());
    assert_eq!(stored.chat_messages.len(), 2);

    let next = flow_json(&format!(r#"{{"input": "and then?", "previous_response_id": "{id}"}}"#));
    let second = prepare_chat_request(&next, &store, &settings(false)).unwrap();
    let messages = &second.converted.chat_messages;
    assert_eq!(messages.len(), 3);
    assert_eq!(messages[0].get_str("content"), Some("hello"));
    assert_eq!(messages[1].get_str("role"), Some("assistant"));
    assert_eq!(messages[1].get_str("content"), Some("hi there"));
    assert_eq!(messages[2].get_str("content"), Some("and then?"));
    assert_eq!(second.route, ModelRoute::DefaultModel);
    assert_ne!(second.converted.response_id, id);
}

#[test]
fn rejected_answers_leave_the_store_unchanged() {
    let mut store = ResponseStore::new(8);
    let prepared = prepare_chat_request(&flow_json(r#"{"input": "x"}"#), &store, &settings(false)).unwrap();
    let answer = chat_result_from_provider(flow_json(
        r#"{"choices": [{"message": {"role": "assistant", "content": "y"}}]}"#,
    ))
    .unwrap();
    let err = record_chat_result_at(
        &mut store,
        &prepared,
        answer,
        ReasoningPolicy::default(),
        "t",
        1,
        10,
        "msg_local_x",
    )
    .unwrap_err();
    assert_eq!(err.message(), "missing_provider_usage: provider response is missing usage");
    assert!(store.get(&prepared.converted.response_id).is_none());
}

#[test]
fn provider_answers_need_a_first_message() {
    for body in [r#"{}"#, r#"{"choices": []}"#, r#"{"choices": [{"message": "text"}]}"#] {
        let err = chat_result_from_provider(flow_json(body)).unwrap_err();
        assert_eq!(err.message(), "provider response is missing choices[0].message");
        assert_eq!(err.status(), 502);
    }
    let result = chat_result_from_provider(flow_json(
        r#"{"id": "c", "usage": null, "choices": [{"message": {"content": "x"}, "finish_reason": 3}]}"#,
    ))
    .unwrap();
    assert!(result.usage.is_none());
    assert!(result.finish_reason.is_none());
    assert_eq!(result.message.get_str("content"), Some("x"));
    assert_eq!(result.raw.get_str("id"), Some("c"));
}

#[test]
fn gateway_annotation_needs_a_gateway_object() {
    let mut response = flow_json(r#"{"id": "r"}"#);
    annotate_gateway(&mut response, "t", 1, "c", "p", ModelRoute::DefaultModel);
    assert_eq!(response.to_text(), "{\"id\":\"r\"}");
    let mut response = flow_json(r#"{"id": "r", "local_gateway": {"name": "n"}}"#);
    annotate_gateway(&mut response, "t", 1, "c", "p", ModelRoute::DirectProviderModel);
    assert_eq!(
        response.get("local_gateway").unwrap().to_text(),
        "{\"client_model\":\"c\",\"model_route\":\"direct_provider_model\",\"name\":\"n\",\"provider_model\":\"p\",\"provider_ms\":1,\"trace_id\":\"t\"}"
    );
}

#[test]
fn access_counts_show_dashes_for_missing_counts() {
    let none = access_counts(None);
    assert_eq!(none.usage, "-");
    assert_eq!(none.input_tokens, "-");
    let stats = ProviderTokenStats {
        input_tokens: Some(12),
        output_tokens: None,
        total_tokens: Some(20),
        cached_tokens: Some(0),
        reasoning_tokens: None,
    };
    let counts = access_counts(Some(stats));
    assert_eq!(counts.usage, "provider_usage");
    assert_eq!(counts.input_tokens, "12");
    assert_eq!(counts.output_tokens, "-");
    assert_eq!(counts.total_tokens, "20");
    assert_eq!(counts.cached_tokens, "0");
    assert_eq!(counts.reasoning_tokens, "-");
    let empty = ProviderTokenStats {
        input_tokens: None,
        output_tokens: None,
        total_tokens: None,
        cached_tokens: None,
        reasoning_tokens: None,
    };
    assert_eq!(access_counts(Some(empty)).usage, "-");
}
