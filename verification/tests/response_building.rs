use codex_mimo_shim::json::{Json, Number};
use codex_mimo_shim::reasoning::ReasoningPolicy;
use codex_mimo_shim::registry::ToolIdentityRegistry;
use codex_mimo_shim::respond::{build_response_object, build_response_object_at, ChatResult};
use codex_mimo_shim::tools::responses_tools_to_chat_tools;
use codex_mimo_shim::usage::{normalize_responses_usage, ProviderTokenStats};

fn built_value(v: &serde_json::Value) -> Json {
    match v {
        serde_json::Value::Null => Json::Null,
        serde_json::Value::Bool(b) => Json::Bool(*b),
        serde_json::Value::Number(n) => {
            if let Some(u) = n.as_u64() {
                Json::Number(Number::PosInt(u))
            } else if let Some(i) = n.as_i64() {
                Json::Number(Number::NegInt(i))
            } else {
                Json::Number(Number::Float(n.to_string()))
            }
        }
        serde_json::Value::String(s) => Json::Str(s.clone()),
        serde_json::Value::Array(a) => Json::Array(a.iter().map(built_value).collect()),
        serde_json::Value::Object(m) => {
            Json::object(m.iter().map(|(k, v)| (k.clone(), built_value(v))).collect())
        }
    }
}

fn built_json(text: &str) -> Json {
    built_value(&serde_json::from_str(text).expect("test JSON"))
}

fn usage() -> Json {
    built_json(r#"{"prompt_tokens": 10, "completion_tokens": 5, "total_tokens": 15}"#)
}

fn output_item(response: &Json, i: usize) -> &Json {
    &response.get_array("output").expect("output")[i]
}

#[test]
fn stores_assistant_reasoning_content_for_text_response_when_enabled() {
    let chat_result = ChatResult {
        raw: built_json(r#"{"id":"chatcmpl_test"}"#),
        message: built_json(
            r#"{"role": "assistant", "content": "final answer", "reasoning_content": "provider reasoning"}"#,
        ),
        finish_reason: Some("stop".to_string()),
        usage: Some(usage()),
    };
    let policy = ReasoningPolicy { thinking_enabled: true };

    let built = build_response_object(
        "resp_test",
        "mimo-v2.5-pro",
        &[],
        &ToolIdentityRegistry::default(),
        chat_result,
        false,
        true,
        policy,
    )
    .expect("response should build");

    assert_eq!(
        built.updated_chat_messages[0].get_str("reasoning_content"),
        Some("provider reasoning")
    );
}

#[test]
fn stores_assistant_reasoning_content_for_tool_calls_when_enabled() {
    let chat_result = ChatResult {
        raw: built_json(r#"{"id":"chatcmpl_test"}"#),
        message: built_json(
            r#"{"role": "assistant", "content": null, "reasoning_content": "provider reasoning",
                "tool_calls": [{"id": "call_1", "type": "function",
                                "function": {"name": "lookup", "arguments": "{}"}}]}"#,
        ),
        finish_reason: Some("tool_calls".to_string()),
        usage: Some(usage()),
    };
    let policy = ReasoningPolicy { thinking_enabled: true };

    let built = build_response_object(
        "resp_test",
        "mimo-v2.5-pro",
        &[],
        &ToolIdentityRegistry::default(),
        chat_result,
        true,
        true,
        policy,
    )
    .expect("response should build");

    assert_eq!(
        built.updated_chat_messages[0].get_str("reasoning_content"),
        Some("provider reasoning")
    );
    assert!(built.updated_chat_messages[0].get_array("tool_calls").is_some());
}

#[test]
fn preserves_provider_reasoning_content_even_when_explicit_thinking_is_disabled() {
    let chat_result = ChatResult {
        raw: built_json(r#"{"id":"chatcmpl_test"}"#),
        message: built_json(
            r#"{"role": "assistant", "content": "final answer", "reasoning_content": "provider reasoning"}"#,
        ),
        finish_reason: Some("stop".to_string()),
        usage: Some(usage()),
    };
    let policy = ReasoningPolicy { thinking_enabled: false };

    let built = build_response_object(
        "resp_test",
        "mimo-v2.5-pro",
        &[],
        &ToolIdentityRegistry::default(),
        chat_result,
        false,
        true,
        policy,
    )
    .expect("response should build");

    assert_eq!(
        built.updated_chat_messages[0].get_str("reasoning_content"),
        Some("provider reasoning")
    );
}

#[test]
fn prefers_openai_usage_fields_over_zeroed_nonstandard_fields() {
    let usage = built_json(
        r#"{"input_tokens": 0, "output_tokens": 0, "prompt_tokens": 17467,
            "completion_tokens": 20, "total_tokens": 17487,
            "prompt_tokens_details": {"cached_tokens": 17408}}"#,
    );

    let normalized = normalize_responses_usage(Some(&usage)).expect("usage should normalize");
    let observed = ProviderTokenStats::from_usage(Some(&usage));

    assert_eq!(normalized.get_u64("input_tokens"), Some(17467));
    assert_eq!(normalized.get_u64("output_tokens"), Some(20));
    assert_eq!(observed.input_tokens, Some(17467));
    assert_eq!(observed.output_tokens, Some(20));
    assert_eq!(observed.cached_tokens, Some(17408));
}

#[test]
fn keeps_nonstandard_usage_fields_when_they_have_real_values() {
    let usage = built_json(
        r#"{"input_tokens": 321, "output_tokens": 45, "prompt_tokens": 0,
            "completion_tokens": 0, "total_tokens": 366}"#,
    );

    let normalized = normalize_responses_usage(Some(&usage)).expect("usage should normalize");
    let observed = ProviderTokenStats::from_usage(Some(&usage));

    assert_eq!(normalized.get_u64("input_tokens"), Some(321));
    assert_eq!(normalized.get_u64("output_tokens"), Some(45));
    assert_eq!(observed.input_tokens, Some(321));
    assert_eq!(observed.output_tokens, Some(45));
}

#[test]
fn restores_provider_function_tool_call_as_custom_tool_call() {
    let chat_result = ChatResult {
        raw: built_json(r#"{"id":"chatcmpl_test"}"#),
        message: built_json(
            r#"{"role": "assistant", "content": null,
                "tool_calls": [{"id": "call_custom_1", "type": "function",
                                "function": {"name": "local_shell", "arguments": "{\"input\":\"pwd\"}"}}]}"#,
        ),
        finish_reason: Some("tool_calls".to_string()),
        usage: Some(usage()),
    };

    let built = build_response_object(
        "resp_test",
        "mimo-v2.5",
        &[],
        &responses_tools_to_chat_tools(Some(&built_json(r#"[{"type": "custom", "name": "local_shell"}]"#)))
            .registry,
        chat_result,
        true,
        true,
        ReasoningPolicy::default(),
    )
    .expect("response should build");

    assert_eq!(output_item(&built.response_object, 0).get_str("type"), Some("custom_tool_call"));
    assert_eq!(output_item(&built.response_object, 0).get_str("name"), Some("local_shell"));
    assert_eq!(output_item(&built.response_object, 0).get_str("input"), Some("pwd"));
}

#[test]
fn text_response_has_one_message_item_and_full_envelope() {
    let chat_result = ChatResult {
        raw: built_json(r#"{"id":"chatcmpl_9"}"#),
        message: built_json(r#"{"role": "assistant", "content": "hello"}"#),
        finish_reason: Some("stop".to_string()),
        usage: Some(built_json(
            r#"{"prompt_tokens": 3, "completion_tokens": 2, "total_tokens": 5,
                "completion_tokens_details": {"reasoning_tokens": 1}}"#,
        )),
    };
    let base = vec![built_json(r#"{"role": "user", "content": "hi"}"#)];
    let built = build_response_object_at(
        "resp_a",
        "client-model",
        &base,
        &ToolIdentityRegistry::new(),
        chat_result,
        false,
        false,
        ReasoningPolicy::default(),
        1700000000,
        "msg_local_fixed",
    )
    .unwrap();
    let r = &built.response_object;
    assert_eq!(r.get_str("id"), Some("resp_a"));
    assert_eq!(r.get_str("object"), Some("response"));
    assert_eq!(r.get_u64("created_at"), Some(1700000000));
    assert_eq!(r.get_str("status"), Some("completed"));
    assert_eq!(r.get_str("model"), Some("client-model"));
    assert_eq!(r.get_str("output_text"), Some("hello"));
    assert_eq!(r.get_bool("store"), Some(false));
    assert_eq!(r.get_bool("parallel_tool_calls"), Some(false));
    assert!(matches!(r.get("error"), Some(Json::Null)));
    let item = output_item(r, 0);
    assert_eq!(item.get_str("id"), Some("msg_local_fixed"));
    assert_eq!(item.get_str("type"), Some("message"));
    assert_eq!(item.get_str("role"), Some("assistant"));
    let part = &item.get_array("content").unwrap()[0];
    assert_eq!(part.get_str("type"), Some("output_text"));
    assert_eq!(part.get_str("text"), Some("hello"));
    let usage = r.get("usage").unwrap();
    assert_eq!(usage.get_u64("total_tokens"), Some(5));
    assert_eq!(usage.get("output_tokens_details").unwrap().get_u64("reasoning_tokens"), Some(1));
    assert_eq!(usage.get("input_tokens_details").unwrap().get_u64("cached_tokens"), Some(0));
    let gateway = r.get("local_gateway").unwrap();
    assert_eq!(gateway.get_str("name"), Some("codex-mimo-shim"));
    assert_eq!(gateway.get_str("finish_reason"), Some("stop"));
    assert_eq!(gateway.get_str("provider_raw_id"), Some("chatcmpl_9"));
    assert_eq!(gateway.get("observed_token_stats").unwrap().get_u64("input_tokens"), Some(3));
    assert_eq!(built.updated_chat_messages.len(), 2);
    assert_eq!(built.updated_chat_messages[1].get_str("content"), Some("hello"));
    assert_eq!(built.updated_chat_messages[1].get_str("role"), Some("assistant"));
    assert!(built.updated_chat_messages[1].get("reasoning_content").is_none());
}

#[test]
fn missing_usage_is_a_provider_protocol_error() {
    let chat_result = ChatResult {
        raw: built_json("{}"),
        message: built_json(r#"{"role": "assistant", "content": "x"}"#),
        finish_reason: None,
        usage: None,
    };
    let err = build_response_object(
        "resp_b",
        "m",
        &[],
        &ToolIdentityRegistry::new(),
        chat_result,
        false,
        true,
        ReasoningPolicy::default(),
    )
    .unwrap_err();
    assert_eq!(err.message(), "missing_provider_usage: provider response is missing usage");
    assert_eq!(err.status(), 502);

    let no_total = built_json(r#"{"prompt_tokens": 1, "completion_tokens": 1}"#);
    assert_eq!(
        normalize_responses_usage(Some(&no_total)).unwrap_err().message(),
        "missing_provider_usage: usage is missing total_tokens"
    );
    let no_output = built_json(r#"{"prompt_tokens": 1, "total_tokens": 1}"#);
    assert_eq!(
        normalize_responses_usage(Some(&no_output)).unwrap_err().message(),
        "missing_provider_usage: usage is missing output_tokens/completion_tokens"
    );
    let no_input = built_json(r#"{"output_tokens": 1, "total_tokens": 1}"#);
    assert_eq!(
        normalize_responses_usage(Some(&no_input)).unwrap_err().message(),
        "missing_provider_usage: usage is missing input_tokens/prompt_tokens"
    );
}

#[test]
fn observed_stats_report_only_what_was_given() {
    let observed = ProviderTokenStats::from_usage(None);
    assert!(!observed.has_any());
    let observed = ProviderTokenStats::from_usage(Some(&built_json(r#"{"total_tokens": 7}"#)));
    assert!(observed.has_any());
    assert_eq!(observed.total_tokens, Some(7));
    assert_eq!(observed.input_tokens, None);
    let j = observed.as_json();
    assert_eq!(j.get_u64("total_tokens"), Some(7));
    assert!(matches!(j.get("input_tokens"), Some(Json::Null)));
}

#[test]
fn message_ids_are_fresh_for_each_text_response() {
    let make = || ChatResult {
        raw: built_json("{}"),
        message: built_json(r#"{"content": "same"}"#),
        finish_reason: None,
        usage: Some(usage()),
    };
    let a = build_response_object("r", "m", &[], &ToolIdentityRegistry::new(), make(), false, true, ReasoningPolicy::default()).unwrap();
    let b = build_response_object("r", "m", &[], &ToolIdentityRegistry::new(), make(), false, true, ReasoningPolicy::default()).unwrap();
    let id_a = output_item(&a.response_object, 0).get_str("id").unwrap().to_string();
    let id_b = output_item(&b.response_object, 0).get_str("id").unwrap().to_string();
    assert!(id_a.starts_with("msg_local_"));
    assert_eq!(id_a.len(), 42);
    assert_ne!(id_a, id_b);
    assert!(a.response_object.get_u64("created_at").unwrap() > 1_600_000_000);
}

#[test]
fn thinking_mode_gives_answers_an_empty_reasoning() {
    let chat_result = ChatResult {
        raw: built_json("{}"),
        message: built_json(r#"{"role": "assistant", "content": "plain"}"#),
        finish_reason: Some("stop".to_string()),
        usage: Some(usage()),
    };
    let built = build_response_object(
        "resp_t",
        "m",
        &[],
        &ToolIdentityRegistry::new(),
        chat_result,
        false,
        true,
        ReasoningPolicy { thinking_enabled: true },
    )
    .unwrap();
    assert_eq!(built.updated_chat_messages[0].get_str("reasoning_content"), Some(""));
}
