use codex_mimo_shim::convert::{
    convert_responses_to_chat, convert_responses_to_chat_with_id, flush_pending_tool_calls,
    input_to_chat_messages, ConversionDefaults,
};
use codex_mimo_shim::json::{Json, Number};
use codex_mimo_shim::reasoning::ReasoningPolicy;

fn request_value(v: &serde_json::Value) -> Json {
    match v {
        serde_json::Value::Null => Json::Null,
        serde_json::Value::Bool(b) => Json::Bool(*b),
        serde_json::Value::Number(n) => {
            if let Some(u) = n.as_u64() {
                Json::Number(Number::PosInt(u))
            } else if let Some(i) = n.as_i64() {
                Json::Number(Number::NegInt(i))
            } else {
                Json::Number(Number::Float(n.to_string()))
            }
        }
        serde_json::Value::String(s) => Json::Str(s.clone()),
        serde_json::Value::Array(a) => Json::Array(a.iter().map(request_value).collect()),
        serde_json::Value::Object(m) => {
            Json::object(m.iter().map(|(k, v)| (k.clone(), request_value(v))).collect())
        }
    }
}

fn request_json(text: &str) -> Json {
    request_value(&serde_json::from_str(text).expect("test JSON"))
}

fn member<'a>(v: &'a Json, keys: &[&str]) -> &'a Json {
    let mut cur = v;
    for k in keys {
        cur = cur.get(k).unwrap_or_else(|| panic!("missing member {k}"));
    }
    cur
}

#[test]
fn separates_client_model_from_provider_model() {
    let request = request_json(r#"{"model": "codex-auto-review", "input": "review this change"}"#);

    let converted = convert_responses_to_chat(
        &request,
        None,
        "codex-auto-review",
        "mimo-v2.5",
        false,
        &ConversionDefaults::default(),
        ReasoningPolicy::default(),
    )
    .expect("conversion should succeed");

    assert_eq!(converted.client_model, "codex-auto-review");
    assert_eq!(converted.provider_model, "mimo-v2.5");
    assert_eq!(converted.chat_payload.get_str("model"), Some("mimo-v2.5"));
}

#[test]
fn preserves_image_url_content_parts() {
    let request = request_json(
        r#"{"model": "mimo-v2.5", "input": [{
            "type": "message", "role": "user",
            "content": [
                {"type":"image_url", "image_url":{"url":"data:image/png;base64,AAAA"}},
                {"type":"input_text", "text":"describe"}
            ]
        }]}"#,
    );

    let converted = convert_responses_to_chat(
        &request,
        None,
        "mimo-v2.5",
        "mimo-v2.5",
        false,
        &ConversionDefaults::default(),
        ReasoningPolicy::default(),
    )
    .expect("conversion should succeed");

    let content = converted.chat_messages[0].get("content").unwrap();
    assert!(content.as_array().is_some());
    let parts = content.as_array().unwrap();
    assert_eq!(parts[0].get_str("type"), Some("image_url"));
    assert_eq!(
        member(&parts[0], &["image_url"]).get_str("url"),
        Some("data:image/png;base64,AAAA")
    );
    assert_eq!(parts[1].get_str("type"), Some("text"));
}

#[test]
fn explicit_thinking_mode_inserts_thinking_option_and_empty_assistant_reasoning() {
    let request = request_json(r#"{"model": "mimo-v2.5-pro", "input": "continue"}"#);
    let previous_messages = vec![request_json(r#"{"role":"assistant", "content":"earlier answer"}"#)];
    let policy = ReasoningPolicy { thinking_enabled: true };

    let converted = convert_responses_to_chat(
        &request,
        Some(previous_messages),
        "mimo-v2.5-pro",
        "mimo-v2.5-pro",
        false,
        &ConversionDefaults::default(),
        policy,
    )
    .expect("conversion should succeed");

    assert_eq!(member(&converted.chat_payload, &["thinking"]).get_str("type"), Some("enabled"));
    assert_eq!(converted.chat_messages[0].get_str("reasoning_content"), Some(""));
}

#[test]
fn preserves_incoming_assistant_reasoning_content_when_enabled() {
    let request = request_json(
        r#"{"model": "mimo-v2.5-pro", "input": [{
            "type": "message", "role": "assistant", "content": "tool plan",
            "reasoning_content": "provider reasoning"
        }]}"#,
    );
    let policy = ReasoningPolicy { thinking_enabled: true };

    let converted = convert_responses_to_chat(
        &request,
        None,
        "mimo-v2.5-pro",
        "mimo-v2.5-pro",
        false,
        &ConversionDefaults::default(),
        policy,
    )
    .expect("conversion should succeed");

    assert_eq!(
        converted.chat_messages[0].get_str("reasoning_content"),
        Some("provider reasoning")
    );
}

#[test]
fn preserves_incoming_assistant_reasoning_content_without_explicit_thinking_option() {
    let request = request_json(
        r#"{"model": "mimo-v2.5-pro", "input": [{
            "type": "message", "role": "assistant", "content": "tool plan",
            "reasoning_content": "provider reasoning"
        }]}"#,
    );
    let policy = ReasoningPolicy { thinking_enabled: false };

    let converted = convert_responses_to_chat(
        &request,
        None,
        "mimo-v2.5-pro",
        "mimo-v2.5-pro",
        false,
        &ConversionDefaults::default(),
        policy,
    )
    .expect("conversion should succeed");

    assert_eq!(
        converted.chat_messages[0].get_str("reasoning_content"),
        Some("provider reasoning")
    );
    assert!(converted.chat_payload.get("thinking").is_none());
}

#[test]
fn replays_custom_tool_call_and_output_as_chat_tool_messages() {
    let request = request_json(
        r#"{"model": "mimo-v2.5", "input": [
            {"type": "custom_tool_call", "call_id": "call_custom_1", "name": "local_shell", "input": "pwd"},
            {"type": "custom_tool_call_output", "call_id": "call_custom_1", "output": "M:/CodeHub"}
        ]}"#,
    );

    let converted = convert_responses_to_chat(
        &request,
        None,
        "mimo-v2.5",
        "mimo-v2.5",
        false,
        &ConversionDefaults::default(),
        ReasoningPolicy::default(),
    )
    .expect("conversion should succeed");

    assert_eq!(converted.chat_messages.len(), 2);
    assert_eq!(converted.chat_messages[0].get_str("role"), Some("assistant"));
    let call = &converted.chat_messages[0].get_array("tool_calls").unwrap()[0];
    assert_eq!(member(call, &["function"]).get_str("name"), Some("local_shell"));
    assert_eq!(
        member(call, &["function"]).get_str("arguments"),
        Some("{\"input\":\"pwd\"}")
    );
    assert_eq!(converted.chat_messages[1].get_str("role"), Some("tool"));
    assert_eq!(converted.chat_messages[1].get_str("tool_call_id"), Some("call_custom_1"));
    assert_eq!(converted.chat_messages[1].get_str("content"), Some("M:/CodeHub"));
}

#[test]
fn request_must_be_an_object_with_string_or_array_input() {
    let defaults = ConversionDefaults::default();
    let err = convert_responses_to_chat(
        &request_json("[]"),
        None,
        "m",
        "m",
        false,
        &defaults,
        ReasoningPolicy::default(),
    )
    .unwrap_err();
    assert_eq!(err.message(), "request body must be a JSON object");
    assert_eq!(err.status(), 400);
    let err = convert_responses_to_chat(
        &request_json(r#"{"input": 3}"#),
        None,
        "m",
        "m",
        false,
        &defaults,
        ReasoningPolicy::default(),
    )
    .unwrap_err();
    assert_eq!(err.message(), "input must be string or array");
}

#[test]
fn flags_and_sampling_follow_the_request_then_the_defaults() {
    let request = request_json(
        r#"{"input": "hi", "stream": true, "store": false, "previous_response_id": "resp_prev",
            "instructions": "be brief", "top_p": "high", "max_output_tokens": 64,
            "parallel_tool_calls": true, "tool_choice": "auto",
            "tools": [{"type": "function", "name": "f"}]}"#,
    );
    let defaults = ConversionDefaults {
        temperature: Some(request_json("0.5")),
        top_p: Some(request_json("0.9")),
        max_output_tokens: Some(1000),
    };
    let converted = convert_responses_to_chat_with_id(
        &request,
        None,
        "client",
        "provider",
        true,
        &defaults,
        ReasoningPolicy::default(),
        "resp_fixed".to_string(),
    )
    .unwrap();
    assert_eq!(converted.response_id, "resp_fixed");
    assert!(converted.stream);
    assert!(!converted.store);
    assert_eq!(converted.previous_response_id.as_deref(), Some("resp_prev"));
    assert!(converted.parallel_tool_calls);
    let payload = &converted.chat_payload;
    assert_eq!(payload.get_bool("stream"), Some(false));
    assert!(matches!(payload.get("temperature"), Some(Json::Number(Number::Float(t))) if t == "0.5"));
    assert!(payload.get("top_p").is_none());
    assert_eq!(payload.get_u64("max_tokens"), Some(64));
    assert_eq!(payload.get_str("tool_choice"), Some("auto"));
    assert_eq!(payload.get_bool("parallel_tool_calls"), Some(true));
    assert_eq!(payload.get_array("tools").unwrap().len(), 1);
    let messages = payload.get_array("messages").unwrap();
    assert_eq!(messages.len(), 2);
    assert_eq!(messages[0].get_str("role"), Some("system"));
    assert_eq!(messages[0].get_str("content"), Some("be brief"));
    assert_eq!(messages[1].get_str("content"), Some("hi"));
    assert!(converted.tool_registry.resolve("f").is_some());
}

#[test]
fn defaults_fill_absent_sampling_and_tools_need_declarations() {
    let request = request_json(r#"{"input": [], "parallel_tool_calls": true, "tool_choice": "auto"}"#);
    let defaults = ConversionDefaults {
        temperature: None,
        top_p: Some(request_json("0.9")),
        max_output_tokens: Some(1000),
    };
    let converted = convert_responses_to_chat_with_id(
        &request,
        Some(vec![request_json(r#"{"role": "user", "content": "earlier"}"#)]),
        "c",
        "p",
        false,
        &defaults,
        ReasoningPolicy::default(),
        "resp_x".to_string(),
    )
    .unwrap();
    let payload = &converted.chat_payload;
    assert!(payload.get("temperature").is_none());
    assert!(payload.get("top_p").is_some());
    assert_eq!(payload.get_u64("max_tokens"), Some(1000));
    assert!(payload.get("tools").is_none());
    assert!(payload.get("tool_choice").is_none());
    assert!(!converted.parallel_tool_calls);
    assert!(converted.store);
    assert!(!converted.stream);
    assert_eq!(converted.chat_messages.len(), 1);
    assert_eq!(converted.chat_messages[0].get_str("content"), Some("earlier"));
}

#[test]
fn tool_calls_wait_for_the_next_message_or_output() {
    let messages = input_to_chat_messages(
        &request_json(
            r#"[
                {"type": "function_call", "call_id": "a", "name": "f", "arguments": "{}"},
                {"type": "function_call", "call_id": "b", "name": "g", "arguments": {"x": 1}},
                {"type": "reasoning", "summary": []},
                {"role": "developer", "content": "rules"},
                {"type": "function_call_output", "id": "b", "output": {"ok": 1}},
                "ignored",
                {"type": "function_call", "call_id": "c", "name": "h"}
            ]"#,
        ),
        ReasoningPolicy::default(),
    )
    .unwrap();
    assert_eq!(messages.len(), 4);
    assert_eq!(messages[0].get_array("tool_calls").unwrap().len(), 2);
    assert_eq!(messages[1].get_str("role"), Some("system"));
    assert_eq!(messages[2].get_str("tool_call_id"), Some("b"));
    assert_eq!(messages[2].get_str("content"), Some("{\"ok\":1}"));
    let last = messages[3].get_array("tool_calls").unwrap();
    assert_eq!(last[0].get_str("id"), Some("c"));
    assert_eq!(member(&last[0], &["function"]).get_str("arguments"), Some("{}"));
}

#[test]
fn flushing_moves_pending_calls_into_one_message() {
    let mut messages = Vec::new();
    let mut pending = Vec::new();
    flush_pending_tool_calls(&mut messages, &mut pending);
    assert!(messages.is_empty());
    pending.push(request_json(r#"{"id": "x", "function": {"name": "f", "arguments": "{}"}}"#));
    flush_pending_tool_calls(&mut messages, &mut pending);
    assert!(pending.is_empty());
    assert_eq!(messages.len(), 1);
    assert_eq!(messages[0].get_array("tool_calls").unwrap()[0].get_str("id"), Some("x"));
}

#[test]
fn payload_names_the_provider_model_and_thinking_follows_the_policy() {
    let request = request_json(r#"{"model": "ignored", "input": "x"}"#);
    for enabled in [false, true] {
        let converted = convert_responses_to_chat(
            &request,
            None,
            "client",
            "provider",
            false,
            &ConversionDefaults::default(),
            ReasoningPolicy { thinking_enabled: enabled },
        )
        .unwrap();
        assert_eq!(converted.chat_payload.get_str("model"), Some("provider"));
        assert_eq!(converted.provider_model, "provider");
        assert_eq!(converted.chat_payload.get("thinking").is_some(), enabled);
        assert_eq!(converted.chat_payload.get_bool("stream"), Some(false));
        let messages = converted.chat_payload.get_array("messages").unwrap();
        assert_eq!(messages.len(), converted.chat_messages.len());
        assert_eq!(messages[0].to_text(), converted.chat_messages[0].to_text());
        assert!(converted.response_id.starts_with("resp_local_"));
        assert_eq!(converted.response_id.len(), "resp_local_".len() + 32);
    }
}
