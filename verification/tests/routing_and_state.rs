use codex_mimo_shim::error::ShimError;
use codex_mimo_shim::json::{Json, Number};
use codex_mimo_shim::models::{
    append_unique_model_id, compact_unsupported_error, extract_request_model, extract_trace_id,
    format_optional_u64, list_model_ids, metadata_command, models_list_json,
    resolve_provider_model, resolve_trace_id, trace_id_or_fresh, MetadataCommand, ModelRoute,
    ModelRouting,
};
use codex_mimo_shim::reasoning::{
    apply_reasoning_policy_to_assistant_message, apply_reasoning_policy_to_chat_messages,
    extract_reasoning_content, ReasoningPolicy,
};
use codex_mimo_shim::store::{ResponseStore, StoredResponse};

fn state_value(v: &serde_json::Value) -> Json {
    match v {
        serde_json::Value::Null => Json::Null,
        serde_json::Value::Bool(b) => Json::Bool(*b),
        serde_json::Value::Number(n) => {
            if let Some(u) = n.as_u64() {
                Json::Number(Number::PosInt(u))
            } else if let Some(i) = n.as_i64() {
                Json::Number(Number::NegInt(i))
            } else {
                Json::Number(Number::Float(n.to_string()))
            }
        }
        serde_json::Value::String(s) => Json::Str(s.clone()),
        serde_json::Value::Array(a) => Json::Array(a.iter().map(state_value).collect()),
        serde_json::Value::Object(m) => {
            Json::object(m.iter().map(|(k, v)| (k.clone(), state_value(v))).collect())
        }
    }
}

fn state_json(text: &str) -> Json {
    state_value(&serde_json::from_str(text).expect("test JSON"))
}

fn routing(fallback: bool) -> ModelRouting {
    ModelRouting {
        mimo_model: "mimo-v2.5".to_string(),
        mimo_models: vec!["mimo-v2.5".to_string(), "mimo-v2.5-pro".to_string()],
        model_aliases: vec![
            ("codex-auto-review".to_string(), " mimo-v2.5-pro ".to_string()),
            ("broken".to_string(), "   ".to_string()),
        ],
        fallback_unknown_model_to_default: fallback,
    }
}

fn record(tag: &str) -> StoredResponse {
    StoredResponse {
        response_object: state_json(&format!(r#"{{"id": "{tag}"}}"#)),
        chat_messages: vec![Json::text(tag)],
    }
}

#[test]
fn model_ids_are_unique_and_not_blank() {
    let mut ids = Vec::new();
    append_unique_model_id(&mut ids, "a");
    append_unique_model_id(&mut ids, "  ");
    append_unique_model_id(&mut ids, "a");
    append_unique_model_id(&mut ids, "b");
    assert_eq!(ids, vec!["a".to_string(), "b".to_string()]);

    let listed = list_model_ids(
        &["m1".to_string(), "m2".to_string(), "m1".to_string()],
        &["alias".to_string(), "m2".to_string(), "".to_string()],
    );
    assert_eq!(listed, vec!["m1".to_string(), "m2".to_string(), "alias".to_string()]);

    let list = models_list_json(&listed);
    assert_eq!(list.get_str("object"), Some("list"));
    let data = list.get_array("data").unwrap();
    assert_eq!(data.len(), 3);
    assert_eq!(data[2].get_str("id"), Some("alias"));
    assert_eq!(data[2].get_str("object"), Some("model"));
    assert_eq!(data[2].get_u64("created"), Some(0));
    assert_eq!(data[2].get_str("owned_by"), Some("xiaomi-mimo"));
}

#[test]
fn models_route_by_alias_then_known_model_then_fallback() {
    let strict = routing(false);
    let r = resolve_provider_model(&strict, None).unwrap();
    assert_eq!((r.client_model.as_str(), r.provider_model.as_str()), ("mimo-v2.5", "mimo-v2.5"));
    assert_eq!(r.route, ModelRoute::DefaultModel);
    assert_eq!(r.route.as_str(), "default_model");

    let r = resolve_provider_model(&strict, Some("   ")).unwrap();
    assert_eq!(r.route, ModelRoute::DefaultModel);

    let r = resolve_provider_model(&strict, Some(" codex-auto-review ")).unwrap();
    assert_eq!(r.client_model, "codex-auto-review");
    assert_eq!(r.provider_model, "mimo-v2.5-pro");
    assert_eq!(r.route.as_str(), "configured_alias");

    let r = resolve_provider_model(&strict, Some("mimo-v2.5-pro")).unwrap();
    assert_eq!(r.provider_model, "mimo-v2.5-pro");
    assert_eq!(r.route.as_str(), "direct_provider_model");

    let err = resolve_provider_model(&strict, Some("broken")).unwrap_err();
    assert_eq!(err.message(), "model alias for broken is empty");

    let err = resolve_provider_model(&strict, Some("gpt-5")).unwrap_err();
    assert_eq!(
        err.message(),
        "unsupported model gpt-5; configure upstream.aliases or enable upstream.fallback_unknown_model_to_default"
    );

    let r = resolve_provider_model(&routing(true), Some("gpt-5")).unwrap();
    assert_eq!(r.client_model, "gpt-5");
    assert_eq!(r.provider_model, "mimo-v2.5");
    assert_eq!(r.route.as_str(), "fallback_unknown_model_to_default");
}

#[test]
fn request_model_ignores_blank_names() {
    assert_eq!(extract_request_model(&state_json(r#"{"model": "m"}"#)), Some("m".to_string()));
    assert_eq!(extract_request_model(&state_json(r#"{"model": " "}"#)), None);
    assert_eq!(extract_request_model(&state_json(r#"{"model": 3}"#)), None);
    assert_eq!(extract_request_model(&state_json(r#"{}"#)), None);
}

#[test]
fn access_log_counts_print_a_dash_when_absent() {
    assert_eq!(format_optional_u64(None), "-");
    assert_eq!(format_optional_u64(Some(0)), "0");
    assert_eq!(format_optional_u64(Some(18446744073709551615)), "18446744073709551615");
}

#[test]
fn trace_ids_come_from_the_first_present_source() {
    let payload = state_json(
        r#"{"metadata": {"trace_id": "t1", "request_id": "r1"}, "trace_id": "t2", "request_id": "r2"}"#,
    );
    assert_eq!(extract_trace_id(&payload, Some("h")), Some("t1".to_string()));
    let payload = state_json(r#"{"metadata": {"request_id": "r1"}, "trace_id": "t2"}"#);
    assert_eq!(extract_trace_id(&payload, Some("h")), Some("t2".to_string()));
    let payload = state_json(r#"{"metadata": {"request_id": "r1"}, "request_id": "r2"}"#);
    assert_eq!(extract_trace_id(&payload, Some("h")), Some("r1".to_string()));
    let payload = state_json(r#"{"request_id": "r2"}"#);
    assert_eq!(extract_trace_id(&payload, Some("h")), Some("r2".to_string()));
    assert_eq!(extract_trace_id(&state_json("{}"), Some("h")), Some("h".to_string()));
    assert_eq!(extract_trace_id(&state_json("{}"), None), None);
}

#[test]
fn blank_trace_ids_are_replaced_by_fresh_ones() {
    assert_eq!(trace_id_or_fresh(Some("abc".to_string()), "0f"), "abc");
    assert_eq!(trace_id_or_fresh(Some("  ".to_string()), "0fa9"), "TRC-0FA9");
    assert_eq!(trace_id_or_fresh(None, "beef"), "TRC-BEEF");
    let fresh = resolve_trace_id(&state_json("{}"), None);
    assert!(fresh.starts_with("TRC-"));
    assert_eq!(fresh.len(), 36);
    assert!(fresh[4..].chars().all(|c| c.is_ascii_digit() || ('A'..='F').contains(&c)));
    assert_eq!(resolve_trace_id(&state_json(r#"{"trace_id": "keep"}"#), None), "keep");
}

#[test]
fn compaction_is_answered_as_unsupported() {
    let err = compact_unsupported_error();
    assert_eq!(err.status(), 400);
    assert_eq!(err.error_type(), "unsupported_feature");
    assert_eq!(err.code().as_deref(), Some("compact_not_supported"));
    assert!(err.message().starts_with("/v1/responses/compact is a Codex remote compaction"));
}

#[test]
fn metadata_commands_are_recognised() {
    assert_eq!(metadata_command(Some("--version")), Some(MetadataCommand::Version));
    assert_eq!(metadata_command(Some("--build-info")), Some(MetadataCommand::BuildInfo));
    assert_eq!(metadata_command(Some("--help")), None);
    assert_eq!(metadata_command(None), None);
}

#[test]
fn errors_map_to_status_type_and_code() {
    let not_found = ShimError::ResponseNotFound("resp_x".to_string());
    assert_eq!(not_found.status(), 404);
    assert_eq!(not_found.message(), "response not found: resp_x");
    assert_eq!(not_found.code().as_deref(), Some("response_not_found"));
    let protocol = ShimError::ProviderProtocol("bad".to_string());
    assert_eq!(protocol.status(), 502);
    assert_eq!(protocol.error_type(), "provider_protocol_error");
    let upstream = ShimError::Upstream { status: 429, message: "slow down".to_string() };
    assert_eq!(upstream.status(), 429);
    let odd = ShimError::Upstream { status: 200, message: "odd".to_string() };
    assert_eq!(odd.status(), 502);
    let invalid = ShimError::InvalidRequest("x".to_string());
    assert_eq!(invalid.code(), None);
    assert_eq!(invalid.error_type(), "invalid_request_error");
}

#[test]
fn store_reads_back_the_newest_write() {
    let mut store = ResponseStore::new(2);
    assert!(store.get("a").is_none());
    store.put("a".to_string(), record("a1"));
    store.put("b".to_string(), record("b1"));
    store.put("a".to_string(), record("a2"));
    let a = store.get("a").unwrap();
    assert_eq!(a.response_object.get_str("id"), Some("a2"));
    assert_eq!(a.chat_messages[0].as_str(), Some("a2"));
    assert_eq!(store.get("b").unwrap().response_object.get_str("id"), Some("b1"));
    store.put("c".to_string(), record("c1"));
    assert!(store.get("b").is_none());
    assert!(store.get("a").is_some());
    assert!(store.get("c").is_some());
}

#[test]
fn store_with_no_capacity_keeps_nothing() {
    let mut store = ResponseStore::new(0);
    store.put("a".to_string(), record("a"));
    assert!(store.get("a").is_none());
}

#[test]
fn thinking_policy_fills_assistant_reasoning() {
    let mut messages = vec![
        state_json(r#"{"role": "assistant", "content": "x"}"#),
        state_json(r#"{"role": "assistant", "content": "y", "reasoning_content": "kept"}"#),
        state_json(r#"{"role": "user", "content": "z"}"#),
    ];
    apply_reasoning_policy_to_chat_messages(&mut messages, ReasoningPolicy { thinking_enabled: false });
    assert!(messages[0].get("reasoning_content").is_none());
    apply_reasoning_policy_to_chat_messages(&mut messages, ReasoningPolicy { thinking_enabled: true });
    assert_eq!(messages[0].get_str("reasoning_content"), Some(""));
    assert_eq!(messages[1].get_str("reasoning_content"), Some("kept"));
    assert!(messages[2].get("reasoning_content").is_none());

    let mut message = state_json(r#"{"role": "assistant", "content": "a"}"#);
    apply_reasoning_policy_to_assistant_message(&mut message, None, ReasoningPolicy::default());
    assert!(message.get("reasoning_content").is_none());
    apply_reasoning_policy_to_assistant_message(&mut message, Some("why"), ReasoningPolicy::default());
    assert_eq!(message.get_str("reasoning_content"), Some("why"));
    assert_eq!(
        extract_reasoning_content(&state_json(r#"{"reasoning_content": "r"}"#)),
        Some("r".to_string())
    );
    assert_eq!(extract_reasoning_content(&state_json(r#"{"reasoning_content": 1}"#)), None);
}

#[test]
fn access_labels_show_dashes_for_missing_values() {
    let labels = codex_mimo_shim::models::access_labels(Some("m"), None, Some("default_model"), None);
    assert_eq!(labels.model, "m");
    assert_eq!(labels.provider_model, "-");
    assert_eq!(labels.model_route, "default_model");
    assert_eq!(labels.error, "-");
}
