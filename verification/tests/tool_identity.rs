use codex_mimo_shim::json::{Json, Number};
use codex_mimo_shim::registry::{ToolIdentity, ToolIdentityRegistry};
use codex_mimo_shim::tools::{
    chat_tool_calls_to_responses_items, join_namespace_tool_name,
    make_assistant_tool_calls_message, make_tool_message, normalize_tool_arguments,
    response_function_call_item_to_chat_tool_call, responses_tools_to_chat_tools,
};

fn tool_value(v: &serde_json::Value) -> Json {
    match v {
        serde_json::Value::Null => Json::Null,
        serde_json::Value::Bool(b) => Json::Bool(*b),
        serde_json::Value::Number(n) => {
            if let Some(u) = n.as_u64() {
                Json::Number(Number::PosInt(u))
            } else if let Some(i) = n.as_i64() {
                Json::Number(Number::NegInt(i))
            } else {
                Json::Number(Number::Float(n.to_string()))
            }
        }
        serde_json::Value::String(s) => Json::Str(s.clone()),
        serde_json::Value::Array(a) => Json::Array(a.iter().map(tool_value).collect()),
        serde_json::Value::Object(m) => {
            Json::object(m.iter().map(|(k, v)| (k.clone(), tool_value(v))).collect())
        }
    }
}

fn tool_json(text: &str) -> Json {
    tool_value(&serde_json::from_str(text).expect("test JSON"))
}

fn path<'a>(v: &'a Json, keys: &[&str]) -> &'a Json {
    let mut cur = v;
    for k in keys {
        cur = cur.get(k).unwrap_or_else(|| panic!("missing member {k}"));
    }
    cur
}

#[test]
fn forwards_custom_tools_as_single_input_functions() {
    let converted = responses_tools_to_chat_tools(Some(&tool_json(
        r#"[{"type": "custom", "name": "local_shell", "description": "Run a shell command."}]"#,
    )));

    assert_eq!(converted.tools.len(), 1);
    assert_eq!(
        converted
            .registry
            .resolve("local_shell")
            .map(|tool| tool.original_tool_type.as_str()),
        Some("custom")
    );
    let required = path(&converted.tools[0], &["function", "parameters", "required"]);
    assert_eq!(required.as_array().unwrap().len(), 1);
    assert_eq!(required.as_array().unwrap()[0].as_str(), Some("input"));
    assert_eq!(
        path(&converted.tools[0], &["function", "parameters", "properties", "input"]).get_str("type"),
        Some("string")
    );
}

#[test]
fn restores_custom_tool_calls_from_chat_arguments() {
    let converted = responses_tools_to_chat_tools(Some(&tool_json(
        r#"[{"type": "custom", "name": "local_shell"}]"#,
    )));
    let items = chat_tool_calls_to_responses_items(
        &[tool_json(
            r#"{"id": "call_123", "type": "function",
                "function": {"name": "local_shell", "arguments": "{\"input\":\"pwd\"}"}}"#,
        )],
        &converted.registry,
    );

    assert_eq!(items[0].get_str("type"), Some("custom_tool_call"));
    assert_eq!(items[0].get_str("input"), Some("pwd"));
}

#[test]
fn flattens_namespace_tools_and_restores_identity() {
    let converted = responses_tools_to_chat_tools(Some(&tool_json(
        r#"[{"type": "namespace", "name": "terminal", "tools": [
            {"type": "function", "name": "exec", "parameters": {"type": "object", "properties": {}}}
        ]}]"#,
    )));

    assert_eq!(
        path(&converted.tools[0], &["function"]).get_str("name"),
        Some("terminal__exec")
    );
    let items = chat_tool_calls_to_responses_items(
        &[tool_json(
            r#"{"id": "call_123", "type": "function", "function": {"name": "terminal__exec", "arguments": "{}"}}"#,
        )],
        &converted.registry,
    );
    assert_eq!(items[0].get_str("name"), Some("exec"));
    assert_eq!(items[0].get_str("namespace"), Some("terminal"));
}

#[test]
fn replays_namespaced_custom_tool_calls_as_function_calls() {
    let tool_call = response_function_call_item_to_chat_tool_call(&tool_json(
        r#"{"id": "ctc_123", "type": "custom_tool_call", "call_id": "call_123",
            "name": "exec", "namespace": "terminal", "input": "pwd"}"#,
    ));

    assert_eq!(tool_call.get_str("type"), Some("function"));
    assert_eq!(path(&tool_call, &["function"]).get_str("name"), Some("terminal__exec"));
    assert_eq!(
        path(&tool_call, &["function"]).get_str("arguments"),
        Some("{\"input\":\"pwd\"}")
    );
}

#[test]
fn registry_resolves_what_was_registered_last() {
    let mut registry = ToolIdentityRegistry::new();
    assert!(registry.resolve("a").is_none());
    registry.register(
        "a".to_string(),
        ToolIdentity {
            original_name: "first".to_string(),
            namespace_name: None,
            original_tool_type: "function".to_string(),
        },
    );
    registry.register(
        "b".to_string(),
        ToolIdentity {
            original_name: "other".to_string(),
            namespace_name: Some("ns".to_string()),
            original_tool_type: "custom".to_string(),
        },
    );
    registry.register(
        "a".to_string(),
        ToolIdentity {
            original_name: "second".to_string(),
            namespace_name: None,
            original_tool_type: "custom".to_string(),
        },
    );
    assert_eq!(registry.resolve("a").unwrap().original_name, "second");
    assert_eq!(registry.resolve("b").unwrap().namespace_name.as_deref(), Some("ns"));
    assert!(registry.resolve("c").is_none());
}

#[test]
fn joins_namespace_names_without_trailing_underscores() {
    assert_eq!(join_namespace_tool_name("terminal", "exec"), "terminal__exec");
    assert_eq!(join_namespace_tool_name("terminal__", "exec"), "terminal__exec");
    assert_eq!(join_namespace_tool_name("___", "exec"), "exec");
    assert_eq!(join_namespace_tool_name("", "exec"), "exec");
}

#[test]
fn tool_arguments_become_text() {
    assert_eq!(normalize_tool_arguments(None), "{}");
    assert_eq!(normalize_tool_arguments(Some(&Json::text("{\"a\":1}"))), "{\"a\":1}");
    assert_eq!(
        normalize_tool_arguments(Some(&tool_json(r#"{"b": [1, true, null], "a": "x\"y"}"#))),
        "{\"a\":\"x\\\"y\",\"b\":[1,true,null]}"
    );
}

#[test]
fn function_tools_keep_parameters_and_strictness() {
    let converted = responses_tools_to_chat_tools(Some(&tool_json(
        r#"[
            {"type": "function", "name": "lookup", "description": "Find.", "strict": true,
             "parameters": {"type": "object", "properties": {"q": {"type": "string"}}}},
            {"type": "function", "function": {"name": "nested", "parameters": "not an object"}},
            {"type": "web_search"},
            {"type": "function"},
            "not an object",
            {"type": "namespace", "name": "ns", "tools": [{"type": "custom", "name": "hidden"}]}
        ]"#,
    )));
    assert_eq!(converted.tools.len(), 2);
    let lookup = path(&converted.tools[0], &["function"]);
    assert_eq!(lookup.get_str("name"), Some("lookup"));
    assert_eq!(lookup.get_str("description"), Some("Find."));
    assert_eq!(lookup.get_bool("strict"), Some(true));
    assert_eq!(
        path(lookup, &["parameters", "properties", "q"]).get_str("type"),
        Some("string")
    );
    let nested = path(&converted.tools[1], &["function"]);
    assert_eq!(nested.get_str("name"), Some("nested"));
    assert_eq!(nested.get_str("description"), Some(""));
    assert!(nested.get("strict").is_none());
    assert_eq!(path(nested, &["parameters"]).get_str("type"), Some("object"));
    assert!(converted.registry.resolve("hidden").is_none());
    assert_eq!(
        converted.registry.resolve("lookup").unwrap().original_tool_type,
        "function"
    );
}

#[test]
fn unregistered_chat_calls_become_function_calls() {
    let registry = ToolIdentityRegistry::new();
    let items = chat_tool_calls_to_responses_items(
        &[
            tool_json(r#"{"call_id": "c9", "function": {"name": "free", "arguments": {"x": 1}}}"#),
            tool_json(r#"{"id": "c10"}"#),
            tool_json(r#""not an object""#),
        ],
        &registry,
    );
    assert_eq!(items.len(), 1);
    assert_eq!(items[0].get_str("type"), Some("function_call"));
    assert_eq!(items[0].get_str("id"), Some("fc_local_c9"));
    assert_eq!(items[0].get_str("call_id"), Some("c9"));
    assert_eq!(items[0].get_str("status"), Some("completed"));
    assert_eq!(items[0].get_str("arguments"), Some("{\"x\":1}"));
    assert!(items[0].get("namespace").is_none());
}

#[test]
fn custom_call_input_comes_from_the_arguments_object() {
    let converted = responses_tools_to_chat_tools(Some(&tool_json(
        r#"[{"type": "custom", "name": "sh"}]"#,
    )));
    let items = chat_tool_calls_to_responses_items(
        &[
            tool_json(r#"{"id": "a", "function": {"name": "sh", "arguments": "{\"input\": null}"}}"#),
            tool_json(r#"{"id": "b", "function": {"name": "sh", "arguments": "{\"input\": [1, 2]}"}}"#),
            tool_json(r#"{"id": "c", "function": {"name": "sh", "arguments": "not json"}}"#),
            tool_json(r#"{"id": "d", "function": {"name": "sh", "arguments": "{\"input\": \"ls -la\"}"}}"#),
        ],
        &converted.registry,
    );
    assert_eq!(items[0].get_str("input"), Some(""));
    assert_eq!(items[1].get_str("input"), Some("[1,2]"));
    assert_eq!(items[2].get_str("input"), Some(""));
    assert_eq!(items[3].get_str("input"), Some("ls -la"));
    assert_eq!(items[3].get_str("id"), Some("ctc_local_d"));
}

#[test]
fn assistant_tool_call_messages_normalize_each_call() {
    let message = make_assistant_tool_calls_message(vec![
        tool_json(r#"{"call_id": "c1", "function": {"name": "f", "arguments": {"k": "v"}}}"#),
        tool_json(r#"7"#),
    ]);
    assert_eq!(message.get_str("role"), Some("assistant"));
    assert!(matches!(message.get("content"), Some(Json::Null)));
    let calls = message.get_array("tool_calls").unwrap();
    assert_eq!(calls.len(), 2);
    assert_eq!(calls[0].get_str("id"), Some("c1"));
    assert_eq!(calls[0].get_str("type"), Some("function"));
    assert_eq!(path(&calls[0], &["function"]).get_str("arguments"), Some("{\"k\":\"v\"}"));
    assert_eq!(calls[1].as_u64(), Some(7));
}

#[test]
fn tool_messages_carry_output_as_text() {
    let message = make_tool_message("call_1", &Json::text("done"));
    assert_eq!(message.get_str("role"), Some("tool"));
    assert_eq!(message.get_str("tool_call_id"), Some("call_1"));
    assert_eq!(message.get_str("content"), Some("done"));
    let message = make_tool_message("call_2", &tool_json(r#"{"ok": true}"#));
    assert_eq!(message.get_str("content"), Some("{\"ok\":true}"));
}

#[test]
fn custom_call_replay_round_trips_through_the_registry() {
    let converted = responses_tools_to_chat_tools(Some(&tool_json(
        r#"[{"type": "custom", "name": "local_shell"}]"#,
    )));
    let item = tool_json(
        r#"{"type": "custom_tool_call", "call_id": "call_7", "name": "local_shell", "input": "echo \"hi\"\n"}"#,
    );
    let chat_call = response_function_call_item_to_chat_tool_call(&item);
    let restored = chat_tool_calls_to_responses_items(&[chat_call], &converted.registry);
    assert_eq!(restored[0].get_str("type"), Some("custom_tool_call"));
    assert_eq!(restored[0].get_str("name"), Some("local_shell"));
    assert_eq!(restored[0].get_str("call_id"), Some("call_7"));
    assert_eq!(restored[0].get_str("input"), Some("echo \"hi\"\n"));
}

#[test]
fn every_forwarded_tool_name_resolves() {
    let converted = responses_tools_to_chat_tools(Some(&tool_json(
        r#"[
            {"type": "function", "name": "a", "strict": true},
            {"type": "custom", "name": "b"},
            {"type": "namespace", "name": "ns_", "tools": [
                {"type": "function", "function": {"name": "c"}},
                {"type": "custom", "name": "dropped"},
                {"type": "namespace", "name": "inner", "tools": [{"type": "function", "name": "d"}]}
            ]},
            {"type": "file_search"}
        ]"#,
    )));
    let names: Vec<&str> = converted
        .tools
        .iter()
        .map(|tool| {
            assert_eq!(tool.get_str("type"), Some("function"));
            path(tool, &["function"]).get_str("name").unwrap()
        })
        .collect();
    assert_eq!(names, vec!["a", "b", "ns__c", "inner__d"]);
    for name in names {
        assert!(converted.registry.resolve(name).is_some(), "{name} resolves");
    }
    assert_eq!(
        converted.registry.resolve("inner__d").unwrap().namespace_name.as_deref(),
        Some("inner")
    );
}

#[test]
fn replaying_a_restored_call_gives_back_the_chat_call() {
    let converted = responses_tools_to_chat_tools(Some(&tool_json(
        r#"[{"type": "custom", "name": "sh"},
            {"type": "namespace", "name": "terminal", "tools": [{"type": "function", "name": "exec"}]}]"#,
    )));
    for call in [
        r#"{"id": "c1", "type": "function", "function": {"name": "sh", "arguments": "{\"input\":\"ls \\\"a b\\\"\"}"}}"#,
        r#"{"id": "c2", "type": "function", "function": {"name": "terminal__exec", "arguments": "{\"cmd\":1}"}}"#,
        r#"{"id": "c3", "type": "function", "function": {"name": "unknown", "arguments": "{}"}}"#,
    ] {
        let call = tool_json(call);
        let restored = chat_tool_calls_to_responses_items(&[call.deep_copy()], &converted.registry);
        let replayed = response_function_call_item_to_chat_tool_call(&restored[0]);
        assert_eq!(replayed.to_text(), call.to_text());
    }
}
