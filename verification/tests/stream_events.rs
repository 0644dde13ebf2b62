use codex_mimo_shim::error::ShimError;
use codex_mimo_shim::json::{Json, Number};
use codex_mimo_shim::sse::{
    buffered_sse_events, failed_sse_events, failed_sse_events_at, response_for_stream, sse,
    stream_added_item,
};

fn event_value(v: &serde_json::Value) -> Json {
    match v {
        serde_json::Value::Null => Json::Null,
        serde_json::Value::Bool(b) => Json::Bool(*b),
        serde_json::Value::Number(n) => {
            if let Some(u) = n.as_u64() {
                Json::Number(Number::PosInt(u))
            } else if let Some(i) = n.as_i64() {
                Json::Number(Number::NegInt(i))
            } else {
                Json::Number(Number::Float(n.to_string()))
            }
        }
        serde_json::Value::String(s) => Json::Str(s.clone()),
        serde_json::Value::Array(a) => Json::Array(a.iter().map(event_value).collect()),
        serde_json::Value::Object(m) => {
            Json::object(m.iter().map(|(k, v)| (k.clone(), event_value(v))).collect())
        }
    }
}

fn event_json(text: &str) -> Json {
    event_value(&serde_json::from_str(text).expect("test JSON"))
}

fn event_name(frame: &str) -> &str {
    frame
        .strip_prefix("event: ")
        .and_then(|rest| rest.split('\n').next())
        .unwrap_or("")
}

fn event_data(frame: &str) -> serde_json::Value {
    let data = frame.split("\ndata: ").nth(1).expect("data line");
    serde_json::from_str(data.trim_end_matches('\n')).expect("event data is JSON")
}

#[test]
fn emits_custom_tool_input_events() {
    let response = event_json(
        r#"{"id": "resp_test", "status": "completed", "output": [{
            "id": "ctc_local_call_1", "type": "custom_tool_call", "status": "completed",
            "call_id": "call_1", "name": "local_shell", "input": "pwd"
        }]}"#,
    );

    let events = buffered_sse_events(&response).join("");
    assert!(events.contains("response.custom_tool_call_input.delta"));
    assert!(events.contains("response.custom_tool_call_input.done"));
    assert!(events.contains("\"input\":\"pwd\""));
}

#[test]
fn sse_frames_name_the_event_and_carry_compact_json() {
    let frame = sse("response.created", &event_json(r#"{"b": "x\ny", "a": [1, -2]}"#));
    assert_eq!(frame, "event: response.created\ndata: {\"a\":[1,-2],\"b\":\"x\\ny\"}\n\n");
}

#[test]
fn message_response_streams_in_order() {
    let response = event_json(
        r#"{"id": "resp_1", "status": "completed", "output_text": "hi", "usage": {"total_tokens": 3},
            "output": [{"id": "msg_1", "type": "message", "role": "assistant", "status": "completed",
                        "content": [{"type": "output_text", "text": "hi", "annotations": []}]}]}"#,
    );
    let events = buffered_sse_events(&response);
    let names: Vec<&str> = events.iter().map(|e| event_name(e)).collect();
    assert_eq!(
        names,
        vec![
            "response.created",
            "response.in_progress",
            "response.output_item.added",
            "response.content_part.added",
            "response.output_text.delta",
            "response.output_text.done",
            "response.content_part.done",
            "response.output_item.done",
            "response.completed",
            "",
        ]
    );
    assert_eq!(events.last().unwrap(), "data: [DONE]\n\n");
    let created = event_data(&events[0]);
    assert_eq!(created["response"]["status"], "in_progress");
    assert_eq!(created["response"]["output"].as_array().unwrap().len(), 0);
    assert!(created["response"]["usage"].is_null());
    assert_eq!(created["response"]["output_text"], "");
    let added = event_data(&events[2]);
    assert_eq!(added["output_index"], 0);
    assert_eq!(added["item"]["status"], "in_progress");
    assert_eq!(added["item"]["content"].as_array().unwrap().len(), 0);
    let part_added = event_data(&events[3]);
    assert_eq!(part_added["part"]["text"], "");
    let delta = event_data(&events[4]);
    assert_eq!(delta["delta"], "hi");
    assert_eq!(delta["item_id"], "msg_1");
    let completed = event_data(&events[8]);
    assert_eq!(completed["response"]["status"], "completed");
    assert_eq!(completed["response"]["usage"]["total_tokens"], 3);
}

#[test]
fn function_calls_stream_their_arguments() {
    let response = event_json(
        r#"{"id": "r", "output": [
            {"id": "fc_1", "type": "function_call", "arguments": {"q": 1}},
            {"id": "fc_2", "type": "function_call", "arguments": ""},
            {"id": "x_3", "type": "web_search_call"}
        ]}"#,
    );
    let events = buffered_sse_events(&response);
    let names: Vec<&str> = events.iter().map(|e| event_name(e)).collect();
    assert_eq!(
        names,
        vec![
            "response.created",
            "response.in_progress",
            "response.output_item.added",
            "response.function_call_arguments.delta",
            "response.function_call_arguments.done",
            "response.output_item.done",
            "response.output_item.added",
            "response.function_call_arguments.done",
            "response.output_item.done",
            "response.output_item.added",
            "response.output_item.done",
            "response.completed",
            "",
        ]
    );
    assert_eq!(event_data(&events[3])["delta"], "{\"q\":1}");
    assert_eq!(event_data(&events[7])["arguments"], "");
    assert_eq!(event_data(&events[7])["output_index"], 1);
}

#[test]
fn empty_custom_input_has_no_delta() {
    let response = event_json(r#"{"output": [{"id": "c", "type": "custom_tool_call"}]}"#);
    let events = buffered_sse_events(&response);
    let joined = events.join("");
    assert!(!joined.contains("custom_tool_call_input.delta"));
    assert!(joined.contains("custom_tool_call_input.done"));
}

#[test]
fn stream_envelope_and_added_items() {
    let response = event_json(r#"{"id": "r", "usage": {"total_tokens": 1}, "output_text": "x"}"#);
    let completed = response_for_stream(&response, "completed", None);
    assert_eq!(completed.get_str("status"), Some("completed"));
    assert_eq!(completed.get("usage").unwrap().get_u64("total_tokens"), Some(1));
    assert!(completed.get("output").is_none());
    let pending = response_for_stream(&response, "in_progress", Some(vec![]));
    assert!(matches!(pending.get("usage"), Some(Json::Null)));
    assert_eq!(pending.get_str("output_text"), Some(""));
    assert_eq!(pending.get_array("output").unwrap().len(), 0);
    let not_object = response_for_stream(&Json::text("s"), "in_progress", None);
    assert_eq!(not_object.as_str(), Some("s"));

    let added = stream_added_item(&event_json(r#"{"type": "function_call", "arguments": "{}"}"#));
    assert_eq!(added.get_str("arguments"), Some(""));
    assert_eq!(added.get_str("status"), Some("in_progress"));
    let added = stream_added_item(&event_json(r#"{"type": "custom_tool_call", "input": "ls"}"#));
    assert_eq!(added.get_str("input"), Some(""));
    let added = stream_added_item(&event_json("3"));
    assert_eq!(added.as_u64(), Some(3));
}

#[test]
fn failed_streams_report_the_error() {
    let err = ShimError::Upstream { status: 503, message: "provider down".to_string() };
    let events = failed_sse_events_at("resp_f", &err, 1234);
    assert_eq!(events.len(), 3);
    assert_eq!(event_name(&events[0]), "response.created");
    assert_eq!(event_name(&events[1]), "response.failed");
    assert_eq!(events[2], "data: [DONE]\n\n");
    let failed = event_data(&events[1]);
    assert_eq!(failed["type"], "response.failed");
    assert_eq!(failed["response"]["id"], "resp_f");
    assert_eq!(failed["response"]["status"], "failed");
    assert_eq!(failed["response"]["created_at"], 1234);
    assert_eq!(failed["response"]["error"]["message"], "provider down");
    assert_eq!(failed["response"]["error"]["type"], "upstream_error");
    assert_eq!(failed["response"]["error"]["code"], "upstream_error");

    let err = ShimError::InvalidRequest("bad".to_string());
    let events = failed_sse_events("resp_g", &err);
    let failed = event_data(&events[1]);
    assert!(failed["response"]["error"]["code"].is_null());
    assert!(failed["response"]["created_at"].as_i64().unwrap() > 1_600_000_000);
}
