//! The Responses object built from a chat completion result.
use vstd::prelude::*;
use crate::error::{ShimError, is_protocol};
use crate::ids::{is_lower_hex, new_uuid_simple, now_unix_timestamp};
use crate::json::{Json, JsonV, Number, NumberV, copy_items, entries_view, items_view, jobj, jstr, obj_get, obj_of, opt_json_view, pairs_get};
use crate::reasoning::{ReasoningPolicy, apply_reasoning_policy_to_assistant_message, extract_reasoning_content, with_assistant_reasoning};
use crate::registry::{IdentityV, ToolIdentityRegistry};
use crate::text::{owned, push_str};
use crate::tools::{assistant_tool_calls_message, chat_tool_calls_to_responses_items, make_assistant_tool_calls_message, response_items_of_calls};
use crate::usage::{ProviderTokenStats, normalize_responses_usage, observed_stats, responses_usage, stats_json};

verus! {

broadcast use vstd::std_specs::vec::group_vec_axioms;

/// What the provider answered to a chat completion request.
#[derive(Debug)]
pub struct ChatResult {
    /// The whole response body.
    pub raw: Json,
    /// The first choice's message.
    pub message: Json,
    pub finish_reason: Option<String>,
    pub usage: Option<Json>,
}

/// What a chat completion answer holds: the first choice's `message` (an object), that
/// choice's `finish_reason` when it is a string, and the top-level `usage` unless it is
/// absent or `null`; an answer without such a message is a protocol error.
pub open spec fn provider_answer(raw: JsonV) -> Result<(JsonV, Option<Seq<char>>, Option<JsonV>), Seq<char>> {
    let usage = match raw.get("usage"@) {
        Some(JsonV::Null) => None,
        other => other,
    };
    match raw.get_array("choices"@) {
        Some(choices) => if choices.len() > 0 && choices[0].get("message"@) matches Some(JsonV::Object(_)) {
            Ok((choices[0].get("message"@)->Some_0, choices[0].get_str("finish_reason"@), usage))
        } else {
            Err("provider response is missing choices[0].message"@)
        },
        None => Err("provider response is missing choices[0].message"@),
    }
}

/// Reads a chat completion answer (see `provider_answer`), keeping the whole body.
pub fn chat_result_from_provider(raw: Json) -> (r: Result<ChatResult, ShimError>)
    ensures
        match provider_answer(raw@) {
            Ok((message, finish_reason, usage)) => r matches Ok(c) && c.raw@ == raw@ && c.message@ == message
                && crate::registry::opt_string_view(c.finish_reason) == finish_reason && opt_json_view(c.usage)
                == usage,
            Err(m) => r matches Err(e) && is_protocol(e, m),
        },
{
    let usage: Option<Json> = match raw.get("usage") {
        Some(u) => match u {
            Json::Null => None,
            _ => Some(u.deep_copy()),
        },
        None => None,
    };
    let (message, finish_reason) = match raw.get_array("choices") {
        Some(choices) => {
            if choices.len() == 0 {
                return Err(ShimError::ProviderProtocol(owned("provider response is missing choices[0].message")));
            }
            let first = &choices[0];
            match first.get("message") {
                Some(m) => match m {
                    Json::Object(_) => {
                        let finish_reason: Option<String> = match first.get_str("finish_reason") {
                            Some(f) => Some(owned(f)),
                            None => None,
                        };
                        (m.deep_copy(), finish_reason)
                    },
                    _ => {
                        return Err(
                            ShimError::ProviderProtocol(owned("provider response is missing choices[0].message")),
                        );
                    },
                },
                None => {
                    return Err(ShimError::ProviderProtocol(owned("provider response is missing choices[0].message")));
                },
            }
        },
        None => {
            return Err(ShimError::ProviderProtocol(owned("provider response is missing choices[0].message")));
        },
    };
    Ok(ChatResult { raw, message, finish_reason, usage })
}

/// The response object, and the conversation extended by the assistant's answer.
#[derive(Debug)]
pub struct BuiltResponse {
    pub response_object: Json,
    pub updated_chat_messages: Vec<Json>,
}

/// A JSON integer (`json!(n)` for an `i64`).
pub open spec fn int_json(n: i64) -> JsonV {
    if n < 0 {
        JsonV::Number(NumberV::NegInt(n))
    } else {
        JsonV::Number(NumberV::PosInt(n as u64))
    }
}

/// The assistant message kept in the conversation for a provider message.
pub open spec fn assistant_message_of(message: JsonV, policy: ReasoningPolicy) -> JsonV {
    let tool_calls = match message.get_array("tool_calls"@) {
        Some(t) => t,
        None => Seq::empty(),
    };
    let base = if tool_calls.len() > 0 {
        assistant_tool_calls_message(tool_calls)
    } else {
        jobj(seq![("role"@, jstr("assistant"@)), ("content"@, jstr(message_text(message)))])
    };
    with_assistant_reasoning(base, message.get_str("reasoning_content"@), policy)
}

/// The text of a provider message (empty when it has none).
pub open spec fn message_text(message: JsonV) -> Seq<char> {
    match message.get_str("content"@) {
        Some(t) => t,
        None => ""@,
    }
}

/// The output item for a text answer.
pub open spec fn text_item(message_id: Seq<char>, text: Seq<char>) -> JsonV {
    jobj(
        seq![
            ("id"@, jstr(message_id)),
            ("type"@, jstr("message"@)),
            ("status"@, jstr("completed"@)),
            ("role"@, jstr("assistant"@)),
            (
                "content"@,
                JsonV::Array(
                    seq![
                        jobj(
                            seq![
                                ("type"@, jstr("output_text"@)),
                                ("text"@, jstr(text)),
                                ("annotations"@, JsonV::Array(Seq::empty())),
                            ],
                        ),
                    ],
                ),
            ),
        ],
    )
}

/// The output items and output text for a provider message: its tool calls restored, or
/// one text message.
pub open spec fn output_of(message: JsonV, registry: Map<Seq<char>, IdentityV>, message_id: Seq<char>) -> (Seq<JsonV>, Seq<char>) {
    let tool_calls = match message.get_array("tool_calls"@) {
        Some(t) => t,
        None => Seq::empty(),
    };
    if tool_calls.len() > 0 {
        (response_items_of_calls(tool_calls, registry), ""@)
    } else {
        (seq![text_item(message_id, message_text(message))], message_text(message))
    }
}

pub open spec fn opt_text_json(s: Option<Seq<char>>) -> JsonV {
    match s {
        Some(t) => jstr(t),
        None => JsonV::Null,
    }
}

/// The gateway's own record of the exchange.
pub open spec fn gateway_record(raw: JsonV, finish_reason: Option<Seq<char>>, usage: Option<JsonV>) -> JsonV {
    let raw_id = match raw.get("id"@) {
        Some(i) => i,
        None => JsonV::Null,
    };
    let provider_usage = match usage {
        Some(u) => u,
        None => JsonV::Null,
    };
    jobj(
        seq![
            ("name"@, jstr("codex-mimo-shim"@)),
            ("backend"@, jstr("xiaomimimo"@)),
            ("endpoint_used"@, jstr("chat.completions"@)),
            ("finish_reason"@, opt_text_json(finish_reason)),
            ("provider_raw_id"@, raw_id),
            ("provider_usage"@, provider_usage),
            ("observed_token_stats"@, stats_json(observed_stats(usage))),
        ],
    )
}

/// The response object and updated conversation that a chat result gives.
pub open spec fn built_response(
    response_id: Seq<char>,
    client_model: Seq<char>,
    base_messages: Seq<JsonV>,
    registry: Map<Seq<char>, IdentityV>,
    raw: JsonV,
    message: JsonV,
    finish_reason: Option<Seq<char>>,
    usage: Option<JsonV>,
    parallel_tool_calls: bool,
    store: bool,
    policy: ReasoningPolicy,
    created_at: i64,
    message_id: Seq<char>,
) -> Result<(JsonV, Seq<JsonV>), Seq<char>> {
    match responses_usage(usage) {
        Err(m) => Err(m),
        Ok(u) => {
            let (output, output_text) = output_of(message, registry, message_id);
            let response = jobj(
                seq![
                    ("id"@, jstr(response_id)),
                    ("object"@, jstr("response"@)),
                    ("created_at"@, int_json(created_at)),
                    ("status"@, jstr("completed"@)),
                    ("model"@, jstr(client_model)),
                    ("output"@, JsonV::Array(output)),
                    ("output_text"@, jstr(output_text)),
                    ("error"@, JsonV::Null),
                    ("incomplete_details"@, JsonV::Null),
                    ("parallel_tool_calls"@, JsonV::Bool(parallel_tool_calls)),
                    ("store"@, JsonV::Bool(store)),
                    ("usage"@, u),
                ],
            );
            Ok(
                (
                    response.with("local_gateway"@, gateway_record(raw, finish_reason, usage)),
                    base_messages.push(assistant_message_of(message, policy)),
                ),
            )
        },
    }
}

fn int_value(n: i64) -> (r: Json)
    ensures
        r@ == int_json(n),
{
    if n < 0 {
        Json::Number(Number::NegInt(n))
    } else {
        Json::Number(Number::PosInt(n as u64))
    }
}

fn kv(key: &str, value: Json) -> (r: (String, Json))
    ensures
        r.0@ == key@,
        r.1 == value,
{
    (owned(key), value)
}

fn text_item_json(message_id: &str, text: &str) -> (r: Json)
    ensures
        r@ == text_item(message_id@, text@),
{
    let empty: Vec<Json> = Vec::new();
    proof {
        crate::json::lemma_array_view(empty);
        assert(items_view(empty@) =~= Seq::<JsonV>::empty());
    }
    let pv = vec![kv("type", Json::text("output_text")), kv("text", Json::text(text)), kv("annotations", Json::Array(empty))];
    assert(entries_view(pv@) =~= seq![
        ("type"@, jstr("output_text"@)),
        ("text"@, jstr(text@)),
        ("annotations"@, JsonV::Array(Seq::empty())),
    ]);
    let part = Json::object(pv);
    let ghost partv = part@;
    let parts = vec![part];
    proof {
        crate::json::lemma_array_view(parts);
        assert(items_view(parts@) =~= seq![partv]);
    }
    let v = vec![
        kv("id", Json::text(message_id)),
        kv("type", Json::text("message")),
        kv("status", Json::text("completed")),
        kv("role", Json::text("assistant")),
        kv("content", Json::Array(parts)),
    ];
    assert(entries_view(v@) =~= seq![
        ("id"@, jstr(message_id@)),
        ("type"@, jstr("message"@)),
        ("status"@, jstr("completed"@)),
        ("role"@, jstr("assistant"@)),
        ("content"@, JsonV::Array(seq![partv])),
    ]);
    Json::object(v)
}

fn gateway_json(raw: &Json, finish_reason: &Option<String>, usage: &Option<Json>) -> (r: Json)
    ensures
        r@ == gateway_record(raw@, crate::registry::opt_string_view(*finish_reason), opt_json_view(*usage)),
{
    let fr = match finish_reason {
        Some(f) => Json::Str(f.clone()),
        None => Json::Null,
    };
    let raw_id = match raw.get("id") {
        Some(i) => i.deep_copy(),
        None => Json::Null,
    };
    let pu = match usage {
        Some(u) => u.deep_copy(),
        None => Json::Null,
    };
    let usage_ref: Option<&Json> = match usage {
        Some(u) => Some(u),
        None => None,
    };
    assert(crate::json::opt_view(usage_ref) == opt_json_view(*usage));
    let stats = ProviderTokenStats::from_usage(usage_ref);
    let sj = stats.as_json();
    let ghost frv = fr@;
    let ghost riv = raw_id@;
    let ghost puv = pu@;
    let ghost sjv = sj@;
    assert(frv == opt_text_json(crate::registry::opt_string_view(*finish_reason)));
    assert(riv == match raw@.get("id"@) {
        Some(i) => i,
        None => JsonV::Null,
    });
    assert(puv == match opt_json_view(*usage) {
        Some(u) => u,
        None => JsonV::Null,
    });
    assert(sjv == stats_json(observed_stats(opt_json_view(*usage))));
    let v = vec![
        kv("name", Json::text("codex-mimo-shim")),
        kv("backend", Json::text("xiaomimimo")),
        kv("endpoint_used", Json::text("chat.completions")),
        kv("finish_reason", fr),
        kv("provider_raw_id", raw_id),
        kv("provider_usage", pu),
        kv("observed_token_stats", sj),
    ];
    assert(entries_view(v@) =~= seq![
        ("name"@, jstr("codex-mimo-shim"@)),
        ("backend"@, jstr("xiaomimimo"@)),
        ("endpoint_used"@, jstr("chat.completions"@)),
        ("finish_reason"@, frv),
        ("provider_raw_id"@, riv),
        ("provider_usage"@, puv),
        ("observed_token_stats"@, sjv),
    ]);
    let r = Json::object(v);
    assert(r@ == jobj(seq![
        ("name"@, jstr("codex-mimo-shim"@)),
        ("backend"@, jstr("xiaomimimo"@)),
        ("endpoint_used"@, jstr("chat.completions"@)),
        ("finish_reason"@, frv),
        ("provider_raw_id"@, riv),
        ("provider_usage"@, puv),
        ("observed_token_stats"@, sjv),
    ]));
    r
}

/// Builds the response object and the updated conversation for a chat result (see
/// `built_response`), given the creation time and the output message's id.
pub fn build_response_object_at(
    response_id: &str,
    client_model: &str,
    base_chat_messages: &[Json],
    tool_registry: &ToolIdentityRegistry,
    chat_result: ChatResult,
    parallel_tool_calls: bool,
    store: bool,
    reasoning_policy: ReasoningPolicy,
    created_at: i64,
    message_id: &str,
) -> (r: Result<BuiltResponse, ShimError>)
    ensures
        match built_response(
            response_id@,
            client_model@,
            items_view(base_chat_messages@),
            tool_registry@,
            chat_result.raw@,
            chat_result.message@,
            crate::registry::opt_string_view(chat_result.finish_reason),
            opt_json_view(chat_result.usage),
            parallel_tool_calls,
            store,
            reasoning_policy,
            created_at,
            message_id@,
        ) {
            Ok((resp, msgs)) => r matches Ok(b) && b.response_object@ == resp && items_view(
                b.updated_chat_messages@,
            ) == msgs,
            Err(m) => r matches Err(e) && is_protocol(e, m),
        },
{
    let message = &chat_result.message;
    let usage_ref: Option<&Json> = match &chat_result.usage {
        Some(u) => Some(u),
        None => None,
    };
    assert(crate::json::opt_view(usage_ref) == opt_json_view(chat_result.usage));
    let usage = match normalize_responses_usage(usage_ref) {
        Err(e) => {
            return Err(e);
        },
        Ok(u) => u,
    };
    let tool_calls: Vec<Json> = match message.get_array("tool_calls") {
        Some(t) => copy_items(t),
        None => Vec::new(),
    };
    let ghost tcv = items_view(tool_calls@);
    assert(tcv == match message@.get_array("tool_calls"@) {
        Some(t) => t,
        None => Seq::<JsonV>::empty(),
    });
    let mut updated: Vec<Json> = Vec::new();
    let mut i: usize = 0;
    while i < base_chat_messages.len()
        invariant
            i <= base_chat_messages.len(),
            items_view(updated@) == items_view(base_chat_messages@).take(i as int),
        decreases base_chat_messages.len() - i,
    {
        let c = base_chat_messages[i].deep_copy();
        let ghost before = updated@;
        updated.push(c);
        assert(items_view(updated@) =~= items_view(before).push(c@));
        assert(items_view(base_chat_messages@).take(i + 1) =~= items_view(base_chat_messages@).take(i as int).push(base_chat_messages@[i as int]@));
        i += 1;
    }
    assert(items_view(base_chat_messages@).take(base_chat_messages.len() as int) =~= items_view(base_chat_messages@));
    let reasoning_content = extract_reasoning_content(message);
    let reasoning_ref: Option<&str> = match &reasoning_content {
        Some(r) => Some(r.as_str()),
        None => None,
    };
    let text: &str = match message.get_str("content") {
        Some(t) => t,
        None => "",
    };
    let (output, output_text) = if tool_calls.len() > 0 {
        let items = chat_tool_calls_to_responses_items(tool_calls.as_slice(), tool_registry);
        let mut assistant_message = make_assistant_tool_calls_message(tool_calls);
        apply_reasoning_policy_to_assistant_message(&mut assistant_message, reasoning_ref, reasoning_policy);
        let ghost before = updated@;
        updated.push(assistant_message);
        assert(items_view(updated@) =~= items_view(before).push(assistant_message@));
        (items, owned(""))
    } else {
        let av = vec![kv("role", Json::text("assistant")), kv("content", Json::text(text))];
        assert(entries_view(av@) =~= seq![("role"@, jstr("assistant"@)), ("content"@, jstr(text@))]);
        let mut assistant_message = Json::object(av);
        apply_reasoning_policy_to_assistant_message(&mut assistant_message, reasoning_ref, reasoning_policy);
        let ghost before = updated@;
        updated.push(assistant_message);
        assert(items_view(updated@) =~= items_view(before).push(assistant_message@));
        let item = text_item_json(message_id, text);
        let items = vec![item];
        assert(items_view(items@) =~= seq![item@]);
        (items, owned(text))
    };
    let ghost ov = items_view(output@);
    proof {
        crate::json::lemma_array_view(output);
    }
    let ghost uv = usage@;
    let ghost otv = output_text@;
    let v = vec![
        kv("id", Json::text(response_id)),
        kv("object", Json::text("response")),
        kv("created_at", int_value(created_at)),
        kv("status", Json::text("completed")),
        kv("model", Json::text(client_model)),
        kv("output", Json::Array(output)),
        kv("output_text", Json::Str(output_text)),
        kv("error", Json::Null),
        kv("incomplete_details", Json::Null),
        kv("parallel_tool_calls", Json::Bool(parallel_tool_calls)),
        kv("store", Json::Bool(store)),
        kv("usage", usage),
    ];
    assert(entries_view(v@) =~= seq![
        ("id"@, jstr(response_id@)),
        ("object"@, jstr("response"@)),
        ("created_at"@, int_json(created_at)),
        ("status"@, jstr("completed"@)),
        ("model"@, jstr(client_model@)),
        ("output"@, JsonV::Array(ov)),
        ("output_text"@, jstr(otv)),
        ("error"@, JsonV::Null),
        ("incomplete_details"@, JsonV::Null),
        ("parallel_tool_calls"@, JsonV::Bool(parallel_tool_calls)),
        ("store"@, JsonV::Bool(store)),
        ("usage"@, uv),
    ]);
    let mut response = Json::object(v);
    let gateway = gateway_json(&chat_result.raw, &chat_result.finish_reason, &chat_result.usage);
    response.insert("local_gateway", gateway);
    Ok(BuiltResponse { response_object: response, updated_chat_messages: updated })
}

/// Builds the response object and the updated conversation for a chat result (see
/// `built_response`), stamped with the current time; a text answer's message gets a
/// fresh id `msg_local_` followed by 32 lowercase hexadecimal digits.
pub fn build_response_object(
    response_id: &str,
    client_model: &str,
    base_chat_messages: &[Json],
    tool_registry: &ToolIdentityRegistry,
    chat_result: ChatResult,
    parallel_tool_calls: bool,
    store: bool,
    reasoning_policy: ReasoningPolicy,
) -> (r: Result<BuiltResponse, ShimError>)
    ensures
        exists|created_at: i64, message_id: Seq<char>|
            #![trigger built_response(response_id@, client_model@, items_view(base_chat_messages@), tool_registry@, chat_result.raw@, chat_result.message@, crate::registry::opt_string_view(chat_result.finish_reason), opt_json_view(chat_result.usage), parallel_tool_calls, store, reasoning_policy, created_at, message_id)]
            message_id.len() == 42 && message_id.take(10) == "msg_local_"@ && (forall|i: int|
                10 <= i < 42 ==> is_lower_hex(#[trigger] message_id[i])) && match built_response(
                response_id@,
                client_model@,
                items_view(base_chat_messages@),
                tool_registry@,
                chat_result.raw@,
                chat_result.message@,
                crate::registry::opt_string_view(chat_result.finish_reason),
                opt_json_view(chat_result.usage),
                parallel_tool_calls,
                store,
                reasoning_policy,
                created_at,
                message_id,
            ) {
                Ok((resp, msgs)) => r matches Ok(b) && b.response_object@ == resp && items_view(
                    b.updated_chat_messages@,
                ) == msgs,
                Err(m) => r matches Err(e) && is_protocol(e, m),
            },
{
    let now = now_unix_timestamp();
    let suffix = new_uuid_simple();
    let mut message_id = owned("msg_local_");
    push_str(&mut message_id, suffix.as_str());
    let r = build_response_object_at(
        response_id,
        client_model,
        base_chat_messages,
        tool_registry,
        chat_result,
        parallel_tool_calls,
        store,
        reasoning_policy,
        now,
        message_id.as_str(),
    );
    proof {
        reveal_strlit("msg_local_");
        assert(message_id@.take(10) =~= "msg_local_"@);
        assert forall|i: int| 10 <= i < 42 implies is_lower_hex(#[trigger] message_id@[i]) by {
            assert(message_id@[i] == suffix@[i - 10]);
        }
    }
    r
}

/// The assistant message kept for the conversation is an assistant message; it carries
/// the provider's reasoning whenever the provider gave one, whether or not thinking is
/// enabled, and otherwise an empty reasoning exactly when thinking is enabled.
pub proof fn law_assistant_reasoning_is_kept(message: JsonV, policy: ReasoningPolicy)
    ensures
        ({
            let kept = assistant_message_of(message, policy);
            let given = message.get_str("reasoning_content"@);
            &&& kept.get_str("role"@) == Some("assistant"@)
            &&& given is Some ==> kept.get_str("reasoning_content"@) == given
            &&& (given is None && policy.thinking_enabled) ==> kept.get_str("reasoning_content"@) == Some(""@)
            &&& (given is None && !policy.thinking_enabled) ==> kept.get("reasoning_content"@) is None
        }),
{
    reveal_strlit("role");
    reveal_strlit("content");
    reveal_strlit("tool_calls");
    reveal_strlit("reasoning_content");
    assert("role"@.len() != "reasoning_content"@.len());
    assert("content"@.len() != "reasoning_content"@.len());
    assert("tool_calls"@.len() != "reasoning_content"@.len());
    let tool_calls = match message.get_array("tool_calls"@) {
        Some(t) => t,
        None => Seq::empty(),
    };
    let pairs = if tool_calls.len() > 0 {
        seq![
            ("role"@, jstr("assistant"@)),
            ("content"@, JsonV::Null),
            ("tool_calls"@, JsonV::Array(crate::tools::normalized_calls(tool_calls))),
        ]
    } else {
        seq![("role"@, jstr("assistant"@)), ("content"@, jstr(message_text(message)))]
    };
    let base = jobj(pairs);
    crate::json::lemma_obj_of_get(pairs, "role"@);
    crate::json::lemma_obj_of_get(pairs, "reasoning_content"@);
    assert("role"@.len() != "tool_calls"@.len());
    assert("role"@.len() != "content"@.len());
    if tool_calls.len() > 0 {
        let p2 = pairs.drop_last();
        let p1 = p2.drop_last();
        assert(p2 =~= seq![("role"@, jstr("assistant"@)), ("content"@, JsonV::Null)]);
        assert(p1 =~= seq![("role"@, jstr("assistant"@))]);
        assert(p1.drop_last().len() == 0);
        assert(pairs_get(p1.drop_last(), "reasoning_content"@) is None);
        assert(pairs.last().0 == "tool_calls"@);
        assert(p2.last().0 == "content"@);
        assert(pairs_get(p1, "role"@) == Some(jstr("assistant"@)));
        assert(pairs_get(p1, "reasoning_content"@) is None);
        assert(pairs_get(p2, "role"@) == Some(jstr("assistant"@)));
        assert(pairs_get(p2, "reasoning_content"@) is None);
        assert(pairs_get(pairs, "role"@) == Some(jstr("assistant"@)));
        assert(pairs_get(pairs, "reasoning_content"@) is None);
    } else {
        let p1 = pairs.drop_last();
        assert(p1 =~= seq![("role"@, jstr("assistant"@))]);
        assert(p1.drop_last().len() == 0);
        assert(pairs_get(p1.drop_last(), "reasoning_content"@) is None);
        assert(pairs.last().0 == "content"@);
        assert(pairs_get(p1, "role"@) == Some(jstr("assistant"@)));
        assert(pairs_get(p1, "reasoning_content"@) is None);
        assert(pairs_get(pairs, "role"@) == Some(jstr("assistant"@)));
        assert(pairs_get(pairs, "reasoning_content"@) is None);
    }
    let m = obj_of(pairs);
    match message.get_str("reasoning_content"@) {
        Some(r) => {
            crate::json::law_get_after_insert(m, "reasoning_content"@, jstr(r), "role"@);
        },
        None => {
            crate::json::law_get_after_insert(m, "reasoning_content"@, jstr(""@), "role"@);
        },
    }
}

proof fn lemma_response_keys()
    ensures
        "id"@.len() == 2,
        "object"@.len() == 6,
        "created_at"@.len() == 10,
        "status"@.len() == 6,
        "model"@.len() == 5,
        "output"@.len() == 6,
        "output_text"@.len() == 11,
        "error"@.len() == 5,
        "incomplete_details"@.len() == 18,
        "parallel_tool_calls"@.len() == 19,
        "store"@.len() == 5,
        "usage"@.len() == 5,
        "local_gateway"@.len() == 13,
        "model"@ != "error"@,
        "model"@ != "store"@,
        "model"@ != "usage"@,
        "store"@ != "error"@,
        "store"@ != "usage"@,
        "usage"@ != "error"@,
        "output"@ != "object"@,
        "output"@ != "status"@,
        "role"@.len() == 4,
        "type"@.len() == 4,
        "content"@.len() == 7,
        "text"@.len() == 4,
        "annotations"@.len() == 11,
        "role"@ != "type"@,
        "text"@ != "type"@,
{
    reveal_strlit("id");
    reveal_strlit("object");
    reveal_strlit("created_at");
    reveal_strlit("status");
    reveal_strlit("model");
    reveal_strlit("output");
    reveal_strlit("output_text");
    reveal_strlit("error");
    reveal_strlit("incomplete_details");
    reveal_strlit("parallel_tool_calls");
    reveal_strlit("store");
    reveal_strlit("usage");
    reveal_strlit("local_gateway");
    reveal_strlit("role");
    reveal_strlit("type");
    reveal_strlit("content");
    reveal_strlit("text");
    reveal_strlit("annotations");
    assert("model"@[0] != "error"@[0]);
    assert("model"@[0] != "store"@[0]);
    assert("model"@[0] != "usage"@[0]);
    assert("store"@[0] != "error"@[0]);
    assert("store"@[0] != "usage"@[0]);
    assert("usage"@[0] != "error"@[0]);
    assert("output"@[1] != "object"@[1]);
    assert("output"@[0] != "status"@[0]);
    assert("role"@[0] != "type"@[0]);
    assert("text"@[1] != "type"@[1]);
}

/// A built response answers under the response's id and the client's model, completed,
/// with the request's `store` and `parallel_tool_calls` flags and the normalized usage;
/// a text answer gives one assistant message whose output text, like the response's
/// `output_text`, is the provider message's text (empty when it has none), while a tool
/// call answer has empty `output_text`; and the conversation is the base messages
/// extended by exactly one assistant message.
pub proof fn law_response_carries_request_and_answer(
    response_id: Seq<char>,
    client_model: Seq<char>,
    base_messages: Seq<JsonV>,
    registry: Map<Seq<char>, IdentityV>,
    raw: JsonV,
    message: JsonV,
    finish_reason: Option<Seq<char>>,
    usage: Option<JsonV>,
    parallel_tool_calls: bool,
    store: bool,
    policy: ReasoningPolicy,
    created_at: i64,
    message_id: Seq<char>,
)
    requires
        responses_usage(usage) is Ok,
    ensures
        ({
            let b = built_response(response_id, client_model, base_messages, registry, raw, message, finish_reason, usage, parallel_tool_calls, store, policy, created_at, message_id);
            let has_calls = message.get_array("tool_calls"@) matches Some(t) && t.len() > 0;
            let text = match message.get_str("content"@) {
                Some(t) => t,
                None => ""@,
            };
            &&& b is Ok
            &&& b->Ok_0.0.get_str("id"@) == Some(response_id)
            &&& b->Ok_0.0.get_str("model"@) == Some(client_model)
            &&& b->Ok_0.0.get("store"@) == Some(JsonV::Bool(store))
            &&& b->Ok_0.0.get("parallel_tool_calls"@) == Some(JsonV::Bool(parallel_tool_calls))
            &&& b->Ok_0.0.get("usage"@) == Some(responses_usage(usage)->Ok_0)
            &&& b->Ok_0.1.len() == base_messages.len() + 1
            &&& b->Ok_0.1.take(base_messages.len() as int) == base_messages
            &&& b->Ok_0.1.last().get_str("role"@) == Some("assistant"@)
            &&& has_calls ==> b->Ok_0.0.get_str("output_text"@) == Some(""@)
            &&& !has_calls ==> ({
                let out = b->Ok_0.0.get_array("output"@)->Some_0;
                &&& b->Ok_0.0.get_str("output_text"@) == Some(text)
                &&& b->Ok_0.0.get_array("output"@) is Some
                &&& out.len() == 1
                &&& out[0].get_str("role"@) == Some("assistant"@)
                &&& out[0].get_array("content"@) is Some
                &&& out[0].get_array("content"@)->Some_0.len() == 1
                &&& out[0].get_array("content"@)->Some_0[0].get_str("text"@) == Some(text)
            })
        }),
{
    lemma_response_keys();
    law_assistant_reasoning_is_kept(message, policy);
    reveal_with_fuel(pairs_get, 14);
    let u = responses_usage(usage)->Ok_0;
    let (output, output_text) = output_of(message, registry, message_id);
    let pairs = seq![
        ("id"@, jstr(response_id)),
        ("object"@, jstr("response"@)),
        ("created_at"@, int_json(created_at)),
        ("status"@, jstr("completed"@)),
        ("model"@, jstr(client_model)),
        ("output"@, JsonV::Array(output)),
        ("output_text"@, jstr(output_text)),
        ("error"@, JsonV::Null),
        ("incomplete_details"@, JsonV::Null),
        ("parallel_tool_calls"@, JsonV::Bool(parallel_tool_calls)),
        ("store"@, JsonV::Bool(store)),
        ("usage"@, u),
    ];
    let m = obj_of(pairs);
    let g = gateway_record(raw, finish_reason, usage);
    let keys = seq!["id"@, "model"@, "store"@, "parallel_tool_calls"@, "usage"@, "output_text"@, "output"@];
    assert forall|k: int| 0 <= k < keys.len() implies obj_get(crate::json::obj_insert(m, "local_gateway"@, g), #[trigger] keys[k])
        == pairs_get(pairs, keys[k]) by {
        crate::json::law_get_after_insert(m, "local_gateway"@, g, keys[k]);
        crate::json::lemma_obj_of_get(pairs, keys[k]);
    }
    assert(obj_get(crate::json::obj_insert(m, "local_gateway"@, g), keys[0]) == pairs_get(pairs, keys[0]));
    assert(obj_get(crate::json::obj_insert(m, "local_gateway"@, g), keys[1]) == pairs_get(pairs, keys[1]));
    assert(obj_get(crate::json::obj_insert(m, "local_gateway"@, g), keys[2]) == pairs_get(pairs, keys[2]));
    assert(obj_get(crate::json::obj_insert(m, "local_gateway"@, g), keys[3]) == pairs_get(pairs, keys[3]));
    assert(obj_get(crate::json::obj_insert(m, "local_gateway"@, g), keys[4]) == pairs_get(pairs, keys[4]));
    assert(obj_get(crate::json::obj_insert(m, "local_gateway"@, g), keys[5]) == pairs_get(pairs, keys[5]));
    assert(obj_get(crate::json::obj_insert(m, "local_gateway"@, g), keys[6]) == pairs_get(pairs, keys[6]));
    let msgs = base_messages.push(assistant_message_of(message, policy));
    assert(msgs.take(base_messages.len() as int) =~= base_messages);
    let text = message_text(message);
    let ppairs = seq![
        ("type"@, jstr("output_text"@)),
        ("text"@, jstr(text)),
        ("annotations"@, JsonV::Array(Seq::empty())),
    ];
    crate::json::lemma_obj_of_get(ppairs, "text"@);
    let ipairs = seq![
        ("id"@, jstr(message_id)),
        ("type"@, jstr("message"@)),
        ("status"@, jstr("completed"@)),
        ("role"@, jstr("assistant"@)),
        ("content"@, JsonV::Array(seq![jobj(ppairs)])),
    ];
    crate::json::lemma_obj_of_get(ipairs, "role"@);
    crate::json::lemma_obj_of_get(ipairs, "content"@);
}

} // verus!
