//! The server-sent events that replay a finished response as a stream.
use vstd::prelude::*;
use crate::wire::json_text;
use crate::error::ShimError;
use crate::json::{Json, JsonV, Number, NumberV, entries_view, items_view, jobj, jstr};
use crate::text::{owned, push_str};
use crate::tools::{arguments_text, normalize_tool_arguments};

verus! {

broadcast use vstd::std_specs::vec::group_vec_axioms;

/// One event: its name line, its JSON data line, and a blank line.
pub open spec fn sse_text(event: Seq<char>, payload: JsonV) -> Seq<char> {
    "event: "@ + event + "\ndata: "@ + json_text(payload) + "\n\n"@
}

/// The closing line of every stream.
pub open spec fn done_line() -> Seq<char> {
    "data: [DONE]\n\n"@
}

/// Formats one event.
pub fn sse(event: &str, payload: &Json) -> (r: String)
    ensures
        r@ == sse_text(event@, payload@),
{
    let mut out = owned("event: ");
    push_str(&mut out, event);
    push_str(&mut out, "\ndata: ");
    let body = payload.to_text();
    push_str(&mut out, body.as_str());
    push_str(&mut out, "\n\n");
    out
}

pub open spec fn index_json(i: int) -> JsonV {
    JsonV::Number(NumberV::PosInt(i as u64))
}

/// A copy of the response for the opening events: status set, output replaced when
/// given, and (until completed) no usage and empty output text.
pub open spec fn stream_envelope(response: JsonV, status: Seq<char>, output: Option<Seq<JsonV>>) -> JsonV {
    match response {
        JsonV::Object(m) => {
            let e1 = crate::json::obj_insert(m, "status"@, jstr(status));
            let e2 = match output {
                Some(o) => crate::json::obj_insert(e1, "output"@, JsonV::Array(o)),
                None => e1,
            };
            let e3 = if status != "completed"@ {
                crate::json::obj_insert(
                    crate::json::obj_insert(e2, "usage"@, JsonV::Null),
                    "output_text"@,
                    jstr(""@),
                )
            } else {
                e2
            };
            JsonV::Object(e3)
        },
        _ => response,
    }
}

/// An output item as first announced: in progress, with its content, arguments or input
/// still empty.
pub open spec fn added_item(item: JsonV) -> JsonV {
    match item {
        JsonV::Object(_) => {
            let ty = item.get_str("type"@);
            let a = item.with("status"@, jstr("in_progress"@));
            if ty == Some("message"@) {
                a.with("content"@, JsonV::Array(Seq::empty()))
            } else if ty == Some("function_call"@) {
                a.with("arguments"@, jstr(""@))
            } else if ty == Some("custom_tool_call"@) {
                a.with("input"@, jstr(""@))
            } else {
                a
            }
        },
        _ => item,
    }
}

pub open spec fn str_or_empty(s: Option<Seq<char>>) -> Seq<char> {
    match s {
        Some(t) => t,
        None => ""@,
    }
}

/// The events of a custom tool call's input: a delta with the whole input (when there is
/// any), then the done event.
pub open spec fn custom_tool_call_events(index: int, item: JsonV) -> Seq<Seq<char>> {
    let item_id = str_or_empty(item.get_str("id"@));
    let input = str_or_empty(item.get_str("input"@));
    let delta = if input.len() > 0 {
        seq![
            sse_text(
                "response.custom_tool_call_input.delta"@,
                jobj(
                    seq![
                        ("type"@, jstr("response.custom_tool_call_input.delta"@)),
                        ("item_id"@, jstr(item_id)),
                        ("output_index"@, index_json(index)),
                        ("delta"@, jstr(input)),
                    ],
                ),
            ),
        ]
    } else {
        Seq::empty()
    };
    delta + seq![
        sse_text(
            "response.custom_tool_call_input.done"@,
            jobj(
                seq![
                    ("type"@, jstr("response.custom_tool_call_input.done"@)),
                    ("item_id"@, jstr(item_id)),
                    ("output_index"@, index_json(index)),
                    ("input"@, jstr(input)),
                ],
            ),
        ),
    ]
}

/// The events of a function call's arguments: a delta with all of them (when there are
/// any), then the done event.
pub open spec fn function_call_events(index: int, item: JsonV) -> Seq<Seq<char>> {
    let item_id = str_or_empty(item.get_str("id"@));
    let arguments = arguments_text(item.get("arguments"@));
    let delta = if arguments.len() > 0 {
        seq![
            sse_text(
                "response.function_call_arguments.delta"@,
                jobj(
                    seq![
                        ("type"@, jstr("response.function_call_arguments.delta"@)),
                        ("item_id"@, jstr(item_id)),
                        ("output_index"@, index_json(index)),
                        ("delta"@, jstr(arguments)),
                    ],
                ),
            ),
        ]
    } else {
        Seq::empty()
    };
    delta + seq![
        sse_text(
            "response.function_call_arguments.done"@,
            jobj(
                seq![
                    ("type"@, jstr("response.function_call_arguments.done"@)),
                    ("item_id"@, jstr(item_id)),
                    ("output_index"@, index_json(index)),
                    ("arguments"@, jstr(arguments)),
                ],
            ),
        ),
    ]
}

/// A content part as first announced: output text still empty.
pub open spec fn added_part(part: JsonV) -> JsonV {
    if part is Object && part.get_str("type"@) == Some("output_text"@) {
        part.with("text"@, jstr(""@))
    } else {
        part
    }
}

/// The events of one content part of a message.
pub open spec fn part_events(item_id: Seq<char>, index: int, content_index: int, part: JsonV) -> Seq<Seq<char>> {
    let added = seq![
        sse_text(
            "response.content_part.added"@,
            jobj(
                seq![
                    ("type"@, jstr("response.content_part.added"@)),
                    ("item_id"@, jstr(item_id)),
                    ("output_index"@, index_json(index)),
                    ("content_index"@, index_json(content_index)),
                    ("part"@, added_part(part)),
                ],
            ),
        ),
    ];
    let text_events = match part.get_str("text"@) {
        Some(text) => {
            let delta = if text.len() > 0 {
                seq![
                    sse_text(
                        "response.output_text.delta"@,
                        jobj(
                            seq![
                                ("type"@, jstr("response.output_text.delta"@)),
                                ("item_id"@, jstr(item_id)),
                                ("output_index"@, index_json(index)),
                                ("content_index"@, index_json(content_index)),
                                ("delta"@, jstr(text)),
                            ],
                        ),
                    ),
                ]
            } else {
                Seq::empty()
            };
            delta + seq![
                sse_text(
                    "response.output_text.done"@,
                    jobj(
                        seq![
                            ("type"@, jstr("response.output_text.done"@)),
                            ("item_id"@, jstr(item_id)),
                            ("output_index"@, index_json(index)),
                            ("content_index"@, index_json(content_index)),
                            ("text"@, jstr(text)),
                        ],
                    ),
                ),
            ]
        },
        None => Seq::empty(),
    };
    added + text_events + seq![
        sse_text(
            "response.content_part.done"@,
            jobj(
                seq![
                    ("type"@, jstr("response.content_part.done"@)),
                    ("item_id"@, jstr(item_id)),
                    ("output_index"@, index_json(index)),
                    ("content_index"@, index_json(content_index)),
                    ("part"@, part),
                ],
            ),
        ),
    ]
}

/// The events of the first `n` content parts of a message.
pub open spec fn parts_events(item_id: Seq<char>, index: int, parts: Seq<JsonV>, n: int) -> Seq<Seq<char>>
    decreases n,
{
    if n <= 0 {
        Seq::empty()
    } else {
        parts_events(item_id, index, parts, n - 1) + part_events(item_id, index, n - 1, parts[n - 1])
    }
}

/// The events of a message's content parts.
pub open spec fn message_events(index: int, item: JsonV) -> Seq<Seq<char>> {
    let item_id = str_or_empty(item.get_str("id"@));
    let parts = match item.get_array("content"@) {
        Some(p) => p,
        None => Seq::empty(),
    };
    parts_events(item_id, index, parts, parts.len() as int)
}

/// All events of one output item: added, the item's own events, done.
pub open spec fn item_events(index: int, item: JsonV) -> Seq<Seq<char>> {
    let ty = item.get_str("type"@);
    let own = if ty == Some("message"@) {
        message_events(index, item)
    } else if ty == Some("function_call"@) {
        function_call_events(index, item)
    } else if ty == Some("custom_tool_call"@) {
        custom_tool_call_events(index, item)
    } else {
        Seq::empty()
    };
    seq![
        sse_text(
            "response.output_item.added"@,
            jobj(
                seq![
                    ("type"@, jstr("response.output_item.added"@)),
                    ("output_index"@, index_json(index)),
                    ("item"@, added_item(item)),
                ],
            ),
        ),
    ] + own + seq![
        sse_text(
            "response.output_item.done"@,
            jobj(
                seq![
                    ("type"@, jstr("response.output_item.done"@)),
                    ("output_index"@, index_json(index)),
                    ("item"@, item),
                ],
            ),
        ),
    ]
}

/// The events of the first `n` output items.
pub open spec fn output_events(items: Seq<JsonV>, n: int) -> Seq<Seq<char>>
    decreases n,
{
    if n <= 0 {
        Seq::empty()
    } else {
        output_events(items, n - 1) + item_events(n - 1, items[n - 1])
    }
}

/// The whole stream for a finished response: created and in-progress with an empty
/// envelope, the events of each output item, completed with the full response, and the
/// closing line.
pub open spec fn buffered_events(response: JsonV) -> Seq<Seq<char>> {
    let envelope = stream_envelope(response, "in_progress"@, Some(Seq::empty()));
    let items = match response.get_array("output"@) {
        Some(o) => o,
        None => Seq::empty(),
    };
    seq![
        sse_text(
            "response.created"@,
            jobj(seq![("type"@, jstr("response.created"@)), ("response"@, envelope)]),
        ),
        sse_text(
            "response.in_progress"@,
            jobj(seq![("type"@, jstr("response.in_progress"@)), ("response"@, envelope)]),
        ),
    ] + output_events(items, items.len() as int) + seq![
        sse_text(
            "response.completed"@,
            jobj(seq![("type"@, jstr("response.completed"@)), ("response"@, response)]),
        ),
        done_line(),
    ]
}

/// The texts of a list of strings.
pub open spec fn texts(v: Seq<String>) -> Seq<Seq<char>> {
    v.map_values(|s: String| s@)
}

fn kv(key: &str, value: Json) -> (r: (String, Json))
    ensures
        r.0@ == key@,
        r.1 == value,
{
    (owned(key), value)
}

fn index_value(i: usize) -> (r: Json)
    ensures
        r@ == index_json(i as int),
{
    Json::Number(Number::PosInt(i as u64))
}

fn push_event(events: &mut Vec<String>, event: &str, payload: &Json)
    ensures
        texts(final(events)@) == texts(old(events)@).push(sse_text(event@, payload@)),
{
    let e = sse(event, payload);
    events.push(e);
    assert(texts(events@) =~= texts(old(events)@).push(e@));
}

/// A copy of the response with `status` set, `output` replaced when given, and (for a
/// status other than completed) no usage and empty output text.
pub fn response_for_stream(response: &Json, status: &str, output: Option<Vec<Json>>) -> (r: Json)
    ensures
        r@ == stream_envelope(
            response@,
            status@,
            match output {
                Some(o) => Some(items_view(o@)),
                None => None,
            },
        ),
{
    let mut envelope = response.deep_copy();
    if envelope.is_object() {
        envelope.insert("status", Json::text(status));
        match output {
            Some(o) => {
                proof {
                    crate::json::lemma_array_view(o);
                }
                envelope.insert("output", Json::Array(o));
            },
            None => {},
        }
        proof {
            reveal_strlit("completed");
        }
        if !crate::text::text_eq(status, "completed") {
            envelope.insert("usage", Json::Null);
            envelope.insert("output_text", Json::text(""));
        }
    }
    envelope
}

/// An output item as first announced (see `added_item`).
pub fn stream_added_item(item: &Json) -> (r: Json)
    ensures
        r@ == added_item(item@),
{
    let mut added = item.deep_copy();
    if !added.is_object() {
        return added;
    }
    let ty = item.get_str("type");
    let is_message = crate::json::opt_is(ty, "message");
    let is_function = crate::json::opt_is(ty, "function_call");
    let is_custom = crate::json::opt_is(ty, "custom_tool_call");
    added.insert("status", Json::text("in_progress"));
    if is_message {
        let empty: Vec<Json> = Vec::new();
        proof {
            crate::json::lemma_array_view(empty);
            assert(items_view(empty@) =~= Seq::<JsonV>::empty());
        }
        added.insert("content", Json::Array(empty));
    } else if is_function {
        added.insert("arguments", Json::text(""));
    } else if is_custom {
        added.insert("input", Json::text(""));
    }
    added
}

fn event_object4(a: &str, av: Json, b: &str, bv: Json, c: &str, cv: Json, d: &str, dv: Json) -> (r: Json)
    ensures
        r@ == jobj(seq![(a@, av@), (b@, bv@), (c@, cv@), (d@, dv@)]),
{
    let ghost (x, y, z, w) = (av@, bv@, cv@, dv@);
    let v = vec![kv(a, av), kv(b, bv), kv(c, cv), kv(d, dv)];
    assert(entries_view(v@) =~= seq![(a@, x), (b@, y), (c@, z), (d@, w)]);
    Json::object(v)
}

fn event_object5(a: &str, av: Json, b: &str, bv: Json, c: &str, cv: Json, d: &str, dv: Json, e: &str, ev: Json) -> (r: Json)
    ensures
        r@ == jobj(seq![(a@, av@), (b@, bv@), (c@, cv@), (d@, dv@), (e@, ev@)]),
{
    let ghost (x, y, z, w, u) = (av@, bv@, cv@, dv@, ev@);
    let v = vec![kv(a, av), kv(b, bv), kv(c, cv), kv(d, dv), kv(e, ev)];
    assert(entries_view(v@) =~= seq![(a@, x), (b@, y), (c@, z), (d@, w), (e@, u)]);
    Json::object(v)
}

fn event_object3(a: &str, av: Json, b: &str, bv: Json, c: &str, cv: Json) -> (r: Json)
    ensures
        r@ == jobj(seq![(a@, av@), (b@, bv@), (c@, cv@)]),
{
    let ghost (x, y, z) = (av@, bv@, cv@);
    let v = vec![kv(a, av), kv(b, bv), kv(c, cv)];
    assert(entries_view(v@) =~= seq![(a@, x), (b@, y), (c@, z)]);
    Json::object(v)
}

fn event_object2(a: &str, av: Json, b: &str, bv: Json) -> (r: Json)
    ensures
        r@ == jobj(seq![(a@, av@), (b@, bv@)]),
{
    let ghost (x, y) = (av@, bv@);
    let v = vec![kv(a, av), kv(b, bv)];
    assert(entries_view(v@) =~= seq![(a@, x), (b@, y)]);
    Json::object(v)
}

/// Appends the events of a custom tool call's input.
pub fn append_custom_tool_call_events(events: &mut Vec<String>, output_index: usize, item: &Json)
    ensures
        texts(final(events)@) == texts(old(events)@) + custom_tool_call_events(output_index as int, item@),
{
    let item_id = match item.get_str("id") {
        Some(i) => i,
        None => "",
    };
    let input = match item.get_str("input") {
        Some(i) => i,
        None => "",
    };
    let ghost start = texts(events@);
    if !input.is_empty() {
        let p = event_object4(
            "type",
            Json::text("response.custom_tool_call_input.delta"),
            "item_id",
            Json::text(item_id),
            "output_index",
            index_value(output_index),
            "delta",
            Json::text(input),
        );
        push_event(events, "response.custom_tool_call_input.delta", &p);
    }
    let p = event_object4(
        "type",
        Json::text("response.custom_tool_call_input.done"),
        "item_id",
        Json::text(item_id),
        "output_index",
        index_value(output_index),
        "input",
        Json::text(input),
    );
    push_event(events, "response.custom_tool_call_input.done", &p);
    assert(texts(events@) =~= start + custom_tool_call_events(output_index as int, item@));
}

/// The arguments of a call as text (see `arguments_text`).
pub fn normalize_arguments(arguments: Option<&Json>) -> (r: String)
    ensures
        r@ == arguments_text(crate::json::opt_view(arguments)),
{
    normalize_tool_arguments(arguments)
}

/// Appends the events of a function call's arguments.
pub fn append_function_call_events(events: &mut Vec<String>, output_index: usize, item: &Json)
    ensures
        texts(final(events)@) == texts(old(events)@) + function_call_events(output_index as int, item@),
{
    let item_id = match item.get_str("id") {
        Some(i) => i,
        None => "",
    };
    let arguments = normalize_arguments(item.get("arguments"));
    let ghost start = texts(events@);
    if !arguments.as_str().is_empty() {
        let p = event_object4(
            "type",
            Json::text("response.function_call_arguments.delta"),
            "item_id",
            Json::text(item_id),
            "output_index",
            index_value(output_index),
            "delta",
            Json::text(arguments.as_str()),
        );
        push_event(events, "response.function_call_arguments.delta", &p);
    }
    let p = event_object4(
        "type",
        Json::text("response.function_call_arguments.done"),
        "item_id",
        Json::text(item_id),
        "output_index",
        index_value(output_index),
        "arguments",
        Json::Str(arguments),
    );
    push_event(events, "response.function_call_arguments.done", &p);
    assert(texts(events@) =~= start + function_call_events(output_index as int, item@));
}

fn append_part_events(events: &mut Vec<String>, item_id: &str, output_index: usize, content_index: usize, part: &Json)
    ensures
        texts(final(events)@) == texts(old(events)@) + part_events(item_id@, output_index as int, content_index as int, part@),
{
    let ghost start = texts(events@);
    let mut added = part.deep_copy();
    if part.is_object() && crate::json::opt_is(part.get_str("type"), "output_text") {
        added.insert("text", Json::text(""));
    }
    let p = event_object5(
        "type",
        Json::text("response.content_part.added"),
        "item_id",
        Json::text(item_id),
        "output_index",
        index_value(output_index),
        "content_index",
        index_value(content_index),
        "part",
        added,
    );
    push_event(events, "response.content_part.added", &p);
    let ghost after_added = texts(events@);
    match part.get_str("text") {
        Some(text) => {
            if !text.is_empty() {
                let p = event_object5(
                    "type",
                    Json::text("response.output_text.delta"),
                    "item_id",
                    Json::text(item_id),
                    "output_index",
                    index_value(output_index),
                    "content_index",
                    index_value(content_index),
                    "delta",
                    Json::text(text),
                );
                push_event(events, "response.output_text.delta", &p);
            }
            let p = event_object5(
                "type",
                Json::text("response.output_text.done"),
                "item_id",
                Json::text(item_id),
                "output_index",
                index_value(output_index),
                "content_index",
                index_value(content_index),
                "text",
                Json::text(text),
            );
            push_event(events, "response.output_text.done", &p);
        },
        None => {},
    }
    let p = event_object5(
        "type",
        Json::text("response.content_part.done"),
        "item_id",
        Json::text(item_id),
        "output_index",
        index_value(output_index),
        "content_index",
        index_value(content_index),
        "part",
        part.deep_copy(),
    );
    push_event(events, "response.content_part.done", &p);
    assert(texts(events@) =~= start + part_events(item_id@, output_index as int, content_index as int, part@));
}

/// Appends the events of a message's content parts.
pub fn append_message_events(events: &mut Vec<String>, output_index: usize, item: &Json)
    ensures
        texts(final(events)@) == texts(old(events)@) + message_events(output_index as int, item@),
{
    let item_id = match item.get_str("id") {
        Some(i) => i,
        None => "",
    };
    let empty: Vec<Json> = Vec::new();
    let content: &Vec<Json> = match item.get_array("content") {
        Some(c) => c,
        None => &empty,
    };
    let ghost parts = items_view(content@);
    assert(parts == match item@.get_array("content"@) {
        Some(p) => p,
        None => Seq::<JsonV>::empty(),
    });
    let ghost start = texts(events@);
    let mut ci: usize = 0;
    assert(start + parts_events(item_id@, output_index as int, parts, 0) =~= start);
    while ci < content.len()
        invariant
            ci <= content.len(),
            parts == items_view(content@),
            texts(events@) == start + parts_events(item_id@, output_index as int, parts, ci as int),
        decreases content.len() - ci,
    {
        let ghost before = texts(events@);
        append_part_events(events, item_id, output_index, ci, &content[ci]);
        assert(parts[ci as int] == content@[ci as int]@);
        assert(texts(events@) =~= start + parts_events(item_id@, output_index as int, parts, ci + 1));
        ci += 1;
    }
}

fn append_item_events(events: &mut Vec<String>, idx: usize, item: &Json)
    ensures
        texts(final(events)@) == texts(old(events)@) + item_events(idx as int, item@),
{
    let ghost start = texts(events@);
    let p = event_object3(
        "type",
        Json::text("response.output_item.added"),
        "output_index",
        index_value(idx),
        "item",
        stream_added_item(item),
    );
    push_event(events, "response.output_item.added", &p);
    let ghost mid = texts(events@);
    let ty = item.get_str("type");
    if crate::json::opt_is(ty, "message") {
        append_message_events(events, idx, item);
    } else if crate::json::opt_is(ty, "function_call") {
        append_function_call_events(events, idx, item);
    } else if crate::json::opt_is(ty, "custom_tool_call") {
        append_custom_tool_call_events(events, idx, item);
    }
    let ghost own_end = texts(events@);
    let p = event_object3(
        "type",
        Json::text("response.output_item.done"),
        "output_index",
        index_value(idx),
        "item",
        item.deep_copy(),
    );
    push_event(events, "response.output_item.done", &p);
    assert(texts(events@) =~= start + item_events(idx as int, item@));
}

/// The whole stream for a finished response (see `buffered_events`).
pub fn buffered_sse_events(response: &Json) -> (r: Vec<String>)
    ensures
        texts(r@) == buffered_events(response@),
{
    let mut events: Vec<String> = Vec::new();
    assert(texts(events@) =~= Seq::<Seq<char>>::empty());
    let no_output: Vec<Json> = Vec::new();
    assert(items_view(no_output@) =~= Seq::<JsonV>::empty());
    let empty_response = response_for_stream(response, "in_progress", Some(no_output));
    let ghost ev = empty_response@;
    assert(ev == stream_envelope(response@, "in_progress"@, Some(Seq::<JsonV>::empty())));
    let p = event_object2("type", Json::text("response.created"), "response", empty_response);
    push_event(&mut events, "response.created", &p);
    let no_output: Vec<Json> = Vec::new();
    assert(items_view(no_output@) =~= Seq::<JsonV>::empty());
    let empty_response = response_for_stream(response, "in_progress", Some(no_output));
    let p = event_object2("type", Json::text("response.in_progress"), "response", empty_response);
    push_event(&mut events, "response.in_progress", &p);
    let ghost head = texts(events@);
    let empty: Vec<Json> = Vec::new();
    let items: &Vec<Json> = match response.get_array("output") {
        Some(o) => o,
        None => &empty,
    };
    let ghost iv = items_view(items@);
    assert(iv == match response@.get_array("output"@) {
        Some(o) => o,
        None => Seq::<JsonV>::empty(),
    });
    let mut idx: usize = 0;
    assert(head + output_events(iv, 0) =~= head);
    while idx < items.len()
        invariant
            idx <= items.len(),
            iv == items_view(items@),
            texts(events@) == head + output_events(iv, idx as int),
        decreases items.len() - idx,
    {
        append_item_events(&mut events, idx, &items[idx]);
        assert(iv[idx as int] == items@[idx as int]@);
        assert(texts(events@) =~= head + output_events(iv, idx + 1));
        idx += 1;
    }
    let p = event_object2("type", Json::text("response.completed"), "response", response.deep_copy());
    push_event(&mut events, "response.completed", &p);
    let d = owned("data: [DONE]\n\n");
    let ghost before = events@;
    events.push(d);
    assert(texts(events@) =~= texts(before).push(done_line()));
    assert(texts(events@) =~= buffered_events(response@));
    events
}

/// The failed response reported for an error.
pub open spec fn failed_response(response_id: Seq<char>, error: ShimError, created_at: i64) -> JsonV {
    let error_object = crate::error::error_object(error);
    jobj(
        seq![
            ("id"@, jstr(response_id)),
            ("object"@, jstr("response"@)),
            ("created_at"@, crate::respond::int_json(created_at)),
            ("status"@, jstr("failed"@)),
            ("output"@, JsonV::Array(Seq::empty())),
            ("output_text"@, jstr(""@)),
            ("error"@, error_object),
            ("incomplete_details"@, JsonV::Null),
        ],
    )
}

/// The stream for a failed request: created and failed, both with the failed response,
/// then the closing line.
pub open spec fn failed_events(response_id: Seq<char>, error: ShimError, created_at: i64) -> Seq<Seq<char>> {
    let response = failed_response(response_id, error, created_at);
    seq![
        sse_text("response.created"@, jobj(seq![("type"@, jstr("response.created"@)), ("response"@, response)])),
        sse_text("response.failed"@, jobj(seq![("type"@, jstr("response.failed"@)), ("response"@, response)])),
        done_line(),
    ]
}

/// The stream for a failed request, stamped `created_at` (see `failed_events`).
pub fn failed_sse_events_at(response_id: &str, error: &ShimError, created_at: i64) -> (r: Vec<String>)
    ensures
        texts(r@) == failed_events(response_id@, *error, created_at),
{
    let error_object = error.to_json();
    let ghost eo = error_object@;
    let no_output: Vec<Json> = Vec::new();
    proof {
        crate::json::lemma_array_view(no_output);
        assert(items_view(no_output@) =~= Seq::<JsonV>::empty());
    }
    let created = if created_at < 0 {
        Json::Number(Number::NegInt(created_at))
    } else {
        Json::Number(Number::PosInt(created_at as u64))
    };
    let ghost cv = created@;
    let v = vec![
        kv("id", Json::text(response_id)),
        kv("object", Json::text("response")),
        kv("created_at", created),
        kv("status", Json::text("failed")),
        kv("output", Json::Array(no_output)),
        kv("output_text", Json::text("")),
        kv("error", error_object),
        kv("incomplete_details", Json::Null),
    ];
    assert(entries_view(v@) =~= seq![
        ("id"@, jstr(response_id@)),
        ("object"@, jstr("response"@)),
        ("created_at"@, cv),
        ("status"@, jstr("failed"@)),
        ("output"@, JsonV::Array(Seq::empty())),
        ("output_text"@, jstr(""@)),
        ("error"@, eo),
        ("incomplete_details"@, JsonV::Null),
    ]);
    let response = Json::object(v);
    let mut events: Vec<String> = Vec::new();
    assert(texts(events@) =~= Seq::<Seq<char>>::empty());
    let p = event_object2("type", Json::text("response.created"), "response", response.deep_copy());
    push_event(&mut events, "response.created", &p);
    let p = event_object2("type", Json::text("response.failed"), "response", response);
    push_event(&mut events, "response.failed", &p);
    let d = owned("data: [DONE]\n\n");
    let ghost before = events@;
    events.push(d);
    assert(texts(events@) =~= texts(before).push(done_line()));
    assert(texts(events@) =~= failed_events(response_id@, *error, created_at));
    events
}

/// The stream for a failed request, stamped with the current time.
pub fn failed_sse_events(response_id: &str, error: &ShimError) -> (r: Vec<String>)
    ensures
        exists|created_at: i64| #[trigger] failed_events(response_id@, *error, created_at) == texts(r@),
{
    let now = crate::ids::now_unix_timestamp();
    failed_sse_events_at(response_id, error, now)
}

/// A buffered stream always opens with `response.created` and `response.in_progress`
/// and closes with `response.completed`, carrying the whole response, and the `[DONE]`
/// line.
pub proof fn law_stream_framing(response: JsonV)
    ensures
        ({
            let events = buffered_events(response);
            let envelope = stream_envelope(response, "in_progress"@, Some(Seq::empty()));
            &&& events.len() >= 4
            &&& events[0] == sse_text(
                "response.created"@,
                jobj(seq![("type"@, jstr("response.created"@)), ("response"@, envelope)]),
            )
            &&& events[1] == sse_text(
                "response.in_progress"@,
                jobj(seq![("type"@, jstr("response.in_progress"@)), ("response"@, envelope)]),
            )
            &&& events[events.len() - 2] == sse_text(
                "response.completed"@,
                jobj(seq![("type"@, jstr("response.completed"@)), ("response"@, response)]),
            )
            &&& events[events.len() - 1] == done_line()
        }),
{
}

/// Every function-call output item streams its arguments: the event just before the
/// item's `output_item.done` is `function_call_arguments.done` for that item's output
/// index, carrying the item's arguments text, and the deltas before it add up to that
/// same text (one delta with all of it, none when it is empty).
pub proof fn law_function_call_arguments_stream(index: int, item: JsonV)
    requires
        item.get_str("type"@) == Some("function_call"@),
    ensures
        ({
            let events = item_events(index, item);
            let arguments = crate::tools::arguments_text(item.get("arguments"@));
            let n = events.len();
            &&& n == if arguments.len() > 0 {
                4int
            } else {
                3int
            }
            &&& exists|p: JsonV|
                events[n - 2] == #[trigger] sse_text("response.function_call_arguments.done"@, p) && p.get_str(
                    "arguments"@,
                ) == Some(arguments) && p.get("output_index"@) == Some(index_json(index))
            &&& arguments.len() > 0 ==> exists|p: JsonV|
                events[1] == #[trigger] sse_text("response.function_call_arguments.delta"@, p) && p.get_str("delta"@)
                    == Some(arguments) && p.get("output_index"@) == Some(index_json(index))
        }),
{
    reveal_strlit("type");
    reveal_strlit("item_id");
    reveal_strlit("output_index");
    reveal_strlit("arguments");
    reveal_strlit("delta");
    reveal_strlit("message");
    reveal_strlit("function_call");
    assert("message"@ != "function_call"@) by { assert("message"@.len() != "function_call"@.len()); }
    assert("type"@.len() != "output_index"@.len());
    assert("item_id"@.len() != "output_index"@.len());
    assert("type"@.len() != "arguments"@.len());
    assert("item_id"@.len() != "arguments"@.len());
    assert("output_index"@.len() != "arguments"@.len());
    assert("type"@.len() != "delta"@.len());
    assert("item_id"@.len() != "delta"@.len());
    assert("output_index"@.len() != "delta"@.len());
    reveal_with_fuel(crate::json::pairs_get, 5);
    let item_id = str_or_empty(item.get_str("id"@));
    let arguments = crate::tools::arguments_text(item.get("arguments"@));
    let dpairs = seq![
        ("type"@, jstr("response.function_call_arguments.done"@)),
        ("item_id"@, jstr(item_id)),
        ("output_index"@, index_json(index)),
        ("arguments"@, jstr(arguments)),
    ];
    crate::json::lemma_obj_of_get(dpairs, "arguments"@);
    crate::json::lemma_obj_of_get(dpairs, "output_index"@);
    let own = function_call_events(index, item);
    let events = item_events(index, item);
    assert(events[events.len() - 2] == own[own.len() - 1]);
    assert(own[own.len() - 1] == sse_text("response.function_call_arguments.done"@, jobj(dpairs)));
    if arguments.len() > 0 {
        let ppairs = seq![
            ("type"@, jstr("response.function_call_arguments.delta"@)),
            ("item_id"@, jstr(item_id)),
            ("output_index"@, index_json(index)),
            ("delta"@, jstr(arguments)),
        ];
        crate::json::lemma_obj_of_get(ppairs, "delta"@);
        crate::json::lemma_obj_of_get(ppairs, "output_index"@);
        assert(events[1] == own[0]);
        assert(own[0] == sse_text("response.function_call_arguments.delta"@, jobj(ppairs)));
    }
}

/// Every custom tool call output item streams its input: the event just before the
/// item's `output_item.done` is `custom_tool_call_input.done` for that item's output index,
/// carrying the item's input, and the deltas before it add up to that same input (one
/// delta with all of it, none when it is empty).
pub proof fn law_custom_tool_input_stream(index: int, item: JsonV)
    requires
        item.get_str("type"@) == Some("custom_tool_call"@),
    ensures
        ({
            let events = item_events(index, item);
            let input = str_or_empty(item.get_str("input"@));
            let n = events.len();
            &&& n == if input.len() > 0 {
                4int
            } else {
                3int
            }
            &&& exists|p: JsonV|
                events[n - 2] == #[trigger] sse_text("response.custom_tool_call_input.done"@, p) && p.get_str("input"@)
                    == Some(input) && p.get("output_index"@) == Some(index_json(index))
            &&& input.len() > 0 ==> exists|p: JsonV|
                events[1] == #[trigger] sse_text("response.custom_tool_call_input.delta"@, p) && p.get_str("delta"@)
                    == Some(input) && p.get("output_index"@) == Some(index_json(index))
        }),
{
    reveal_strlit("type");
    reveal_strlit("item_id");
    reveal_strlit("output_index");
    reveal_strlit("input");
    reveal_strlit("delta");
    reveal_strlit("message");
    reveal_strlit("function_call");
    reveal_strlit("custom_tool_call");
    assert("message"@ != "custom_tool_call"@) by { assert("message"@.len() != "custom_tool_call"@.len()); }
    assert("function_call"@ != "custom_tool_call"@) by { assert("function_call"@.len() != "custom_tool_call"@.len()); }
    assert("type"@.len() != "output_index"@.len());
    assert("item_id"@.len() != "output_index"@.len());
    assert("input"@.len() != "output_index"@.len());
    assert("delta"@.len() != "output_index"@.len());
    assert("type"@ != "input"@) by { assert("type"@.len() != "input"@.len()); }
    assert("item_id"@.len() != "input"@.len());
    assert("type"@ != "delta"@) by { assert("type"@.len() != "delta"@.len()); }
    assert("item_id"@.len() != "delta"@.len());
    reveal_with_fuel(crate::json::pairs_get, 5);
    let item_id = str_or_empty(item.get_str("id"@));
    let input = str_or_empty(item.get_str("input"@));
    let dpairs = seq![
        ("type"@, jstr("response.custom_tool_call_input.done"@)),
        ("item_id"@, jstr(item_id)),
        ("output_index"@, index_json(index)),
        ("input"@, jstr(input)),
    ];
    crate::json::lemma_obj_of_get(dpairs, "input"@);
    crate::json::lemma_obj_of_get(dpairs, "output_index"@);
    let own = custom_tool_call_events(index, item);
    let events = item_events(index, item);
    assert(events[events.len() - 2] == own[own.len() - 1]);
    assert(own[own.len() - 1] == sse_text("response.custom_tool_call_input.done"@, jobj(dpairs)));
    if input.len() > 0 {
        let ppairs = seq![
            ("type"@, jstr("response.custom_tool_call_input.delta"@)),
            ("item_id"@, jstr(item_id)),
            ("output_index"@, index_json(index)),
            ("delta"@, jstr(input)),
        ];
        crate::json::lemma_obj_of_get(ppairs, "delta"@);
        crate::json::lemma_obj_of_get(ppairs, "output_index"@);
        assert(events[1] == own[0]);
        assert(own[0] == sse_text("response.custom_tool_call_input.delta"@, jobj(ppairs)));
    }
}

/// A content part with text streams that text: the event before the part's
/// `content_part.done` is `output_text.done` carrying the text, the deltas before it add
/// up to the same text (one delta with all of it, none when it is empty), and
/// `content_part.done` carries the part exactly as it is.
pub proof fn law_content_part_text_stream(item_id: Seq<char>, index: int, content_index: int, part: JsonV)
    requires
        part.get_str("text"@) is Some,
    ensures
        ({
            let events = part_events(item_id, index, content_index, part);
            let text = part.get_str("text"@)->Some_0;
            let n = events.len();
            &&& n == if text.len() > 0 {
                4int
            } else {
                3int
            }
            &&& exists|p: JsonV|
                events[n - 2] == #[trigger] sse_text("response.output_text.done"@, p) && p.get_str("text"@) == Some(
                    text,
                ) && p.get("content_index"@) == Some(index_json(content_index))
            &&& exists|p: JsonV|
                events[n - 1] == #[trigger] sse_text("response.content_part.done"@, p) && p.get("part"@) == Some(
                    part,
                )
            &&& text.len() > 0 ==> exists|p: JsonV|
                events[1] == #[trigger] sse_text("response.output_text.delta"@, p) && p.get_str("delta"@) == Some(text)
        }),
{
    reveal_strlit("type");
    reveal_strlit("item_id");
    reveal_strlit("output_index");
    reveal_strlit("content_index");
    reveal_strlit("text");
    reveal_strlit("delta");
    reveal_strlit("part");
    assert("type"@.len() != "content_index"@.len());
    assert("item_id"@.len() != "content_index"@.len());
    assert("output_index"@.len() != "content_index"@.len());
    assert("text"@.len() != "content_index"@.len());
    assert("delta"@.len() != "content_index"@.len());
    assert("part"@.len() != "content_index"@.len());
    assert("type"@ != "text"@) by { assert("type"@[1] != "text"@[1]); }
    assert("item_id"@.len() != "text"@.len());
    assert("output_index"@.len() != "text"@.len());
    assert("type"@ != "part"@) by { assert("type"@[0] != "part"@[0]); }
    assert("item_id"@.len() != "part"@.len());
    assert("output_index"@.len() != "part"@.len());
    assert("type"@ != "delta"@) by { assert("type"@.len() != "delta"@.len()); }
    assert("item_id"@.len() != "delta"@.len());
    assert("output_index"@.len() != "delta"@.len());
    reveal_with_fuel(crate::json::pairs_get, 6);
    let text = part.get_str("text"@)->Some_0;
    let tpairs = seq![
        ("type"@, jstr("response.output_text.done"@)),
        ("item_id"@, jstr(item_id)),
        ("output_index"@, index_json(index)),
        ("content_index"@, index_json(content_index)),
        ("text"@, jstr(text)),
    ];
    crate::json::lemma_obj_of_get(tpairs, "text"@);
    crate::json::lemma_obj_of_get(tpairs, "content_index"@);
    let cpairs = seq![
        ("type"@, jstr("response.content_part.done"@)),
        ("item_id"@, jstr(item_id)),
        ("output_index"@, index_json(index)),
        ("content_index"@, index_json(content_index)),
        ("part"@, part),
    ];
    crate::json::lemma_obj_of_get(cpairs, "part"@);
    let events = part_events(item_id, index, content_index, part);
    let n = events.len();
    assert(events[n - 2] == sse_text("response.output_text.done"@, jobj(tpairs)));
    assert(events[n - 1] == sse_text("response.content_part.done"@, jobj(cpairs)));
    if text.len() > 0 {
        let ppairs = seq![
            ("type"@, jstr("response.output_text.delta"@)),
            ("item_id"@, jstr(item_id)),
            ("output_index"@, index_json(index)),
            ("content_index"@, index_json(content_index)),
            ("delta"@, jstr(text)),
        ];
        crate::json::lemma_obj_of_get(ppairs, "delta"@);
        assert(events[1] == sse_text("response.output_text.delta"@, jobj(ppairs)));
    }
}

} // verus!
