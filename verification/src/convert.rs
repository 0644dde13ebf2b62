//! Conversion of a Responses request into a Chat Completions request.
use vstd::prelude::*;
use crate::content::{json_outcome, normalize_content, normalized_content};
use crate::error::{ShimError, invalid, is_invalid};
use crate::json::{Json, JsonV, Number, NumberV, copy_items, entries_view, items_view, jobj, jstr, members_get, members_insert, obj_get, obj_insert, opt_is, opt_json_view, opt_view};
use crate::reasoning::{ReasoningPolicy, copy_incoming_reasoning_content, policy_messages, with_incoming_reasoning, with_thinking};
use crate::registry::{IdentityV, ToolIdentityRegistry};
use crate::tools::{
    assistant_tool_calls_message, chat_tool_call_of_item, first_str, make_assistant_tool_calls_message,
    make_tool_message, response_function_call_item_to_chat_tool_call, tool_message, ChatToolConversion, chat_tools_of, member_str,
};
use crate::text::owned;
use crate::ids::{is_lower_hex, new_uuid_simple};

verus! {

broadcast use vstd::std_specs::vec::group_vec_axioms;

/// Chat messages produced so far, and tool calls waiting for the assistant message that
/// will carry them.
pub struct ItemsState {
    pub messages: Seq<JsonV>,
    pub pending: Seq<JsonV>,
}

/// Emits the pending tool calls, if any, as one assistant message.
pub open spec fn flushed(st: ItemsState) -> ItemsState {
    if st.pending.len() > 0 {
        ItemsState { messages: st.messages.push(assistant_tool_calls_message(st.pending)), pending: Seq::empty() }
    } else {
        st
    }
}

/// The chat message for a Responses `message` item (or an item without a type).
pub open spec fn message_of_item(obj: Seq<(Seq<char>, JsonV)>, content: JsonV) -> JsonV {
    let role0 = match JsonV::Object(obj).get_str("role"@) {
        Some(r) => r,
        None => "user"@,
    };
    let role = if role0 == "developer"@ {
        "system"@
    } else {
        role0
    };
    JsonV::Object(
        with_incoming_reasoning(
            obj,
            obj_insert(obj_insert(Seq::empty(), "role"@, jstr(role)), "content"@, content),
            role,
        ),
    )
}

/// One input item: tool calls wait for their assistant message, tool outputs become
/// `tool` messages, messages are normalized, and items of other types are ignored.
pub open spec fn item_step(st: ItemsState, item: JsonV) -> Result<ItemsState, Seq<char>> {
    match item {
        JsonV::Object(obj) => {
            let ty = item.get_str("type"@);
            if ty == Some("function_call"@) || ty == Some("custom_tool_call"@) {
                Ok(ItemsState { messages: st.messages, pending: st.pending.push(chat_tool_call_of_item(item)) })
            } else if ty == Some("function_call_output"@) || ty == Some("custom_tool_call_output"@) {
                let f = flushed(st);
                let call_id = first_str(item.get_str("call_id"@), item.get_str("id"@), "call_local_unknown"@);
                let output = match item.get("output"@) {
                    Some(o) => o,
                    None => JsonV::Null,
                };
                Ok(ItemsState { messages: f.messages.push(tool_message(call_id, output)), pending: f.pending })
            } else if ty == Some("message"@) || ty is None {
                let f = flushed(st);
                match normalized_content(item.get("content"@)) {
                    Err(m) => Err(m),
                    Ok(content) => Ok(
                        ItemsState { messages: f.messages.push(message_of_item(obj, content)), pending: f.pending },
                    ),
                }
            } else {
                Ok(st)
            }
        },
        _ => Ok(st),
    }
}

/// The state after the items, in order; the first rejected item decides the error.
pub open spec fn items_state(items: Seq<JsonV>) -> Result<ItemsState, Seq<char>>
    decreases items.len(),
{
    if items.len() == 0 {
        Ok(ItemsState { messages: Seq::empty(), pending: Seq::empty() })
    } else {
        match items_state(items.drop_last()) {
            Err(m) => Err(m),
            Ok(st) => item_step(st, items.last()),
        }
    }
}

/// The chat messages for a list of input items.
pub open spec fn items_messages(items: Seq<JsonV>) -> Result<Seq<JsonV>, Seq<char>> {
    match items_state(items) {
        Err(m) => Err(m),
        Ok(st) => Ok(flushed(st).messages),
    }
}

/// The chat messages for a request's `input`: a string is one user message.
pub open spec fn input_messages(input: JsonV) -> Result<Seq<JsonV>, Seq<char>> {
    match input {
        JsonV::Str(t) => Ok(seq![jobj(seq![("role"@, jstr("user"@)), ("content"@, jstr(t))])]),
        JsonV::Array(items) => items_messages(items),
        _ => Err("input must be string or array"@),
    }
}

pub open spec fn messages_outcome(r: Result<Vec<Json>, ShimError>, s: Result<Seq<JsonV>, Seq<char>>) -> bool {
    match s {
        Ok(ms) => r matches Ok(v) && items_view(v@) == ms,
        Err(m) => r matches Err(e) && is_invalid(e, m),
    }
}

/// Emits pending tool calls as one assistant message.
pub fn flush_pending_tool_calls(messages: &mut Vec<Json>, pending: &mut Vec<Json>)
    ensures
        flushed(ItemsState { messages: items_view(old(messages)@), pending: items_view(old(pending)@) })
            == (ItemsState { messages: items_view(final(messages)@), pending: items_view(final(pending)@) }),
{
    if pending.len() > 0 {
        let mut taken: Vec<Json> = Vec::new();
        std::mem::swap(&mut taken, pending);
        let m = make_assistant_tool_calls_message(taken);
        let ghost before = messages@;
        messages.push(m);
        assert(items_view(messages@) =~= items_view(before).push(m@));
        assert(items_view(pending@) =~= Seq::<JsonV>::empty());
    }
}

fn entry(key: &str, value: Json) -> (r: (String, Json))
    ensures
        r.0@ == key@,
        r.1 == value,
{
    (owned(key), value)
}

fn item_to_messages(
    item: &Json,
    messages: &mut Vec<Json>,
    pending: &mut Vec<Json>,
    policy: ReasoningPolicy,
) -> (r: Result<(), ShimError>)
    ensures
        match item_step(ItemsState { messages: items_view(old(messages)@), pending: items_view(old(pending)@) }, item@) {
            Ok(st) => r is Ok && st == (ItemsState { messages: items_view(final(messages)@), pending: items_view(final(pending)@) }),
            Err(m) => r matches Err(e) && is_invalid(e, m),
        },
{
    let obj = match item.as_object() {
        Some(o) => o,
        None => {
            return Ok(());
        },
    };
    let ty = item.get_str("type");
    if opt_is(ty, "function_call") || opt_is(ty, "custom_tool_call") {
        let call = response_function_call_item_to_chat_tool_call(item);
        let ghost before = pending@;
        pending.push(call);
        assert(items_view(pending@) =~= items_view(before).push(call@));
        Ok(())
    } else if opt_is(ty, "function_call_output") || opt_is(ty, "custom_tool_call_output") {
        flush_pending_tool_calls(messages, pending);
        let call_id = match item.get_str("call_id") {
            Some(c) => c,
            None => match item.get_str("id") {
                Some(c) => c,
                None => "call_local_unknown",
            },
        };
        let output = match item.get("output") {
            Some(o) => o.deep_copy(),
            None => Json::Null,
        };
        let m = make_tool_message(call_id, &output);
        let ghost before = messages@;
        messages.push(m);
        assert(items_view(messages@) =~= items_view(before).push(m@));
        Ok(())
    } else if opt_is(ty, "message") || ty.is_none() {
        flush_pending_tool_calls(messages, pending);
        let role0 = match item.get_str("role") {
            Some(r) => r,
            None => "user",
        };
        let role = if crate::text::text_eq(role0, "developer") {
            "system"
        } else {
            role0
        };
        let content = match normalize_content(item.get("content")) {
            Err(e) => {
                return Err(e);
            },
            Ok(c) => c,
        };
        let mut message: Vec<(String, Json)> = Vec::new();
        assert(entries_view(message@) =~= Seq::<(Seq<char>, JsonV)>::empty());
        members_insert(&mut message, owned("role"), Json::text(role));
        members_insert(&mut message, owned("content"), content);
        copy_incoming_reasoning_content(obj, &mut message, role, policy);
        proof {
            crate::json::lemma_object_view(message);
        }
        let m = Json::Object(message);
        let ghost before = messages@;
        messages.push(m);
        assert(items_view(messages@) =~= items_view(before).push(m@));
        Ok(())
    } else {
        Ok(())
    }
}

proof fn lemma_items_state_error(s: Seq<JsonV>, j: int)
    requires
        0 <= j <= s.len(),
        items_state(s.take(j)) is Err,
    ensures
        items_state(s) == items_state(s.take(j)),
    decreases s.len() - j,
{
    if j < s.len() {
        assert(s.take(j + 1).drop_last() =~= s.take(j));
        lemma_items_state_error(s, j + 1);
    } else {
        assert(s.take(j) =~= s);
    }
}

/// The chat messages for a list of input items (see `items_messages`).
pub fn input_items_to_chat_messages(items: &[Json], policy: ReasoningPolicy) -> (r: Result<Vec<Json>, ShimError>)
    ensures
        messages_outcome(r, items_messages(items_view(items@))),
{
    let ghost iv = items_view(items@);
    let mut messages: Vec<Json> = Vec::new();
    let mut pending: Vec<Json> = Vec::new();
    let mut i: usize = 0;
    assert(iv.take(0) =~= Seq::<JsonV>::empty());
    assert(items_view(messages@) =~= Seq::<JsonV>::empty());
    assert(items_view(pending@) =~= Seq::<JsonV>::empty());
    while i < items.len()
        invariant
            i <= items.len(),
            iv == items_view(items@),
            items_state(iv.take(i as int)) == Ok::<ItemsState, Seq<char>>(
                ItemsState { messages: items_view(messages@), pending: items_view(pending@) },
            ),
        decreases items.len() - i,
    {
        assert(iv.take(i + 1).drop_last() =~= iv.take(i as int));
        assert(iv.take(i + 1).last() == items@[i as int]@);
        match item_to_messages(&items[i], &mut messages, &mut pending, policy) {
            Err(e) => {
                proof {
                    lemma_items_state_error(iv, i + 1);
                }
                return Err(e);
            },
            Ok(_) => {},
        }
        i += 1;
    }
    assert(iv.take(items.len() as int) =~= iv);
    flush_pending_tool_calls(&mut messages, &mut pending);
    Ok(messages)
}

/// The chat messages for a request's `input` (see `input_messages`).
pub fn input_to_chat_messages(input: &Json, policy: ReasoningPolicy) -> (r: Result<Vec<Json>, ShimError>)
    ensures
        messages_outcome(r, input_messages(input@)),
{
    match input {
        Json::Str(text) => {
            let v = vec![entry("role", Json::text("user")), entry("content", Json::Str(text.clone()))];
            assert(entries_view(v@) =~= seq![("role"@, jstr("user"@)), ("content"@, jstr(text@))]);
            let m = Json::object(v);
            let out = vec![m];
            assert(items_view(out@) =~= seq![m@]);
            Ok(out)
        },
        Json::Array(items) => {
            proof {
                crate::json::lemma_array_view(*items);
            }
            input_items_to_chat_messages(items.as_slice(), policy)
        },
        _ => Err(invalid("input must be string or array")),
    }
}

/// Sampling defaults used when a request leaves them out.
#[derive(Debug)]
pub struct ConversionDefaults {
    /// The JSON value of the configured temperature, if any.
    pub temperature: Option<Json>,
    /// The JSON value of the configured `top_p`, if any.
    pub top_p: Option<Json>,
    pub max_output_tokens: Option<u64>,
}

impl Default for ConversionDefaults {
    fn default() -> (r: ConversionDefaults)
        ensures
            r.temperature is None,
            r.top_p is None,
            r.max_output_tokens is None,
    {
        ConversionDefaults { temperature: None, top_p: None, max_output_tokens: None }
    }
}

/// A Responses request converted for the chat upstream.
#[derive(Debug)]
pub struct ConvertedRequest {
    pub response_id: String,
    pub stream: bool,
    pub store: bool,
    pub previous_response_id: Option<String>,
    pub client_model: String,
    pub provider_model: String,
    pub chat_payload: Json,
    pub chat_messages: Vec<Json>,
    pub parallel_tool_calls: bool,
    pub tool_registry: ToolIdentityRegistry,
}

/// The mathematical form of a `ConvertedRequest`, apart from its id.
pub struct ConvertedV {
    pub stream: bool,
    pub store: bool,
    pub previous_response_id: Option<Seq<char>>,
    pub client_model: Seq<char>,
    pub provider_model: Seq<char>,
    pub chat_payload: JsonV,
    pub chat_messages: Seq<JsonV>,
    pub parallel_tool_calls: bool,
    pub tool_registry: Map<Seq<char>, IdentityV>,
}

impl ConvertedRequest {
    pub open spec fn model(&self) -> ConvertedV {
        ConvertedV {
            stream: self.stream,
            store: self.store,
            previous_response_id: crate::registry::opt_string_view(self.previous_response_id),
            client_model: self.client_model@,
            provider_model: self.provider_model@,
            chat_payload: self.chat_payload@,
            chat_messages: items_view(self.chat_messages@),
            parallel_tool_calls: self.parallel_tool_calls,
            tool_registry: self.tool_registry@,
        }
    }
}

/// The conversation that new input is appended to: the previous messages, or (when there
/// are none) a system message with the non-empty `instructions`.
pub open spec fn base_messages(obj: Seq<(Seq<char>, JsonV)>, previous: Seq<JsonV>) -> Seq<JsonV> {
    if previous.len() == 0 {
        match member_str(obj, "instructions"@) {
            Some(i) => if i.len() > 0 {
                previous.push(jobj(seq![("role"@, jstr("system"@)), ("content"@, jstr(i))]))
            } else {
                previous
            },
            None => previous,
        }
    } else {
        previous
    }
}

/// A number the request gives for `key` is copied (a non-number is dropped); when the
/// request has no `key`, the default is used.
pub open spec fn number_or_default(
    src: Seq<(Seq<char>, JsonV)>,
    dst: Seq<(Seq<char>, JsonV)>,
    key: Seq<char>,
    default: Option<JsonV>,
) -> Seq<(Seq<char>, JsonV)> {
    match obj_get(src, key) {
        Some(v) => if v is Number {
            obj_insert(dst, key, v)
        } else {
            dst
        },
        None => match default {
            Some(d) => obj_insert(dst, key, d),
            None => dst,
        },
    }
}

/// `max_output_tokens` becomes `max_tokens` in the same way.
pub open spec fn max_tokens_of(
    src: Seq<(Seq<char>, JsonV)>,
    dst: Seq<(Seq<char>, JsonV)>,
    default: Option<u64>,
) -> Seq<(Seq<char>, JsonV)> {
    match obj_get(src, "max_output_tokens"@) {
        Some(v) => if v is Number {
            obj_insert(dst, "max_tokens"@, v)
        } else {
            dst
        },
        None => match default {
            Some(n) => obj_insert(dst, "max_tokens"@, JsonV::Number(NumberV::PosInt(n))),
            None => dst,
        },
    }
}

/// The converted tools, with `tool_choice` and (when forwarded) `parallel_tool_calls`,
/// are set only when some tool converts.
pub open spec fn tools_of(
    src: Seq<(Seq<char>, JsonV)>,
    dst: Seq<(Seq<char>, JsonV)>,
    tools: Seq<JsonV>,
    forward_parallel: bool,
) -> Seq<(Seq<char>, JsonV)> {
    if tools.len() > 0 {
        let p = obj_insert(dst, "tools"@, JsonV::Array(tools));
        let p2 = match obj_get(src, "tool_choice"@) {
            Some(t) => obj_insert(p, "tool_choice"@, t),
            None => p,
        };
        if forward_parallel {
            match obj_get(src, "parallel_tool_calls"@) {
                Some(x) => obj_insert(p2, "parallel_tool_calls"@, x),
                None => p2,
            }
        } else {
            p2
        }
    } else {
        dst
    }
}

/// The chat conversation a request leads to: the base messages, then the input's
/// messages, under the reasoning policy.
pub open spec fn conversation(
    obj: Seq<(Seq<char>, JsonV)>,
    previous: Option<Seq<JsonV>>,
    policy: ReasoningPolicy,
) -> Result<Seq<JsonV>, Seq<char>> {
    let base = base_messages(
        obj,
        match previous {
            Some(p) => p,
            None => Seq::empty(),
        },
    );
    let input = match obj_get(obj, "input"@) {
        Some(i) => i,
        None => jstr(""@),
    };
    match input_messages(input) {
        Err(m) => Err(m),
        Ok(new_messages) => Ok(policy_messages(base + new_messages, policy)),
    }
}

/// The members of the chat payload: model, messages, `stream: false`, the thinking
/// option, sampling settings and tools.
pub open spec fn payload_members(
    obj: Seq<(Seq<char>, JsonV)>,
    messages: Seq<JsonV>,
    provider_model: Seq<char>,
    forward_parallel: bool,
    temperature: Option<JsonV>,
    top_p: Option<JsonV>,
    max_output_tokens: Option<u64>,
    policy: ReasoningPolicy,
) -> Seq<(Seq<char>, JsonV)> {
    let p0 = obj_insert(
        obj_insert(obj_insert(Seq::empty(), "model"@, jstr(provider_model)), "messages"@, JsonV::Array(messages)),
        "stream"@,
        JsonV::Bool(false),
    );
    let p1 = with_thinking(p0, policy);
    let p2 = number_or_default(obj, p1, "temperature"@, temperature);
    let p3 = number_or_default(obj, p2, "top_p"@, top_p);
    let p4 = max_tokens_of(obj, p3, max_output_tokens);
    tools_of(obj, p4, chat_tools_of(obj_get(obj, "tools"@)).tools, forward_parallel)
}

/// What `convert_responses_to_chat` makes of a request.
pub open spec fn converted(
    request: JsonV,
    previous: Option<Seq<JsonV>>,
    client_model: Seq<char>,
    provider_model: Seq<char>,
    forward_parallel: bool,
    temperature: Option<JsonV>,
    top_p: Option<JsonV>,
    max_output_tokens: Option<u64>,
    policy: ReasoningPolicy,
) -> Result<ConvertedV, Seq<char>> {
    match request {
        JsonV::Object(obj) => match conversation(obj, previous, policy) {
            Err(m) => Err(m),
            Ok(messages) => Ok(
                ConvertedV {
                    stream: match request.get_bool("stream"@) {
                        Some(b) => b,
                        None => false,
                    },
                    store: match request.get_bool("store"@) {
                        Some(b) => b,
                        None => true,
                    },
                    previous_response_id: request.get_str("previous_response_id"@),
                    client_model,
                    provider_model,
                    chat_payload: JsonV::Object(
                        payload_members(
                            obj,
                            messages,
                            provider_model,
                            forward_parallel,
                            temperature,
                            top_p,
                            max_output_tokens,
                            policy,
                        ),
                    ),
                    chat_messages: messages,
                    parallel_tool_calls: request.get_bool("parallel_tool_calls"@) == Some(true)
                        && forward_parallel,
                    tool_registry: chat_tools_of(obj_get(obj, "tools"@)).registry,
                },
            ),
        },
        _ => Err("request body must be a JSON object"@),
    }
}

fn copy_number_or_default(
    src: &Vec<(String, Json)>,
    dst: &mut Vec<(String, Json)>,
    key: &str,
    default: &Option<Json>,
)
    ensures
        entries_view(final(dst)@) == number_or_default(entries_view(src@), entries_view(old(dst)@), key@, opt_json_view(*default)),
{
    match members_get(src, key) {
        Some(value) => {
            if value.is_number() {
                members_insert(dst, owned(key), value.deep_copy());
            }
        },
        None => match default {
            Some(d) => {
                members_insert(dst, owned(key), d.deep_copy());
            },
            None => {},
        },
    }
}

fn build_conversation(
    obj: &Vec<(String, Json)>,
    previous_messages: Option<Vec<Json>>,
    policy: ReasoningPolicy,
) -> (r: Result<Vec<Json>, ShimError>)
    ensures
        messages_outcome(
            r,
            conversation(
                entries_view(obj@),
                match previous_messages {
                    Some(p) => Some(items_view(p@)),
                    None => None,
                },
                policy,
            ),
        ),
{
    let mut messages: Vec<Json> = match previous_messages {
        Some(p) => p,
        None => Vec::new(),
    };
    assert(items_view(messages@) =~= match previous_messages {
        Some(p) => items_view(p@),
        None => Seq::<JsonV>::empty(),
    });
    if messages.len() == 0 {
        match members_get(obj, "instructions") {
            Some(v) => match v.as_str() {
                Some(instructions) => {
                    if !instructions.is_empty() {
                        let pv = vec![entry("role", Json::text("system")), entry("content", Json::text(instructions))];
                        assert(entries_view(pv@) =~= seq![("role"@, jstr("system"@)), ("content"@, jstr(instructions@))]);
                        let m = Json::object(pv);
                        let ghost before = messages@;
                        messages.push(m);
                        assert(items_view(messages@) =~= items_view(before).push(m@));
                    }
                },
                None => {},
            },
            None => {},
        }
    }
    let empty_input = Json::text("");
    let input: &Json = match members_get(obj, "input") {
        Some(i) => i,
        None => &empty_input,
    };
    let new_messages = match input_to_chat_messages(input, policy) {
        Err(e) => {
            return Err(e);
        },
        Ok(m) => m,
    };
    let ghost base = items_view(messages@);
    let mut new_messages = new_messages;
    let ghost nv = items_view(new_messages@);
    messages.append(&mut new_messages);
    assert(items_view(messages@) =~= base + nv);
    crate::reasoning::apply_reasoning_policy_to_chat_messages(&mut messages, policy);
    Ok(messages)
}

fn build_payload(
    obj: &Vec<(String, Json)>,
    messages: &Vec<Json>,
    provider_model: &str,
    forward_parallel_tool_calls: bool,
    defaults: &ConversionDefaults,
    policy: ReasoningPolicy,
) -> (r: (Vec<(String, Json)>, ToolIdentityRegistry))
    ensures
        entries_view(r.0@) == payload_members(
            entries_view(obj@),
            items_view(messages@),
            provider_model@,
            forward_parallel_tool_calls,
            opt_json_view(defaults.temperature),
            opt_json_view(defaults.top_p),
            defaults.max_output_tokens,
            policy,
        ),
        r.1@ == chat_tools_of(obj_get(entries_view(obj@), "tools"@)).registry,
{
    let mut payload: Vec<(String, Json)> = Vec::new();
    assert(entries_view(payload@) =~= Seq::<(Seq<char>, JsonV)>::empty());
    members_insert(&mut payload, owned("model"), Json::text(provider_model));
    let copies = copy_items(messages);
    proof {
        crate::json::lemma_array_view(copies);
    }
    members_insert(&mut payload, owned("messages"), Json::Array(copies));
    members_insert(&mut payload, owned("stream"), Json::Bool(false));
    crate::reasoning::insert_thinking_option(&mut payload, policy);
    copy_number_or_default(obj, &mut payload, "temperature", &defaults.temperature);
    copy_number_or_default(obj, &mut payload, "top_p", &defaults.top_p);
    match members_get(obj, "max_output_tokens") {
        Some(value) => {
            if value.is_number() {
                members_insert(&mut payload, owned("max_tokens"), value.deep_copy());
            }
        },
        None => match defaults.max_output_tokens {
            Some(n) => {
                members_insert(&mut payload, owned("max_tokens"), Json::Number(Number::PosInt(n)));
            },
            None => {},
        },
    }
    let tool_conversion = crate::tools::responses_tools_to_chat_tools(members_get(obj, "tools"));
    let ChatToolConversion { tools, registry } = tool_conversion;
    if tools.len() > 0 {
        proof {
            crate::json::lemma_array_view(tools);
        }
        members_insert(&mut payload, owned("tools"), Json::Array(tools));
        match members_get(obj, "tool_choice") {
            Some(tool_choice) => {
                let c = tool_choice.deep_copy();
                members_insert(&mut payload, owned("tool_choice"), c);
            },
            None => {},
        }
        if forward_parallel_tool_calls {
            match members_get(obj, "parallel_tool_calls") {
                Some(parallel) => {
                    let c = parallel.deep_copy();
                    members_insert(&mut payload, owned("parallel_tool_calls"), c);
                },
                None => {},
            }
        }
    }
    (payload, registry)
}

/// Converts a Responses request into a Chat Completions payload and conversation state,
/// given the id the response will carry (see `converted`).
pub fn convert_responses_to_chat_with_id(
    request: &Json,
    previous_messages: Option<Vec<Json>>,
    client_model: &str,
    provider_model: &str,
    forward_parallel_tool_calls: bool,
    defaults: &ConversionDefaults,
    reasoning_policy: ReasoningPolicy,
    response_id: String,
) -> (r: Result<ConvertedRequest, ShimError>)
    ensures
        match converted(
            request@,
            match previous_messages {
                Some(p) => Some(items_view(p@)),
                None => None,
            },
            client_model@,
            provider_model@,
            forward_parallel_tool_calls,
            opt_json_view(defaults.temperature),
            opt_json_view(defaults.top_p),
            defaults.max_output_tokens,
            reasoning_policy,
        ) {
            Ok(c) => r matches Ok(x) && x.model() == c && x.response_id@ == response_id@,
            Err(m) => r matches Err(e) && is_invalid(e, m),
        },
{
    let obj = match request.as_object() {
        Some(o) => o,
        None => {
            return Err(invalid("request body must be a JSON object"));
        },
    };
    let stream = match request.get_bool("stream") {
        Some(b) => b,
        None => false,
    };
    let store = match request.get_bool("store") {
        Some(b) => b,
        None => true,
    };
    let previous_response_id = match request.get_str("previous_response_id") {
        Some(p) => Some(owned(p)),
        None => None,
    };
    let messages = match build_conversation(obj, previous_messages, reasoning_policy) {
        Err(e) => {
            return Err(e);
        },
        Ok(m) => m,
    };
    let (payload, registry) = build_payload(
        obj,
        &messages,
        provider_model,
        forward_parallel_tool_calls,
        defaults,
        reasoning_policy,
    );
    let parallel_tool_calls = match request.get_bool("parallel_tool_calls") {
        Some(b) => b,
        None => false,
    } && forward_parallel_tool_calls;
    proof {
        crate::json::lemma_object_view(payload);
    }
    Ok(
        ConvertedRequest {
            response_id,
            stream,
            store,
            previous_response_id,
            client_model: owned(client_model),
            provider_model: owned(provider_model),
            chat_payload: Json::Object(payload),
            chat_messages: messages,
            parallel_tool_calls,
            tool_registry: registry,
        },
    )
}

/// Converts a Responses request into a Chat Completions payload and conversation state
/// (see `converted`); the response gets a fresh id `resp_local_` followed by 32
/// lowercase hexadecimal digits.
pub fn convert_responses_to_chat(
    request: &Json,
    previous_messages: Option<Vec<Json>>,
    client_model: &str,
    provider_model: &str,
    forward_parallel_tool_calls: bool,
    defaults: &ConversionDefaults,
    reasoning_policy: ReasoningPolicy,
) -> (r: Result<ConvertedRequest, ShimError>)
    ensures
        match converted(
            request@,
            match previous_messages {
                Some(p) => Some(items_view(p@)),
                None => None,
            },
            client_model@,
            provider_model@,
            forward_parallel_tool_calls,
            opt_json_view(defaults.temperature),
            opt_json_view(defaults.top_p),
            defaults.max_output_tokens,
            reasoning_policy,
        ) {
            Ok(c) => r matches Ok(x) && x.model() == c && x.response_id@.len() == 11 + 32
                && x.response_id@.take(11) == "resp_local_"@
                && forall|i: int| 11 <= i < 43 ==> is_lower_hex(#[trigger] x.response_id@[i]),
            Err(m) => r matches Err(e) && is_invalid(e, m),
        },
{
    proof {
        reveal_strlit("resp_local_");
    }
    let uuid = new_uuid_simple();
    let mut id = owned("resp_local_");
    crate::text::push_str(&mut id, uuid.as_str());
    assert(id@.take(11) =~= "resp_local_"@);
    assert forall|i: int| 11 <= i < 43 implies is_lower_hex(#[trigger] id@[i]) by {
        assert(id@[i] == uuid@[i - 11]);
    }
    convert_responses_to_chat_with_id(
        request,
        previous_messages,
        client_model,
        provider_model,
        forward_parallel_tool_calls,
        defaults,
        reasoning_policy,
        id,
    )
}

proof fn lemma_payload_keys_distinct()
    ensures
        "model"@ != "messages"@,
        "model"@ != "stream"@,
        "model"@ != "thinking"@,
        "model"@ != "temperature"@,
        "model"@ != "top_p"@,
        "model"@ != "max_tokens"@,
        "model"@ != "tools"@,
        "model"@ != "tool_choice"@,
        "model"@ != "parallel_tool_calls"@,
        "thinking"@ != "messages"@,
        "thinking"@ != "stream"@,
        "thinking"@ != "temperature"@,
        "thinking"@ != "top_p"@,
        "thinking"@ != "max_tokens"@,
        "thinking"@ != "tools"@,
        "thinking"@ != "tool_choice"@,
        "thinking"@ != "parallel_tool_calls"@,
        "messages"@ != "stream"@,
        "messages"@ != "thinking"@,
        "messages"@ != "temperature"@,
        "messages"@ != "top_p"@,
        "messages"@ != "max_tokens"@,
        "messages"@ != "tools"@,
        "messages"@ != "tool_choice"@,
        "messages"@ != "parallel_tool_calls"@,
        "stream"@ != "thinking"@,
        "stream"@ != "temperature"@,
        "stream"@ != "top_p"@,
        "stream"@ != "max_tokens"@,
        "stream"@ != "tools"@,
        "stream"@ != "tool_choice"@,
        "stream"@ != "parallel_tool_calls"@,
{
    reveal_strlit("model");
    reveal_strlit("messages");
    reveal_strlit("stream");
    reveal_strlit("thinking");
    reveal_strlit("temperature");
    reveal_strlit("top_p");
    reveal_strlit("max_tokens");
    reveal_strlit("tools");
    reveal_strlit("tool_choice");
    reveal_strlit("parallel_tool_calls");
    assert("model"@.len() == 5);
    assert("messages"@.len() == 8);
    assert("stream"@.len() == 6);
    assert("thinking"@.len() == 8);
    assert("temperature"@.len() == 11);
    assert("top_p"@.len() == 5);
    assert("max_tokens"@.len() == 10);
    assert("tools"@.len() == 5);
    assert("tool_choice"@.len() == 11);
    assert("parallel_tool_calls"@.len() == 19);
    assert("model"@[0] != "top_p"@[0]);
    assert("model"@[0] != "tools"@[0]);
    assert("thinking"@[0] != "messages"@[0]);
}

proof fn lemma_number_or_default_keeps(
    src: Seq<(Seq<char>, JsonV)>,
    dst: Seq<(Seq<char>, JsonV)>,
    key: Seq<char>,
    default: Option<JsonV>,
    other: Seq<char>,
)
    requires
        other != key,
    ensures
        obj_get(number_or_default(src, dst, key, default), other) == obj_get(dst, other),
{
    match obj_get(src, key) {
        Some(v) => {
            crate::json::law_get_after_insert(dst, key, v, other);
        },
        None => match default {
            Some(d) => {
                crate::json::law_get_after_insert(dst, key, d, other);
            },
            None => {},
        },
    }
}

proof fn lemma_max_tokens_keeps(
    src: Seq<(Seq<char>, JsonV)>,
    dst: Seq<(Seq<char>, JsonV)>,
    default: Option<u64>,
    other: Seq<char>,
)
    requires
        other != "max_tokens"@,
    ensures
        obj_get(max_tokens_of(src, dst, default), other) == obj_get(dst, other),
{
    match obj_get(src, "max_output_tokens"@) {
        Some(v) => {
            crate::json::law_get_after_insert(dst, "max_tokens"@, v, other);
        },
        None => match default {
            Some(n) => {
                crate::json::law_get_after_insert(dst, "max_tokens"@, JsonV::Number(NumberV::PosInt(n)), other);
            },
            None => {},
        },
    }
}

proof fn lemma_tools_keeps(
    src: Seq<(Seq<char>, JsonV)>,
    dst: Seq<(Seq<char>, JsonV)>,
    tools: Seq<JsonV>,
    forward: bool,
    other: Seq<char>,
)
    requires
        other != "tools"@,
        other != "tool_choice"@,
        other != "parallel_tool_calls"@,
    ensures
        obj_get(tools_of(src, dst, tools, forward), other) == obj_get(dst, other),
{
    if tools.len() > 0 {
        let p = obj_insert(dst, "tools"@, JsonV::Array(tools));
        crate::json::law_get_after_insert(dst, "tools"@, JsonV::Array(tools), other);
        let p2 = match obj_get(src, "tool_choice"@) {
            Some(t) => obj_insert(p, "tool_choice"@, t),
            None => p,
        };
        match obj_get(src, "tool_choice"@) {
            Some(t) => {
                crate::json::law_get_after_insert(p, "tool_choice"@, t, other);
            },
            None => {},
        }
        if forward {
            match obj_get(src, "parallel_tool_calls"@) {
                Some(x) => {
                    crate::json::law_get_after_insert(p2, "parallel_tool_calls"@, x, other);
                },
                None => {},
            }
        }
    }
}

/// Members set before the sampling and tool members keep their values through those steps.
proof fn lemma_later_steps_keep(
    obj: Seq<(Seq<char>, JsonV)>,
    p1: Seq<(Seq<char>, JsonV)>,
    forward_parallel: bool,
    temperature: Option<JsonV>,
    top_p: Option<JsonV>,
    max_output_tokens: Option<u64>,
    key: Seq<char>,
)
    requires
        key != "temperature"@,
        key != "top_p"@,
        key != "max_tokens"@,
        key != "tools"@,
        key != "tool_choice"@,
        key != "parallel_tool_calls"@,
    ensures
        obj_get(
            tools_of(
                obj,
                max_tokens_of(
                    obj,
                    number_or_default(obj, number_or_default(obj, p1, "temperature"@, temperature), "top_p"@, top_p),
                    max_output_tokens,
                ),
                chat_tools_of(obj_get(obj, "tools"@)).tools,
                forward_parallel,
            ),
            key,
        ) == obj_get(p1, key),
{
    let p2 = number_or_default(obj, p1, "temperature"@, temperature);
    lemma_number_or_default_keeps(obj, p1, "temperature"@, temperature, key);
    let p3 = number_or_default(obj, p2, "top_p"@, top_p);
    lemma_number_or_default_keeps(obj, p2, "top_p"@, top_p, key);
    let p4 = max_tokens_of(obj, p3, max_output_tokens);
    lemma_max_tokens_keeps(obj, p3, max_output_tokens, key);
    lemma_tools_keeps(obj, p4, chat_tools_of(obj_get(obj, "tools"@)).tools, forward_parallel, key);
}

/// The chat payload names the provider model (never the client's), carries the whole
/// conversation, never asks the provider to stream (streams are built from the buffered
/// answer), and carries the thinking option exactly when thinking is enabled.
pub proof fn law_payload_model_and_thinking(
    obj: Seq<(Seq<char>, JsonV)>,
    messages: Seq<JsonV>,
    provider_model: Seq<char>,
    forward_parallel: bool,
    temperature: Option<JsonV>,
    top_p: Option<JsonV>,
    max_output_tokens: Option<u64>,
    policy: ReasoningPolicy,
)
    ensures
        ({
            let p = payload_members(obj, messages, provider_model, forward_parallel, temperature, top_p, max_output_tokens, policy);
            &&& obj_get(p, "model"@) == Some(jstr(provider_model))
            &&& obj_get(p, "messages"@) == Some(JsonV::Array(messages))
            &&& obj_get(p, "stream"@) == Some(JsonV::Bool(false))
            &&& obj_get(p, "thinking"@) == if policy.thinking_enabled {
                Some(crate::reasoning::thinking_option())
            } else {
                None::<JsonV>
            }
        }),
{
    lemma_payload_keys_distinct();
    let e: Seq<(Seq<char>, JsonV)> = Seq::empty();
    let a = obj_insert(e, "model"@, jstr(provider_model));
    let b = obj_insert(a, "messages"@, JsonV::Array(messages));
    let p0 = obj_insert(b, "stream"@, JsonV::Bool(false));
    crate::json::law_get_after_insert(e, "model"@, jstr(provider_model), "thinking"@);
    crate::json::law_get_after_insert(a, "messages"@, JsonV::Array(messages), "model"@);
    crate::json::law_get_after_insert(a, "messages"@, JsonV::Array(messages), "thinking"@);
    crate::json::law_get_after_insert(b, "stream"@, JsonV::Bool(false), "model"@);
    crate::json::law_get_after_insert(b, "stream"@, JsonV::Bool(false), "messages"@);
    crate::json::law_get_after_insert(b, "stream"@, JsonV::Bool(false), "thinking"@);
    let p1 = with_thinking(p0, policy);
    if policy.thinking_enabled {
        crate::json::law_get_after_insert(p0, "thinking"@, crate::reasoning::thinking_option(), "model"@);
        crate::json::law_get_after_insert(p0, "thinking"@, crate::reasoning::thinking_option(), "messages"@);
        crate::json::law_get_after_insert(p0, "thinking"@, crate::reasoning::thinking_option(), "stream"@);
    }
    lemma_later_steps_keep(obj, p1, forward_parallel, temperature, top_p, max_output_tokens, "model"@);
    lemma_later_steps_keep(obj, p1, forward_parallel, temperature, top_p, max_output_tokens, "messages"@);
    lemma_later_steps_keep(obj, p1, forward_parallel, temperature, top_p, max_output_tokens, "stream"@);
    lemma_later_steps_keep(obj, p1, forward_parallel, temperature, top_p, max_output_tokens, "thinking"@);
}

/// An incoming assistant message that carries a `reasoning_content` string keeps it in
/// the chat conversation, whatever the thinking policy; its role and content are those
/// of the item.
pub proof fn law_incoming_reasoning_is_kept(obj: Seq<(Seq<char>, JsonV)>, content: JsonV)
    requires
        JsonV::Object(obj).get_str("role"@) == Some("assistant"@),
        JsonV::Object(obj).get_str("reasoning_content"@) is Some,
    ensures
        ({
            let m = message_of_item(obj, content);
            &&& m.get_str("reasoning_content"@) == JsonV::Object(obj).get_str("reasoning_content"@)
            &&& m.get_str("role"@) == Some("assistant"@)
            &&& m.get("content"@) == Some(content)
        }),
{
    reveal_strlit("role");
    reveal_strlit("content");
    reveal_strlit("reasoning_content");
    reveal_strlit("assistant");
    reveal_strlit("developer");
    assert("assistant"@ != "developer"@) by {
        assert("assistant"@[0] != "developer"@[0]);
    }
    assert("role"@.len() != "content"@.len());
    assert("role"@.len() != "reasoning_content"@.len());
    assert("content"@.len() != "reasoning_content"@.len());
    let e: Seq<(Seq<char>, JsonV)> = Seq::empty();
    let a = obj_insert(e, "role"@, jstr("assistant"@));
    let b = obj_insert(a, "content"@, content);
    let r = JsonV::Object(obj).get_str("reasoning_content"@)->Some_0;
    crate::json::law_get_after_insert(e, "role"@, jstr("assistant"@), "content"@);
    crate::json::law_get_after_insert(a, "content"@, content, "role"@);
    crate::json::law_get_after_insert(b, "reasoning_content"@, jstr(r), "role"@);
    crate::json::law_get_after_insert(b, "reasoning_content"@, jstr(r), "content"@);
}

/// The call id a tool call or tool output item names: its `call_id`, else its `id`, else
/// `call_local_unknown`.
pub open spec fn item_call_id(item: JsonV) -> Seq<char> {
    match item.get_str("call_id"@) {
        Some(c) => c,
        None => match item.get_str("id"@) {
            Some(i) => i,
            None => "call_local_unknown"@,
        },
    }
}

/// A tool output item becomes a `tool` message answering the call it names: its
/// `tool_call_id` is the item's `call_id` (its `id` only when it has no `call_id`), the
/// same id that a replayed tool call item with that `call_id` gets, so the two pair up; a
/// string output is the message's content as it is; and any tool calls still waiting are
/// emitted before it.
pub proof fn law_tool_output_answers_its_call(st: ItemsState, item: JsonV, call: JsonV)
    requires
        item is Object,
        item.get_str("type"@) == Some("function_call_output"@) || item.get_str("type"@) == Some(
            "custom_tool_call_output"@,
        ),
    ensures
        item_step(st, item) is Ok,
        ({
            let next = item_step(st, item)->Ok_0;
            let m = next.messages.last();
            &&& next.pending.len() == 0
            &&& next.messages.len() == flushed(st).messages.len() + 1
            &&& m.get_str("role"@) == Some("tool"@)
            &&& m.get_str("tool_call_id"@) == Some(item_call_id(item))
            &&& item.get("output"@) matches Some(JsonV::Str(o)) ==> m.get_str("content"@) == Some(o)
        }),
        chat_tool_call_of_item(call).get_str("id"@) == Some(item_call_id(call)),
{
    reveal_strlit("role");
    reveal_strlit("tool_call_id");
    reveal_strlit("content");
    reveal_strlit("id");
    reveal_strlit("type");
    reveal_strlit("function");
    reveal_strlit("function_call");
    reveal_strlit("custom_tool_call");
    reveal_strlit("function_call_output");
    reveal_strlit("custom_tool_call_output");
    assert("function_call"@ != "function_call_output"@) by { assert("function_call"@.len() != "function_call_output"@.len()); }
    assert("function_call"@ != "custom_tool_call_output"@) by { assert("function_call"@.len() != "custom_tool_call_output"@.len()); }
    assert("custom_tool_call"@ != "function_call_output"@) by { assert("custom_tool_call"@.len() != "function_call_output"@.len()); }
    assert("custom_tool_call"@ != "custom_tool_call_output"@) by { assert("custom_tool_call"@.len() != "custom_tool_call_output"@.len()); }
    assert("role"@.len() != "tool_call_id"@.len());
    assert("role"@.len() != "content"@.len());
    assert("tool_call_id"@.len() != "content"@.len());
    assert("id"@.len() != "type"@.len());
    assert("id"@.len() != "function"@.len());
    reveal_with_fuel(crate::json::pairs_get, 4);
    let call_id = item_call_id(item);
    let output = match item.get("output"@) {
        Some(o) => o,
        None => JsonV::Null,
    };
    let content = match output {
        JsonV::Str(t) => t,
        other => crate::wire::json_text(other),
    };
    let pairs = seq![("role"@, jstr("tool"@)), ("tool_call_id"@, jstr(call_id)), ("content"@, jstr(content))];
    crate::json::lemma_obj_of_get(pairs, "role"@);
    crate::json::lemma_obj_of_get(pairs, "tool_call_id"@);
    crate::json::lemma_obj_of_get(pairs, "content"@);
    assert(flushed(st).pending.len() == 0);
    let cid = item_call_id(call);
    let original_name = match call.get_str("name"@) {
        Some(n) => n,
        None => ""@,
    };
    let name = match call.get_str("namespace"@) {
        Some(ns) => crate::tools::joined_tool_name(ns, original_name),
        None => original_name,
    };
    let arguments = if call.get_str("type"@) == Some("custom_tool_call"@) {
        crate::tools::input_object_text(
            match call.get_str("input"@) {
                Some(i) => i,
                None => ""@,
            },
        )
    } else {
        crate::tools::arguments_text(call.get("arguments"@))
    };
    let cpairs = seq![
        ("id"@, jstr(cid)),
        ("type"@, jstr("function"@)),
        ("function"@, jobj(seq![("name"@, jstr(name)), ("arguments"@, jstr(arguments))])),
    ];
    crate::json::lemma_obj_of_get(cpairs, "id"@);
}

proof fn lemma_role_content(role: Seq<char>, content: Seq<char>)
    ensures
        jobj(seq![("role"@, jstr(role)), ("content"@, jstr(content))]).get_str("role"@) == Some(role),
        jobj(seq![("role"@, jstr(role)), ("content"@, jstr(content))]).get_str("content"@) == Some(content),
{
    reveal_strlit("role");
    reveal_strlit("content");
    assert("role"@.len() != "content"@.len());
    let pairs = seq![("role"@, jstr(role)), ("content"@, jstr(content))];
    crate::json::lemma_obj_of_get(pairs, "role"@);
    crate::json::lemma_obj_of_get(pairs, "content"@);
    let p1 = pairs.drop_last();
    assert(p1 =~= seq![("role"@, jstr(role))]);
    assert(p1.drop_last().len() == 0);
    assert(crate::json::pairs_get(p1, "role"@) == Some(jstr(role)));
    assert(pairs.last().0 == "content"@);
}

/// The chat conversation continues the previous one: without thinking its messages come
/// first, unchanged, and `instructions` are then ignored; with no previous messages,
/// non-empty `instructions` open it as a system message; and a string `input` closes it
/// as a user message with that text.
pub proof fn law_conversation_continues_previous(
    obj: Seq<(Seq<char>, JsonV)>,
    previous: Option<Seq<JsonV>>,
    policy: ReasoningPolicy,
)
    requires
        conversation(obj, previous, policy) is Ok,
    ensures
        ({
            let msgs = conversation(obj, previous, policy)->Ok_0;
            let prev = match previous {
                Some(p) => p,
                None => Seq::empty(),
            };
            &&& (!policy.thinking_enabled && prev.len() > 0) ==> msgs.len() >= prev.len() && msgs.take(prev.len() as int)
                == prev
            &&& (prev.len() == 0 && member_str(obj, "instructions"@) is Some && member_str(obj, "instructions"@)->Some_0.len()
                > 0) ==> (msgs.len() >= 1 && msgs[0].get_str("role"@) == Some("system"@) && msgs[0].get_str("content"@)
                == member_str(obj, "instructions"@))
            &&& obj_get(obj, "input"@) matches Some(JsonV::Str(t)) ==> (msgs.len() >= 1 && msgs.last().get_str(
                "role"@,
            ) == Some("user"@) && msgs.last().get_str("content"@) == Some(t))
        }),
{
    reveal_strlit("system");
    reveal_strlit("user");
    reveal_strlit("assistant");
    assert("system"@ != "assistant"@) by { assert("system"@[0] != "assistant"@[0]); }
    assert("user"@ != "assistant"@) by { assert("user"@.len() != "assistant"@.len()); }
    let prev = match previous {
        Some(p) => p,
        None => Seq::empty(),
    };
    let base = base_messages(obj, prev);
    let input = match obj_get(obj, "input"@) {
        Some(i) => i,
        None => jstr(""@),
    };
    let new_messages = input_messages(input)->Ok_0;
    let all = base + new_messages;
    match member_str(obj, "instructions"@) {
        Some(i) => {
            lemma_role_content("system"@, i);
        },
        None => {},
    }
    match input {
        JsonV::Str(t) => {
            lemma_role_content("user"@, t);
            assert(all.last() == jobj(seq![("role"@, jstr("user"@)), ("content"@, jstr(t))]));
        },
        _ => {},
    }
    if !policy.thinking_enabled {
        assert(all.take(prev.len() as int) =~= prev) by {
            if prev.len() > 0 {
                assert(base == prev);
            }
        }
    }
}

/// What a request gives for a sampling setting, else the default: a number the request
/// gives is used as it is, any other value is dropped, and the default applies only when
/// the request leaves the setting out.
pub open spec fn request_or_default(obj: Seq<(Seq<char>, JsonV)>, key: Seq<char>, default: Option<JsonV>) -> Option<
    JsonV,
> {
    match obj_get(obj, key) {
        Some(v) => if v is Number {
            Some(v)
        } else {
            None
        },
        None => default,
    }
}

proof fn lemma_sampling_keys_distinct()
    ensures
        "temperature"@ != "model"@,
        "temperature"@ != "messages"@,
        "temperature"@ != "stream"@,
        "temperature"@ != "thinking"@,
        "temperature"@ != "top_p"@,
        "temperature"@ != "max_tokens"@,
        "temperature"@ != "tools"@,
        "temperature"@ != "tool_choice"@,
        "temperature"@ != "parallel_tool_calls"@,
        "top_p"@ != "model"@,
        "top_p"@ != "messages"@,
        "top_p"@ != "stream"@,
        "top_p"@ != "thinking"@,
        "top_p"@ != "max_tokens"@,
        "top_p"@ != "tools"@,
        "top_p"@ != "tool_choice"@,
        "top_p"@ != "parallel_tool_calls"@,
        "max_tokens"@ != "model"@,
        "max_tokens"@ != "messages"@,
        "max_tokens"@ != "stream"@,
        "max_tokens"@ != "thinking"@,
        "max_tokens"@ != "tools"@,
        "max_tokens"@ != "tool_choice"@,
        "max_tokens"@ != "parallel_tool_calls"@,
{
    reveal_strlit("model");
    reveal_strlit("messages");
    reveal_strlit("stream");
    reveal_strlit("thinking");
    reveal_strlit("temperature");
    reveal_strlit("top_p");
    reveal_strlit("max_tokens");
    reveal_strlit("tools");
    reveal_strlit("tool_choice");
    reveal_strlit("parallel_tool_calls");
    assert("temperature"@[1] != "tool_choice"@[1]);
    assert("top_p"@[0] != "model"@[0]);
    assert("top_p"@[2] != "tools"@[2]);
    assert("model"@.len() == 5);
    assert("messages"@.len() == 8);
    assert("stream"@.len() == 6);
    assert("thinking"@.len() == 8);
    assert("temperature"@.len() == 11);
    assert("top_p"@.len() == 5);
    assert("max_tokens"@.len() == 10);
    assert("tools"@.len() == 5);
    assert("tool_choice"@.len() == 11);
    assert("parallel_tool_calls"@.len() == 19);
}

/// The chat payload's `temperature` and `top_p` are what the request gives for them,
/// else the defaults, and its `max_tokens` is the request's `max_output_tokens`, else
/// the default limit (see `request_or_default`).
pub proof fn law_sampling_follows_request_then_defaults(
    obj: Seq<(Seq<char>, JsonV)>,
    messages: Seq<JsonV>,
    provider_model: Seq<char>,
    forward_parallel: bool,
    temperature: Option<JsonV>,
    top_p: Option<JsonV>,
    max_output_tokens: Option<u64>,
    policy: ReasoningPolicy,
)
    ensures
        ({
            let p = payload_members(obj, messages, provider_model, forward_parallel, temperature, top_p, max_output_tokens, policy);
            &&& obj_get(p, "temperature"@) == request_or_default(obj, "temperature"@, temperature)
            &&& obj_get(p, "top_p"@) == request_or_default(obj, "top_p"@, top_p)
            &&& obj_get(p, "max_tokens"@) == request_or_default(
                obj,
                "max_output_tokens"@,
                match max_output_tokens {
                    Some(n) => Some(JsonV::Number(NumberV::PosInt(n))),
                    None => None,
                },
            )
        }),
{
    lemma_sampling_keys_distinct();
    let e: Seq<(Seq<char>, JsonV)> = Seq::empty();
    let a = obj_insert(e, "model"@, jstr(provider_model));
    let b = obj_insert(a, "messages"@, JsonV::Array(messages));
    let p0 = obj_insert(b, "stream"@, JsonV::Bool(false));
    let p1 = with_thinking(p0, policy);
    let keys = seq!["temperature"@, "top_p"@, "max_tokens"@];
    assert forall|k: int| 0 <= k < 3 implies obj_get(p1, #[trigger] keys[k]) is None by {
        let key = keys[k];
        crate::json::law_get_after_insert(e, "model"@, jstr(provider_model), key);
        crate::json::law_get_after_insert(a, "messages"@, JsonV::Array(messages), key);
        crate::json::law_get_after_insert(b, "stream"@, JsonV::Bool(false), key);
        if policy.thinking_enabled {
            crate::json::law_get_after_insert(p0, "thinking"@, crate::reasoning::thinking_option(), key);
        }
    }
    assert(obj_get(p1, keys[0]) is None);
    assert(obj_get(p1, keys[1]) is None);
    assert(obj_get(p1, keys[2]) is None);
    let p2 = number_or_default(obj, p1, "temperature"@, temperature);
    match obj_get(obj, "temperature"@) {
        Some(v) => if v is Number {
            crate::json::law_get_after_insert(p1, "temperature"@, v, "top_p"@);
            crate::json::law_get_after_insert(p1, "temperature"@, v, "max_tokens"@);
        },
        None => match temperature {
            Some(d) => {
                crate::json::law_get_after_insert(p1, "temperature"@, d, "top_p"@);
                crate::json::law_get_after_insert(p1, "temperature"@, d, "max_tokens"@);
            },
            None => {},
        },
    }
    let p3 = number_or_default(obj, p2, "top_p"@, top_p);
    lemma_number_or_default_keeps(obj, p2, "top_p"@, top_p, "temperature"@);
    match obj_get(obj, "top_p"@) {
        Some(v) => if v is Number {
            crate::json::law_get_after_insert(p2, "top_p"@, v, "max_tokens"@);
        },
        None => match top_p {
            Some(d) => {
                crate::json::law_get_after_insert(p2, "top_p"@, d, "max_tokens"@);
            },
            None => {},
        },
    }
    let p4 = max_tokens_of(obj, p3, max_output_tokens);
    lemma_max_tokens_keeps(obj, p3, max_output_tokens, "temperature"@);
    lemma_max_tokens_keeps(obj, p3, max_output_tokens, "top_p"@);
    match obj_get(obj, "max_output_tokens"@) {
        Some(v) => if v is Number {
            crate::json::law_get_after_insert(p3, "max_tokens"@, v, "max_tokens"@);
        },
        None => match max_output_tokens {
            Some(n) => {
                crate::json::law_get_after_insert(p3, "max_tokens"@, JsonV::Number(NumberV::PosInt(n)), "max_tokens"@);
            },
            None => {},
        },
    }
    let tools = chat_tools_of(obj_get(obj, "tools"@)).tools;
    lemma_tools_keeps(obj, p4, tools, forward_parallel, "temperature"@);
    lemma_tools_keeps(obj, p4, tools, forward_parallel, "top_p"@);
    lemma_tools_keeps(obj, p4, tools, forward_parallel, "max_tokens"@);
}

} // verus!
