//! The decisions of the create-response flow around the provider call: which conversation
//! a request continues, how it is routed and converted, and what is answered and stored
//! once the provider has answered.
use vstd::prelude::*;
use crate::convert::{ConversionDefaults, ConvertedRequest, ConvertedV, converted, convert_responses_to_chat};
use crate::error::{ShimError, is_invalid, is_protocol};
use crate::ids::{is_lower_hex, new_uuid_simple, now_unix_timestamp};
use crate::json::{Json, JsonV, Number, NumberV, items_view, jstr, obj_insert, opt_json_view};
use crate::models::{
    ModelRoute,
    ModelRouting,
    extract_request_model,
    request_model,
    resolve_provider_model,
    route_name,
    routed,
};
use crate::reasoning::ReasoningPolicy;
use crate::registry::opt_string_view;
use crate::respond::{BuiltResponse, ChatResult, build_response_object_at, built_response};
use crate::store::{ResponseStore, StoredResponse, StoredV, record_of, stored};
use crate::text::{owned, push_str};

verus! {

/// What the create-response flow takes from the configuration.
#[derive(Debug)]
pub struct ShimSettings {
    pub routing: ModelRouting,
    pub defaults: ConversionDefaults,
    pub reasoning_policy: ReasoningPolicy,
    pub forward_parallel_tool_calls: bool,
}

/// A converted request and how its model was routed.
#[derive(Debug)]
pub struct PreparedRequest {
    pub converted: ConvertedRequest,
    pub route: ModelRoute,
}

/// The conversation a request continues: none without a `previous_response_id`, the
/// chat messages stored for that response, or (as the error) the id when nothing is
/// stored under it.
pub open spec fn continued(payload: JsonV, entries: Seq<(Seq<char>, StoredV)>) -> Result<
    Option<Seq<JsonV>>,
    Seq<char>,
> {
    match payload.get_str("previous_response_id"@) {
        None => Ok(None),
        Some(id) => match record_of(entries, id) {
            Some(rec) => Ok(Some(rec.chat_messages)),
            None => Err(id),
        },
    }
}

/// Whether `id` is `resp_local_` followed by 32 lowercase hexadecimal digits.
pub open spec fn is_local_response_id(id: Seq<char>) -> bool {
    id.len() == 43 && id.take(11) == "resp_local_"@ && forall|i: int|
        11 <= i < 43 ==> is_lower_hex(#[trigger] id[i])
}

/// The conversion of a request under the settings, once its conversation and route are
/// known.
pub open spec fn converted_under(
    payload: JsonV,
    previous: Option<Seq<JsonV>>,
    client_model: Seq<char>,
    provider_model: Seq<char>,
    settings: ShimSettings,
) -> Result<ConvertedV, Seq<char>> {
    converted(
        payload,
        previous,
        client_model,
        provider_model,
        settings.forward_parallel_tool_calls,
        opt_json_view(settings.defaults.temperature),
        opt_json_view(settings.defaults.top_p),
        settings.defaults.max_output_tokens,
        settings.reasoning_policy,
    )
}

/// Prepares the chat request for a Responses request: the stored conversation it
/// continues is looked up (an unknown id is answered "response not found"), its model is
/// routed, and it is converted under the settings with a fresh response id.
pub fn prepare_chat_request(payload: &Json, store: &ResponseStore, settings: &ShimSettings) -> (r: Result<
    PreparedRequest,
    ShimError,
>)
    ensures
        match continued(payload@, store.entries()) {
            Err(id) => r matches Err(ShimError::ResponseNotFound(i)) && i@ == id,
            Ok(previous) => match routed(settings.routing, request_model(payload@)) {
                Err(m) => r matches Err(e) && is_invalid(e, m),
                Ok((client, provider, route)) => match converted_under(
                    payload@,
                    previous,
                    client,
                    provider,
                    *settings,
                ) {
                    Ok(c) => r matches Ok(p) && p.converted.model() == c && p.route == route
                        && is_local_response_id(p.converted.response_id@),
                    Err(m) => r matches Err(e) && is_invalid(e, m),
                },
            },
        },
{
    let previous: Option<Vec<Json>> = match payload.get_str("previous_response_id") {
        Some(id) => match store.get(id) {
            Some(record) => Some(record.chat_messages),
            None => {
                return Err(ShimError::ResponseNotFound(owned(id)));
            },
        },
        None => None,
    };
    let requested = extract_request_model(payload);
    let requested_ref: Option<&str> = match &requested {
        Some(s) => Some(s.as_str()),
        None => None,
    };
    let resolved = match resolve_provider_model(&settings.routing, requested_ref) {
        Ok(m) => m,
        Err(e) => {
            return Err(e);
        },
    };
    let converted = match convert_responses_to_chat(
        payload,
        previous,
        resolved.client_model.as_str(),
        resolved.provider_model.as_str(),
        settings.forward_parallel_tool_calls,
        &settings.defaults,
        settings.reasoning_policy,
    ) {
        Ok(c) => c,
        Err(e) => {
            return Err(e);
        },
    };
    Ok(PreparedRequest { converted, route: resolved.route })
}

/// The gateway record with the request's trace id, provider time and routing added.
pub open spec fn gateway_with_trace(
    g: Seq<(Seq<char>, JsonV)>,
    trace_id: Seq<char>,
    provider_ms: u64,
    client_model: Seq<char>,
    provider_model: Seq<char>,
    route: ModelRoute,
) -> Seq<(Seq<char>, JsonV)> {
    let g1 = obj_insert(g, "trace_id"@, jstr(trace_id));
    let g2 = obj_insert(g1, "provider_ms"@, JsonV::Number(NumberV::PosInt(provider_ms)));
    let g3 = obj_insert(g2, "client_model"@, jstr(client_model));
    let g4 = obj_insert(g3, "provider_model"@, jstr(provider_model));
    obj_insert(g4, "model_route"@, jstr(route_name(route)))
}

/// A response whose `local_gateway` object records the request's trace and routing (a
/// response without such an object is left as it is).
pub open spec fn annotated(
    response: JsonV,
    trace_id: Seq<char>,
    provider_ms: u64,
    client_model: Seq<char>,
    provider_model: Seq<char>,
    route: ModelRoute,
) -> JsonV {
    match response.get("local_gateway"@) {
        Some(JsonV::Object(g)) => response.with(
            "local_gateway"@,
            JsonV::Object(gateway_with_trace(g, trace_id, provider_ms, client_model, provider_model, route)),
        ),
        _ => response,
    }
}

/// Records the request's trace and routing in the response's gateway record (see
/// `annotated`).
pub fn annotate_gateway(
    response: &mut Json,
    trace_id: &str,
    provider_ms: u64,
    client_model: &str,
    provider_model: &str,
    route: ModelRoute,
)
    ensures
        final(response)@ == annotated(old(response)@, trace_id@, provider_ms, client_model@, provider_model@, route),
{
    let gateway: Option<Json> = match response.get("local_gateway") {
        Some(g) => match g {
            Json::Object(_) => Some(g.deep_copy()),
            _ => None,
        },
        None => None,
    };
    match gateway {
        Some(g) => {
            let mut g = g;
            g.insert("trace_id", Json::text(trace_id));
            g.insert("provider_ms", Json::Number(Number::PosInt(provider_ms)));
            g.insert("client_model", Json::text(client_model));
            g.insert("provider_model", Json::text(provider_model));
            g.insert("model_route", Json::text(route.as_str()));
            response.insert("local_gateway", g);
        },
        None => {},
    }
}

/// What recording the provider's answer to a prepared request gives: the response
/// object answered (its gateway record annotated) and the store's entries afterwards,
/// which hold that response and the conversation extended by the answer under the
/// response's id; or the error.
pub open spec fn recorded(
    entries: Seq<(Seq<char>, StoredV)>,
    capacity: nat,
    prepared: PreparedRequest,
    chat_result: ChatResult,
    policy: ReasoningPolicy,
    trace_id: Seq<char>,
    provider_ms: u64,
    created_at: i64,
    message_id: Seq<char>,
) -> Result<(JsonV, Seq<(Seq<char>, StoredV)>), Seq<char>> {
    let c = prepared.converted;
    match built_response(
        c.response_id@,
        c.client_model@,
        items_view(c.chat_messages@),
        c.tool_registry@,
        chat_result.raw@,
        chat_result.message@,
        opt_string_view(chat_result.finish_reason),
        opt_json_view(chat_result.usage),
        c.parallel_tool_calls,
        c.store,
        policy,
        created_at,
        message_id,
    ) {
        Err(m) => Err(m),
        Ok((resp, msgs)) => {
            let answered = annotated(resp, trace_id, provider_ms, c.client_model@, c.provider_model@, prepared.route);
            Ok(
                (
                    answered,
                    stored(entries, c.response_id@, StoredV { response_object: answered, chat_messages: msgs }, capacity),
                ),
            )
        },
    }
}

/// Builds the response for the provider's answer, annotates it and stores it with the
/// extended conversation (whatever the request's `store` flag says: continuing a
/// conversation needs it), given the creation time and output message id (see
/// `recorded`). The store is unchanged when the answer is rejected.
pub fn record_chat_result_at(
    store: &mut ResponseStore,
    prepared: &PreparedRequest,
    chat_result: ChatResult,
    policy: ReasoningPolicy,
    trace_id: &str,
    provider_ms: u64,
    created_at: i64,
    message_id: &str,
) -> (r: Result<Json, ShimError>)
    ensures
        final(store).capacity() == old(store).capacity(),
        match recorded(
            old(store).entries(),
            old(store).capacity(),
            *prepared,
            chat_result,
            policy,
            trace_id@,
            provider_ms,
            created_at,
            message_id@,
        ) {
            Ok((resp, es)) => r matches Ok(j) && j@ == resp && final(store).entries() == es,
            Err(m) => r matches Err(e) && is_protocol(e, m) && final(store).entries() == old(store).entries(),
        },
{
    let c = &prepared.converted;
    let built = match build_response_object_at(
        c.response_id.as_str(),
        c.client_model.as_str(),
        c.chat_messages.as_slice(),
        &c.tool_registry,
        chat_result,
        c.parallel_tool_calls,
        c.store,
        policy,
        created_at,
        message_id,
    ) {
        Ok(b) => b,
        Err(e) => {
            return Err(e);
        },
    };
    let BuiltResponse { response_object, updated_chat_messages } = built;
    let mut response = response_object;
    annotate_gateway(
        &mut response,
        trace_id,
        provider_ms,
        c.client_model.as_str(),
        c.provider_model.as_str(),
        prepared.route,
    );
    let kept = response.deep_copy();
    store.put(c.response_id.clone(), StoredResponse { response_object: kept, chat_messages: updated_chat_messages });
    Ok(response)
}

/// Whether `id` is `msg_local_` followed by 32 lowercase hexadecimal digits.
pub open spec fn is_local_message_id(id: Seq<char>) -> bool {
    id.len() == 42 && id.take(10) == "msg_local_"@ && forall|i: int|
        10 <= i < 42 ==> is_lower_hex(#[trigger] id[i])
}

/// Records the provider's answer (see `record_chat_result_at`), stamped with the current
/// time; a text answer's message gets a fresh id.
pub fn record_chat_result(
    store: &mut ResponseStore,
    prepared: &PreparedRequest,
    chat_result: ChatResult,
    policy: ReasoningPolicy,
    trace_id: &str,
    provider_ms: u64,
) -> (r: Result<Json, ShimError>)
    ensures
        final(store).capacity() == old(store).capacity(),
        exists|created_at: i64, message_id: Seq<char>|
            #![trigger recorded(old(store).entries(), old(store).capacity(), *prepared, chat_result, policy, trace_id@, provider_ms, created_at, message_id)]
            is_local_message_id(message_id) && match recorded(
                old(store).entries(),
                old(store).capacity(),
                *prepared,
                chat_result,
                policy,
                trace_id@,
                provider_ms,
                created_at,
                message_id,
            ) {
                Ok((resp, es)) => r matches Ok(j) && j@ == resp && final(store).entries() == es,
                Err(m) => r matches Err(e) && is_protocol(e, m) && final(store).entries() == old(store).entries(),
            },
{
    let now = now_unix_timestamp();
    let suffix = new_uuid_simple();
    let mut message_id = owned("msg_local_");
    push_str(&mut message_id, suffix.as_str());
    proof {
        reveal_strlit("msg_local_");
        assert(message_id@.take(10) =~= "msg_local_"@);
        assert forall|i: int| 10 <= i < 42 implies is_lower_hex(#[trigger] message_id@[i]) by {
            assert(message_id@[i] == suffix@[i - 10]);
        }
    }
    record_chat_result_at(store, prepared, chat_result, policy, trace_id, provider_ms, now, message_id.as_str())
}

/// A recorded response can be read back by its id, and a later request that names that
/// id as `previous_response_id` continues exactly the conversation recorded with it,
/// the provider's answer included (as long as the store keeps anything at all).
pub proof fn law_recorded_response_is_continued(
    entries: Seq<(Seq<char>, StoredV)>,
    capacity: nat,
    prepared: PreparedRequest,
    chat_result: ChatResult,
    policy: ReasoningPolicy,
    trace_id: Seq<char>,
    provider_ms: u64,
    created_at: i64,
    message_id: Seq<char>,
    next: JsonV,
)
    requires
        capacity > 0,
        recorded(entries, capacity, prepared, chat_result, policy, trace_id, provider_ms, created_at, message_id) is Ok,
        next.get_str("previous_response_id"@) == Some(prepared.converted.response_id@),
    ensures
        ({
            let (answered, es) = recorded(
                entries,
                capacity,
                prepared,
                chat_result,
                policy,
                trace_id,
                provider_ms,
                created_at,
                message_id,
            )->Ok_0;
            let c = prepared.converted;
            let msgs = built_response(
                c.response_id@,
                c.client_model@,
                items_view(c.chat_messages@),
                c.tool_registry@,
                chat_result.raw@,
                chat_result.message@,
                opt_string_view(chat_result.finish_reason),
                opt_json_view(chat_result.usage),
                c.parallel_tool_calls,
                c.store,
                policy,
                created_at,
                message_id,
            )->Ok_0.1;
            &&& record_of(es, c.response_id@) == Some(StoredV { response_object: answered, chat_messages: msgs })
            &&& continued(next, es) == Ok::<Option<Seq<JsonV>>, Seq<char>>(Some(msgs))
        }),
{
    let c = prepared.converted;
    let (resp, msgs) = built_response(
        c.response_id@,
        c.client_model@,
        items_view(c.chat_messages@),
        c.tool_registry@,
        chat_result.raw@,
        chat_result.message@,
        opt_string_view(chat_result.finish_reason),
        opt_json_view(chat_result.usage),
        c.parallel_tool_calls,
        c.store,
        policy,
        created_at,
        message_id,
    )->Ok_0;
    let answered = annotated(resp, trace_id, provider_ms, c.client_model@, c.provider_model@, prepared.route);
    crate::store::law_read_after_store(
        entries,
        c.response_id@,
        StoredV { response_object: answered, chat_messages: msgs },
        capacity,
    );
}

/// The gateway record of an annotated response gives back the trace id, provider time,
/// models and route it was annotated with, and keeps every other member it had.
pub proof fn law_gateway_records_trace(
    response: JsonV,
    trace_id: Seq<char>,
    provider_ms: u64,
    client_model: Seq<char>,
    provider_model: Seq<char>,
    route: ModelRoute,
    other: Seq<char>,
)
    requires
        response.get("local_gateway"@) matches Some(JsonV::Object(_)),
    ensures
        ({
            let g = annotated(response, trace_id, provider_ms, client_model, provider_model, route).get(
                "local_gateway"@,
            )->Some_0;
            &&& g.get_str("trace_id"@) == Some(trace_id)
            &&& g.get_u64("provider_ms"@) == Some(provider_ms)
            &&& g.get_str("client_model"@) == Some(client_model)
            &&& g.get_str("provider_model"@) == Some(provider_model)
            &&& g.get_str("model_route"@) == Some(route_name(route))
            &&& (other != "trace_id"@ && other != "provider_ms"@ && other != "client_model"@ && other
                != "provider_model"@ && other != "model_route"@) ==> g.get(other) == response.get(
                "local_gateway"@,
            )->Some_0.get(other)
        }),
{
    let g0 = response.get("local_gateway"@)->Some_0->Object_0;
    let g1 = obj_insert(g0, "trace_id"@, jstr(trace_id));
    let g2 = obj_insert(g1, "provider_ms"@, JsonV::Number(NumberV::PosInt(provider_ms)));
    let g3 = obj_insert(g2, "client_model"@, jstr(client_model));
    let g4 = obj_insert(g3, "provider_model"@, jstr(provider_model));
    let m = response->Object_0;
    crate::json::law_get_after_insert(
        m,
        "local_gateway"@,
        JsonV::Object(gateway_with_trace(g0, trace_id, provider_ms, client_model, provider_model, route)),
        "local_gateway"@,
    );
    reveal_strlit("trace_id");
    reveal_strlit("provider_ms");
    reveal_strlit("client_model");
    reveal_strlit("provider_model");
    reveal_strlit("model_route");
    assert("trace_id"@.len() != "provider_ms"@.len());
    assert("trace_id"@.len() != "client_model"@.len());
    assert("trace_id"@.len() != "provider_model"@.len());
    assert("trace_id"@.len() != "model_route"@.len());
    assert("provider_ms"@.len() != "client_model"@.len());
    assert("provider_ms"@.len() != "provider_model"@.len());
    assert("provider_ms"@[0] != "model_route"@[0]);
    assert("client_model"@.len() != "provider_model"@.len());
    assert("client_model"@.len() != "model_route"@.len());
    assert("provider_model"@.len() != "model_route"@.len());
    crate::json::law_get_after_insert(g0, "trace_id"@, jstr(trace_id), other);
    crate::json::law_get_after_insert(g1, "provider_ms"@, JsonV::Number(NumberV::PosInt(provider_ms)), other);
    crate::json::law_get_after_insert(g2, "client_model"@, jstr(client_model), other);
    crate::json::law_get_after_insert(g3, "provider_model"@, jstr(provider_model), other);
    crate::json::law_get_after_insert(g4, "model_route"@, jstr(route_name(route)), other);
    crate::json::law_get_after_insert(g1, "provider_ms"@, JsonV::Number(NumberV::PosInt(provider_ms)), "trace_id"@);
    crate::json::law_get_after_insert(g2, "client_model"@, jstr(client_model), "trace_id"@);
    crate::json::law_get_after_insert(g3, "provider_model"@, jstr(provider_model), "trace_id"@);
    crate::json::law_get_after_insert(g4, "model_route"@, jstr(route_name(route)), "trace_id"@);
    crate::json::law_get_after_insert(g2, "client_model"@, jstr(client_model), "provider_ms"@);
    crate::json::law_get_after_insert(g3, "provider_model"@, jstr(provider_model), "provider_ms"@);
    crate::json::law_get_after_insert(g4, "model_route"@, jstr(route_name(route)), "provider_ms"@);
    crate::json::law_get_after_insert(g3, "provider_model"@, jstr(provider_model), "client_model"@);
    crate::json::law_get_after_insert(g4, "model_route"@, jstr(route_name(route)), "client_model"@);
    crate::json::law_get_after_insert(g4, "model_route"@, jstr(route_name(route)), "provider_model"@);
}

} // verus!
