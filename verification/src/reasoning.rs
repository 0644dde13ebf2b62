//! How assistant reasoning content travels between the Responses and the chat sides.
use vstd::prelude::*;
use crate::json::{Json, JsonV, entries_view, items_view, jobj, jstr, members_get, members_insert, obj_get, obj_insert, opt_str_view};
use crate::text::{owned, text_eq};

verus! {

broadcast use vstd::std_specs::vec::group_vec_axioms;

/// Whether the provider's explicit thinking mode is switched on.
#[derive(Clone, Copy, Debug)]
pub struct ReasoningPolicy {
    pub thinking_enabled: bool,
}

impl Default for ReasoningPolicy {
    fn default() -> (r: ReasoningPolicy)
        ensures
            !r.thinking_enabled,
    {
        ReasoningPolicy { thinking_enabled: false }
    }
}

/// `{"type": "enabled"}`.
pub open spec fn thinking_option() -> JsonV {
    jobj(seq![("type"@, jstr("enabled"@))])
}

/// The chat payload's members once the thinking option is set (only when enabled).
pub open spec fn with_thinking(payload: Seq<(Seq<char>, JsonV)>, policy: ReasoningPolicy) -> Seq<(Seq<char>, JsonV)> {
    if policy.thinking_enabled {
        obj_insert(payload, "thinking"@, thinking_option())
    } else {
        payload
    }
}

/// Sets `thinking: {"type": "enabled"}` on the chat payload when thinking is enabled.
pub fn insert_thinking_option(payload: &mut Vec<(String, Json)>, policy: ReasoningPolicy)
    ensures
        entries_view(final(payload)@) == with_thinking(entries_view(old(payload)@), policy),
{
    if policy.thinking_enabled {
        let v = vec![(owned("type"), Json::text("enabled"))];
        assert(entries_view(v@) =~= seq![("type"@, jstr("enabled"@))]);
        members_insert(payload, owned("thinking"), Json::object(v));
    }
}

/// The members of a chat message once the incoming item's `reasoning_content` (a
/// string) is carried over to an assistant message.
pub open spec fn with_incoming_reasoning(
    item: Seq<(Seq<char>, JsonV)>,
    message: Seq<(Seq<char>, JsonV)>,
    role: Seq<char>,
) -> Seq<(Seq<char>, JsonV)> {
    if role == "assistant"@ {
        match obj_get(item, "reasoning_content"@) {
            Some(JsonV::Str(r)) => obj_insert(message, "reasoning_content"@, jstr(r)),
            _ => message,
        }
    } else {
        message
    }
}

/// Carries an incoming assistant item's `reasoning_content` over to its chat message.
pub fn copy_incoming_reasoning_content(
    item: &Vec<(String, Json)>,
    message: &mut Vec<(String, Json)>,
    role: &str,
    _policy: ReasoningPolicy,
)
    ensures
        entries_view(final(message)@) == with_incoming_reasoning(entries_view(item@), entries_view(old(message)@), role@),
{
    if text_eq(role, "assistant") {
        match members_get(item, "reasoning_content") {
            Some(v) => match v {
                Json::Str(r) => {
                    members_insert(message, owned("reasoning_content"), Json::Str(r.clone()));
                },
                _ => {},
            },
            None => {},
        }
    }
}

/// An assistant message without `reasoning_content` given an empty one.
pub open spec fn with_empty_reasoning(message: JsonV) -> JsonV {
    if message is Object && message.get_str("role"@) == Some("assistant"@) && message.get(
        "reasoning_content"@,
    ) is None {
        message.with("reasoning_content"@, jstr(""@))
    } else {
        message
    }
}

/// Chat messages under the policy: with thinking enabled every assistant message carries
/// a `reasoning_content` (empty when it had none); otherwise they are unchanged.
pub open spec fn policy_messages(messages: Seq<JsonV>, policy: ReasoningPolicy) -> Seq<JsonV> {
    if policy.thinking_enabled {
        messages.map_values(|m: JsonV| with_empty_reasoning(m))
    } else {
        messages
    }
}

/// Applies the policy to the chat messages (see `policy_messages`).
pub fn apply_reasoning_policy_to_chat_messages(messages: &mut Vec<Json>, policy: ReasoningPolicy)
    ensures
        items_view(final(messages)@) == policy_messages(items_view(old(messages)@), policy),
{
    if !policy.thinking_enabled {
        return;
    }
    let ghost start = items_view(messages@);
    let mut out: Vec<Json> = Vec::new();
    let mut rest: Vec<Json> = Vec::new();
    std::mem::swap(&mut rest, messages);
    let ghost mut k: int = 0;
    assert(rest@ == old(messages)@);
    assert(start.skip(0) =~= start);
    while rest.len() > 0
        invariant
            0 <= k <= start.len(),
            start == items_view(old(messages)@),
            items_view(rest@) == start.skip(k),
            items_view(out@) == start.take(k).map_values(|m: JsonV| with_empty_reasoning(m)),
            policy.thinking_enabled,
        decreases rest.len(),
    {
        let ghost before = rest@;
        assert(start.skip(k).len() == rest.len());
        let mut m = rest.remove(0);
        proof {
            assert(before[0] == m);
            assert(rest@ =~= before.skip(1));
            crate::json::lemma_items_view_skip(before, 1);
            assert(start.skip(k).skip(1) =~= start.skip(k + 1));
        }
        let ghost mv = m@;
        assert(items_view(before)[0] == mv);
        assert(start[k] == mv);
        let needs = m.is_object() && crate::json::opt_is(m.get_str("role"), "assistant") && m.get("reasoning_content").is_none();
        if needs {
            m.insert("reasoning_content", Json::text(""));
        }
        let ghost old_out = out@;
        out.push(m);
        proof {
            assert(items_view(out@) =~= items_view(old_out).push(with_empty_reasoning(mv)));
            assert(start.take(k + 1) =~= start.take(k).push(mv));
            assert(start.take(k + 1).map_values(|m: JsonV| with_empty_reasoning(m)) =~= start.take(k).map_values(|m: JsonV| with_empty_reasoning(m)).push(with_empty_reasoning(mv)));
            k = k + 1;
        }
    }
    assert(start.take(k) =~= start);
    *messages = out;
}

/// The `reasoning_content` string of a provider message.
pub fn extract_reasoning_content(message: &Json) -> (r: Option<String>)
    ensures
        match r {
            Some(s) => message@.get_str("reasoning_content"@) == Some(s@),
            None => message@.get_str("reasoning_content"@) is None,
        },
{
    match message.get_str("reasoning_content") {
        Some(s) => Some(owned(s)),
        None => None,
    }
}

/// An assistant message given the provider's reasoning, or (thinking enabled) an empty
/// one.
pub open spec fn with_assistant_reasoning(message: JsonV, reasoning: Option<Seq<char>>, policy: ReasoningPolicy) -> JsonV {
    match reasoning {
        Some(r) => message.with("reasoning_content"@, jstr(r)),
        None => if policy.thinking_enabled {
            message.with("reasoning_content"@, jstr(""@))
        } else {
            message
        },
    }
}

/// Records the provider's reasoning on the assistant message kept for the conversation.
pub fn apply_reasoning_policy_to_assistant_message(
    message: &mut Json,
    reasoning: Option<&str>,
    policy: ReasoningPolicy,
)
    requires
        old(message)@ is Object,
    ensures
        final(message)@ == with_assistant_reasoning(old(message)@, opt_str_view(reasoning), policy),
{
    match reasoning {
        Some(r) => message.insert("reasoning_content", Json::text(r)),
        None => if policy.thinking_enabled {
            message.insert("reasoning_content", Json::text(""));
        },
    }
}

/// With thinking enabled every assistant message of the conversation carries a
/// `reasoning_content` (its own when it had one, an empty one otherwise) and every other
/// message is left as it is; with thinking disabled the conversation is left as it is.
pub proof fn law_thinking_gives_assistants_reasoning(messages: Seq<JsonV>, policy: ReasoningPolicy, i: int)
    requires
        0 <= i < messages.len(),
    ensures
        ({
            let out = policy_messages(messages, policy);
            let m = messages[i];
            &&& out.len() == messages.len()
            &&& !policy.thinking_enabled ==> out[i] == m
            &&& (policy.thinking_enabled && m is Object && m.get_str("role"@) == Some("assistant"@)) ==> out[i].get(
                "reasoning_content"@,
            ) == Some(
                match m.get("reasoning_content"@) {
                    Some(v) => v,
                    None => jstr(""@),
                },
            )
            &&& (policy.thinking_enabled && m.get_str("role"@) != Some("assistant"@)) ==> out[i] == m
        }),
{
    let m = messages[i];
    if policy.thinking_enabled && m is Object && m.get_str("role"@) == Some("assistant"@) && m.get(
        "reasoning_content"@,
    ) is None {
        crate::json::law_get_after_insert(m->Object_0, "reasoning_content"@, jstr(""@), "reasoning_content"@);
    }
}

} // verus!
