//! Conversion of tool declarations and tool calls between the Responses and the Chat
//! Completions shapes.
use vstd::prelude::*;
use crate::wire::json_text;
use crate::json::{Json, JsonV, entries_view, items_view, jobj, jstr, opt_is, members_find, members_get, obj_find, obj_get, opt_str_view, opt_view};
use crate::registry::IdentityV;
pub use crate::registry::{ToolIdentity, ToolIdentityRegistry};
use crate::text::{owned, push_str, text_eq, trim_end_char, trim_end_matching};
use crate::wire::{json_parse_of, parse_json_text};

verus! {

broadcast use vstd::std_specs::vec::group_vec_axioms;

/// The chat-side name of a tool inside a namespace: the namespace without trailing
/// underscores, two underscores, then the tool's name (the bare name for an empty
/// namespace).
pub open spec fn joined_tool_name(namespace_name: Seq<char>, function_name: Seq<char>) -> Seq<char> {
    let ns = trim_end_char(namespace_name, '_');
    if ns.len() == 0 {
        function_name
    } else {
        ns + "__"@ + function_name
    }
}

/// The arguments of a tool call as text: a string as it is, any other value as its JSON
/// text, and `{}` when there are none.
pub open spec fn arguments_text(arguments: Option<JsonV>) -> Seq<char> {
    match arguments {
        Some(JsonV::Str(t)) => t,
        Some(other) => json_text(other),
        None => "{}"@,
    }
}

/// The text of a single-member object `{"input": s}`.
pub open spec fn input_object_text(s: Seq<char>) -> Seq<char> {
    json_text(jobj(seq![("input"@, jstr(s))]))
}

/// The custom tool input that a tool call's arguments hold: the `input` member of the
/// JSON object the text parses to (a string as it is, `null` as empty, another value as
/// its JSON text), and empty when the text is no JSON or has no such member.
pub open spec fn custom_input_of(arguments: Seq<char>) -> Seq<char> {
    match json_parse_of(arguments) {
        Some(v) => match v.get("input"@) {
            Some(JsonV::Str(t)) => t,
            Some(JsonV::Null) => Seq::empty(),
            Some(other) => json_text(other),
            None => Seq::empty(),
        },
        None => Seq::empty(),
    }
}

/// Whether the arguments text of `{"input": s}` (as `serde_json` writes it) reads back
/// as the input `s`.
pub open spec fn input_reads_back(arguments: Seq<char>) -> bool {
    forall|s: Seq<char>| arguments == #[trigger] input_object_text(s) ==> custom_input_of(arguments) == s
}

/// The custom tool input of a tool call's arguments (see `custom_input_of`).
fn extract_custom_input(arguments: &str) -> (r: String)
    ensures
        r@ == custom_input_of(arguments@),
        input_reads_back(arguments@),
{
    let parsed = parse_json_text(arguments);
    proof {
        reveal_strlit("input");
        assert forall|s: Seq<char>| arguments@ == #[trigger] input_object_text(s) implies custom_input_of(
            arguments@,
        ) == s by {
            let pairs = seq![("input"@, jstr(s))];
            crate::json::lemma_obj_of_get(pairs, "input"@);
            assert(pairs.drop_last().len() == 0);
        }
    }
    match parsed {
        Some(v) => match v.get("input") {
            Some(member) => match member {
                Json::Str(t) => t.clone(),
                Json::Null => String::new(),
                _ => member.to_text(),
            },
            None => String::new(),
        },
        None => String::new(),
    }
}

/// The first of two optional strings that is present, else `fallback`.
pub open spec fn first_str(a: Option<Seq<char>>, b: Option<Seq<char>>, fallback: Seq<char>) -> Seq<char> {
    match a {
        Some(x) => x,
        None => match b {
            Some(y) => y,
            None => fallback,
        },
    }
}

/// The chat tool call that a Responses `function_call` or `custom_tool_call` item is
/// replayed as.
pub open spec fn chat_tool_call_of_item(item: JsonV) -> JsonV {
    let call_id = first_str(item.get_str("call_id"@), item.get_str("id"@), "call_local_unknown"@);
    let original_name = match item.get_str("name"@) {
        Some(n) => n,
        None => ""@,
    };
    let name = match item.get_str("namespace"@) {
        Some(ns) => joined_tool_name(ns, original_name),
        None => original_name,
    };
    let arguments = if item.get_str("type"@) == Some("custom_tool_call"@) {
        input_object_text(
            match item.get_str("input"@) {
                Some(i) => i,
                None => ""@,
            },
        )
    } else {
        arguments_text(item.get("arguments"@))
    };
    jobj(
        seq![
            ("id"@, jstr(call_id)),
            ("type"@, jstr("function"@)),
            ("function"@, jobj(seq![("name"@, jstr(name)), ("arguments"@, jstr(arguments))])),
        ],
    )
}

/// A chat tool call put into its canonical shape (non-objects are kept as they are).
pub open spec fn normalized_chat_tool_call(call: JsonV) -> JsonV {
    match call {
        JsonV::Object(m) => {
            let id = first_str(call.get_str("id"@), call.get_str("call_id"@), "call_local_unknown"@);
            let function = call.get("function"@);
            let fobj = match function {
                Some(JsonV::Object(f)) => Some(JsonV::Object(f)),
                _ => None,
            };
            let name = match fobj {
                Some(f) => match f.get_str("name"@) {
                    Some(n) => n,
                    None => ""@,
                },
                None => ""@,
            };
            let arguments = match fobj {
                Some(f) => arguments_text(f.get("arguments"@)),
                None => arguments_text(None),
            };
            jobj(
                seq![
                    ("id"@, jstr(id)),
                    ("type"@, jstr("function"@)),
                    ("function"@, jobj(seq![("name"@, jstr(name)), ("arguments"@, jstr(arguments))])),
                ],
            )
        },
        _ => call,
    }
}

pub open spec fn normalized_calls(calls: Seq<JsonV>) -> Seq<JsonV> {
    calls.map_values(|c: JsonV| normalized_chat_tool_call(c))
}

/// The assistant message that carries a list of tool calls.
pub open spec fn assistant_tool_calls_message(calls: Seq<JsonV>) -> JsonV {
    jobj(
        seq![
            ("role"@, jstr("assistant"@)),
            ("content"@, JsonV::Null),
            ("tool_calls"@, JsonV::Array(normalized_calls(calls))),
        ],
    )
}

/// The chat `tool` message that answers a tool call.
pub open spec fn tool_message(call_id: Seq<char>, output: JsonV) -> JsonV {
    let content = match output {
        JsonV::Str(t) => t,
        other => json_text(other),
    };
    jobj(
        seq![("role"@, jstr("tool"@)), ("tool_call_id"@, jstr(call_id)), ("content"@, jstr(content))],
    )
}

/// Joins a namespace and a tool name into one chat-side function name.
pub fn join_namespace_tool_name(namespace_name: &str, function_name: &str) -> (r: String)
    ensures
        r@ == joined_tool_name(namespace_name@, function_name@),
{
    let ns = trim_end_matching(namespace_name, '_');
    if ns.as_str().is_empty() {
        owned(function_name)
    } else {
        let mut out = ns;
        push_str(&mut out, "__");
        push_str(&mut out, function_name);
        out
    }
}

/// The arguments of a tool call as text.
pub fn normalize_tool_arguments(arguments: Option<&Json>) -> (r: String)
    ensures
        r@ == arguments_text(opt_view(arguments)),
{
    match arguments {
        Some(Json::Str(text)) => text.clone(),
        Some(other) => other.to_text(),
        None => owned("{}"),
    }
}

fn entry(key: &str, value: Json) -> (r: (String, Json))
    ensures
        r.0@ == key@,
        r.1 == value,
{
    (owned(key), value)
}

/// The object `{"input": s}`'s text.
fn input_object_string(input: &str) -> (r: String)
    ensures
        r@ == input_object_text(input@),
{
    let v = vec![entry("input", Json::text(input))];
    assert(entries_view(v@) =~= seq![("input"@, jstr(input@))]);
    let obj = Json::object(v);
    obj.to_text()
}

fn first_present<'a>(a: Option<&'a str>, b: Option<&'a str>, fallback: &'a str) -> (r: &'a str)
    ensures
        r@ == first_str(opt_str_view(a), opt_str_view(b), fallback@),
{
    match a {
        Some(x) => x,
        None => match b {
            Some(y) => y,
            None => fallback,
        },
    }
}

fn function_call_json(id: &str, name: &str, arguments: String) -> (r: Json)
    ensures
        r@ == jobj(
            seq![
                ("id"@, jstr(id@)),
                ("type"@, jstr("function"@)),
                ("function"@, jobj(seq![("name"@, jstr(name@)), ("arguments"@, jstr(arguments@))])),
            ],
        ),
{
    let ghost a = arguments@;
    let f = vec![entry("name", Json::text(name)), entry("arguments", Json::Str(arguments))];
    assert(entries_view(f@) =~= seq![("name"@, jstr(name@)), ("arguments"@, jstr(a))]);
    let function = Json::object(f);
    let v = vec![entry("id", Json::text(id)), entry("type", Json::text("function")), entry("function", function)];
    assert(entries_view(v@) =~= seq![
        ("id"@, jstr(id@)),
        ("type"@, jstr("function"@)),
        ("function"@, jobj(seq![("name"@, jstr(name@)), ("arguments"@, jstr(a))])),
    ]);
    Json::object(v)
}

/// Replays a Responses `function_call` / `custom_tool_call` item as a chat tool call.
pub fn response_function_call_item_to_chat_tool_call(item: &Json) -> (r: Json)
    ensures
        r@ == chat_tool_call_of_item(item@),
{
    let call_id = first_present(item.get_str("call_id"), item.get_str("id"), "call_local_unknown");
    let original_name = match item.get_str("name") {
        Some(n) => n,
        None => "",
    };
    let name = match item.get_str("namespace") {
        Some(ns) => join_namespace_tool_name(ns, original_name),
        None => owned(original_name),
    };
    let is_custom = match item.get_str("type") {
        Some(t) => text_eq(t, "custom_tool_call"),
        None => false,
    };
    let arguments = if is_custom {
        let input = match item.get_str("input") {
            Some(i) => i,
            None => "",
        };
        input_object_string(input)
    } else {
        normalize_tool_arguments(item.get("arguments"))
    };
    function_call_json(call_id, name.as_str(), arguments)
}

/// Puts a chat tool call into its canonical shape.
pub fn normalize_chat_tool_call(call: Json) -> (r: Json)
    ensures
        r@ == normalized_chat_tool_call(call@),
{
    if !call.is_object() {
        return call;
    }
    let id = first_present(call.get_str("id"), call.get_str("call_id"), "call_local_unknown");
    let function = match call.get("function") {
        Some(f) => if f.is_object() {
            Some(f)
        } else {
            None
        },
        None => None,
    };
    let name = match function {
        Some(f) => match f.get_str("name") {
            Some(n) => n,
            None => "",
        },
        None => "",
    };
    let arguments = match function {
        Some(f) => normalize_tool_arguments(f.get("arguments")),
        None => normalize_tool_arguments(None),
    };
    function_call_json(id, name, arguments)
}

/// The assistant message that carries `tool_calls`, each put into its canonical shape.
pub fn make_assistant_tool_calls_message(tool_calls: Vec<Json>) -> (r: Json)
    ensures
        r@ == assistant_tool_calls_message(items_view(tool_calls@)),
{
    let ghost cv = items_view(tool_calls@);
    let mut rest = tool_calls;
    let mut out: Vec<Json> = Vec::new();
    let ghost mut k: int = 0;
    assert(cv.skip(0) =~= cv);
    while rest.len() > 0
        invariant
            0 <= k <= cv.len(),
            items_view(rest@) == cv.skip(k),
            items_view(out@) == normalized_calls(cv.take(k)),
        decreases rest.len(),
    {
        let ghost before = rest@;
        assert(cv.skip(k).len() == rest.len());
        let call = rest.remove(0);
        proof {
            assert(before[0] == call);
            assert(cv.skip(k)[0] == call@);
            assert(rest@ =~= before.skip(1));
            crate::json::lemma_items_view_skip(before, 1);
            assert(cv.skip(k).skip(1) =~= cv.skip(k + 1));
        }
        let ghost cview = call@;
        let n = normalize_chat_tool_call(call);
        let ghost old_out = out@;
        out.push(n);
        proof {
            assert(items_view(out@) =~= items_view(old_out).push(n@));
            assert(cv.take(k + 1) =~= cv.take(k).push(cview));
            assert(normalized_calls(cv.take(k + 1)) =~= normalized_calls(cv.take(k)).push(normalized_chat_tool_call(cview)));
            assert(items_view(out@) =~= normalized_calls(cv.take(k + 1)));
            k = k + 1;
        }
    }
    assert(cv.take(k) =~= cv);
    proof {
        crate::json::lemma_array_view(out);
    }
    let v = vec![entry("role", Json::text("assistant")), entry("content", Json::Null), entry("tool_calls", Json::Array(out))];
    assert(entries_view(v@) =~= seq![
        ("role"@, jstr("assistant"@)),
        ("content"@, JsonV::Null),
        ("tool_calls"@, JsonV::Array(normalized_calls(cv))),
    ]);
    Json::object(v)
}

/// The chat `tool` message that answers `call_id` with `output`.
pub fn make_tool_message(call_id: &str, output: &Json) -> (r: Json)
    ensures
        r@ == tool_message(call_id@, output@),
{
    let content = match output {
        Json::Str(text) => text.clone(),
        other => other.to_text(),
    };
    let ghost c = content@;
    let v = vec![entry("role", Json::text("tool")), entry("tool_call_id", Json::text(call_id)), entry("content", Json::Str(content))];
    assert(entries_view(v@) =~= seq![("role"@, jstr("tool"@)), ("tool_call_id"@, jstr(call_id@)), ("content"@, jstr(c))]);
    Json::object(v)
}

/// The string member `key` of an object's members.
pub open spec fn member_str(m: Seq<(Seq<char>, JsonV)>, key: Seq<char>) -> Option<Seq<char>> {
    match obj_get(m, key) {
        Some(v) => v.as_str(),
        None => None,
    }
}

/// The boolean member `key` of an object's members.
pub open spec fn member_bool(m: Seq<(Seq<char>, JsonV)>, key: Seq<char>) -> Option<bool> {
    match obj_get(m, key) {
        Some(v) => v.as_bool(),
        None => None,
    }
}

fn members_str<'a>(m: &'a Vec<(String, Json)>, key: &str) -> (r: Option<&'a str>)
    ensures
        opt_str_view(r) == member_str(entries_view(m@), key@),
{
    match members_get(m, key) {
        Some(v) => v.as_str(),
        None => None,
    }
}

fn members_bool(m: &Vec<(String, Json)>, key: &str) -> (r: Option<bool>)
    ensures
        r == member_bool(entries_view(m@), key@),
{
    match members_get(m, key) {
        Some(v) => v.as_bool(),
        None => None,
    }
}

/// Chat tools declared so far, and where each flattened name came from.
#[derive(Debug)]
pub struct ChatToolConversion {
    pub tools: Vec<Json>,
    pub registry: ToolIdentityRegistry,
}

/// The mathematical form of a `ChatToolConversion`.
pub struct ConversionV {
    pub tools: Seq<JsonV>,
    pub registry: Map<Seq<char>, IdentityV>,
}

impl View for ChatToolConversion {
    type V = ConversionV;

    open spec fn view(&self) -> ConversionV {
        ConversionV { tools: items_view(self.tools@), registry: self.registry@ }
    }
}

impl ChatToolConversion {
    /// No tools.
    pub fn new() -> (r: ChatToolConversion)
        ensures
            r@ == empty_conversion(),
    {
        let r = ChatToolConversion { tools: Vec::new(), registry: ToolIdentityRegistry::new() };
        assert(r@.tools =~= Seq::<JsonV>::empty());
        r
    }
}

impl Default for ChatToolConversion {
    fn default() -> (r: ChatToolConversion)
        ensures
            r@ == empty_conversion(),
    {
        ChatToolConversion::new()
    }
}

pub open spec fn empty_conversion() -> ConversionV {
    ConversionV { tools: Seq::empty(), registry: Map::empty() }
}

/// The parameters of a function tool that declares none.
pub open spec fn default_parameters() -> JsonV {
    jobj(seq![("type"@, jstr("object"@)), ("properties"@, JsonV::Object(Seq::empty()))])
}

/// The parameters that a custom (free-form) tool is declared with: one string `input`.
pub open spec fn custom_tool_parameters() -> JsonV {
    jobj(
        seq![
            ("type"@, jstr("object"@)),
            (
                "properties"@,
                jobj(
                    seq![
                        (
                            "input"@,
                            jobj(
                                seq![
                                    ("type"@, jstr("string"@)),
                                    ("description"@, jstr("Raw custom tool input."@)),
                                ],
                            ),
                        ),
                    ],
                ),
            ),
            ("required"@, JsonV::Array(seq![jstr("input"@)])),
            ("additionalProperties"@, JsonV::Bool(false)),
        ],
    )
}

/// A `function` declaration: a chat function tool under its flattened name.
pub open spec fn function_tool_step(
    acc: ConversionV,
    tool: Seq<(Seq<char>, JsonV)>,
    namespace: Option<Seq<char>>,
) -> ConversionV {
    let function = match obj_get(tool, "function"@) {
        Some(JsonV::Object(f)) => f,
        _ => tool,
    };
    match member_str(function, "name"@) {
        None => acc,
        Some(original) => {
            let flat = match namespace {
                Some(n) => joined_tool_name(n, original),
                None => original,
            };
            let description = match obj_get(function, "description"@) {
                Some(d) => d,
                None => jstr(""@),
            };
            let parameters = match obj_get(function, "parameters"@) {
                Some(p) => if p is Object {
                    p
                } else {
                    default_parameters()
                },
                None => default_parameters(),
            };
            let base = jobj(
                seq![("name"@, jstr(flat)), ("description"@, description), ("parameters"@, parameters)],
            );
            let converted = if member_bool(function, "strict"@) == Some(true) {
                base.with("strict"@, JsonV::Bool(true))
            } else {
                base
            };
            ConversionV {
                tools: acc.tools.push(jobj(seq![("type"@, jstr("function"@)), ("function"@, converted)])),
                registry: acc.registry.insert(
                    flat,
                    IdentityV {
                        original_name: original,
                        namespace_name: namespace,
                        original_tool_type: "function"@,
                    },
                ),
            }
        },
    }
}

/// A top-level `custom` declaration: a chat function tool taking one string `input`.
pub open spec fn custom_tool_step(acc: ConversionV, tool: Seq<(Seq<char>, JsonV)>) -> ConversionV {
    match member_str(tool, "name"@) {
        None => acc,
        Some(name) => {
            let description = match obj_get(tool, "description"@) {
                Some(d) => d,
                None => jstr(""@),
            };
            ConversionV {
                tools: acc.tools.push(
                    jobj(
                        seq![
                            ("type"@, jstr("function"@)),
                            (
                                "function"@,
                                jobj(
                                    seq![
                                        ("name"@, jstr(name)),
                                        ("description"@, description),
                                        ("parameters"@, custom_tool_parameters()),
                                    ],
                                ),
                            ),
                        ],
                    ),
                ),
                registry: acc.registry.insert(
                    name,
                    IdentityV {
                        original_name: name,
                        namespace_name: None,
                        original_tool_type: "custom"@,
                    },
                ),
            }
        },
    }
}

/// What declaring one tool adds: namespaces contribute their children under the
/// namespace's name, functions and (top-level) custom tools one chat tool each, and any
/// other kind nothing.
pub open spec fn convert_tool_spec(
    acc: ConversionV,
    tool: Seq<(Seq<char>, JsonV)>,
    namespace: Option<Seq<char>>,
) -> ConversionV
    decreases tool,
{
    let ty = member_str(tool, "type"@);
    if ty == Some("namespace"@) {
        let ns_name = match member_str(tool, "name"@) {
            Some(n) => n,
            None => ""@,
        };
        let i = obj_find(tool, "tools"@) as int;
        if i < tool.len() && tool[i].1 is Array {
            convert_children(acc, tool[i].1->Array_0, ns_name)
        } else {
            acc
        }
    } else if ty == Some("function"@) {
        function_tool_step(acc, tool, namespace)
    } else if ty == Some("custom"@) && namespace is None {
        custom_tool_step(acc, tool)
    } else {
        acc
    }
}

/// The children of a namespace, declared in order (non-objects are skipped).
pub open spec fn convert_children(acc: ConversionV, children: Seq<JsonV>, ns_name: Seq<char>) -> ConversionV
    decreases children,
{
    if children.len() == 0 {
        acc
    } else {
        let a = convert_children(acc, children.subrange(0, children.len() - 1), ns_name);
        match children[children.len() - 1] {
            JsonV::Object(m) => convert_tool_spec(a, m, Some(ns_name)),
            _ => a,
        }
    }
}

/// A list of declarations, in order (non-objects are skipped).
pub open spec fn convert_tool_list(acc: ConversionV, items: Seq<JsonV>) -> ConversionV
    decreases items.len(),
{
    if items.len() == 0 {
        acc
    } else {
        let a = convert_tool_list(acc, items.drop_last());
        match items.last() {
            JsonV::Object(m) => convert_tool_spec(a, m, None),
            _ => a,
        }
    }
}

/// What the `tools` member of a request converts to.
pub open spec fn chat_tools_of(tools: Option<JsonV>) -> ConversionV {
    match tools {
        Some(JsonV::Array(items)) => convert_tool_list(empty_conversion(), items),
        _ => empty_conversion(),
    }
}

fn default_parameters_json() -> (r: Json)
    ensures
        r@ == default_parameters(),
{
    let empty: Vec<(String, Json)> = Vec::new();
    proof {
        crate::json::lemma_object_view(empty);
        assert(entries_view(empty@) =~= Seq::<(Seq<char>, JsonV)>::empty());
    }
    let v = vec![entry("type", Json::text("object")), entry("properties", Json::Object(empty))];
    assert(entries_view(v@) =~= seq![("type"@, jstr("object"@)), ("properties"@, JsonV::Object(Seq::empty()))]);
    Json::object(v)
}

fn custom_tool_parameters_json() -> (r: Json)
    ensures
        r@ == custom_tool_parameters(),
{
    let iv = vec![entry("type", Json::text("string")), entry("description", Json::text("Raw custom tool input."))];
    assert(entries_view(iv@) =~= seq![("type"@, jstr("string"@)), ("description"@, jstr("Raw custom tool input."@))]);
    let input = Json::object(iv);
    let ghost input_v = input@;
    let pv = vec![entry("input", input)];
    assert(entries_view(pv@) =~= seq![("input"@, input_v)]);
    let properties = Json::object(pv);
    let ghost properties_v = properties@;
    let required_items = vec![Json::text("input")];
    proof {
        crate::json::lemma_array_view(required_items);
        assert(crate::json::items_view(required_items@) =~= seq![jstr("input"@)]);
    }
    let required = Json::Array(required_items);
    let ghost required_v = required@;
    let v = vec![
        entry("type", Json::text("object")),
        entry("properties", properties),
        entry("required", required),
        entry("additionalProperties", Json::Bool(false)),
    ];
    assert(entries_view(v@) =~= seq![
        ("type"@, jstr("object"@)),
        ("properties"@, properties_v),
        ("required"@, required_v),
        ("additionalProperties"@, JsonV::Bool(false)),
    ]);
    Json::object(v)
}

fn function_tool(
    tool: &Vec<(String, Json)>,
    namespace: Option<&str>,
    conversion: &mut ChatToolConversion,
)
    ensures
        final(conversion)@ == function_tool_step(old(conversion)@, entries_view(tool@), opt_str_view(namespace)),
{
    let function: &Vec<(String, Json)> = match members_get(tool, "function") {
        Some(f) => match f.as_object() {
            Some(fm) => fm,
            None => tool,
        },
        None => tool,
    };
    let original_name = match members_str(function, "name") {
        Some(n) => n,
        None => {
            return;
        },
    };
    let flat_name = match namespace {
        Some(ns) => join_namespace_tool_name(ns, original_name),
        None => owned(original_name),
    };
    let description = match members_get(function, "description") {
        Some(d) => d.deep_copy(),
        None => Json::text(""),
    };
    let parameters = match members_get(function, "parameters") {
        Some(p) => if p.is_object() {
            p.deep_copy()
        } else {
            default_parameters_json()
        },
        None => default_parameters_json(),
    };
    let ghost fv = flat_name@;
    let ghost dv = description@;
    let ghost pv = parameters@;
    let v = vec![entry("name", Json::Str(flat_name.clone())), entry("description", description), entry("parameters", parameters)];
    assert(entries_view(v@) =~= seq![("name"@, jstr(fv)), ("description"@, dv), ("parameters"@, pv)]);
    let mut converted = Json::object(v);
    if members_bool(function, "strict") == Some(true) {
        converted.insert("strict", Json::Bool(true));
    }
    let ghost cv = converted@;
    let tv = vec![entry("type", Json::text("function")), entry("function", converted)];
    assert(entries_view(tv@) =~= seq![("type"@, jstr("function"@)), ("function"@, cv)]);
    let tool_json = Json::object(tv);
    let ghost old_tools = conversion.tools@;
    conversion.tools.push(tool_json);
    assert(items_view(conversion.tools@) =~= items_view(old_tools).push(tool_json@));
    let identity = ToolIdentity {
        original_name: owned(original_name),
        namespace_name: match namespace {
            Some(ns) => Some(owned(ns)),
            None => None,
        },
        original_tool_type: owned("function"),
    };
    conversion.registry.register(flat_name, identity);
}

fn custom_tool(tool: &Vec<(String, Json)>, conversion: &mut ChatToolConversion)
    ensures
        final(conversion)@ == custom_tool_step(old(conversion)@, entries_view(tool@)),
{
    let name = match members_str(tool, "name") {
        Some(n) => n,
        None => {
            return;
        },
    };
    let description = match members_get(tool, "description") {
        Some(d) => d.deep_copy(),
        None => Json::text(""),
    };
    let ghost dv = description@;
    let params = custom_tool_parameters_json();
    let fvec = vec![entry("name", Json::text(name)), entry("description", description), entry("parameters", params)];
    assert(entries_view(fvec@) =~= seq![("name"@, jstr(name@)), ("description"@, dv), ("parameters"@, custom_tool_parameters())]);
    let function = Json::object(fvec);
    let ghost fjv = function@;
    let tv = vec![entry("type", Json::text("function")), entry("function", function)];
    assert(entries_view(tv@) =~= seq![("type"@, jstr("function"@)), ("function"@, fjv)]);
    let tool_json = Json::object(tv);
    let ghost old_tools = conversion.tools@;
    conversion.tools.push(tool_json);
    assert(items_view(conversion.tools@) =~= items_view(old_tools).push(tool_json@));
    let identity = ToolIdentity {
        original_name: owned(name),
        namespace_name: None,
        original_tool_type: owned("custom"),
    };
    conversion.registry.register(owned(name), identity);
}

/// Declares one tool (and, for a namespace, its children).
#[verifier::loop_isolation(false)]
fn convert_tool(tool: &Vec<(String, Json)>, namespace: Option<&str>, conversion: &mut ChatToolConversion)
    ensures
        final(conversion)@ == convert_tool_spec(old(conversion)@, entries_view(tool@), opt_str_view(namespace)),
    decreases tool,
{
    let ghost tv = entries_view(tool@);
    let ty = members_str(tool, "type");
    if opt_is(ty, "namespace") {
        let namespace_name = match members_str(tool, "name") {
            Some(n) => n,
            None => "",
        };
        match members_find(tool, "tools") {
            Some(i) => {
                proof {
                    crate::json::lemma_obj_find(tv, "tools"@);
                }
                match &tool[i].1 {
                    Json::Array(children) => {
                        proof {
                            crate::json::lemma_array_view(*children);
                        }
                        let ghost cv = items_view(children@);
                        let ghost acc = conversion@;
                        let mut j: usize = 0;
                        assert(cv.subrange(0, 0) =~= Seq::<JsonV>::empty());
                        while j < children.len()
                            invariant
                                j <= children.len(),
                                conversion@ == convert_children(acc, cv.subrange(0, j as int), namespace_name@),
                            decreases children.len() - j,
                        {
                            let ghost before = conversion@;
                            assert(cv.subrange(0, j + 1).subrange(0, j as int) =~= cv.subrange(0, j as int));
                            match &children[j] {
                                Json::Object(child) => {
                                    proof {
                                        crate::json::lemma_object_view(*child);
                                    }
                                    assert(decreases_to!(tool => tool@[i as int]));
                                    assert(decreases_to!(children => children@[j as int]));
                                    convert_tool(child, Some(namespace_name), conversion);
                                },
                                _ => {},
                            }
                            j += 1;
                        }
                        assert(cv.subrange(0, children.len() as int) =~= cv);
                    },
                    _ => {},
                }
            },
            None => {
                proof {
                    crate::json::lemma_obj_find(tv, "tools"@);
                }
            },
        }
    } else if opt_is(ty, "function") {
        function_tool(tool, namespace, conversion);
    } else if opt_is(ty, "custom") && namespace.is_none() {
        custom_tool(tool, conversion);
    }
}

/// Converts Responses function, custom and namespace tool declarations into Chat
/// Completions function tools; other (built-in) tools are dropped.
pub fn responses_tools_to_chat_tools(tools: Option<&Json>) -> (r: ChatToolConversion)
    ensures
        r@ == chat_tools_of(opt_view(tools)),
{
    let mut conversion = ChatToolConversion::new();
    let items = match tools {
        Some(t) => match t.as_array() {
            Some(items) => items,
            None => {
                return conversion;
            },
        },
        None => {
            return conversion;
        },
    };
    let ghost iv = items_view(items@);
    let mut i: usize = 0;
    assert(iv.take(0) =~= Seq::<JsonV>::empty());
    while i < items.len()
        invariant
            i <= items.len(),
            iv == items_view(items@),
            conversion@ == convert_tool_list(empty_conversion(), iv.take(i as int)),
        decreases items.len() - i,
    {
        assert(iv.take(i + 1).drop_last() =~= iv.take(i as int));
        match &items[i] {
            Json::Object(m) => {
                proof {
                    crate::json::lemma_object_view(*m);
                }
                convert_tool(m, None, &mut conversion);
            },
            _ => {},
        }
        i += 1;
    }
    assert(iv.take(items.len() as int) =~= iv);
    conversion
}

/// The Responses output item that a chat tool call is restored to, if it is an object
/// with a `function` object: a `custom_tool_call` with the `input` taken from the
/// arguments when the registry records a custom tool under that name, otherwise a
/// `function_call`; the original name and namespace come from the registry when it knows
/// the name.
pub open spec fn response_item_of_call(call: JsonV, registry: Map<Seq<char>, IdentityV>) -> Option<JsonV> {
    match call {
        JsonV::Object(obj) => {
            let call_id = first_str(member_str(obj, "id"@), member_str(obj, "call_id"@), "call_local_unknown"@);
            match obj_get(obj, "function"@) {
                Some(JsonV::Object(function)) => {
                    let flat = match member_str(function, "name"@) {
                        Some(n) => n,
                        None => ""@,
                    };
                    let known = registry.contains_key(flat);
                    let response_name = if known {
                        registry[flat].original_name
                    } else {
                        flat
                    };
                    let arguments = arguments_text(obj_get(function, "arguments"@));
                    let item = if known && registry[flat].original_tool_type == "custom"@ {
                        jobj(
                            seq![
                                ("id"@, jstr("ctc_local_"@ + call_id)),
                                ("type"@, jstr("custom_tool_call"@)),
                                ("status"@, jstr("completed"@)),
                                ("call_id"@, jstr(call_id)),
                                ("name"@, jstr(response_name)),
                                ("input"@, jstr(custom_input_of(arguments))),
                            ],
                        )
                    } else {
                        jobj(
                            seq![
                                ("id"@, jstr("fc_local_"@ + call_id)),
                                ("type"@, jstr("function_call"@)),
                                ("status"@, jstr("completed"@)),
                                ("call_id"@, jstr(call_id)),
                                ("name"@, jstr(response_name)),
                                ("arguments"@, jstr(arguments)),
                            ],
                        )
                    };
                    if known && registry[flat].namespace_name is Some {
                        Some(item.with("namespace"@, jstr(registry[flat].namespace_name->Some_0)))
                    } else {
                        Some(item)
                    }
                },
                _ => None,
            }
        },
        _ => None,
    }
}

/// The output items of a list of chat tool calls, in order, skipping the calls that
/// `response_item_of_call` gives nothing for.
pub open spec fn response_items_of_calls(calls: Seq<JsonV>, registry: Map<Seq<char>, IdentityV>) -> Seq<JsonV>
    decreases calls.len(),
{
    if calls.len() == 0 {
        Seq::empty()
    } else {
        let prev = response_items_of_calls(calls.drop_last(), registry);
        match response_item_of_call(calls.last(), registry) {
            Some(item) => prev.push(item),
            None => prev,
        }
    }
}

fn prefixed(prefix: &str, rest: &str) -> (r: String)
    ensures
        r@ == prefix@ + rest@,
{
    let mut out = owned(prefix);
    push_str(&mut out, rest);
    out
}

/// The arguments text of a chat tool call's function (see `arguments_text`); empty when
/// the call has no function object.
pub open spec fn call_arguments(call: JsonV) -> Seq<char> {
    match call {
        JsonV::Object(obj) => match obj_get(obj, "function"@) {
            Some(JsonV::Object(f)) => arguments_text(obj_get(f, "arguments"@)),
            _ => Seq::empty(),
        },
        _ => Seq::empty(),
    }
}

/// Whether a chat tool call names a custom tool that the registry records.
pub open spec fn is_custom_call(call: JsonV, registry: Map<Seq<char>, IdentityV>) -> bool {
    match call {
        JsonV::Object(obj) => match obj_get(obj, "function"@) {
            Some(JsonV::Object(f)) => {
                let flat = match member_str(f, "name"@) {
                    Some(n) => n,
                    None => ""@,
                };
                registry.contains_key(flat) && registry[flat].original_tool_type == "custom"@
            },
            _ => false,
        },
        _ => false,
    }
}

fn response_item(call: &Json, registry: &ToolIdentityRegistry) -> (r: Option<Json>)
    ensures
        is_custom_call(call@, registry@) ==> input_reads_back(call_arguments(call@)),
        match r {
            Some(item) => response_item_of_call(call@, registry@) == Some(item@),
            None => response_item_of_call(call@, registry@) is None,
        },
{
    let obj = match call.as_object() {
        Some(o) => o,
        None => {
            return None;
        },
    };
    let call_id = first_present(members_str(obj, "id"), members_str(obj, "call_id"), "call_local_unknown");
    let function = match members_get(obj, "function") {
        Some(f) => match f.as_object() {
            Some(fm) => fm,
            None => {
                return None;
            },
        },
        None => {
            return None;
        },
    };
    let flat_name = match members_str(function, "name") {
        Some(n) => n,
        None => "",
    };
    let identity = registry.resolve(flat_name);
    let response_name: &str = match identity {
        Some(id) => id.original_name.as_str(),
        None => flat_name,
    };
    let arguments = normalize_tool_arguments(members_get(function, "arguments"));
    let is_custom = match identity {
        Some(id) => text_eq(id.original_tool_type.as_str(), "custom"),
        None => false,
    };
    let mut item = if is_custom {
        let input = extract_custom_input(arguments.as_str());
        let ghost iv = input@;
        let v = vec![
            entry("id", Json::Str(prefixed("ctc_local_", call_id))),
            entry("type", Json::text("custom_tool_call")),
            entry("status", Json::text("completed")),
            entry("call_id", Json::text(call_id)),
            entry("name", Json::text(response_name)),
            entry("input", Json::Str(input)),
        ];
        assert(entries_view(v@) =~= seq![
            ("id"@, jstr("ctc_local_"@ + call_id@)),
            ("type"@, jstr("custom_tool_call"@)),
            ("status"@, jstr("completed"@)),
            ("call_id"@, jstr(call_id@)),
            ("name"@, jstr(response_name@)),
            ("input"@, jstr(iv)),
        ]);
        Json::object(v)
    } else {
        let ghost av = arguments@;
        let v = vec![
            entry("id", Json::Str(prefixed("fc_local_", call_id))),
            entry("type", Json::text("function_call")),
            entry("status", Json::text("completed")),
            entry("call_id", Json::text(call_id)),
            entry("name", Json::text(response_name)),
            entry("arguments", Json::Str(arguments)),
        ];
        assert(entries_view(v@) =~= seq![
            ("id"@, jstr("fc_local_"@ + call_id@)),
            ("type"@, jstr("function_call"@)),
            ("status"@, jstr("completed"@)),
            ("call_id"@, jstr(call_id@)),
            ("name"@, jstr(response_name@)),
            ("arguments"@, jstr(av)),
        ]);
        Json::object(v)
    };
    match identity {
        Some(id) => match &id.namespace_name {
            Some(ns) => {
                item.insert("namespace", Json::text(ns.as_str()));
            },
            None => {},
        },
        None => {},
    }
    Some(item)
}

/// Restores chat tool calls to Responses output items (see `response_item_of_call`).
pub fn chat_tool_calls_to_responses_items(tool_calls: &[Json], registry: &ToolIdentityRegistry) -> (r: Vec<Json>)
    ensures
        items_view(r@) == response_items_of_calls(items_view(tool_calls@), registry@),
        forall|j: int|
            0 <= j < tool_calls.len() && #[trigger] is_custom_call(tool_calls@[j]@, registry@) ==> input_reads_back(
                call_arguments(tool_calls@[j]@),
            ),
{
    let ghost cv = items_view(tool_calls@);
    let mut out: Vec<Json> = Vec::new();
    let mut i: usize = 0;
    assert(cv.take(0) =~= Seq::<JsonV>::empty());
    while i < tool_calls.len()
        invariant
            i <= tool_calls.len(),
            cv == items_view(tool_calls@),
            items_view(out@) == response_items_of_calls(cv.take(i as int), registry@),
            forall|j: int|
                0 <= j < i && #[trigger] is_custom_call(tool_calls@[j]@, registry@) ==> input_reads_back(
                    call_arguments(tool_calls@[j]@),
                ),
        decreases tool_calls.len() - i,
    {
        assert(cv.take(i + 1).drop_last() =~= cv.take(i as int));
        match response_item(&tool_calls[i], registry) {
            Some(item) => {
                let ghost before = out@;
                out.push(item);
                assert(items_view(out@) =~= items_view(before).push(item@));
            },
            None => {},
        }
        i += 1;
    }
    assert(cv.take(tool_calls.len() as int) =~= cv);
    out
}

/// A chat tool call `{"id", "type": "function", "function": {"name", "arguments"}}`.
pub open spec fn chat_call(call_id: Seq<char>, name: Seq<char>, arguments: Seq<char>) -> JsonV {
    jobj(
        seq![
            ("id"@, jstr(call_id)),
            ("type"@, jstr("function"@)),
            ("function"@, jobj(seq![("name"@, jstr(name)), ("arguments"@, jstr(arguments))])),
        ],
    )
}

proof fn lemma_tool_keys_distinct()
    ensures
        "id"@ != "call_id"@,
        "id"@ != "function"@,
        "type"@ != "function"@,
        "type"@ != "id"@,
        "name"@ != "arguments"@,
        "name"@ != "namespace"@,
        "type"@ != "namespace"@,
        "call_id"@ != "namespace"@,
        "arguments"@ != "namespace"@,
        "input"@ != "namespace"@,
        "input"@ != "arguments"@,
        "name"@ != "input"@,
        "type"@ != "name"@,
        "type"@ != "input"@,
        "type"@ != "arguments"@,
        "call_id"@ != "input"@,
        "call_id"@ != "arguments"@,
        "call_id"@ != "name"@,
        "call_id"@ != "type"@,
        "status"@ != "namespace"@,
        "status"@ != "name"@,
        "status"@ != "input"@,
        "status"@ != "arguments"@,
        "status"@ != "call_id"@,
        "status"@ != "type"@,
        "id"@ != "namespace"@,
        "id"@ != "name"@,
        "id"@ != "input"@,
        "id"@ != "arguments"@,
        "id"@ != "status"@,
        "id"@ != "type"@,
        "name"@ != "id"@,
        "name"@ != "tools"@,
        "type"@ != "tools"@,
        "custom"@ != "function"@,
        "custom"@ != "namespace"@,
        "function"@ != "namespace"@,
        "custom_tool_call"@ != "function_call"@,
{
    reveal_strlit("id");
    reveal_strlit("call_id");
    reveal_strlit("function");
    reveal_strlit("type");
    reveal_strlit("name");
    reveal_strlit("arguments");
    reveal_strlit("namespace");
    reveal_strlit("input");
    reveal_strlit("status");
    reveal_strlit("tools");
    reveal_strlit("custom");
    reveal_strlit("custom_tool_call");
    reveal_strlit("function_call");
    assert("type"@[0] != "name"@[0]);
    assert("id"@[0] != "call_id"@[0]);
    assert("id"@.len() == 2);
    assert("input"@.len() == 5);
    assert("name"@.len() == 4);
    assert("namespace"@.len() == 9);
    assert("arguments"@[0] != "namespace"@[0]);
    assert("input"@[0] != "tools"@[0]);
    assert("name"@[0] != "tools"@[0] || "name"@.len() != "tools"@.len());
    assert("type"@[0] != "tools"@[1]);
    assert("type"@[1] != "tools"@[1]);
    assert("custom"@[0] != "function"@[0]);
    assert("function"@[0] != "namespace"@[0]);
    assert("custom_tool_call"@.len() != "function_call"@.len());
}

/// A chat tool call whose name the registry knows is restored to the registered original
/// name and namespace, keeping its call id; a function keeps its arguments text and a
/// custom tool gets its input back from it.
pub proof fn law_restores_registered_identity(
    registry: Map<Seq<char>, IdentityV>,
    call_id: Seq<char>,
    flat_name: Seq<char>,
    arguments: Seq<char>,
)
    requires
        registry.contains_key(flat_name),
    ensures
        response_item_of_call(chat_call(call_id, flat_name, arguments), registry) matches Some(item) && {
            &&& item.get_str("name"@) == Some(registry[flat_name].original_name)
            &&& item.get_str("namespace"@) == registry[flat_name].namespace_name
            &&& item.get_str("call_id"@) == Some(call_id)
            &&& if registry[flat_name].original_tool_type == "custom"@ {
                &&& item.get_str("type"@) == Some("custom_tool_call"@)
                &&& item.get_str("input"@) == Some(custom_input_of(arguments))
            } else {
                &&& item.get_str("type"@) == Some("function_call"@)
                &&& item.get_str("arguments"@) == Some(arguments)
            }
        },
{
    lemma_tool_keys_distinct();
    reveal_with_fuel(crate::json::pairs_get, 8);
    let fpairs = seq![("name"@, jstr(flat_name)), ("arguments"@, jstr(arguments))];
    let cpairs = seq![
        ("id"@, jstr(call_id)),
        ("type"@, jstr("function"@)),
        ("function"@, jobj(fpairs)),
    ];
    crate::json::lemma_obj_of_get(cpairs, "id"@);
    crate::json::lemma_obj_of_get(cpairs, "call_id"@);
    crate::json::lemma_obj_of_get(cpairs, "function"@);
    crate::json::lemma_obj_of_get(fpairs, "name"@);
    crate::json::lemma_obj_of_get(fpairs, "arguments"@);
    let id = registry[flat_name];
    let custom = id.original_tool_type == "custom"@;
    let ipairs = if custom {
        seq![
            ("id"@, jstr("ctc_local_"@ + call_id)),
            ("type"@, jstr("custom_tool_call"@)),
            ("status"@, jstr("completed"@)),
            ("call_id"@, jstr(call_id)),
            ("name"@, jstr(id.original_name)),
            ("input"@, jstr(custom_input_of(arguments))),
        ]
    } else {
        seq![
            ("id"@, jstr("fc_local_"@ + call_id)),
            ("type"@, jstr("function_call"@)),
            ("status"@, jstr("completed"@)),
            ("call_id"@, jstr(call_id)),
            ("name"@, jstr(id.original_name)),
            ("arguments"@, jstr(arguments)),
        ]
    };
    let base = crate::json::obj_of(ipairs);
    crate::json::lemma_obj_of_get(ipairs, "name"@);
    crate::json::lemma_obj_of_get(ipairs, "namespace"@);
    crate::json::lemma_obj_of_get(ipairs, "call_id"@);
    crate::json::lemma_obj_of_get(ipairs, "type"@);
    crate::json::lemma_obj_of_get(ipairs, "input"@);
    crate::json::lemma_obj_of_get(ipairs, "arguments"@);
    match id.namespace_name {
        Some(ns) => {
            crate::json::law_get_after_insert(base, "namespace"@, jstr(ns), "name"@);
            crate::json::law_get_after_insert(base, "namespace"@, jstr(ns), "call_id"@);
            crate::json::law_get_after_insert(base, "namespace"@, jstr(ns), "type"@);
            crate::json::law_get_after_insert(base, "namespace"@, jstr(ns), "input"@);
            crate::json::law_get_after_insert(base, "namespace"@, jstr(ns), "arguments"@);
        },
        None => {},
    }
}

/// A function tool declared inside a namespace is offered to the chat side under the
/// joined name, and the registry maps that name back to the function's own name, its
/// namespace and its kind.
pub proof fn law_namespace_tool_identity(namespace_name: Seq<char>, name: Seq<char>)
    ensures
        ({
            let tool = jobj(seq![("type"@, jstr("function"@)), ("name"@, jstr(name))]);
            let declaration = jobj(
                seq![
                    ("type"@, jstr("namespace"@)),
                    ("name"@, jstr(namespace_name)),
                    ("tools"@, JsonV::Array(seq![tool])),
                ],
            );
            let conversion = chat_tools_of(Some(JsonV::Array(seq![declaration])));
            let flat = joined_tool_name(namespace_name, name);
            &&& conversion.registry.contains_key(flat)
            &&& conversion.registry[flat] == IdentityV {
                original_name: name,
                namespace_name: Some(namespace_name),
                original_tool_type: "function"@,
            }
            &&& conversion.tools.len() == 1
            &&& conversion.tools[0].get("function"@) matches Some(f) && f.get_str("name"@) == Some(flat)
        }),
{
    lemma_tool_keys_distinct();
    reveal_with_fuel(crate::json::pairs_get, 4);
    let tpairs = seq![("type"@, jstr("function"@)), ("name"@, jstr(name))];
    let tool = jobj(tpairs);
    let dpairs = seq![
        ("type"@, jstr("namespace"@)),
        ("name"@, jstr(namespace_name)),
        ("tools"@, JsonV::Array(seq![tool])),
    ];
    let dm = crate::json::obj_of(dpairs);
    let tm = crate::json::obj_of(tpairs);
    crate::json::lemma_obj_of_get(dpairs, "type"@);
    crate::json::lemma_obj_of_get(dpairs, "name"@);
    crate::json::lemma_obj_of_get(dpairs, "tools"@);
    crate::json::lemma_obj_find(dm, "tools"@);
    crate::json::lemma_obj_of_get(tpairs, "type"@);
    crate::json::lemma_obj_of_get(tpairs, "name"@);
    crate::json::lemma_obj_of_get(tpairs, "function"@);
    crate::json::lemma_obj_of_get(tpairs, "description"@);
    crate::json::lemma_obj_of_get(tpairs, "parameters"@);
    crate::json::lemma_obj_of_get(tpairs, "strict"@);
    let items = seq![jobj(dpairs)];
    assert(items.drop_last() =~= Seq::<JsonV>::empty());
    let children = seq![tool];
    assert(children.subrange(0, 0) =~= Seq::<JsonV>::empty());
    let flat = joined_tool_name(namespace_name, name);
    let description = jstr(""@);
    let parameters = default_parameters();
    let cpairs = seq![("name"@, jstr(flat)), ("description"@, description), ("parameters"@, parameters)];
    crate::json::lemma_obj_of_get(cpairs, "name"@);
    let converted = jobj(cpairs);
    let epairs = seq![("type"@, jstr("function"@)), ("function"@, converted)];
    crate::json::lemma_obj_of_get(epairs, "function"@);
    reveal_strlit("description");
    reveal_strlit("parameters");
    reveal_strlit("strict");
    reveal_strlit("type");
    reveal_strlit("name");
    assert("description"@.len() == 11);
    assert("parameters"@.len() == 10);
    assert("strict"@[0] != "type"@[0]);
    assert("strict"@[0] != "name"@[0]);
    assert("description"@ != "type"@);
    assert("description"@ != "name"@);
    assert("parameters"@ != "type"@);
    assert("parameters"@ != "name"@);
    assert("name"@ != "description"@);
    assert("name"@ != "parameters"@);
    let r0 = empty_conversion();
    assert(convert_children(r0, Seq::<JsonV>::empty(), namespace_name) == r0);
    assert(convert_tool_spec(r0, tm, Some(namespace_name)) == function_tool_step(r0, tm, Some(namespace_name)));
    assert(convert_children(r0, children, namespace_name) == convert_tool_spec(r0, tm, Some(namespace_name)));
    assert(convert_tool_spec(r0, dm, None) == convert_children(r0, children, namespace_name));
    assert(convert_tool_list(r0, Seq::<JsonV>::empty()) == r0);
    assert(items.last() == JsonV::Object(dm));
    assert(convert_tool_list(r0, items) == convert_tool_spec(r0, dm, None));
}

/// A `custom_tool_call` item replayed to the chat side becomes a function call whose
/// arguments are `{"input": ...}`; restored with a registry that records the custom tool,
/// it comes back as a `custom_tool_call` with the same name and call id, and with the
/// original input whenever those arguments read back (as `chat_tool_calls_to_responses_items`
/// states of every custom call it restores).
pub proof fn law_custom_call_replay(
    call_id: Seq<char>,
    name: Seq<char>,
    input: Seq<char>,
    registry: Map<Seq<char>, IdentityV>,
)
    requires
        registry.contains_key(name),
        registry[name] == (IdentityV { original_name: name, namespace_name: None, original_tool_type: "custom"@ }),
        input_reads_back(input_object_text(input)),
    ensures
        ({
            let item = jobj(
                seq![
                    ("type"@, jstr("custom_tool_call"@)),
                    ("call_id"@, jstr(call_id)),
                    ("name"@, jstr(name)),
                    ("input"@, jstr(input)),
                ],
            );
            let call = chat_tool_call_of_item(item);
            &&& call == chat_call(call_id, name, input_object_text(input))
            &&& response_item_of_call(call, registry) matches Some(restored) && {
                &&& restored.get_str("type"@) == Some("custom_tool_call"@)
                &&& restored.get_str("name"@) == Some(name)
                &&& restored.get_str("call_id"@) == Some(call_id)
                &&& restored.get_str("namespace"@) is None
                &&& restored.get_str("input"@) == Some(input)
            }
        }),
{
    lemma_tool_keys_distinct();
    reveal_with_fuel(crate::json::pairs_get, 5);
    let pairs = seq![
        ("type"@, jstr("custom_tool_call"@)),
        ("call_id"@, jstr(call_id)),
        ("name"@, jstr(name)),
        ("input"@, jstr(input)),
    ];
    crate::json::lemma_obj_of_get(pairs, "type"@);
    crate::json::lemma_obj_of_get(pairs, "call_id"@);
    crate::json::lemma_obj_of_get(pairs, "name"@);
    crate::json::lemma_obj_of_get(pairs, "input"@);
    crate::json::lemma_obj_of_get(pairs, "namespace"@);
    law_restores_registered_identity(registry, call_id, name, input_object_text(input));
}

/// The name of a chat function tool: its `function.name`.
pub open spec fn chat_tool_name(tool: JsonV) -> Option<Seq<char>> {
    match tool.get("function"@) {
        Some(f) => f.get_str("name"@),
        None => None,
    }
}

/// Whether an identity gives back the flattened name it is recorded under: its name
/// joined to its namespace, or its bare name outside a namespace.
pub open spec fn identity_joins(flat_name: Seq<char>, identity: IdentityV) -> bool {
    match identity.namespace_name {
        Some(ns) => joined_tool_name(ns, identity.original_name) == flat_name,
        None => identity.original_name == flat_name,
    }
}

/// Every chat tool of a conversion is a `function` tool whose name the registry holds,
/// and every identity the registry records joins back to its name.
pub open spec fn tools_resolvable(c: ConversionV) -> bool {
    &&& forall|i: int|
        0 <= i < c.tools.len() ==> (#[trigger] c.tools[i]).get_str("type"@) == Some("function"@) && chat_tool_name(
            c.tools[i],
        ) is Some && c.registry.contains_key(chat_tool_name(c.tools[i])->Some_0)
    &&& forall|k: Seq<char>| #[trigger] c.registry.contains_key(k) ==> identity_joins(k, c.registry[k])
}

proof fn lemma_function_item(name: Seq<char>, function: JsonV)
    requires
        function.get_str("name"@) == Some(name),
    ensures
        ({
            let t = jobj(seq![("type"@, jstr("function"@)), ("function"@, function)]);
            t.get_str("type"@) == Some("function"@) && chat_tool_name(t) == Some(name)
        }),
{
    lemma_tool_keys_distinct();
    let pairs = seq![("type"@, jstr("function"@)), ("function"@, function)];
    crate::json::lemma_obj_of_get(pairs, "type"@);
    crate::json::lemma_obj_of_get(pairs, "function"@);
    let p1 = pairs.drop_last();
    assert(p1 =~= seq![("type"@, jstr("function"@))]);
    assert(p1.drop_last().len() == 0);
    assert(crate::json::pairs_get(p1, "type"@) == Some(jstr("function"@)));
    assert(pairs.last().0 == "function"@);
    assert(crate::json::pairs_get(pairs, "type"@) == Some(jstr("function"@)));
    assert(crate::json::pairs_get(pairs, "function"@) == Some(function));
}

proof fn lemma_declared_name(name: Seq<char>, description: JsonV, parameters: JsonV)
    ensures
        jobj(seq![("name"@, jstr(name)), ("description"@, description), ("parameters"@, parameters)]).get_str(
            "name"@,
        ) == Some(name),
{
    reveal_strlit("name");
    reveal_strlit("description");
    reveal_strlit("parameters");
    assert("name"@.len() != "description"@.len());
    assert("name"@.len() != "parameters"@.len());
    let pairs = seq![("name"@, jstr(name)), ("description"@, description), ("parameters"@, parameters)];
    crate::json::lemma_obj_of_get(pairs, "name"@);
    let p2 = pairs.drop_last();
    let p1 = p2.drop_last();
    assert(p2 =~= seq![("name"@, jstr(name)), ("description"@, description)]);
    assert(p1 =~= seq![("name"@, jstr(name))]);
    assert(p1.drop_last().len() == 0);
    assert(crate::json::pairs_get(p1, "name"@) == Some(jstr(name)));
    assert(pairs.last().0 == "parameters"@);
    assert(p2.last().0 == "description"@);
    assert(crate::json::pairs_get(p2, "name"@) == Some(jstr(name)));
    assert(crate::json::pairs_get(pairs, "name"@) == Some(jstr(name)));
}

proof fn lemma_push_resolvable(acc: ConversionV, tool: JsonV, name: Seq<char>, identity: IdentityV)
    requires
        tools_resolvable(acc),
        tool.get_str("type"@) == Some("function"@),
        chat_tool_name(tool) == Some(name),
        identity_joins(name, identity),
    ensures
        tools_resolvable(ConversionV { tools: acc.tools.push(tool), registry: acc.registry.insert(name, identity) }),
{
    let c = ConversionV { tools: acc.tools.push(tool), registry: acc.registry.insert(name, identity) };
    assert forall|i: int| 0 <= i < c.tools.len() implies (#[trigger] c.tools[i]).get_str("type"@) == Some(
        "function"@,
    ) && chat_tool_name(c.tools[i]) is Some && c.registry.contains_key(chat_tool_name(c.tools[i])->Some_0) by {
        if i < acc.tools.len() {
            assert(c.tools[i] == acc.tools[i]);
        }
    }
}

proof fn lemma_function_step_resolvable(acc: ConversionV, tool: Seq<(Seq<char>, JsonV)>, namespace: Option<Seq<char>>)
    requires
        tools_resolvable(acc),
    ensures
        tools_resolvable(function_tool_step(acc, tool, namespace)),
{
    let function = match obj_get(tool, "function"@) {
        Some(JsonV::Object(f)) => f,
        _ => tool,
    };
    match member_str(function, "name"@) {
        None => {},
        Some(original) => {
            let flat = match namespace {
                Some(n) => joined_tool_name(n, original),
                None => original,
            };
            let description = match obj_get(function, "description"@) {
                Some(d) => d,
                None => jstr(""@),
            };
            let parameters = match obj_get(function, "parameters"@) {
                Some(p) => if p is Object {
                    p
                } else {
                    default_parameters()
                },
                None => default_parameters(),
            };
            let base = jobj(
                seq![("name"@, jstr(flat)), ("description"@, description), ("parameters"@, parameters)],
            );
            lemma_declared_name(flat, description, parameters);
            let converted = if member_bool(function, "strict"@) == Some(true) {
                reveal_strlit("strict");
                reveal_strlit("name");
                assert("strict"@.len() != "name"@.len());
                crate::json::law_get_after_insert(base->Object_0, "strict"@, JsonV::Bool(true), "name"@);
                base.with("strict"@, JsonV::Bool(true))
            } else {
                base
            };
            lemma_function_item(flat, converted);
            lemma_push_resolvable(
                acc,
                jobj(seq![("type"@, jstr("function"@)), ("function"@, converted)]),
                flat,
                IdentityV { original_name: original, namespace_name: namespace, original_tool_type: "function"@ },
            );
        },
    }
}

proof fn lemma_custom_step_resolvable(acc: ConversionV, tool: Seq<(Seq<char>, JsonV)>)
    requires
        tools_resolvable(acc),
    ensures
        tools_resolvable(custom_tool_step(acc, tool)),
{
    match member_str(tool, "name"@) {
        None => {},
        Some(name) => {
            let description = match obj_get(tool, "description"@) {
                Some(d) => d,
                None => jstr(""@),
            };
            lemma_declared_name(name, description, custom_tool_parameters());
            let function = jobj(
                seq![("name"@, jstr(name)), ("description"@, description), ("parameters"@, custom_tool_parameters())],
            );
            lemma_function_item(name, function);
            lemma_push_resolvable(
                acc,
                jobj(seq![("type"@, jstr("function"@)), ("function"@, function)]),
                name,
                IdentityV { original_name: name, namespace_name: None, original_tool_type: "custom"@ },
            );
        },
    }
}

proof fn lemma_tool_spec_resolvable(acc: ConversionV, tool: Seq<(Seq<char>, JsonV)>, namespace: Option<Seq<char>>)
    requires
        tools_resolvable(acc),
    ensures
        tools_resolvable(convert_tool_spec(acc, tool, namespace)),
    decreases tool,
{
    let ty = member_str(tool, "type"@);
    if ty == Some("namespace"@) {
        let ns_name = match member_str(tool, "name"@) {
            Some(n) => n,
            None => ""@,
        };
        let i = obj_find(tool, "tools"@) as int;
        if i < tool.len() && tool[i].1 is Array {
            lemma_children_resolvable(acc, tool[i].1->Array_0, ns_name);
        }
    } else if ty == Some("function"@) {
        lemma_function_step_resolvable(acc, tool, namespace);
    } else if ty == Some("custom"@) && namespace is None {
        lemma_custom_step_resolvable(acc, tool);
    }
}

proof fn lemma_children_resolvable(acc: ConversionV, children: Seq<JsonV>, ns_name: Seq<char>)
    requires
        tools_resolvable(acc),
    ensures
        tools_resolvable(convert_children(acc, children, ns_name)),
    decreases children,
{
    if children.len() > 0 {
        let rest = children.subrange(0, children.len() - 1);
        lemma_children_resolvable(acc, rest, ns_name);
        match children[children.len() - 1] {
            JsonV::Object(m) => {
                lemma_tool_spec_resolvable(convert_children(acc, rest, ns_name), m, Some(ns_name));
            },
            _ => {},
        }
    }
}

proof fn lemma_list_resolvable(acc: ConversionV, items: Seq<JsonV>)
    requires
        tools_resolvable(acc),
    ensures
        tools_resolvable(convert_tool_list(acc, items)),
    decreases items.len(),
{
    if items.len() > 0 {
        lemma_list_resolvable(acc, items.drop_last());
        match items.last() {
            JsonV::Object(m) => {
                lemma_tool_spec_resolvable(convert_tool_list(acc, items.drop_last()), m, None);
            },
            _ => {},
        }
    }
}

/// Every chat tool that a request's declarations convert to is a `function` tool whose
/// name the registry resolves, and every identity the registry records joins back to the
/// name it is recorded under, so any call the provider makes to a declared tool can be
/// restored to its original identity; a declaration of any other kind (a built-in tool,
/// or a custom tool inside a namespace) is dropped.
pub proof fn law_chat_tools_are_resolvable(
    tools: Option<JsonV>,
    acc: ConversionV,
    tool: Seq<(Seq<char>, JsonV)>,
    namespace: Option<Seq<char>>,
)
    ensures
        tools_resolvable(chat_tools_of(tools)),
        !(member_str(tool, "type"@) == Some("namespace"@) || member_str(tool, "type"@) == Some("function"@) || (
        member_str(tool, "type"@) == Some("custom"@) && namespace is None)) ==> convert_tool_spec(acc, tool, namespace)
            == acc,
{
    assert(tools_resolvable(empty_conversion()));
    match tools {
        Some(JsonV::Array(items)) => {
            lemma_list_resolvable(empty_conversion(), items);
        },
        _ => {},
    }
}

proof fn lemma_unregistered_call_item(
    registry: Map<Seq<char>, IdentityV>,
    call_id: Seq<char>,
    flat_name: Seq<char>,
    arguments: Seq<char>,
)
    requires
        !registry.contains_key(flat_name),
    ensures
        response_item_of_call(chat_call(call_id, flat_name, arguments), registry) matches Some(item) && {
            &&& item.get_str("name"@) == Some(flat_name)
            &&& item.get_str("namespace"@) is None
            &&& item.get_str("call_id"@) == Some(call_id)
            &&& item.get_str("type"@) == Some("function_call"@)
            &&& item.get("arguments"@) == Some(jstr(arguments))
        },
{
    lemma_tool_keys_distinct();
    reveal_with_fuel(crate::json::pairs_get, 8);
    let fpairs = seq![("name"@, jstr(flat_name)), ("arguments"@, jstr(arguments))];
    let cpairs = seq![
        ("id"@, jstr(call_id)),
        ("type"@, jstr("function"@)),
        ("function"@, jobj(fpairs)),
    ];
    crate::json::lemma_obj_of_get(cpairs, "id"@);
    crate::json::lemma_obj_of_get(cpairs, "call_id"@);
    crate::json::lemma_obj_of_get(cpairs, "function"@);
    crate::json::lemma_obj_of_get(fpairs, "name"@);
    crate::json::lemma_obj_of_get(fpairs, "arguments"@);
    let ipairs = seq![
        ("id"@, jstr("fc_local_"@ + call_id)),
        ("type"@, jstr("function_call"@)),
        ("status"@, jstr("completed"@)),
        ("call_id"@, jstr(call_id)),
        ("name"@, jstr(flat_name)),
        ("arguments"@, jstr(arguments)),
    ];
    crate::json::lemma_obj_of_get(ipairs, "name"@);
    crate::json::lemma_obj_of_get(ipairs, "namespace"@);
    crate::json::lemma_obj_of_get(ipairs, "call_id"@);
    crate::json::lemma_obj_of_get(ipairs, "type"@);
    crate::json::lemma_obj_of_get(ipairs, "arguments"@);
}

/// Replaying a restored chat tool call gives back the call it was restored from,
/// flattened name and arguments included. This holds whenever the registry's identity
/// for the name joins back to it (as for every registry that `responses_tools_to_chat_tools`
/// builds: `law_chat_tools_are_resolvable`) and, for a custom tool, the arguments are the
/// text of `{"input": s}` and read back as `s` (as `chat_tool_calls_to_responses_items`
/// states of every custom call it restores).
pub proof fn law_replay_restores_chat_call(
    registry: Map<Seq<char>, IdentityV>,
    call_id: Seq<char>,
    name: Seq<char>,
    arguments: Seq<char>,
)
    requires
        registry.contains_key(name) ==> identity_joins(name, registry[name]),
        (registry.contains_key(name) && registry[name].original_tool_type == "custom"@) ==> (exists|s: Seq<char>|
            arguments == #[trigger] input_object_text(s)) && input_reads_back(arguments),
    ensures
        response_item_of_call(chat_call(call_id, name, arguments), registry) matches Some(item)
            && chat_tool_call_of_item(item) == chat_call(call_id, name, arguments),
{
    lemma_tool_keys_distinct();
    if registry.contains_key(name) {
        law_restores_registered_identity(registry, call_id, name, arguments);
        if registry[name].original_tool_type == "custom"@ {
            let s = choose|s: Seq<char>| arguments == #[trigger] input_object_text(s);
            assert(custom_input_of(arguments) == s);
        }
    } else {
        lemma_unregistered_call_item(registry, call_id, name, arguments);
    }
}

proof fn lemma_declared_description(name: Seq<char>, description: JsonV, parameters: JsonV)
    ensures
        jobj(seq![("name"@, jstr(name)), ("description"@, description), ("parameters"@, parameters)]).get(
            "description"@,
        ) == Some(description),
{
    reveal_strlit("description");
    reveal_strlit("parameters");
    assert("description"@.len() != "parameters"@.len());
    let pairs = seq![("name"@, jstr(name)), ("description"@, description), ("parameters"@, parameters)];
    crate::json::lemma_obj_of_get(pairs, "description"@);
    let p2 = pairs.drop_last();
    assert(p2 =~= seq![("name"@, jstr(name)), ("description"@, description)]);
    assert(pairs.last().0 == "parameters"@);
    assert(p2.last().0 == "description"@);
    assert(crate::json::pairs_get(p2, "description"@) == Some(description));
}

/// The description a declaration gives, or the empty string when it gives none.
pub open spec fn declared_description(m: Seq<(Seq<char>, JsonV)>) -> JsonV {
    match obj_get(m, "description"@) {
        Some(d) => d,
        None => jstr(""@),
    }
}

/// The chat function of a chat tool: its `function` member.
pub open spec fn chat_function(tool: JsonV) -> Option<JsonV> {
    tool.get("function"@)
}

/// A tool declaration with a name adds exactly one chat tool, and that tool keeps the
/// declared description: a top-level `custom` declaration's own `description`, a
/// `function` declaration's (inside its `function` object when it has one); the empty
/// string only when none is given.
pub proof fn law_declared_descriptions_are_kept(
    acc: ConversionV,
    tool: Seq<(Seq<char>, JsonV)>,
    namespace: Option<Seq<char>>,
)
    ensures
        ({
            let c = convert_tool_spec(acc, tool, namespace);
            let function = match obj_get(tool, "function"@) {
                Some(JsonV::Object(f)) => f,
                _ => tool,
            };
            &&& (member_str(tool, "type"@) == Some("custom"@) && namespace is None && member_str(tool, "name"@)
                is Some) ==> (c.tools.len() == acc.tools.len() + 1 && chat_function(c.tools.last()) is Some
                && chat_function(c.tools.last())->Some_0.get("description"@) == Some(declared_description(tool)))
            &&& (member_str(tool, "type"@) == Some("function"@) && member_str(function, "name"@) is Some) ==> (
            c.tools.len() == acc.tools.len() + 1 && chat_function(c.tools.last()) is Some && chat_function(
                c.tools.last(),
            )->Some_0.get("description"@) == Some(declared_description(function)))
        }),
{
    lemma_tool_keys_distinct();
    reveal_strlit("namespace");
    reveal_strlit("custom");
    reveal_strlit("function");
    reveal_strlit("strict");
    reveal_strlit("description");
    assert("strict"@.len() != "description"@.len());
    if member_str(tool, "type"@) == Some("custom"@) && namespace is None {
        match member_str(tool, "name"@) {
            Some(name) => {
                let description = match obj_get(tool, "description"@) {
                    Some(d) => d,
                    None => jstr(""@),
                };
                lemma_declared_description(name, description, custom_tool_parameters());
                let function = jobj(
                    seq![("name"@, jstr(name)), ("description"@, description), ("parameters"@, custom_tool_parameters())],
                );
                lemma_declared_name(name, description, custom_tool_parameters());
                lemma_function_item(name, function);
                let pairs = seq![("type"@, jstr("function"@)), ("function"@, function)];
                crate::json::lemma_obj_of_get(pairs, "function"@);
            },
            None => {},
        }
    }
    let function = match obj_get(tool, "function"@) {
        Some(JsonV::Object(f)) => f,
        _ => tool,
    };
    if member_str(tool, "type"@) == Some("function"@) {
        match member_str(function, "name"@) {
            Some(original) => {
                let flat = match namespace {
                    Some(n) => joined_tool_name(n, original),
                    None => original,
                };
                let description = match obj_get(function, "description"@) {
                    Some(d) => d,
                    None => jstr(""@),
                };
                let parameters = match obj_get(function, "parameters"@) {
                    Some(p) => if p is Object {
                        p
                    } else {
                        default_parameters()
                    },
                    None => default_parameters(),
                };
                let base = jobj(
                    seq![("name"@, jstr(flat)), ("description"@, description), ("parameters"@, parameters)],
                );
                lemma_declared_description(flat, description, parameters);
                let converted = if member_bool(function, "strict"@) == Some(true) {
                    crate::json::law_get_after_insert(base->Object_0, "strict"@, JsonV::Bool(true), "description"@);
                    base.with("strict"@, JsonV::Bool(true))
                } else {
                    base
                };
                let pairs = seq![("type"@, jstr("function"@)), ("function"@, converted)];
                crate::json::lemma_obj_of_get(pairs, "function"@);
            },
            None => {},
        }
    }
}

} // verus!
