//! Model routing, the model list, trace ids and other request bookkeeping.
use vstd::prelude::*;
use crate::error::{ShimError, is_invalid};
use crate::ids::{is_lower_hex, new_uuid_simple};
use crate::json::{Json, JsonV, Number, NumberV, entries_view, items_view, jobj, jstr};
use crate::usage::ProviderTokenStats;
use crate::text::{decimal, is_blank, owned, push_str, text_eq, trim_text, trimmed, u64_to_text};

verus! {

broadcast use vstd::std_specs::vec::group_vec_axioms;

/// The texts of a list of strings.
pub open spec fn string_views(v: Seq<String>) -> Seq<Seq<char>> {
    v.map_values(|s: String| s@)
}

/// Whether `s` is blank (empty or only white space).
pub open spec fn blank(s: Seq<char>) -> bool {
    trimmed(s).len() == 0
}

/// The id list after offering `id`: appended when it is not blank and not yet listed.
pub open spec fn with_model_id(ids: Seq<Seq<char>>, id: Seq<char>) -> Seq<Seq<char>> {
    if !blank(id) && !ids.contains(id) {
        ids.push(id)
    } else {
        ids
    }
}

/// Offers a model id to the list (see `with_model_id`).
pub fn append_unique_model_id(ids: &mut Vec<String>, id: &str)
    ensures
        string_views(final(ids)@) == with_model_id(string_views(old(ids)@), id@),
{
    if is_blank(id) {
        return;
    }
    let mut i: usize = 0;
    while i < ids.len()
        invariant
            i <= ids.len(),
            ids@ == old(ids)@,
            forall|j: int| 0 <= j < i ==> ids@[j]@ != id@,
        decreases ids.len() - i,
    {
        if text_eq(ids[i].as_str(), id) {
            assert(string_views(ids@)[i as int] == id@);
            return;
        }
        i += 1;
    }
    assert(!string_views(ids@).contains(id@));
    ids.push(owned(id));
    assert(string_views(ids@) =~= string_views(old(ids)@).push(id@));
}

/// The model ids offered, in order: the configured provider models, then the alias
/// names, each once and none blank.
pub open spec fn model_ids(models: Seq<Seq<char>>, aliases: Seq<Seq<char>>) -> Seq<Seq<char>>
    decreases models.len() + aliases.len(),
{
    if aliases.len() > 0 {
        with_model_id(model_ids(models, aliases.drop_last()), aliases.last())
    } else if models.len() > 0 {
        with_model_id(model_ids(models.drop_last(), aliases), models.last())
    } else {
        Seq::empty()
    }
}

/// Lists the offered model ids (see `model_ids`).
pub fn list_model_ids(models: &[String], alias_names: &[String]) -> (r: Vec<String>)
    ensures
        string_views(r@) == model_ids(string_views(models@), string_views(alias_names@)),
{
    let ghost mv = string_views(models@);
    let ghost av = string_views(alias_names@);
    let mut ids: Vec<String> = Vec::new();
    let mut i: usize = 0;
    assert(string_views(ids@) =~= model_ids(mv.take(0), av.take(0)));
    while i < models.len()
        invariant
            i <= models.len(),
            mv == string_views(models@),
            string_views(ids@) == model_ids(mv.take(i as int), av.take(0)),
        decreases models.len() - i,
    {
        append_unique_model_id(&mut ids, models[i].as_str());
        assert(mv.take(i + 1).drop_last() =~= mv.take(i as int));
        assert(av.take(0).len() == 0);
        i += 1;
    }
    assert(mv.take(models.len() as int) =~= mv);
    let mut k: usize = 0;
    while k < alias_names.len()
        invariant
            k <= alias_names.len(),
            mv == string_views(models@),
            av == string_views(alias_names@),
            string_views(ids@) == model_ids(mv, av.take(k as int)),
        decreases alias_names.len() - k,
    {
        append_unique_model_id(&mut ids, alias_names[k].as_str());
        assert(av.take(k + 1).drop_last() =~= av.take(k as int));
        k += 1;
    }
    assert(av.take(alias_names.len() as int) =~= av);
    ids
}

pub open spec fn ids_clean(ids: Seq<Seq<char>>) -> bool {
    &&& forall|i: int| 0 <= i < ids.len() ==> !blank(#[trigger] ids[i])
    &&& forall|i: int, j: int| 0 <= i < j < ids.len() ==> #[trigger] ids[i] != #[trigger] ids[j]
}

proof fn lemma_with_model_id_clean(ids: Seq<Seq<char>>, id: Seq<char>)
    requires
        ids_clean(ids),
    ensures
        ids_clean(with_model_id(ids, id)),
{
    if !blank(id) && !ids.contains(id) {
        let n = ids.push(id);
        assert forall|i: int, j: int| 0 <= i < j < n.len() implies #[trigger] n[i] != #[trigger] n[j] by {
            if j == ids.len() {
                assert(n[i] == ids[i]);
                if ids[i] == id {
                    assert(ids.contains(id));
                }
            } else {
                assert(n[i] == ids[i] && n[j] == ids[j]);
            }
        }
    }
}

/// Offering ids keeps the list free of blank and repeated ids.
pub proof fn law_model_ids_unique_and_not_blank(models: Seq<Seq<char>>, aliases: Seq<Seq<char>>)
    ensures
        forall|i: int| 0 <= i < model_ids(models, aliases).len() ==> !blank(#[trigger] model_ids(models, aliases)[i]),
        forall|i: int, j: int|
            0 <= i < j < model_ids(models, aliases).len() ==> #[trigger] model_ids(models, aliases)[i]
                != #[trigger] model_ids(models, aliases)[j],
    decreases models.len() + aliases.len(),
{
    if aliases.len() > 0 {
        law_model_ids_unique_and_not_blank(models, aliases.drop_last());
        lemma_with_model_id_clean(model_ids(models, aliases.drop_last()), aliases.last());
    } else if models.len() > 0 {
        law_model_ids_unique_and_not_blank(models.drop_last(), aliases);
        lemma_with_model_id_clean(model_ids(models.drop_last(), aliases), models.last());
    }
    assert(ids_clean(model_ids(models, aliases)));
}

/// One entry of the model list.
pub open spec fn model_entry(id: Seq<char>) -> JsonV {
    jobj(
        seq![
            ("id"@, jstr(id)),
            ("object"@, jstr("model"@)),
            ("created"@, JsonV::Number(NumberV::PosInt(0))),
            ("owned_by"@, jstr("xiaomi-mimo"@)),
        ],
    )
}

/// The `/v1/models` answer for a list of ids.
pub open spec fn models_list(ids: Seq<Seq<char>>) -> JsonV {
    jobj(seq![("object"@, jstr("list"@)), ("data"@, JsonV::Array(ids.map_values(|id: Seq<char>| model_entry(id))))])
}

fn kv(key: &str, value: Json) -> (r: (String, Json))
    ensures
        r.0@ == key@,
        r.1 == value,
{
    (owned(key), value)
}

/// The `/v1/models` answer (see `models_list`).
pub fn models_list_json(ids: &[String]) -> (r: Json)
    ensures
        r@ == models_list(string_views(ids@)),
{
    let ghost iv = string_views(ids@);
    let mut data: Vec<Json> = Vec::new();
    let mut i: usize = 0;
    while i < ids.len()
        invariant
            i <= ids.len(),
            iv == string_views(ids@),
            items_view(data@) == iv.take(i as int).map_values(|id: Seq<char>| model_entry(id)),
        decreases ids.len() - i,
    {
        let v = vec![
            kv("id", Json::text(ids[i].as_str())),
            kv("object", Json::text("model")),
            kv("created", Json::Number(Number::PosInt(0))),
            kv("owned_by", Json::text("xiaomi-mimo")),
        ];
        assert(entries_view(v@) =~= seq![
            ("id"@, jstr(iv[i as int])),
            ("object"@, jstr("model"@)),
            ("created"@, JsonV::Number(NumberV::PosInt(0))),
            ("owned_by"@, jstr("xiaomi-mimo"@)),
        ]);
        let e = Json::object(v);
        let ghost before = data@;
        data.push(e);
        assert(items_view(data@) =~= items_view(before).push(e@));
        assert(iv.take(i + 1) =~= iv.take(i as int).push(iv[i as int]));
        assert(iv.take(i + 1).map_values(|id: Seq<char>| model_entry(id)) =~= iv.take(i as int).map_values(
            |id: Seq<char>| model_entry(id),
        ).push(model_entry(iv[i as int])));
        i += 1;
    }
    assert(iv.take(ids.len() as int) =~= iv);
    proof {
        crate::json::lemma_array_view(data);
    }
    let ghost dv = items_view(data@);
    let v = vec![kv("object", Json::text("list")), kv("data", Json::Array(data))];
    assert(entries_view(v@) =~= seq![("object"@, jstr("list"@)), ("data"@, JsonV::Array(dv))]);
    Json::object(v)
}

/// How a requested model was routed to the provider.
#[derive(PartialEq, Eq, Structural, Clone, Copy, Debug)]
pub enum ModelRoute {
    DefaultModel,
    ConfiguredAlias,
    DirectProviderModel,
    FallbackUnknownModelToDefault,
}

pub open spec fn route_name(r: ModelRoute) -> Seq<char> {
    match r {
        ModelRoute::DefaultModel => "default_model"@,
        ModelRoute::ConfiguredAlias => "configured_alias"@,
        ModelRoute::DirectProviderModel => "direct_provider_model"@,
        ModelRoute::FallbackUnknownModelToDefault => "fallback_unknown_model_to_default"@,
    }
}

impl ModelRoute {
    /// The route's name in logs and in the response's gateway record.
    pub fn as_str(&self) -> (r: &'static str)
        ensures
            r@ == route_name(*self),
    {
        match self {
            ModelRoute::DefaultModel => "default_model",
            ModelRoute::ConfiguredAlias => "configured_alias",
            ModelRoute::DirectProviderModel => "direct_provider_model",
            ModelRoute::FallbackUnknownModelToDefault => "fallback_unknown_model_to_default",
        }
    }
}

/// The models the shim knows and how unknown ones are treated.
#[derive(Debug, Clone)]
pub struct ModelRouting {
    /// The default provider model.
    pub mimo_model: String,
    /// Provider models that may be requested directly.
    pub mimo_models: Vec<String>,
    /// Client model names mapped to provider models, in the configured order; a name
    /// listed more than once is mapped by its first entry (`alias_target`).
    pub model_aliases: Vec<(String, String)>,
    pub fallback_unknown_model_to_default: bool,
}

/// The client-side and provider-side model of a request, and how it was routed.
#[derive(Debug, Clone)]
pub struct ResolvedModel {
    pub client_model: String,
    pub provider_model: String,
    pub route: ModelRoute,
}

/// The provider model an alias maps `name` to (the first entry with that name).
pub open spec fn alias_target(aliases: Seq<(String, String)>, name: Seq<char>) -> Option<Seq<char>>
    decreases aliases.len(),
{
    if aliases.len() == 0 {
        None
    } else if aliases[0].0@ == name {
        Some(aliases[0].1@)
    } else {
        alias_target(aliases.drop_first(), name)
    }
}

/// The requested model, trimmed; blank or absent counts as no request.
pub open spec fn requested_name(requested: Option<Seq<char>>) -> Option<Seq<char>> {
    match requested {
        Some(m) => if trimmed(m).len() == 0 {
            None
        } else {
            Some(trimmed(m))
        },
        None => None,
    }
}

/// Routing of a requested model: none requested gives the default model; an alias gives
/// its (trimmed, non-empty) target; a known provider model is used directly; any other
/// name falls back to the default model when allowed and is rejected otherwise.
pub open spec fn routed(
    routing: ModelRouting,
    requested: Option<Seq<char>>,
) -> Result<(Seq<char>, Seq<char>, ModelRoute), Seq<char>> {
    match requested_name(requested) {
        None => Ok((routing.mimo_model@, routing.mimo_model@, ModelRoute::DefaultModel)),
        Some(client) => match alias_target(routing.model_aliases@, client) {
            Some(target) => if trimmed(target).len() == 0 {
                Err("model alias for "@ + client + " is empty"@)
            } else {
                Ok((client, trimmed(target), ModelRoute::ConfiguredAlias))
            },
            None => if string_views(routing.mimo_models@).contains(client) {
                Ok((client, client, ModelRoute::DirectProviderModel))
            } else if routing.fallback_unknown_model_to_default {
                Ok((client, routing.mimo_model@, ModelRoute::FallbackUnknownModelToDefault))
            } else {
                Err(
                    "unsupported model "@ + client
                        + "; configure upstream.aliases or enable upstream.fallback_unknown_model_to_default"@,
                )
            },
        },
    }
}

fn find_alias<'a>(aliases: &'a Vec<(String, String)>, name: &str) -> (r: Option<&'a String>)
    ensures
        match r {
            Some(t) => alias_target(aliases@, name@) == Some(t@),
            None => alias_target(aliases@, name@) is None,
        },
{
    let ghost s = aliases@;
    let mut i: usize = 0;
    assert(s.skip(0) =~= s);
    while i < aliases.len()
        invariant
            i <= aliases.len(),
            s == aliases@,
            alias_target(s, name@) == alias_target(s.skip(i as int), name@),
        decreases aliases.len() - i,
    {
        assert(s.skip(i as int).drop_first() =~= s.skip(i + 1));
        if text_eq(aliases[i].0.as_str(), name) {
            return Some(&aliases[i].1);
        }
        i += 1;
    }
    None
}

fn contains_text(list: &Vec<String>, name: &str) -> (r: bool)
    ensures
        r == string_views(list@).contains(name@),
{
    let mut i: usize = 0;
    while i < list.len()
        invariant
            i <= list.len(),
            forall|j: int| 0 <= j < i ==> list@[j]@ != name@,
        decreases list.len() - i,
    {
        if text_eq(list[i].as_str(), name) {
            assert(string_views(list@)[i as int] == name@);
            return true;
        }
        i += 1;
    }
    false
}

/// Routes a requested model (see `routed`).
pub fn resolve_provider_model(routing: &ModelRouting, requested_model: Option<&str>) -> (r: Result<
    ResolvedModel,
    ShimError,
>)
    ensures
        match routed(*routing, crate::json::opt_str_view(requested_model)) {
            Ok((c, p, route)) => r matches Ok(m) && m.client_model@ == c && m.provider_model@ == p && m.route
                == route,
            Err(msg) => r matches Err(e) && is_invalid(e, msg),
        },
{
    let requested = match requested_model {
        Some(m) => {
            let t = trim_text(m);
            if t.as_str().is_empty() {
                None
            } else {
                Some(t)
            }
        },
        None => None,
    };
    let client_model = match requested {
        Some(c) => c,
        None => {
            return Ok(
                ResolvedModel {
                    client_model: routing.mimo_model.clone(),
                    provider_model: routing.mimo_model.clone(),
                    route: ModelRoute::DefaultModel,
                },
            );
        },
    };
    match find_alias(&routing.model_aliases, client_model.as_str()) {
        Some(target) => {
            let provider_model = trim_text(target.as_str());
            if provider_model.as_str().is_empty() {
                let mut msg = owned("model alias for ");
                push_str(&mut msg, client_model.as_str());
                push_str(&mut msg, " is empty");
                return Err(ShimError::InvalidRequest(msg));
            }
            return Ok(ResolvedModel { client_model, provider_model, route: ModelRoute::ConfiguredAlias });
        },
        None => {},
    }
    if contains_text(&routing.mimo_models, client_model.as_str()) {
        let provider_model = client_model.clone();
        return Ok(ResolvedModel { client_model, provider_model, route: ModelRoute::DirectProviderModel });
    }
    if routing.fallback_unknown_model_to_default {
        return Ok(
            ResolvedModel {
                client_model,
                provider_model: routing.mimo_model.clone(),
                route: ModelRoute::FallbackUnknownModelToDefault,
            },
        );
    }
    let mut msg = owned("unsupported model ");
    push_str(&mut msg, client_model.as_str());
    push_str(&mut msg, "; configure upstream.aliases or enable upstream.fallback_unknown_model_to_default");
    Err(ShimError::InvalidRequest(msg))
}

/// The `model` a request names, unless it is blank.
pub open spec fn request_model(payload: JsonV) -> Option<Seq<char>> {
    match payload.get_str("model"@) {
        Some(m) => if blank(m) {
            None
        } else {
            Some(m)
        },
        None => None,
    }
}

/// The `model` a request names, unless it is blank (see `request_model`).
pub fn extract_request_model(payload: &Json) -> (r: Option<String>)
    ensures
        crate::registry::opt_string_view(r) == request_model(payload@),
{
    match payload.get_str("model") {
        Some(m) => if is_blank(m) {
            None
        } else {
            Some(owned(m))
        },
        None => None,
    }
}

/// A count for the access log, or `-` when there is none.
pub open spec fn optional_count_text(value: Option<u64>) -> Seq<char> {
    match value {
        Some(n) => decimal(n as nat),
        None => "-"@,
    }
}

/// A count for the access log (see `optional_count_text`).
pub fn format_optional_u64(value: Option<u64>) -> (r: String)
    ensures
        r@ == optional_count_text(value),
{
    match value {
        Some(n) => u64_to_text(n),
        None => owned("-"),
    }
}

/// The observed-usage fields of an access log line.
#[derive(Debug)]
pub struct AccessCounts {
    /// `provider_usage` when the provider reported any count, `-` otherwise.
    pub usage: String,
    pub input_tokens: String,
    pub output_tokens: String,
    pub total_tokens: String,
    pub cached_tokens: String,
    pub reasoning_tokens: String,
}

/// A count of the stats, when there are stats.
pub open spec fn stat_count(stats: Option<ProviderTokenStats>, pick: spec_fn(ProviderTokenStats) -> Option<u64>) -> Option<u64> {
    match stats {
        Some(s) => pick(s),
        None => None,
    }
}

/// Whether the stats report any count.
pub open spec fn has_any_count(stats: Option<ProviderTokenStats>) -> bool {
    match stats {
        Some(s) => s.input_tokens is Some || s.output_tokens is Some || s.total_tokens is Some
            || s.cached_tokens is Some || s.reasoning_tokens is Some,
        None => false,
    }
}

/// The observed-usage fields for the access log of a request, given the stats observed
/// in the provider's usage (none when the request failed before the provider answered).
pub fn access_counts(stats: Option<ProviderTokenStats>) -> (r: AccessCounts)
    ensures
        r.usage@ == (if has_any_count(stats) {
            "provider_usage"@
        } else {
            "-"@
        }),
        r.input_tokens@ == optional_count_text(stat_count(stats, |s: ProviderTokenStats| s.input_tokens)),
        r.output_tokens@ == optional_count_text(stat_count(stats, |s: ProviderTokenStats| s.output_tokens)),
        r.total_tokens@ == optional_count_text(stat_count(stats, |s: ProviderTokenStats| s.total_tokens)),
        r.cached_tokens@ == optional_count_text(stat_count(stats, |s: ProviderTokenStats| s.cached_tokens)),
        r.reasoning_tokens@ == optional_count_text(
            stat_count(stats, |s: ProviderTokenStats| s.reasoning_tokens),
        ),
{
    match stats {
        Some(s) => AccessCounts {
            usage: if s.has_any() {
                owned("provider_usage")
            } else {
                owned("-")
            },
            input_tokens: format_optional_u64(s.input_tokens),
            output_tokens: format_optional_u64(s.output_tokens),
            total_tokens: format_optional_u64(s.total_tokens),
            cached_tokens: format_optional_u64(s.cached_tokens),
            reasoning_tokens: format_optional_u64(s.reasoning_tokens),
        },
        None => AccessCounts {
            usage: owned("-"),
            input_tokens: format_optional_u64(None),
            output_tokens: format_optional_u64(None),
            total_tokens: format_optional_u64(None),
            cached_tokens: format_optional_u64(None),
            reasoning_tokens: format_optional_u64(None),
        },
    }
}

/// A value for the access log, or `-` when there is none.
pub open spec fn dash_or(value: Option<Seq<char>>) -> Seq<char> {
    match value {
        Some(v) => v,
        None => "-"@,
    }
}

/// The descriptive fields of an access log line.
#[derive(Debug)]
pub struct AccessLabels {
    pub model: String,
    pub provider_model: String,
    pub model_route: String,
    pub error: String,
}

fn dash_or_text(value: Option<&str>) -> (r: String)
    ensures
        r@ == dash_or(crate::json::opt_str_view(value)),
{
    match value {
        Some(v) => owned(v),
        None => owned("-"),
    }
}

/// The descriptive fields of an access log line: each given value, or `-` (see
/// `dash_or`).
pub fn access_labels(
    model: Option<&str>,
    provider_model: Option<&str>,
    model_route: Option<&str>,
    error: Option<&str>,
) -> (r: AccessLabels)
    ensures
        r.model@ == dash_or(crate::json::opt_str_view(model)),
        r.provider_model@ == dash_or(crate::json::opt_str_view(provider_model)),
        r.model_route@ == dash_or(crate::json::opt_str_view(model_route)),
        r.error@ == dash_or(crate::json::opt_str_view(error)),
{
    AccessLabels {
        model: dash_or_text(model),
        provider_model: dash_or_text(provider_model),
        model_route: dash_or_text(model_route),
        error: dash_or_text(error),
    }
}

pub open spec fn first_some(a: Option<Seq<char>>, b: Option<Seq<char>>) -> Option<Seq<char>> {
    match a {
        Some(x) => Some(x),
        None => b,
    }
}

/// The trace id a request carries: `metadata.trace_id`, `trace_id`, `metadata.request_id`,
/// `request_id`, then the `x-request-id` header, the first present.
pub open spec fn request_trace_id(payload: JsonV, header_request_id: Option<Seq<char>>) -> Option<Seq<char>> {
    let meta_trace = match payload.get("metadata"@) {
        Some(m) => m.get_str("trace_id"@),
        None => None,
    };
    let meta_request = match payload.get("metadata"@) {
        Some(m) => m.get_str("request_id"@),
        None => None,
    };
    first_some(
        meta_trace,
        first_some(
            payload.get_str("trace_id"@),
            first_some(meta_request, first_some(payload.get_str("request_id"@), header_request_id)),
        ),
    )
}

fn metadata_str<'a>(payload: &'a Json, key: &str) -> (r: Option<&'a str>)
    ensures
        crate::json::opt_str_view(r) == match payload@.get("metadata"@) {
            Some(m) => m.get_str(key@),
            None => None,
        },
{
    match payload.get("metadata") {
        Some(m) => m.get_str(key),
        None => None,
    }
}

/// The trace id a request carries (see `request_trace_id`); `header_request_id` is the
/// `x-request-id` header when it is valid text.
pub fn extract_trace_id(payload: &Json, header_request_id: Option<&str>) -> (r: Option<String>)
    ensures
        crate::registry::opt_string_view(r) == request_trace_id(payload@, crate::json::opt_str_view(header_request_id)),
{
    let found: Option<&str> = match metadata_str(payload, "trace_id") {
        Some(t) => Some(t),
        None => match payload.get_str("trace_id") {
            Some(t) => Some(t),
            None => match metadata_str(payload, "request_id") {
                Some(t) => Some(t),
                None => match payload.get_str("request_id") {
                    Some(t) => Some(t),
                    None => header_request_id,
                },
            },
        },
    };
    match found {
        Some(t) => Some(owned(t)),
        None => None,
    }
}

/// The ASCII-uppercase form of a character.
pub open spec fn upper_char(c: char) -> char {
    if 'a' <= c && c <= 'z' {
        ((c as u32) - 32) as char
    } else {
        c
    }
}

fn uppercase_hex(s: &str) -> (r: String)
    ensures
        r@ == s@.map_values(|c: char| upper_char(c)),
{
    let cs = crate::text::chars_of(s);
    let mut out = String::new();
    let mut i: usize = 0;
    while i < cs.len()
        invariant
            cs@ == s@,
            i <= cs.len(),
            out@ == s@.take(i as int).map_values(|c: char| upper_char(c)),
        decreases cs.len() - i,
    {
        let c = cs[i];
        let u = if 'a' <= c && c <= 'z' {
            let b: u8 = ((c as u32) - 32) as u8;
            b as char
        } else {
            c
        };
        crate::text::push_char(&mut out, u);
        assert(s@.take(i + 1).map_values(|c: char| upper_char(c)) =~= s@.take(i as int).map_values(|c: char| upper_char(c)).push(upper_char(c)));
        i += 1;
    }
    assert(s@.take(cs.len() as int) =~= s@);
    out
}

/// The trace id used for a request: the one it carries unless blank, otherwise `TRC-`
/// followed by `fresh` in upper case.
pub open spec fn chosen_trace_id(carried: Option<Seq<char>>, fresh: Seq<char>) -> Seq<char> {
    match carried {
        Some(t) => if blank(t) {
            "TRC-"@ + fresh.map_values(|c: char| upper_char(c))
        } else {
            t
        },
        None => "TRC-"@ + fresh.map_values(|c: char| upper_char(c)),
    }
}

/// The trace id for a request, given the carried one and a fresh UUID (see
/// `chosen_trace_id`).
pub fn trace_id_or_fresh(carried: Option<String>, fresh: &str) -> (r: String)
    ensures
        r@ == chosen_trace_id(crate::registry::opt_string_view(carried), fresh@),
{
    match carried {
        Some(t) => {
            if !is_blank(t.as_str()) {
                return t;
            }
        },
        None => {},
    }
    let mut out = owned("TRC-");
    let up = uppercase_hex(fresh);
    push_str(&mut out, up.as_str());
    out
}

/// The trace id for a request: the one it carries unless blank, otherwise `TRC-` and a
/// fresh UUID's 32 digits in upper case.
pub fn resolve_trace_id(payload: &Json, header_request_id: Option<&str>) -> (r: String)
    ensures
        exists|fresh: Seq<char>|
            fresh.len() == 32 && (forall|i: int| 0 <= i < 32 ==> is_lower_hex(#[trigger] fresh[i]))
                && r@ == #[trigger] chosen_trace_id(request_trace_id(payload@, crate::json::opt_str_view(header_request_id)), fresh),
{
    let carried = extract_trace_id(payload, header_request_id);
    let fresh = new_uuid_simple();
    trace_id_or_fresh(carried, fresh.as_str())
}

/// The error for Codex's remote compaction requests, which the shim does not emulate.
pub fn compact_unsupported_error() -> (r: ShimError)
    ensures
        r matches ShimError::UnsupportedFeature { code, message } && code@ == "compact_not_supported"@
            && message@ == "/v1/responses/compact is a Codex remote compaction control-plane request; codex-mimo-shim does not emulate compact and does not forward it to Xiaomi"@,
{
    ShimError::UnsupportedFeature {
        code: owned("compact_not_supported"),
        message: owned("/v1/responses/compact is a Codex remote compaction control-plane request; codex-mimo-shim does not emulate compact and does not forward it to Xiaomi"),
    }
}

/// A process metadata command given as the first argument.
#[derive(PartialEq, Eq, Structural, Clone, Copy, Debug)]
pub enum MetadataCommand {
    Version,
    BuildInfo,
}

/// The metadata command the first argument asks for: `--version` or `--build-info`.
pub fn metadata_command(first_arg: Option<&str>) -> (r: Option<MetadataCommand>)
    ensures
        r == match crate::json::opt_str_view(first_arg) {
            Some(a) => if a == "--version"@ {
                Some(MetadataCommand::Version)
            } else if a == "--build-info"@ {
                Some(MetadataCommand::BuildInfo)
            } else {
                None
            },
            None => None,
        },
{
    match first_arg {
        Some(a) => if text_eq(a, "--version") {
            Some(MetadataCommand::Version)
        } else if text_eq(a, "--build-info") {
            Some(MetadataCommand::BuildInfo)
        } else {
            None
        },
        None => None,
    }
}

} // verus!
