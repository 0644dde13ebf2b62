//! Provider token accounting: the Responses `usage` object and the counts that are logged.
use vstd::prelude::*;
use crate::error::{ShimError, is_protocol};
use crate::json::{Json, JsonV, Number, NumberV, entries_view, jobj, opt_view};
use crate::text::owned;

verus! {

/// `value.get(outer).and_then(|o| o.get(inner)).and_then(Value::as_u64)`.
pub open spec fn nested_u64(value: JsonV, outer: Seq<char>, inner: Seq<char>) -> Option<u64> {
    match value.get(outer) {
        Some(o) => o.get_u64(inner),
        None => None,
    }
}

/// The count under `primary`, unless it is zero while `fallback` holds a positive count
/// (some providers report zeroed non-standard fields beside the OpenAI ones); `fallback`
/// when `primary` is absent.
pub open spec fn preferred_count(value: JsonV, primary: Seq<char>, fallback: Seq<char>) -> Option<u64> {
    let p = value.get_u64(primary);
    let f = value.get_u64(fallback);
    match p {
        Some(c) => if c == 0 && (f matches Some(o) && o > 0) {
            f
        } else {
            Some(c)
        },
        None => f,
    }
}

/// The first of two nested counts that is present.
pub open spec fn first_nested(
    value: JsonV,
    outer1: Seq<char>,
    inner1: Seq<char>,
    outer2: Seq<char>,
    inner2: Seq<char>,
) -> Option<u64> {
    match nested_u64(value, outer1, inner1) {
        Some(n) => Some(n),
        None => nested_u64(value, outer2, inner2),
    }
}

pub open spec fn input_count(u: JsonV) -> Option<u64> {
    preferred_count(u, "input_tokens"@, "prompt_tokens"@)
}

pub open spec fn output_count(u: JsonV) -> Option<u64> {
    preferred_count(u, "output_tokens"@, "completion_tokens"@)
}

pub open spec fn total_count(u: JsonV) -> Option<u64> {
    u.get_u64("total_tokens"@)
}

pub open spec fn cached_count(u: JsonV) -> Option<u64> {
    first_nested(u, "input_tokens_details"@, "cached_tokens"@, "prompt_tokens_details"@, "cached_tokens"@)
}

pub open spec fn reasoning_count(u: JsonV) -> Option<u64> {
    first_nested(
        u,
        "output_tokens_details"@,
        "reasoning_tokens"@,
        "completion_tokens_details"@,
        "reasoning_tokens"@,
    )
}

pub open spec fn count_json(n: u64) -> JsonV {
    JsonV::Number(NumberV::PosInt(n))
}

pub open spec fn or_zero(n: Option<u64>) -> u64 {
    match n {
        Some(v) => v,
        None => 0,
    }
}

/// The Responses `usage` object for the provider's usage. Input, output and total counts
/// must all be present (none is ever made up); missing detail counts are zero.
pub open spec fn responses_usage(provider_usage: Option<JsonV>) -> Result<JsonV, Seq<char>> {
    match provider_usage {
        None => Err("missing_provider_usage: provider response is missing usage"@),
        Some(u) => match input_count(u) {
            None => Err("missing_provider_usage: usage is missing input_tokens/prompt_tokens"@),
            Some(input) => match output_count(u) {
                None => Err("missing_provider_usage: usage is missing output_tokens/completion_tokens"@),
                Some(output) => match total_count(u) {
                    None => Err("missing_provider_usage: usage is missing total_tokens"@),
                    Some(total) => Ok(
                        jobj(
                            seq![
                                ("input_tokens"@, count_json(input)),
                                ("input_tokens_details"@, jobj(seq![("cached_tokens"@, count_json(or_zero(cached_count(u))))])),
                                ("output_tokens"@, count_json(output)),
                                (
                                    "output_tokens_details"@,
                                    jobj(seq![("reasoning_tokens"@, count_json(or_zero(reasoning_count(u))))]),
                                ),
                                ("total_tokens"@, count_json(total)),
                            ],
                        ),
                    ),
                },
            },
        },
    }
}

fn nested_number_field(value: &Json, outer: &str, inner: &str) -> (r: Option<u64>)
    ensures
        r == nested_u64(value@, outer@, inner@),
{
    match value.get(outer) {
        Some(o) => o.get_u64(inner),
        None => None,
    }
}

fn first_nested_number_field(value: &Json, outer1: &str, inner1: &str, outer2: &str, inner2: &str) -> (r: Option<u64>)
    ensures
        r == first_nested(value@, outer1@, inner1@, outer2@, inner2@),
{
    match nested_number_field(value, outer1, inner1) {
        Some(n) => Some(n),
        None => nested_number_field(value, outer2, inner2),
    }
}

/// The count under `primary`, falling back as `preferred_count` says.
pub fn preferred_nonzero_number_field(value: &Json, primary: &str, fallback: &str) -> (r: Option<u64>)
    ensures
        r == preferred_count(value@, primary@, fallback@),
{
    let primary_value = value.get_u64(primary);
    let fallback_value = value.get_u64(fallback);
    match primary_value {
        Some(current) => {
            if current == 0 {
                match fallback_value {
                    Some(other) => if other > 0 {
                        return Some(other);
                    },
                    None => {},
                }
            }
            Some(current)
        },
        None => fallback_value,
    }
}

fn count(n: u64) -> (r: Json)
    ensures
        r@ == count_json(n),
{
    Json::Number(Number::PosInt(n))
}

fn one_member(key: &str, value: Json) -> (r: Json)
    ensures
        r@ == jobj(seq![(key@, value@)]),
{
    let ghost vv = value@;
    let v = vec![(owned(key), value)];
    assert(entries_view(v@) =~= seq![(key@, vv)]);
    Json::object(v)
}

/// The Responses `usage` object (see `responses_usage`).
pub fn normalize_responses_usage(provider_usage: Option<&Json>) -> (r: Result<Json, ShimError>)
    ensures
        match responses_usage(opt_view(provider_usage)) {
            Ok(v) => r matches Ok(j) && j@ == v,
            Err(m) => r matches Err(e) && is_protocol(e, m),
        },
{
    let usage = match provider_usage {
        Some(u) => u,
        None => {
            return Err(ShimError::ProviderProtocol(owned("missing_provider_usage: provider response is missing usage")));
        },
    };
    let input_tokens = match preferred_nonzero_number_field(usage, "input_tokens", "prompt_tokens") {
        Some(n) => n,
        None => {
            return Err(ShimError::ProviderProtocol(owned("missing_provider_usage: usage is missing input_tokens/prompt_tokens")));
        },
    };
    let output_tokens = match preferred_nonzero_number_field(usage, "output_tokens", "completion_tokens") {
        Some(n) => n,
        None => {
            return Err(ShimError::ProviderProtocol(owned("missing_provider_usage: usage is missing output_tokens/completion_tokens")));
        },
    };
    let total_tokens = match usage.get_u64("total_tokens") {
        Some(n) => n,
        None => {
            return Err(ShimError::ProviderProtocol(owned("missing_provider_usage: usage is missing total_tokens")));
        },
    };
    let cached_tokens = match first_nested_number_field(usage, "input_tokens_details", "cached_tokens", "prompt_tokens_details", "cached_tokens") {
        Some(n) => n,
        None => 0,
    };
    let reasoning_tokens = match first_nested_number_field(usage, "output_tokens_details", "reasoning_tokens", "completion_tokens_details", "reasoning_tokens") {
        Some(n) => n,
        None => 0,
    };
    let cached = one_member("cached_tokens", count(cached_tokens));
    let ghost cv = cached@;
    let reasoning = one_member("reasoning_tokens", count(reasoning_tokens));
    let ghost rv = reasoning@;
    let v = vec![
        (owned("input_tokens"), count(input_tokens)),
        (owned("input_tokens_details"), cached),
        (owned("output_tokens"), count(output_tokens)),
        (owned("output_tokens_details"), reasoning),
        (owned("total_tokens"), count(total_tokens)),
    ];
    assert(entries_view(v@) =~= seq![
        ("input_tokens"@, count_json(input_tokens)),
        ("input_tokens_details"@, cv),
        ("output_tokens"@, count_json(output_tokens)),
        ("output_tokens_details"@, rv),
        ("total_tokens"@, count_json(total_tokens)),
    ]);
    Ok(Json::object(v))
}

/// Token counts observed in the provider's usage, for the access log.
#[derive(Clone, Copy, Debug, PartialEq, Eq)]
pub struct ProviderTokenStats {
    pub input_tokens: Option<u64>,
    pub output_tokens: Option<u64>,
    pub total_tokens: Option<u64>,
    pub cached_tokens: Option<u64>,
    pub reasoning_tokens: Option<u64>,
}

/// The counts observed in a usage object (none when there is no usage).
pub open spec fn observed_stats(usage: Option<JsonV>) -> ProviderTokenStats {
    match usage {
        Some(u) => ProviderTokenStats {
            input_tokens: input_count(u),
            output_tokens: output_count(u),
            total_tokens: total_count(u),
            cached_tokens: cached_count(u),
            reasoning_tokens: reasoning_count(u),
        },
        None => ProviderTokenStats {
            input_tokens: None,
            output_tokens: None,
            total_tokens: None,
            cached_tokens: None,
            reasoning_tokens: None,
        },
    }
}

pub open spec fn opt_count_json(n: Option<u64>) -> JsonV {
    match n {
        Some(v) => count_json(v),
        None => JsonV::Null,
    }
}

/// The counts as a JSON object (absent counts as `null`).
pub open spec fn stats_json(s: ProviderTokenStats) -> JsonV {
    jobj(
        seq![
            ("input_tokens"@, opt_count_json(s.input_tokens)),
            ("output_tokens"@, opt_count_json(s.output_tokens)),
            ("total_tokens"@, opt_count_json(s.total_tokens)),
            ("cached_tokens"@, opt_count_json(s.cached_tokens)),
            ("reasoning_tokens"@, opt_count_json(s.reasoning_tokens)),
        ],
    )
}

fn opt_count(n: Option<u64>) -> (r: Json)
    ensures
        r@ == opt_count_json(n),
{
    match n {
        Some(v) => count(v),
        None => Json::Null,
    }
}

impl ProviderTokenStats {
    /// The counts observed in the provider's usage (see `observed_stats`).
    pub fn from_usage(usage: Option<&Json>) -> (r: ProviderTokenStats)
        ensures
            r == observed_stats(opt_view(usage)),
    {
        match usage {
            Some(u) => ProviderTokenStats {
                input_tokens: preferred_nonzero_number_field(u, "input_tokens", "prompt_tokens"),
                output_tokens: preferred_nonzero_number_field(u, "output_tokens", "completion_tokens"),
                total_tokens: u.get_u64("total_tokens"),
                cached_tokens: first_nested_number_field(u, "input_tokens_details", "cached_tokens", "prompt_tokens_details", "cached_tokens"),
                reasoning_tokens: first_nested_number_field(u, "output_tokens_details", "reasoning_tokens", "completion_tokens_details", "reasoning_tokens"),
            },
            None => ProviderTokenStats {
                input_tokens: None,
                output_tokens: None,
                total_tokens: None,
                cached_tokens: None,
                reasoning_tokens: None,
            },
        }
    }

    /// Whether any count was observed.
    pub fn has_any(&self) -> (r: bool)
        ensures
            r == (self.input_tokens is Some || self.output_tokens is Some || self.total_tokens is Some
                || self.cached_tokens is Some || self.reasoning_tokens is Some),
    {
        self.input_tokens.is_some() || self.output_tokens.is_some() || self.total_tokens.is_some()
            || self.cached_tokens.is_some() || self.reasoning_tokens.is_some()
    }

    /// The counts as a JSON object (see `stats_json`).
    pub fn as_json(&self) -> (r: Json)
        ensures
            r@ == stats_json(*self),
    {
        let v = vec![
            (owned("input_tokens"), opt_count(self.input_tokens)),
            (owned("output_tokens"), opt_count(self.output_tokens)),
            (owned("total_tokens"), opt_count(self.total_tokens)),
            (owned("cached_tokens"), opt_count(self.cached_tokens)),
            (owned("reasoning_tokens"), opt_count(self.reasoning_tokens)),
        ];
        assert(entries_view(v@) =~= seq![
            ("input_tokens"@, opt_count_json(self.input_tokens)),
            ("output_tokens"@, opt_count_json(self.output_tokens)),
            ("total_tokens"@, opt_count_json(self.total_tokens)),
            ("cached_tokens"@, opt_count_json(self.cached_tokens)),
            ("reasoning_tokens"@, opt_count_json(self.reasoning_tokens)),
        ]);
        Json::object(v)
    }
}

/// A usage object is only reported when the provider gave input, output and total
/// counts, and it reports exactly those counts.
pub proof fn law_usage_counts_are_not_made_up(provider_usage: Option<JsonV>)
    ensures
        responses_usage(provider_usage) is Ok ==> (provider_usage matches Some(u) && input_count(u) is Some
            && output_count(u) is Some && total_count(u) is Some),
        responses_usage(provider_usage) matches Ok(v) ==> ({
            let u = provider_usage->Some_0;
            &&& crate::json::obj_get(v->Object_0, "input_tokens"@) == Some(count_json(input_count(u)->Some_0))
            &&& crate::json::obj_get(v->Object_0, "output_tokens"@) == Some(count_json(output_count(u)->Some_0))
            &&& crate::json::obj_get(v->Object_0, "total_tokens"@) == Some(count_json(total_count(u)->Some_0))
        }),
{
    match provider_usage {
        Some(u) => {
            if responses_usage(provider_usage) is Ok {
                reveal_strlit("input_tokens");
                reveal_strlit("input_tokens_details");
                reveal_strlit("output_tokens");
                reveal_strlit("output_tokens_details");
                reveal_strlit("total_tokens");
                reveal_with_fuel(crate::json::pairs_get, 6);
                let pairs = seq![
                    ("input_tokens"@, count_json(input_count(u)->Some_0)),
                    ("input_tokens_details"@, jobj(seq![("cached_tokens"@, count_json(or_zero(cached_count(u))))])),
                    ("output_tokens"@, count_json(output_count(u)->Some_0)),
                    ("output_tokens_details"@, jobj(seq![("reasoning_tokens"@, count_json(or_zero(reasoning_count(u))))])),
                    ("total_tokens"@, count_json(total_count(u)->Some_0)),
                ];
                assert("input_tokens"@.len() == 12);
                assert("output_tokens"@.len() == 13);
                assert("total_tokens"@.len() == 12);
                assert("input_tokens_details"@.len() == 20);
                assert("output_tokens_details"@.len() == 21);
                assert("input_tokens"@[0] != "total_tokens"@[0]);
                crate::json::lemma_obj_of_get(pairs, "input_tokens"@);
                crate::json::lemma_obj_of_get(pairs, "output_tokens"@);
                crate::json::lemma_obj_of_get(pairs, "total_tokens"@);
            }
        },
        None => {},
    }
}

/// A count is reported as zero only when no field of it holds a positive count, and a
/// positive count under the primary field is always the one reported.
pub proof fn law_zero_counts_never_hide_real_ones(u: JsonV, primary: Seq<char>, fallback: Seq<char>)
    ensures
        preferred_count(u, primary, fallback) == Some(0u64) ==> !(u.get_u64(primary) matches Some(p) && p > 0)
            && !(u.get_u64(fallback) matches Some(f) && f > 0),
        (u.get_u64(primary) matches Some(p) && p > 0) ==> preferred_count(u, primary, fallback) == u.get_u64(
            primary,
        ),
        preferred_count(u, primary, fallback) is None <==> (u.get_u64(primary) is None && u.get_u64(
            fallback,
        ) is None),
{
}

/// The count `outer.inner` of a usage object, when it is an unsigned integer.
pub open spec fn detail_count(u: JsonV, outer: Seq<char>, inner: Seq<char>) -> Option<u64> {
    match u.get(outer) {
        Some(d) => d.get_u64(inner),
        None => None,
    }
}

/// The Responses usage reports the cached and reasoning counts the provider gave, under
/// either shape: `input_tokens_details.cached_tokens`, else the Chat Completions
/// `prompt_tokens_details.cached_tokens`, else 0 (and likewise `output_tokens_details` /
/// `completion_tokens_details` for reasoning tokens); these are the counts observed for
/// the access log, with 0 for one not observed.
pub proof fn law_usage_reports_detail_counts(u: JsonV)
    requires
        responses_usage(Some(u)) is Ok,
    ensures
        ({
            let v = responses_usage(Some(u))->Ok_0;
            let cached = match detail_count(u, "input_tokens_details"@, "cached_tokens"@) {
                Some(n) => n,
                None => match detail_count(u, "prompt_tokens_details"@, "cached_tokens"@) {
                    Some(n) => n,
                    None => 0u64,
                },
            };
            let reasoning = match detail_count(u, "output_tokens_details"@, "reasoning_tokens"@) {
                Some(n) => n,
                None => match detail_count(u, "completion_tokens_details"@, "reasoning_tokens"@) {
                    Some(n) => n,
                    None => 0u64,
                },
            };
            &&& detail_count(v, "input_tokens_details"@, "cached_tokens"@) == Some(cached)
            &&& detail_count(v, "output_tokens_details"@, "reasoning_tokens"@) == Some(reasoning)
            &&& or_zero(observed_stats(Some(u)).cached_tokens) == cached
            &&& or_zero(observed_stats(Some(u)).reasoning_tokens) == reasoning
        }),
{
    reveal_strlit("input_tokens");
    reveal_strlit("input_tokens_details");
    reveal_strlit("output_tokens");
    reveal_strlit("output_tokens_details");
    reveal_strlit("total_tokens");
    reveal_strlit("cached_tokens");
    reveal_strlit("reasoning_tokens");
    reveal_with_fuel(crate::json::pairs_get, 6);
    let cd = jobj(seq![("cached_tokens"@, count_json(or_zero(cached_count(u))))]);
    let rd = jobj(seq![("reasoning_tokens"@, count_json(or_zero(reasoning_count(u))))]);
    let pairs = seq![
        ("input_tokens"@, count_json(input_count(u)->Some_0)),
        ("input_tokens_details"@, cd),
        ("output_tokens"@, count_json(output_count(u)->Some_0)),
        ("output_tokens_details"@, rd),
        ("total_tokens"@, count_json(total_count(u)->Some_0)),
    ];
    assert("input_tokens"@.len() == 12);
    assert("output_tokens"@.len() == 13);
    assert("total_tokens"@.len() == 12);
    assert("input_tokens_details"@.len() == 20);
    assert("output_tokens_details"@.len() == 21);
    crate::json::lemma_obj_of_get(pairs, "input_tokens_details"@);
    crate::json::lemma_obj_of_get(pairs, "output_tokens_details"@);
    crate::json::lemma_obj_of_get(seq![("cached_tokens"@, count_json(or_zero(cached_count(u))))], "cached_tokens"@);
    crate::json::lemma_obj_of_get(seq![("reasoning_tokens"@, count_json(or_zero(reasoning_count(u))))], "reasoning_tokens"@);
}

} // verus!
