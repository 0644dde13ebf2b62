//! JSON text, read and written by `serde_json`: the library's values are converted one
//! for one to and from `serde_json::Value`.
use vstd::prelude::*;
use crate::json::{Json, JsonV, jobj, jstr, opt_json_view};

verus! {

/// `serde_json`'s value type, carried opaquely.
#[verifier::external_type_specification]
#[verifier::external_body]
pub struct ExValue(serde_json::Value);

/// The library number for a `serde_json` number value: one that fits a `u64` or an `i64`
/// as such, any other by the text `serde_json` writes for it. Nothing is stated of it;
/// only the conversion below calls it, on number values.
#[verifier::external_body]
fn number_of(n: &serde_json::Value) -> crate::json::Number {
    match (n.as_u64(), n.as_i64()) {
        (Some(u), _) => crate::json::Number::PosInt(u),
        (None, Some(i)) => crate::json::Number::NegInt(i),
        (None, None) => crate::json::Number::Float(n.to_string()),
    }
}

/// The library value for a `serde_json` value, variant for variant, objects member by
/// member in `serde_json`'s order. Nothing is stated of it; only `parse_json_text`, whose
/// contract names the result, calls it.
#[verifier::external_body]
fn json_of_value(value: &serde_json::Value) -> Json {
    match value {
        serde_json::Value::Null => Json::Null,
        serde_json::Value::Bool(b) => Json::Bool(*b),
        serde_json::Value::Number(_) => Json::Number(number_of(value)),
        serde_json::Value::String(s) => Json::Str(s.clone()),
        serde_json::Value::Array(a) => Json::Array(a.iter().map(json_of_value).collect()),
        serde_json::Value::Object(m) => Json::Object(m.iter().map(|(k, v)| (k.clone(), json_of_value(v))).collect()),
    }
}

/// What `parse_json_text` gives for a text.
pub uninterp spec fn json_parse_of(text: Seq<char>) -> Option<JsonV>;

/// Parses `text` with `serde_json::from_str::<Value>` (`None` when it is no JSON text)
/// and converts the value one for one. The contract names that result `json_parse_of`
/// and states one fact of it that `serde_json` shows: the compact text of a
/// single-member object `{"input": s}` parses back to that object.
#[verifier::external_body]
pub(crate) fn parse_json_text(text: &str) -> (r: Option<Json>)
    ensures
        opt_json_view(r) == json_parse_of(text@),
        forall|s: Seq<char>|
            text@ == #[trigger] json_text(jobj(seq![("input"@, jstr(s))])) ==> opt_json_view(r) == Some(
                jobj(seq![("input"@, jstr(s))]),
            ),
{
    match serde_json::from_str::<serde_json::Value>(text) {
        Ok(value) => Some(json_of_value(&value)),
        Err(_) => None,
    }
}

/// The `serde_json` number value for a library number; a float text that `serde_json`
/// cannot read as a number (the library makes none) becomes `null`. Nothing is stated of
/// it; only the conversion below calls it.
#[verifier::external_body]
fn number_value_of(n: &crate::json::Number) -> serde_json::Value {
    match n {
        crate::json::Number::PosInt(u) => serde_json::Value::from(*u),
        crate::json::Number::NegInt(i) => serde_json::Value::from(*i),
        crate::json::Number::Float(t) => match t.parse::<serde_json::Number>() {
            Ok(number) => serde_json::Value::Number(number),
            Err(_) => serde_json::Value::Null,
        },
    }
}

/// The `serde_json` value for a library value, variant for variant, objects member by
/// member. Nothing is stated of it; only `json_to_text`, whose contract names the
/// result, calls it.
#[verifier::external_body]
fn value_of_json(j: &Json) -> serde_json::Value {
    match j {
        Json::Null => serde_json::Value::Null,
        Json::Bool(b) => serde_json::Value::Bool(*b),
        Json::Number(n) => number_value_of(n),
        Json::Str(s) => serde_json::Value::String(s.clone()),
        Json::Array(items) => serde_json::Value::Array(items.iter().map(value_of_json).collect()),
        Json::Object(m) => serde_json::Value::Object(m.iter().map(|(k, v)| (k.clone(), value_of_json(v))).collect()),
    }
}

/// The compact JSON text `serde_json` writes for a value.
pub uninterp spec fn json_text(j: JsonV) -> Seq<char>;

/// Writes the value with `serde_json` (`Value`'s `Display`, the compact form that
/// `serde_json::to_string` writes) after converting it one for one. The contract names
/// that text `json_text`; nothing more is stated of it.
#[verifier::external_body]
fn json_to_text(j: &Json) -> (r: String)
    ensures
        r@ == json_text(j@),
{
    value_of_json(j).to_string()
}

impl Json {
    /// The compact JSON text of the value (see `json_text`).
    pub fn to_text(&self) -> (r: String)
        ensures
            r@ == json_text(self@),
    {
        json_to_text(self)
    }
}

} // verus!
