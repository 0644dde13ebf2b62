//! The errors the shim answers with.
use vstd::prelude::*;
use crate::json::{Json, JsonV, entries_view, jobj, jstr};
use crate::text::{owned, push_str};

verus! {

/// An error of the shim.
#[derive(Debug, Clone)]
pub enum ShimError {
    /// The request is malformed or asks for something unsupported.
    InvalidRequest(String),
    /// The provider answered in a way the shim cannot translate.
    ProviderProtocol(String),
    /// No stored response has the given id.
    ResponseNotFound(String),
    /// A Codex feature the shim deliberately does not emulate.
    UnsupportedFeature { code: String, message: String },
    /// The provider could not be reached or answered with an error status.
    Upstream { status: u16, message: String },
}

/// Whether `e` is an invalid-request error with message `msg`.
pub open spec fn is_invalid(e: ShimError, msg: Seq<char>) -> bool {
    e matches ShimError::InvalidRequest(m) && m@ == msg
}

/// Whether `e` is a provider-protocol error with message `msg`.
pub open spec fn is_protocol(e: ShimError, msg: Seq<char>) -> bool {
    e matches ShimError::ProviderProtocol(m) && m@ == msg
}

/// The human-readable text of an error.
pub open spec fn error_text(e: ShimError) -> Seq<char> {
    match e {
        ShimError::InvalidRequest(m) => m@,
        ShimError::ProviderProtocol(m) => m@,
        ShimError::ResponseNotFound(id) => "response not found: "@ + id@,
        ShimError::UnsupportedFeature { message, .. } => message@,
        ShimError::Upstream { message, .. } => message@,
    }
}

/// The `type` an error is reported with.
pub open spec fn error_type_text(e: ShimError) -> Seq<char> {
    match e {
        ShimError::InvalidRequest(_) => "invalid_request_error"@,
        ShimError::ProviderProtocol(_) => "provider_protocol_error"@,
        ShimError::ResponseNotFound(_) => "invalid_request_error"@,
        ShimError::UnsupportedFeature { .. } => "unsupported_feature"@,
        ShimError::Upstream { .. } => "upstream_error"@,
    }
}

/// The `code` an error is reported with, if any.
pub open spec fn error_code_text(e: ShimError) -> Option<Seq<char>> {
    match e {
        ShimError::InvalidRequest(_) => None,
        ShimError::ProviderProtocol(_) => Some("provider_protocol_error"@),
        ShimError::ResponseNotFound(_) => Some("response_not_found"@),
        ShimError::UnsupportedFeature { code, .. } => Some(code@),
        ShimError::Upstream { .. } => Some("upstream_error"@),
    }
}

/// The HTTP status an error is answered with.
pub open spec fn error_status(e: ShimError) -> u16 {
    match e {
        ShimError::InvalidRequest(_) => 400,
        ShimError::ProviderProtocol(_) => 502,
        ShimError::ResponseNotFound(_) => 404,
        ShimError::UnsupportedFeature { .. } => 400,
        ShimError::Upstream { status, .. } => if 400 <= status && status <= 599 {
            status
        } else {
            502
        },
    }
}

/// The JSON form of an error: `{"message", "type", "code"}`, the code `null` when there
/// is none.
pub open spec fn error_object(e: ShimError) -> JsonV {
    let code = match error_code_text(e) {
        Some(c) => jstr(c),
        None => JsonV::Null,
    };
    jobj(seq![("message"@, jstr(error_text(e))), ("type"@, jstr(error_type_text(e))), ("code"@, code)])
}

/// The body an error is answered with: `{"error": error_object}`.
pub open spec fn error_body(e: ShimError) -> JsonV {
    jobj(seq![("error"@, error_object(e))])
}

/// An invalid-request error with a copy of `msg`.
pub fn invalid(msg: &str) -> (r: ShimError)
    ensures
        is_invalid(r, msg@),
{
    ShimError::InvalidRequest(owned(msg))
}

impl ShimError {
    /// The error's text (what `Display` shows).
    pub fn message(&self) -> (r: String)
        ensures
            r@ == error_text(*self),
    {
        match self {
            ShimError::InvalidRequest(m) => m.clone(),
            ShimError::ProviderProtocol(m) => m.clone(),
            ShimError::ResponseNotFound(id) => {
                let mut out = owned("response not found: ");
                push_str(&mut out, id.as_str());
                out
            },
            ShimError::UnsupportedFeature { message, .. } => message.clone(),
            ShimError::Upstream { message, .. } => message.clone(),
        }
    }

    pub fn error_type(&self) -> (r: &'static str)
        ensures
            r@ == error_type_text(*self),
    {
        match self {
            ShimError::InvalidRequest(_) => "invalid_request_error",
            ShimError::ProviderProtocol(_) => "provider_protocol_error",
            ShimError::ResponseNotFound(_) => "invalid_request_error",
            ShimError::UnsupportedFeature { .. } => "unsupported_feature",
            ShimError::Upstream { .. } => "upstream_error",
        }
    }

    pub fn code(&self) -> (r: Option<String>)
        ensures
            match r {
                Some(c) => error_code_text(*self) == Some(c@),
                None => error_code_text(*self) is None,
            },
    {
        match self {
            ShimError::InvalidRequest(_) => None,
            ShimError::ProviderProtocol(_) => Some(owned("provider_protocol_error")),
            ShimError::ResponseNotFound(_) => Some(owned("response_not_found")),
            ShimError::UnsupportedFeature { code, .. } => Some(code.clone()),
            ShimError::Upstream { .. } => Some(owned("upstream_error")),
        }
    }

    /// The error's JSON form (see `error_object`).
    pub fn to_json(&self) -> (r: Json)
        ensures
            r@ == error_object(*self),
    {
        let code = match self.code() {
            Some(c) => Json::Str(c),
            None => Json::Null,
        };
        let ghost cv = code@;
        let message = Json::Str(self.message());
        let ghost mv = message@;
        let v = vec![
            (owned("message"), message),
            (owned("type"), Json::text(self.error_type())),
            (owned("code"), code),
        ];
        assert(entries_view(v@) =~= seq![
            ("message"@, mv),
            ("type"@, jstr(error_type_text(*self))),
            ("code"@, cv),
        ]);
        Json::object(v)
    }

    /// The body the error is answered with (see `error_body`).
    pub fn body_json(&self) -> (r: Json)
        ensures
            r@ == error_body(*self),
    {
        let object = self.to_json();
        let ghost ov = object@;
        let v = vec![(owned("error"), object)];
        assert(entries_view(v@) =~= seq![("error"@, ov)]);
        Json::object(v)
    }

    pub fn status(&self) -> (r: u16)
        ensures
            r == error_status(*self),
    {
        match self {
            ShimError::InvalidRequest(_) => 400,
            ShimError::ProviderProtocol(_) => 502,
            ShimError::ResponseNotFound(_) => 404,
            ShimError::UnsupportedFeature { .. } => 400,
            ShimError::Upstream { status, .. } => if 400 <= *status && *status <= 599 {
                *status
            } else {
                502
            },
        }
    }
}

} // verus!
