//! Fresh identifiers and the clock.
use vstd::prelude::*;

verus! {

/// A lowercase hexadecimal digit.
pub open spec fn is_lower_hex(c: char) -> bool {
    ('0' <= c && c <= '9') || ('a' <= c && c <= 'f')
}

/// A random (version 4) UUID in its "simple" form: `Uuid::new_v4().simple().to_string()`.
/// The uuid crate writes that form as 32 lowercase hexadecimal digits; which digits come
/// is random, so nothing more is stated.
#[verifier::external_body]
pub(crate) fn new_uuid_simple() -> (r: String)
    ensures
        r@.len() == 32,
        forall|i: int| 0 <= i < 32 ==> is_lower_hex(#[trigger] r@[i]),
{
    uuid::Uuid::new_v4().simple().to_string()
}

/// The current time as a Unix timestamp: `time::OffsetDateTime::now_utc().unix_timestamp()`.
/// It depends on the clock, so nothing is stated of it.
#[verifier::external_body]
pub(crate) fn now_unix_timestamp() -> (r: i64) {
    time::OffsetDateTime::now_utc().unix_timestamp()
}

} // verus!
