//! Values that come from the machine rather than from the logic: the time
//! now and fresh unique identifiers.

use vstd::prelude::*;

verus! {

/// Relies on chrono's `Utc::now` and `to_rfc3339`: the current UTC time as
/// RFC 3339 text. Nothing is promised of its value.
#[verifier::external_body]
pub fn now_rfc3339() -> (r: String) {
    chrono::Utc::now().to_rfc3339()
}

/// Relies on uuid's `Uuid::new_v4` and its hyphenated form: a random
/// identifier of 36 characters.
#[verifier::external_body]
pub fn fresh_id() -> (r: String)
    ensures
        r@.len() == 36,
{
    uuid::Uuid::new_v4().hyphenated().to_string()
}

/// Relies on uuid's `Uuid::new_v4` and its simple form: a random identifier
/// of 32 hexadecimal digits.
#[verifier::external_body]
pub fn fresh_token() -> (r: String)
    ensures
        r@.len() == 32,
{
    uuid::Uuid::new_v4().simple().to_string()
}

} // verus!
