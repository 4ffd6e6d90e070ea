//! Wall-clock time and fresh identifiers.  Both come from outside and
//! nothing is promised of either.  The machine's clock is taken to stand
//! after 1970 and its random source to work; the calls panic otherwise.

use vstd::prelude::*;

verus! {

/// `chrono::Utc::now().timestamp_millis()`: milliseconds since the Unix
/// epoch, by the machine's clock.
#[verifier::external_body]
pub(crate) fn now_millis() -> i64 {
    chrono::Utc::now().timestamp_millis()
}

/// `chrono::Utc::now().to_rfc3339()`: the current time as RFC 3339 text.
#[verifier::external_body]
pub(crate) fn now_rfc3339() -> String {
    chrono::Utc::now().to_rfc3339()
}

/// `uuid::Uuid::new_v4().as_u128()`: a random 128-bit identifier.
#[verifier::external_body]
pub(crate) fn fresh_id() -> u128 {
    uuid::Uuid::new_v4().as_u128()
}

} // verus!
