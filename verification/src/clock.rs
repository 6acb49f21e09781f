//! The one clock read the core makes: a timestamp used as an opaque
//! nonce on refreshed join controls.

use vstd::prelude::*;

verus! {

/// Relies on chrono::Utc::now().timestamp(): the number of seconds
/// since the Unix epoch at the moment of the call. Nothing is promised
/// of its value.
#[verifier::external_body]
pub fn unix_timestamp() -> i64 {
    chrono::Utc::now().timestamp()
}

} // verus!
