//! The one reading of the wall clock the library makes for itself: the
//! creation timestamp of a session. Every other timestamp is handed in by
//! the caller, so everything downstream holds whatever the clock returned.

use vstd::prelude::*;

verus! {

/// Relies on chrono::Utc::now and DateTime::to_rfc3339: the current time
/// rendered as an RFC 3339 timestamp, never the empty string.
#[verifier::external_body]
pub(crate) fn now_rfc3339() -> (r: String)
    ensures
        r@.len() > 0,
{
    chrono::Utc::now().to_rfc3339()
}

} // verus!
