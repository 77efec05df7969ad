//! Fresh identifiers for sessions and one-time tokens.

use vstd::prelude::*;

verus! {

/// Relies on uuid::Uuid::new_v4 and its hyphenated display form: a fresh
/// random version-4 UUID rendered as 36 characters, drawn from the operating
/// system's random source (whose availability the call presumes). Nothing
/// more is assumed of a random value; in particular, callers that need an
/// unused identifier must check for themselves.
#[verifier::external_body]
pub(crate) fn fresh_uuid_string() -> (r: String)
    ensures
        r@.len() == 36,
{
    uuid::Uuid::new_v4().to_string()
}

} // verus!
