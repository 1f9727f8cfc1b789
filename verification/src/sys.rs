//! Trusted access to the clock and to the random identifier generator.

use vstd::prelude::*;

verus! {

/// Relies on chrono's `Utc::now`: the current wall-clock time, as seconds
/// since the Unix epoch.  The clock is outside the model, so nothing is
/// promised of the value.
#[verifier::external_body]
pub(crate) fn now_ts() -> i64 {
    chrono::Utc::now().timestamp()
}

/// Relies on uuid's `Uuid::new_v4` and its `Display` impl: a freshly drawn
/// random identifier, rendered in the hyphenated form, which is 36
/// characters long.  The draw is random, so no two calls are related.
#[verifier::external_body]
pub(crate) fn random_token() -> (r: String)
    ensures
        r@.len() == 36,
{
    uuid::Uuid::new_v4().to_string()
}

} // verus!
