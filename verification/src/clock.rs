//! The wall clock, behind a trusted wrapper. Nothing is assumed of the
//! value it returns: callers state what holds for every possible time.
use vstd::prelude::*;

verus! {

/// Relies on chrono::Utc::now and chrono::DateTime::timestamp: the current
/// wall-clock time as a unix timestamp in whole seconds. No contract is
/// stated: the clock may return any value, and every caller handles that.
#[verifier::external_body]
pub fn nowSeconds() -> i64 {
    chrono::Utc::now().timestamp()
}

} // verus!
