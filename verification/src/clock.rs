//! The wall clock.
use vstd::prelude::*;

verus! {

/// Reads `chrono::Local::now()` as milliseconds since the Unix epoch
/// (`DateTime::timestamp_millis`). Nothing is stated of the value: it is whatever
/// the clock shows when called.
#[verifier::external_body]
pub(crate) fn now_millis() -> i64 {
    chrono::Local::now().timestamp_millis()
}

} // verus!
