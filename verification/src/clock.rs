//! The wall clock, read through chrono.

use vstd::prelude::*;

verus! {

/// Relies on `chrono::Utc::now`, converted to a plain value by
/// `DateTime::timestamp_millis`: the moment of the call, in milliseconds
/// since the Unix epoch (`Utc::now` panics only if the system clock is
/// set before that epoch). Two readings may differ, so nothing is
/// promised of the value: every caller states what holds of any reading.
#[verifier::external_body]
pub(crate) fn utc_now_millis() -> i64 {
    chrono::Utc::now().timestamp_millis()
}

} // verus!
