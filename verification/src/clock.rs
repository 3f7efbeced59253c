//! The wall clock, read as milliseconds since the Unix epoch.

use vstd::prelude::*;

verus! {

/// Reads the current instant from `chrono::Utc::now` and converts it with
/// `DateTime::timestamp_millis`.
///
/// Nothing is claimed of the value: two reads may differ, and the clock may
/// step backwards. `chrono` panics if the system clock is set before 1970.
#[verifier::external_body]
pub(crate) fn utc_now_millis() -> (now: i64) {
    chrono::Utc::now().timestamp_millis()
}

} // verus!
