//! The wall clock.
use vstd::prelude::*;

verus! {

/// Calls `chrono::Utc::now()` and `DateTime::timestamp_micros`: the current
/// instant in microseconds since the Unix epoch. Nothing is promised of the
/// value, which comes from the machine's clock.
#[verifier::external_body]
pub(crate) fn now_micros() -> (r: i64) {
    chrono::Utc::now().timestamp_micros()
}

} // verus!
