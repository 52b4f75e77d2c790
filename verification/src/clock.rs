use vstd::prelude::*;

verus! {

/// Relies on chrono's `Utc::now` and `DateTime::timestamp_millis`:
/// the current wall-clock time, as milliseconds since the Unix epoch.
/// Nothing is assumed about the value; callers confine it to the
/// range they need before using it. chrono itself aborts when the
/// system clock reads before the Unix epoch or hundreds of millennia
/// ahead; no argument of this function can exclude that.
#[verifier::external_body]
pub(crate) fn now_millis() -> i64 {
    chrono::Utc::now().timestamp_millis()
}

} // verus!
