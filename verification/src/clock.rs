//! The wall clock, read through chrono.

use vstd::prelude::*;

verus! {

/// Calls `chrono::Utc::now()` and `DateTime::timestamp_millis`: the current
/// time in milliseconds since the Unix epoch. The value depends on the
/// machine's clock, so nothing is stated of it (chrono panics when the system
/// time lies before the epoch).
#[verifier::external_body]
pub(crate) fn now_millis() -> (ms: i64) {
    chrono::Utc::now().timestamp_millis()
}

} // verus!


verus! {

/// Whether chrono can represent the instant `ms` milliseconds after the Unix
/// epoch: its dates run from January 1 of the year -262143 through
/// December 31 of the year 262142 (proleptic Gregorian, UTC), that is from
/// the start of the day 96465292 days before the epoch through the end of
/// the day 95026236 days after it.
pub open spec fn chrono_representable(ms: int) -> bool {
    -8334601228800000 <= ms <= 8210266876799999
}

/// Calls `chrono::DateTime::from_timestamp_millis`, then
/// `DateTime::timestamp_millis` on the result: `None` when the instant lies
/// outside chrono's date range (`NaiveDate::MIN` to `NaiveDate::MAX`), and
/// otherwise the same millisecond count back (the round trip that chrono
/// documents).
#[verifier::external_body]
pub(crate) fn checked_timestamp_millis(ms: i64) -> (r: Option<i64>)
    ensures
        r is Some == chrono_representable(ms as int),
        r is Some ==> r->0 == ms,
{
    match chrono::DateTime::from_timestamp_millis(ms) {
        Some(d) => Some(d.timestamp_millis()),
        None => None,
    }
}

} // verus!
