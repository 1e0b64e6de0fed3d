//! The wall clock, behind a trusted boundary: block timestamps come from
//! here and nothing is assumed of their values.

use vstd::prelude::*;

verus! {

/// Relies on chrono's `From<SystemTime>` conversion for `DateTime<Utc>`
/// and on `DateTime::timestamp`: the current wall-clock time in whole
/// seconds since the Unix epoch. The conversion handles clocks set before
/// the epoch without panicking (the seconds then come out negative).
/// Nothing is assumed of the value.
#[verifier::external_body]
pub(crate) fn now_timestamp() -> i64 {
    chrono::DateTime::<chrono::Utc>::from(std::time::SystemTime::now()).timestamp()
}

} // verus!
