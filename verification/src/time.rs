//! Points in time, as the plain numbers that `chrono` gives for them.
use vstd::prelude::*;

verus! {

/// The range that `chrono` keeps timestamps in: its dates run from year
/// -262143 to year 262142, about 8.3 * 10^12 seconds either side of 1970.
pub open spec fn timestamp_in_range(t: int) -> bool {
    -10_000_000_000_000 <= t <= 10_000_000_000_000
}

/// A point in time in UTC: whole seconds since 1970-01-01T00:00:00 and the
/// nanoseconds past that second (a leap second counts past 10^9).
#[derive(Debug, Clone, Copy, PartialEq, Eq)]
pub struct DateTimeUtc {
    pub seconds: i64,
    pub nanoseconds: u32,
}

/// `chrono::Utc::now`, as its `timestamp` and `timestamp_subsec_nanos`.
/// What time it is is not stated; only that the numbers lie in chrono's
/// ranges (its dates span years -262143 to 262142, and
/// `timestamp_subsec_nanos` is below 2 * 10^9).
#[verifier::external_body]
pub(crate) fn utc_now() -> (r: DateTimeUtc)
    ensures
        timestamp_in_range(r.seconds as int),
        r.nanoseconds < 2_000_000_000,
{
    let now = chrono::Utc::now();
    DateTimeUtc { seconds: now.timestamp(), nanoseconds: now.timestamp_subsec_nanos() }
}

/// `chrono::Local::now().timestamp()`: the current time in whole seconds
/// since 1970.  What time it is is not stated; only that it lies in
/// chrono's range of dates.
#[verifier::external_body]
pub(crate) fn local_now_timestamp() -> (r: i64)
    ensures
        timestamp_in_range(r as int),
{
    chrono::Local::now().timestamp()
}

} // verus!
