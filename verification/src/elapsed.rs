//! Approximate elapsed-day calculation between a stored moment and the
//! present, treating a day as exactly 86400 seconds.

use vstd::prelude::*;
use crate::DAY_IN_SECONDS;

verus! {

/// An absolute point in time: whole seconds since the Unix epoch, a
/// sub-second part, and the recorded local offset. The day arithmetic
/// reads only `unix_seconds`; the other fields are carried so a stored
/// date keeps its sub-second part and timezone offset.
#[derive(PartialEq, Eq, Structural, Debug, Clone, Copy)]
pub struct Timestamp {
    pub unix_seconds: i64,
    pub nanosecond: u32,
    pub offset_seconds: i32,
}

impl Timestamp {
    /// A well-formed timestamp has a sub-second part below one second.
    pub open spec fn wf(self) -> bool {
        self.nanosecond < 1_000_000_000
    }
}

/// The whole days elapsed from `past` to `now`, both in Unix seconds:
/// floor of the difference over 86400, with a negative difference clamped
/// to zero and a difference beyond `usize` saturated first (mirroring an
/// unsigned cast of the seconds before the division).
pub open spec fn spec_days_between(past: int, now: int) -> int {
    if now <= past {
        0
    } else if now - past > usize::MAX {
        (usize::MAX as int) / 86400
    } else {
        (now - past) / 86400
    }
}

/// Relies on time::OffsetDateTime::now_utc and its unix_timestamp for
/// the current clock reading as whole seconds since the Unix epoch.
#[verifier::external_body]
fn now_unix_seconds() -> i64 {
    time::OffsetDateTime::now_utc().unix_timestamp()
}

/// The number of whole days between a past moment and an explicit
/// present, both as Unix seconds.
pub fn days_since_at(day: &Timestamp, now_seconds: i64) -> (r: usize)
    ensures
        r == spec_days_between(day.unix_seconds as int, now_seconds as int),
{
    if now_seconds <= day.unix_seconds {
        return 0;
    }
    let diff: i128 = (now_seconds as i128) - (day.unix_seconds as i128);
    if diff > usize::MAX as i128 {
        usize::MAX / DAY_IN_SECONDS
    } else {
        (diff as usize) / DAY_IN_SECONDS
    }
}

/// The number of whole days since the given moment, read against the
/// system clock. Whatever the clock returned, the result is the exact
/// day count between the stored moment and that reading.
pub fn days_since(day: Timestamp) -> (r: usize)
    ensures
        exists|now: int| r == spec_days_between(day.unix_seconds as int, now),
{
    let now = now_unix_seconds();
    let r = days_since_at(&day, now);
    proof {
        assert(r == spec_days_between(day.unix_seconds as int, now as int));
    }
    r
}

} // verus!
