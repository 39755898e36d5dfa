//! Points in time as plain values: whole seconds since 1970 in UTC, and the
//! nanoseconds past the second.

use vstd::prelude::*;

verus! {

/// A point in time in UTC.
#[derive(Clone, Copy, Debug, PartialEq, Eq, Structural)]
pub struct Timestamp {
    pub secs: i64,
    pub nanos: u32,
}

/// Calls `chrono::Utc::now`, the clock's time, and reads it with
/// `timestamp` and `timestamp_subsec_nanos`. Of the time only the range of
/// the nanoseconds is stated: the rest depends on when it is called. The
/// crate panics when the system clock is set before 1970.
#[verifier::external_body]
pub(crate) fn utc_now() -> (r: Timestamp)
    ensures
        r.nanos < 2_000_000_000,
{
    let now = chrono::Utc::now();
    Timestamp { secs: now.timestamp(), nanos: now.timestamp_subsec_nanos() }
}

} // verus!
