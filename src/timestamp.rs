//! Instants in time, as whole seconds since the Unix epoch and nanoseconds
//! within the second, and the calls into chrono that produce them.

use vstd::prelude::*;

verus! {

/// An instant: seconds since 1970-01-01T00:00:00Z and the nanoseconds past that second.
#[derive(Clone, Copy, PartialEq, Eq, Structural, Debug)]
pub struct Timestamp {
    pub secs: i64,
    pub nanos: u32,
}

/// Whether `a` is at or before `b`.
pub open spec fn not_after(a: Timestamp, b: Timestamp) -> bool {
    a.secs < b.secs || (a.secs == b.secs && a.nanos <= b.nanos)
}

/// The later of two instants.
pub fn later_of(a: Timestamp, b: Timestamp) -> (r: Timestamp)
    ensures
        r == (if not_after(a, b) { b } else { a }),
{
    if a.secs < b.secs || (a.secs == b.secs && a.nanos <= b.nanos) {
        b
    } else {
        a
    }
}

/// The instant that an RFC 3339 date-time text denotes, if it is one.
pub uninterp spec fn rfc3339_instant(s: Seq<char>) -> Option<Timestamp>;

/// Relies on chrono's `DateTime::parse_from_rfc3339`: parses a date-time with
/// its offset, or fails; the instant is read back with `timestamp` and
/// `timestamp_subsec_nanos`, which do not depend on the offset. The result
/// depends on the text alone.
#[verifier::external_body]
pub(crate) fn parse_rfc3339(s: &str) -> (r: Option<Timestamp>)
    ensures
        r == rfc3339_instant(s@),
{
    match chrono::DateTime::parse_from_rfc3339(s) {
        Ok(dt) => Some(Timestamp { secs: dt.timestamp(), nanos: dt.timestamp_subsec_nanos() }),
        Err(_) => None,
    }
}

/// Relies on chrono's `Utc::now`: the current wall-clock time, read back with
/// `timestamp` and `timestamp_subsec_nanos`. Nothing is known of the value it
/// returns.
#[verifier::external_body]
pub(crate) fn clock_now() -> (r: Timestamp) {
    let now = chrono::Utc::now();
    Timestamp { secs: now.timestamp(), nanos: now.timestamp_subsec_nanos() }
}

} // verus!
