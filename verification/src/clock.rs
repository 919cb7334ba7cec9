//! Points in time.

use vstd::prelude::*;

verus! {

/// A point in time in UTC: whole seconds since 1970-01-01 and the nanoseconds
/// since the last second boundary, which exceed 999,999,999 in a leap second.
#[derive(Debug, Clone, Copy, PartialEq, Eq, Structural)]
pub struct Timestamp {
    pub seconds: i64,
    pub nanos: u32,
}

impl Timestamp {
    /// This point comes before the other.
    pub open spec fn before(self, other: Timestamp) -> bool {
        self.seconds < other.seconds || (self.seconds == other.seconds && self.nanos < other.nanos)
    }

    /// The point is one that a clock shows: not before 1970, and in no leap second.
    pub open spec fn is_clock_time(self) -> bool {
        0 <= self.seconds && self.nanos < 1_000_000_000
    }

    /// Whether this point comes before the other.
    pub fn is_before(&self, other: &Timestamp) -> (earlier: bool)
        ensures
            earlier == self.before(*other),
    {
        self.seconds < other.seconds || (self.seconds == other.seconds && self.nanos < other.nanos)
    }
}

/// `chrono::Utc::now`: the time that the system clock shows. It is never before
/// 1970, for `now` panics on a clock set to such a time, and it is no leap second.
/// Nothing else is said of it: two calls may give any two times.
#[verifier::external_body]
pub(crate) fn now() -> (time: Timestamp)
    ensures
        time.is_clock_time(),
{
    let time = chrono::Utc::now();
    Timestamp { seconds: time.timestamp(), nanos: time.timestamp_subsec_nanos() }
}

/// Points in time are ordered by their seconds and, in the same second, by their
/// nanoseconds: of two different points exactly one comes before the other.
pub proof fn time_is_a_line(a: Timestamp, b: Timestamp, c: Timestamp)
    ensures
        a.seconds < b.seconds ==> a.before(b),
        a.seconds == b.seconds && a.nanos < b.nanos ==> a.before(b),
        !a.before(a),
        a.before(b) ==> !b.before(a),
        a != b ==> a.before(b) || b.before(a),
        a.before(b) && b.before(c) ==> a.before(c),
{
}

}
