//! Instants with a fixed offset from UTC, ordered by absolute time.

use vstd::prelude::*;

verus! {

/// A point in time together with the UTC offset it was written with.
///
/// `secs` counts non-leap seconds since 1970-01-01T00:00:00 UTC and `nanos`
/// the nanoseconds since that second; within a leap second `nanos` runs past
/// 999,999,999. `offset` is the number of seconds that local time is ahead of
/// UTC. The offset affects only how the instant is written, not where it
/// falls in time.
///
/// `==` compares field by field, the offset too: it tells two writings of
/// one moment apart. The comparison in time is [`Instant::is_same_moment`],
/// with [`Instant::is_before`] and [`Instant::is_at_or_after`].
#[derive(Clone, Copy, Debug, PartialEq, Eq, Structural)]
pub struct Instant {
    pub secs: i64,
    pub nanos: u32,
    pub offset: i32,
}

impl Instant {
    /// `self` falls strictly earlier in time than `other`.
    pub open spec fn precedes(self, other: Instant) -> bool {
        self.secs < other.secs || (self.secs == other.secs && self.nanos < other.nanos)
    }

    /// `self` and `other` denote the same point in time.
    pub open spec fn coincides(self, other: Instant) -> bool {
        self.secs == other.secs && self.nanos == other.nanos
    }

    pub fn new(secs: i64, nanos: u32, offset: i32) -> (r: Instant)
        ensures
            r == (Instant { secs, nanos, offset }),
    {
        Instant { secs, nanos, offset }
    }

    /// Whether `self` is strictly earlier than `other`.
    pub fn is_before(&self, other: &Instant) -> (r: bool)
        ensures
            r == self.precedes(*other),
    {
        self.secs < other.secs || (self.secs == other.secs && self.nanos < other.nanos)
    }

    /// Whether `self` is `other` or later.
    pub fn is_at_or_after(&self, other: &Instant) -> (r: bool)
        ensures
            r == !self.precedes(*other),
    {
        !self.is_before(other)
    }

    /// Whether `self` and `other` are the same point in time.
    pub fn is_same_moment(&self, other: &Instant) -> (r: bool)
        ensures
            r == self.coincides(*other),
    {
        self.secs == other.secs && self.nanos == other.nanos
    }
}

/// Of two instants exactly one holds: the first precedes the second, the
/// second precedes the first, or they coincide.
pub proof fn lemma_order_is_total(a: Instant, b: Instant)
    ensures
        a.precedes(b) || b.precedes(a) || a.coincides(b),
        !(a.precedes(b) && b.precedes(a)),
        !(a.precedes(b) && a.coincides(b)),
        !(b.precedes(a) && a.coincides(b)),
{
}

/// Precedence is transitive, also through instants that coincide.
pub proof fn lemma_order_is_transitive(a: Instant, b: Instant, c: Instant)
    ensures
        a.precedes(b) && b.precedes(c) ==> a.precedes(c),
        a.precedes(b) && !c.precedes(b) ==> a.precedes(c),
        !b.precedes(a) && b.precedes(c) ==> a.precedes(c),
        !b.precedes(a) && !c.precedes(b) ==> !c.precedes(a),
{
}

/// The order looks at the point in time alone: rewriting an instant with
/// another offset moves it nowhere.
pub proof fn lemma_order_ignores_offset(a: Instant, b: Instant, offset: i32)
    ensures
        (Instant { offset, ..a }).precedes(b) == a.precedes(b),
        b.precedes(Instant { offset, ..a }) == b.precedes(a),
        (Instant { offset, ..a }).coincides(a),
{
}

} // verus!
