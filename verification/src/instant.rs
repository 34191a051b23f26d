//! A UTC instant, held as a UNIX timestamp and a sub-second part.

use vstd::prelude::*;

verus! {

/// Smallest timestamp (seconds since 1970-01-01T00:00:00Z) the library handles.
pub const MIN_TIMESTAMP: i64 = -8_000_000_000_000i64;

/// Largest timestamp (seconds since 1970-01-01T00:00:00Z) the library handles.
pub const MAX_TIMESTAMP: i64 = 8_000_000_000_000i64;

/// Nanoseconds in one second.
pub const NANOS_PER_SECOND: u32 = 1_000_000_000u32;

/// A point in time in UTC: whole seconds since the UNIX epoch and the
/// nanoseconds past that second. A positive leap second is written as the
/// second `:59` with `nanos` at or above one billion.
#[derive(Clone, Copy, Debug, PartialEq, Eq, Structural, PartialOrd, Ord, Hash)]
pub struct Instant {
    pub secs: i64,
    pub nanos: u32,
}

impl Instant {
    /// The instant lies in the supported range and its sub-second part is
    /// well formed (at most one leap second, and only on a `:59` second).
    pub open spec fn valid(self) -> bool {
        &&& MIN_TIMESTAMP <= self.secs <= MAX_TIMESTAMP
        &&& (self.nanos < NANOS_PER_SECOND || (self.nanos < 2 * NANOS_PER_SECOND && (self.secs as int)
            % 60 == 59))
    }

    /// `self` comes strictly before `other`.
    pub open spec fn is_before(self, other: Instant) -> bool {
        self.secs < other.secs || (self.secs == other.secs && self.nanos < other.nanos)
    }

    /// The second within the minute, as UTC clocks show it.
    pub open spec fn second_of_minute(self) -> int {
        (self.secs as int) % 60
    }

    /// The instant `n >= 0` seconds later. Moving forward out of a leap
    /// second first folds it back into the `:59` second.
    pub open spec fn plus_seconds(self, n: int) -> Instant {
        if n > 0 && self.nanos >= NANOS_PER_SECOND {
            Instant { secs: (self.secs + n) as i64, nanos: (self.nanos - NANOS_PER_SECOND) as u32 }
        } else {
            Instant { secs: (self.secs + n) as i64, nanos: self.nanos }
        }
    }

    /// The instant `k` minutes later.
    pub open spec fn plus_minutes(self, k: nat) -> Instant {
        self.plus_seconds(60 * k as int)
    }

    /// The later of two instants (the first one on a tie).
    pub open spec fn later_of(a: Instant, b: Instant) -> Instant {
        if b.is_before(a) || a == b { a } else { b }
    }

    /// The later of two instants is one of the two, and comes before
    /// neither of them.
    pub proof fn law_later_of_is_the_later_one(a: Instant, b: Instant)
        ensures
            Instant::later_of(a, b) == a || Instant::later_of(a, b) == b,
            !Instant::later_of(a, b).is_before(a),
            !Instant::later_of(a, b).is_before(b),
    {
    }

    /// Builds an instant from a timestamp and nanoseconds, or `None` when
    /// they do not form a valid instant.
    pub fn new(secs: i64, nanos: u32) -> (r: Option<Instant>)
        ensures
            r is Some <==> (Instant { secs, nanos }).valid(),
            r matches Some(i) ==> i == (Instant { secs, nanos }),
    {
        let i = Instant { secs, nanos };
        if MIN_TIMESTAMP <= secs && secs <= MAX_TIMESTAMP && (nanos < NANOS_PER_SECOND || (nanos
            < 2 * NANOS_PER_SECOND && i.second() == 59)) {
            Some(i)
        } else {
            None
        }
    }

    /// `self` comes strictly after `other`.
    pub fn is_after(&self, other: &Instant) -> (r: bool)
        ensures
            r == other.is_before(*self),
    {
        other.secs < self.secs || (other.secs == self.secs && other.nanos < self.nanos)
    }

    /// Both instants are the same.
    pub fn same_as(&self, other: &Instant) -> (r: bool)
        ensures
            r == (*self == *other),
    {
        self.secs == other.secs && self.nanos == other.nanos
    }

    /// The second within the minute, as UTC clocks show it.
    pub fn second(&self) -> (r: u32)
        ensures
            r == self.second_of_minute(),
            r < 60,
    {
        let s = self.secs % 60;
        let r = if s < 0 { s + 60 } else { s };
        r as u32
    }

    /// The instant `n` seconds later.
    pub fn add_seconds(&self, n: i64) -> (r: Instant)
        requires
            self.valid(),
            n >= 0,
            self.secs + n <= MAX_TIMESTAMP,
        ensures
            r == self.plus_seconds(n as int),
            r.valid(),
    {
        if n > 0 && self.nanos >= NANOS_PER_SECOND {
            Instant { secs: self.secs + n, nanos: self.nanos - NANOS_PER_SECOND }
        } else {
            Instant { secs: self.secs + n, nanos: self.nanos }
        }
    }

    /// The later of `self` and `other` (`self` on a tie).
    pub fn later(&self, other: &Instant) -> (r: Instant)
        ensures
            r == Instant::later_of(*self, *other),
    {
        if other.is_after(self) { *other } else { *self }
    }
}

} // verus!
