//! Absolute points in time with nanosecond resolution, and the whole
//! milliseconds between two of them.

use vstd::prelude::*;
use crate::calendar::{to_timespec, utc_seconds, CalendarTime};

verus! {

/// Nanoseconds in one second.
pub const NANOS_PER_SECOND: i32 = 1_000_000_000;

/// Nanoseconds in one millisecond.
pub const NANOS_PER_MILLI: i32 = 1_000_000;

/// Largest distance from the epoch, in seconds, that an [`Instant`] may have.
///
/// The bound keeps the milliseconds between any two instants within `i64`.
pub const MAX_SECONDS: i64 = 4_000_000_000_000_000;

/// Whether `sec` seconds and `nsec` nanoseconds denote a representable instant.
pub open spec fn representable(sec: int, nsec: int) -> bool {
    &&& -MAX_SECONDS <= sec <= MAX_SECONDS
    &&& 0 <= nsec < NANOS_PER_SECOND
}

/// Nanoseconds since the epoch of the instant `sec` seconds and `nsec` nanoseconds.
pub open spec fn epoch_nanos(sec: int, nsec: int) -> int {
    sec * NANOS_PER_SECOND + nsec
}

/// The quotient of `a` by the positive `b`, rounded toward zero.
pub open spec fn truncated_quotient(a: int, b: int) -> int {
    if a >= 0 {
        a / b
    } else {
        -((-a) / b)
    }
}

/// Whole milliseconds from the instant `earlier` to the instant `later`, both
/// in nanoseconds since the epoch. The fraction is dropped, toward zero, so
/// the result is negative where `later` precedes `earlier` by a millisecond
/// or more.
pub open spec fn millis_between(later: int, earlier: int) -> int {
    truncated_quotient(later - earlier, NANOS_PER_MILLI as int)
}

/// The instant that the calendar time `t` denotes, in nanoseconds since the
/// epoch: `None` where `t` is offset from UTC, or lies outside the
/// representable range.
pub open spec fn calendar_nanos(t: CalendarTime) -> Option<int> {
    if t.utcoff == 0 && representable(utc_seconds(t) as int, t.nsec as int) {
        Some(epoch_nanos(utc_seconds(t) as int, t.nsec as int))
    } else {
        None
    }
}

/// A point in time: whole seconds since the epoch (negative before it) and
/// the nanoseconds after that second.
///
/// Its view is the number of nanoseconds since the epoch.
#[derive(Clone, Copy, Debug, PartialEq, Eq)]
pub struct Instant {
    sec: i64,
    nsec: i32,
}

impl View for Instant {
    type V = int;

    closed spec fn view(&self) -> int {
        epoch_nanos(self.sec as int, self.nsec as int)
    }
}

impl DeepView for Instant {
    type V = int;

    open spec fn deep_view(&self) -> int {
        self@
    }
}

impl Instant {
    #[verifier::type_invariant]
    spec fn in_range(self) -> bool {
        representable(self.sec as int, self.nsec as int)
    }

    /// The instant `sec` seconds and `nsec` nanoseconds after the epoch, or
    /// `None` where the pair is not representable.
    pub fn new(sec: i64, nsec: i32) -> (r: Option<Instant>)
        ensures
            r is Some <==> representable(sec as int, nsec as int),
            r matches Some(t) ==> t@ == epoch_nanos(sec as int, nsec as int),
    {
        if -MAX_SECONDS <= sec && sec <= MAX_SECONDS && 0 <= nsec && nsec < NANOS_PER_SECOND {
            Some(Instant { sec, nsec })
        } else {
            None
        }
    }

    /// The instant that the calendar time `t` denotes, where it has one.
    pub fn from_calendar(t: &CalendarTime) -> (r: Option<Instant>)
        ensures
            match r {
                Some(instant) => calendar_nanos(*t) == Some(instant@),
                None => calendar_nanos(*t) is None,
            },
    {
        if t.utcoff != 0 || t.nsec < 0 || t.nsec >= NANOS_PER_SECOND {
            return None;
        }
        let (sec, nsec) = to_timespec(t);
        Instant::new(sec, nsec)
    }

    /// Whole seconds since the epoch, rounded down.
    pub fn seconds(&self) -> (r: i64)
        ensures
            r == self@ / (NANOS_PER_SECOND as int),
            -MAX_SECONDS <= r <= MAX_SECONDS,
    {
        proof {
            use_type_invariant(self);
        }
        self.sec
    }

    /// Nanoseconds after the whole second.
    pub fn subsec_nanos(&self) -> (r: i32)
        ensures
            r == self@ % (NANOS_PER_SECOND as int),
    {
        proof {
            use_type_invariant(self);
        }
        self.nsec
    }

    /// Whole milliseconds from `earlier` to `self`, rounded toward zero.
    pub fn millis_since(&self, earlier: &Instant) -> (r: i64)
        ensures
            r == millis_between(self@, earlier@),
    {
        proof {
            use_type_invariant(self);
            use_type_invariant(earlier);
        }
        let secs: i128 = self.sec as i128 - earlier.sec as i128;
        let subsec: i128 = self.nsec as i128 - earlier.nsec as i128;
        let nanos: i128 = secs * 1_000_000_000 + subsec;
        assert(nanos == self@ - earlier@);
        let millis: i128 = if nanos >= 0 {
            nanos / 1_000_000
        } else {
            -((-nanos) / 1_000_000)
        };
        millis as i64
    }
}

} // verus!
