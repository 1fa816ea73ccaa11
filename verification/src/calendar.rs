//! Calendar times as the `time` crate reads them from text, and the two
//! calls into that crate on which the rest of the library builds.

use vstd::prelude::*;
use crate::pattern::is_template;

verus! {

/// A broken-down calendar time, field for field as `time::Tm` holds it.
#[derive(Clone, Copy, Debug, PartialEq, Eq)]
pub struct CalendarTime {
    /// Seconds after the minute.
    pub sec: i32,
    /// Minutes after the hour.
    pub min: i32,
    /// Hours after midnight.
    pub hour: i32,
    /// Day of the month, from 1.
    pub mday: i32,
    /// Months since January.
    pub mon: i32,
    /// Years since 1900.
    pub year: i32,
    /// Days since Sunday.
    pub wday: i32,
    /// Days since the first of January.
    pub yday: i32,
    /// Daylight saving flag.
    pub isdst: i32,
    /// Seconds east of UTC.
    pub utcoff: i32,
    /// Nanoseconds after the second.
    pub nsec: i32,
}

/// What `time::strptime` makes of the text `s` under the template `format`:
/// the calendar time it reads, or `None` where it reports an error.
pub uninterp spec fn strptime_spec(s: Seq<char>, format: Seq<char>) -> Option<CalendarTime>;

/// The seconds since 1970-01-01T00:00:00Z that `time::Tm::to_timespec` gives
/// for a calendar time whose offset from UTC is zero.
pub uninterp spec fn utc_seconds(t: CalendarTime) -> i64;

/// Calls `time::strptime`.
///
/// Trusted: the outcome depends on the two texts alone, so it is the value
/// that [`strptime_spec`] names, with a parse error mapped to `None`. The
/// template has to be one of the crate's own: under those the parser only
/// assigns the fields it reads, whereas other directives add to a field or
/// ask the system for a calendar time, and may abort.
#[verifier::external_body]
pub(crate) fn strptime(s: &str, format: &str) -> (r: Option<CalendarTime>)
    requires
        is_template(format@),
    ensures
        r == strptime_spec(s@, format@),
{
    match time::strptime(s, format) {
        Ok(tm) => Some(CalendarTime {
            sec: tm.tm_sec, min: tm.tm_min, hour: tm.tm_hour,
            mday: tm.tm_mday, mon: tm.tm_mon, year: tm.tm_year,
            wday: tm.tm_wday, yday: tm.tm_yday, isdst: tm.tm_isdst,
            utcoff: tm.tm_utcoff, nsec: tm.tm_nsec,
        }),
        Err(_) => None,
    }
}

/// Calls `time::Tm::to_timespec`.
///
/// Trusted: for a zero offset from UTC the seconds of the result depend on
/// the calendar fields alone, and are what [`utc_seconds`] names; the
/// nanoseconds are handed through unchanged. The call aborts on nanoseconds
/// that do not lie within a second, and consults the local time zone for
/// any other offset, so both are excluded.
#[verifier::external_body]
pub(crate) fn to_timespec(t: &CalendarTime) -> (r: (i64, i32))
    requires
        t.utcoff == 0,
        0 <= t.nsec < 1_000_000_000,
    ensures
        r.0 == utc_seconds(*t),
        r.1 == t.nsec,
{
    let tm = time::Tm {
        tm_sec: t.sec, tm_min: t.min, tm_hour: t.hour,
        tm_mday: t.mday, tm_mon: t.mon, tm_year: t.year,
        tm_wday: t.wday, tm_yday: t.yday, tm_isdst: t.isdst,
        tm_utcoff: t.utcoff, tm_nsec: t.nsec,
    };
    let ts = tm.to_timespec();
    (ts.sec, ts.nsec)
}

} // verus!
