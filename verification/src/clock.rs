//! Readings of the clock, through `chrono`.

use chrono::{Datelike, Timelike};
use vstd::prelude::*;

verus! {

/// Calendar and wall-clock fields of a local date and time, as `chrono`'s
/// `Datelike` and `Timelike` report them.
#[derive(Clone, Copy, Debug, PartialEq, Eq, Structural)]
pub struct DateFields {
    pub year: i32,
    pub month: u32,
    pub day: u32,
    pub hour: u32,
    pub minute: u32,
}

impl DateFields {
    /// The ranges `chrono` documents for each field.
    pub open spec fn in_calendar_range(&self) -> bool {
        &&& 1 <= self.month <= 12
        &&& 1 <= self.day <= 31
        &&& self.hour <= 23
        &&& self.minute <= 59
    }
}

/// `chrono::Local::now()`, read through `Datelike::{year, month, day}` and
/// `Timelike::{hour, minute}`. The value depends on the clock and the time
/// zone; all that is claimed is the field ranges that chrono documents.
#[verifier::external_body]
pub fn local_now() -> (r: DateFields)
    ensures
        r.in_calendar_range(),
{
    let t = chrono::Local::now();
    DateFields { year: t.year(), month: t.month(), day: t.day(), hour: t.hour(), minute: t.minute() }
}

/// An instant in UTC: whole seconds since the Unix epoch, and nanoseconds
/// into that second, as `DateTime::timestamp` and
/// `DateTime::timestamp_subsec_nanos` give them.
#[derive(Clone, Copy, Debug, PartialEq, Eq, Structural)]
pub struct Timestamp {
    pub secs: i64,
    pub nanos: u32,
}

/// `a` lies strictly before `b`: seconds first, then nanoseconds, which is
/// the order of the dates they stand for.
pub open spec fn is_before(a: Timestamp, b: Timestamp) -> bool {
    a.secs < b.secs || (a.secs == b.secs && a.nanos < b.nanos)
}

/// The last second of the year 262143: no date `chrono` can represent lies
/// after it (its last year is 262142).
pub open spec fn chrono_last_second() -> int {
    8_210_298_412_799
}

/// `t` is a reading the UTC clock can give: not before the Unix epoch, not
/// after the last date chrono can represent, and with fewer than a second's
/// nanoseconds.
pub open spec fn is_clock_reading(t: Timestamp) -> bool {
    &&& 0 <= t.secs <= chrono_last_second()
    &&& t.nanos < 1_000_000_000
}

/// `chrono::Utc::now()`, read as its `timestamp()` and
/// `timestamp_subsec_nanos()`. The value depends on the clock. chrono builds
/// it from the system time since the Unix epoch (panicking before 1970), so
/// the seconds are not negative, the nanoseconds are those of a duration
/// (below one second), and the date is one chrono can represent.
#[verifier::external_body]
pub fn utc_now() -> (r: Timestamp)
    ensures
        is_clock_reading(r),
{
    let t = chrono::Utc::now();
    Timestamp { secs: t.timestamp(), nanos: t.timestamp_subsec_nanos() }
}

} // verus!
