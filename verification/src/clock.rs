//! Points in time, on the calendar of the `chrono` crate.

use chrono::{DateTime, TimeDelta, Utc};
use vstd::prelude::*;

verus! {

/// The first second of the calendar, -262143-01-01 00:00:00 UTC.
pub const FIRST_SECOND: i64 = -8_334_601_228_800;

/// The last second of the calendar, 262142-12-31 23:59:59 UTC.
pub const LAST_SECOND: i64 = 8_210_266_876_799;

pub const NANOS_PER_SECOND: u32 = 1_000_000_000;

/// A point in time: the seconds since 1970-01-01 00:00:00 UTC, leap seconds not counted, and the
/// nanoseconds since the last full second.
#[derive(Clone, Copy, Debug, PartialEq, Eq, Structural)]
pub struct Timestamp {
    pub secs: i64,
    pub nanos: u32,
}

/// A length of time that is not negative.
#[derive(Clone, Copy, Debug, PartialEq, Eq, Structural)]
pub struct Interval {
    pub secs: u64,
    pub nanos: u32,
}

/// A point in time that need not lie on the calendar.
#[verifier::ext_equal]
pub struct Instant {
    pub secs: int,
    pub nanos: int,
}

impl Instant {
    /// Whether the calendar reaches this point in time.
    pub open spec fn on_calendar(self) -> bool {
        &&& FIRST_SECOND <= self.secs <= LAST_SECOND
        &&& 0 <= self.nanos < NANOS_PER_SECOND
    }

    /// The point in time that lies `secs` seconds and `nanos` nanoseconds later.
    pub open spec fn plus(self, secs: int, nanos: int) -> Instant {
        Instant {
            secs: self.secs + secs + (self.nanos + nanos) / NANOS_PER_SECOND as int,
            nanos: (self.nanos + nanos) % NANOS_PER_SECOND as int,
        }
    }

    /// The nanoseconds since 1970-01-01 00:00:00 UTC.
    pub open spec fn nanoseconds(self) -> int {
        self.secs * NANOS_PER_SECOND + self.nanos
    }
}

impl View for Timestamp {
    type V = Instant;

    open spec fn view(&self) -> Instant {
        Instant { secs: self.secs as int, nanos: self.nanos as int }
    }
}

impl Timestamp {
    /// Whether this is a point on the calendar, outside a leap second.
    pub open spec fn valid(self) -> bool {
        self@.on_calendar()
    }

    /// Checks that this is a point on the calendar.
    pub fn is_valid(&self) -> (valid: bool)
        ensures
            valid == self.valid(),
    {
        FIRST_SECOND <= self.secs && self.secs <= LAST_SECOND && self.nanos < NANOS_PER_SECOND
    }
}

impl Interval {
    /// Whether the nanoseconds are less than a second.
    pub open spec fn valid(self) -> bool {
        self.nanos < NANOS_PER_SECOND
    }
}

/// Calls `chrono::Utc::now`.
///
/// The result differs from call to call.  It is a point on the calendar and not before 1970.
/// The call panics on a machine whose clock stands before 1970.
#[verifier::external_body]
fn now() -> (time: Timestamp)
    ensures
        time.valid(),
        time.secs >= 0,
{
    let time = Utc::now();
    Timestamp { secs: time.timestamp(), nanos: time.timestamp_subsec_nanos() }
}

/// Whether `time` is a time that the clock has shown.
pub closed spec fn is_clock_reading(time: Timestamp) -> bool {
    call_ensures(now, (), time)
}

/// Reads the clock.
pub(crate) fn read_clock() -> (time: Timestamp)
    ensures
        time.valid(),
        time.secs >= 0,
        is_clock_reading(time),
{
    let clock = now;
    clock()
}

/// Calls `chrono::DateTime::checked_add_signed`.
///
/// The length of time to add is `secs` seconds and `nanos` nanoseconds.  The result is the sum, or
/// `None` if the sum is not on the calendar.
#[verifier::external_body]
fn add_delta(time: Timestamp, secs: i64, nanos: u32) -> (sum: Option<Timestamp>)
    requires
        time.valid(),
        nanos < NANOS_PER_SECOND,
    ensures
        sum is Some <==> time@.plus(secs as int, nanos as int).on_calendar(),
        sum matches Some(t) ==> t@ == time@.plus(secs as int, nanos as int),
{
    let start = DateTime::from_timestamp(time.secs, time.nanos)?;
    let sum = start.checked_add_signed(TimeDelta::new(secs, nanos)?)?;
    Some(Timestamp { secs: sum.timestamp(), nanos: sum.timestamp_subsec_nanos() })
}

/// The point in time that lies `seconds` seconds after `time`, if the calendar reaches it.
pub fn add_seconds(time: Timestamp, seconds: i64) -> (sum: Option<Timestamp>)
    requires
        time.valid(),
    ensures
        sum is Some <==> time@.plus(seconds as int, 0).on_calendar(),
        sum matches Some(t) ==> t@ == time@.plus(seconds as int, 0),
{
    add_delta(time, seconds, 0)
}

/// The point in time that lies `interval` after `time`, if the calendar reaches it.
pub fn add_interval(time: Timestamp, interval: Interval) -> (sum: Option<Timestamp>)
    requires
        time.valid(),
        interval.valid(),
    ensures
        sum is Some <==> time@.plus(
            interval.secs as int,
            interval.nanos as int,
        ).on_calendar(),
        sum matches Some(t) ==> t@ == time@.plus(interval.secs as int, interval.nanos as int),
{
    if interval.secs > i64::MAX as u64 {
        None
    } else {
        add_delta(time, interval.secs as i64, interval.nanos)
    }
}

}
