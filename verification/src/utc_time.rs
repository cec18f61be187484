//! Points in time, counted from the Unix epoch, and the clock and calendar
//! arithmetic that `chrono` does on them.

use chrono::{DateTime, TimeDelta, Utc};
use std::time::{SystemTime, UNIX_EPOCH};
use vstd::prelude::*;

verus! {

/// The earliest second that a `chrono::DateTime<Utc>` can hold: midnight of
/// 1 January of the year -262143.
pub const MIN_SECS: i64 = -8_334_601_228_800;

/// The latest second that a `chrono::DateTime<Utc>` can hold: the last second
/// of 31 December of the year 262142.
pub const MAX_SECS: i64 = 8_210_266_876_799;

/// The longest span, in whole seconds, that a `chrono::TimeDelta` can hold:
/// `i64::MAX` milliseconds, rounded down.
pub const MAX_DELTA_SECS: i64 = 9_223_372_036_854_775;

/// Nanoseconds in one second.
pub const NANOS_PER_SEC: u32 = 1_000_000_000;

/// A point in time: whole seconds since the Unix epoch, and the nanoseconds
/// that follow them. Instants are ordered by seconds first, then nanoseconds,
/// which is the order of the `chrono::DateTime<Utc>` values they are read from.
#[derive(Clone, Copy, Debug, PartialEq, Eq, Structural, PartialOrd, Ord)]
pub struct UtcTime {
    pub secs: i64,
    pub nanos: u32,
}

impl UtcTime {
    /// `self` is not later than `other`.
    pub open spec fn at_or_before(self, other: UtcTime) -> bool {
        self.secs < other.secs || (self.secs == other.secs && self.nanos <= other.nanos)
    }

    /// `self` lies in the calendar's range and is no leap second, so that
    /// whole seconds can be added to it.
    pub open spec fn representable(self) -> bool {
        &&& MIN_SECS <= self.secs <= MAX_SECS
        &&& self.nanos < NANOS_PER_SEC
    }

    /// `self` moved by `delta` whole seconds, where the calendar reaches that far.
    pub open spec fn shifted(self, delta: int) -> Option<UtcTime> {
        if MIN_SECS <= self.secs + delta <= MAX_SECS {
            Some(UtcTime { secs: (self.secs + delta) as i64, nanos: self.nanos })
        } else {
            None
        }
    }

    /// Whether `self` is not later than `other`.
    pub fn is_at_or_before(&self, other: &UtcTime) -> (b: bool)
        ensures
            b == self.at_or_before(*other),
    {
        self.secs < other.secs || (self.secs == other.secs && self.nanos <= other.nanos)
    }

    /// Whether `self` lies in the calendar's range and is no leap second.
    pub fn is_representable(&self) -> (b: bool)
        ensures
            b == self.representable(),
    {
        MIN_SECS <= self.secs && self.secs <= MAX_SECS && self.nanos < NANOS_PER_SEC
    }
}

/// Reads the system clock as `chrono::Utc::now` does: `SystemTime::now`,
/// counted from the Unix epoch and handed to `chrono::DateTime::from_timestamp`.
/// Where `Utc::now` would panic, with a clock that stands before the epoch or
/// beyond the calendar, the answer is `None`. Trusted: an instant that comes
/// back lies in the calendar's range and is no leap second, since
/// `from_timestamp` accepted it and the clock's sub-second part is less than
/// one second.
#[verifier::external_body]
pub(crate) fn utc_now() -> (t: Option<UtcTime>)
    ensures
        t is Some ==> t->0.representable(),
{
    let since = SystemTime::now().duration_since(UNIX_EPOCH).ok()?;
    let secs = i64::try_from(since.as_secs()).ok()?;
    let now: DateTime<Utc> = DateTime::from_timestamp(secs, since.subsec_nanos())?;
    Some(UtcTime { secs: now.timestamp(), nanos: now.timestamp_subsec_nanos() })
}

/// The length in seconds of `chrono::TimeDelta::seconds(n)`. Trusted: it is
/// `n`; the call panics outside the bounds that `requires` keeps.
#[verifier::external_body]
pub(crate) fn span_of_seconds(n: i64) -> (secs: i64)
    requires
        -MAX_DELTA_SECS <= n <= MAX_DELTA_SECS,
    ensures
        secs == n,
{
    TimeDelta::seconds(n).num_seconds()
}

/// The length in seconds of `chrono::TimeDelta::minutes(n)`. Trusted: it is
/// `n * 60`; the call panics outside the bounds that `requires` keeps.
#[verifier::external_body]
pub(crate) fn span_of_minutes(n: i64) -> (secs: i64)
    requires
        -MAX_DELTA_SECS <= n * 60 <= MAX_DELTA_SECS,
    ensures
        secs == n * 60,
{
    TimeDelta::minutes(n).num_seconds()
}

/// The length in seconds of `chrono::TimeDelta::hours(n)`. Trusted: it is
/// `n * 3600`; the call panics outside the bounds that `requires` keeps.
#[verifier::external_body]
pub(crate) fn span_of_hours(n: i64) -> (secs: i64)
    requires
        -MAX_DELTA_SECS <= n * 3600 <= MAX_DELTA_SECS,
    ensures
        secs == n * 3600,
{
    TimeDelta::hours(n).num_seconds()
}

/// The length in seconds of `chrono::TimeDelta::days(n)`. Trusted: it is
/// `n * 86400`; the call panics outside the bounds that `requires` keeps.
#[verifier::external_body]
pub(crate) fn span_of_days(n: i64) -> (secs: i64)
    requires
        -MAX_DELTA_SECS <= n * 86400 <= MAX_DELTA_SECS,
    ensures
        secs == n * 86400,
{
    TimeDelta::days(n).num_seconds()
}

/// `chrono::DateTime::checked_add_signed` with a span of `delta` whole
/// seconds. Trusted: the result is `t` moved forward by `delta` seconds, with
/// its nanoseconds kept, or `None` where that leaves the calendar's range.
#[verifier::external_body]
pub(crate) fn checked_add_seconds(t: UtcTime, delta: i64) -> (r: Option<UtcTime>)
    requires
        t.representable(),
        -MAX_DELTA_SECS <= delta <= MAX_DELTA_SECS,
    ensures
        r == t.shifted(delta as int),
{
    let start: DateTime<Utc> = DateTime::from_timestamp(t.secs, t.nanos)?;
    let end = start.checked_add_signed(TimeDelta::seconds(delta))?;
    Some(UtcTime { secs: end.timestamp(), nanos: end.timestamp_subsec_nanos() })
}

/// `chrono::DateTime::checked_sub_signed` with a span of `delta` whole
/// seconds. Trusted: the result is `t` moved back by `delta` seconds, with
/// its nanoseconds kept, or `None` where that leaves the calendar's range.
#[verifier::external_body]
pub(crate) fn checked_sub_seconds(t: UtcTime, delta: i64) -> (r: Option<UtcTime>)
    requires
        t.representable(),
        -MAX_DELTA_SECS <= delta <= MAX_DELTA_SECS,
    ensures
        r == t.shifted(-(delta as int)),
{
    let start: DateTime<Utc> = DateTime::from_timestamp(t.secs, t.nanos)?;
    let end = start.checked_sub_signed(TimeDelta::seconds(delta))?;
    Some(UtcTime { secs: end.timestamp(), nanos: end.timestamp_subsec_nanos() })
}

} // verus!
