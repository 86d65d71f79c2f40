//! Instants and spans of time, both counted in nanoseconds.

use vstd::prelude::*;

verus! {

/// Nanoseconds in a second.
pub const NANOS_PER_SEC: u64 = 1_000_000_000;

/// Nanoseconds in a millisecond.
pub const NANOS_PER_MILLI: u64 = 1_000_000;

/// Nanoseconds in a minute.
pub const NANOS_PER_MIN: u64 = 60_000_000_000;

/// Nanoseconds in an hour.
pub const NANOS_PER_HOUR: u64 = 3_600_000_000_000;

/// Nanoseconds in a day.
pub const NANOS_PER_DAY: u64 = 86_400_000_000_000;

/// A non-negative span of time in nanoseconds.
#[derive(Debug, Clone, Copy, PartialEq, Eq, Structural, PartialOrd, Ord)]
pub struct Duration(pub u64);

impl View for Duration {
    type V = int;

    open spec fn view(&self) -> int {
        self.0 as int
    }
}

impl Duration {
    /// A span of `days` days.
    pub fn from_days(days: u32) -> (r: Duration)
        requires
            days * NANOS_PER_DAY <= u64::MAX,
        ensures
            r@ == days * NANOS_PER_DAY,
    {
        Duration(days as u64 * NANOS_PER_DAY)
    }

    /// A span of `hours` hours.
    pub fn from_hours(hours: u32) -> (r: Duration)
        requires
            hours * NANOS_PER_HOUR <= u64::MAX,
        ensures
            r@ == hours * NANOS_PER_HOUR,
    {
        Duration(hours as u64 * NANOS_PER_HOUR)
    }

    /// A span of `mins` minutes.
    pub fn from_mins(mins: u32) -> (r: Duration)
        requires
            mins * NANOS_PER_MIN <= u64::MAX,
        ensures
            r@ == mins * NANOS_PER_MIN,
    {
        Duration(mins as u64 * NANOS_PER_MIN)
    }

    /// A span of `secs` seconds.
    pub fn from_secs(secs: u64) -> (r: Duration)
        requires
            secs * NANOS_PER_SEC <= u64::MAX,
        ensures
            r@ == secs * NANOS_PER_SEC,
    {
        Duration(secs * NANOS_PER_SEC)
    }

    /// A span of `millis` milliseconds.
    pub fn from_millis(millis: u64) -> (r: Duration)
        requires
            millis * NANOS_PER_MILLI <= u64::MAX,
        ensures
            r@ == millis * NANOS_PER_MILLI,
    {
        Duration(millis * NANOS_PER_MILLI)
    }

    /// A span of `nanos` nanoseconds.
    pub fn from_nanos(nanos: u64) -> (r: Duration)
        ensures
            r@ == nanos,
    {
        Duration(nanos)
    }

    /// The span in nanoseconds.
    pub fn nanos(&self) -> (r: u64)
        ensures
            r == self@,
    {
        self.0
    }
}

/// The text `YYYY-MM-DD HH:MM:SS` of the UTC instant that lies `nanos`
/// nanoseconds after the Unix epoch.
pub uninterp spec fn utc_text(nanos: int) -> Seq<char>;

/// Calls `chrono::Utc::now` and `chrono::DateTime::timestamp_nanos_opt`,
/// which gives no reading for an instant past the range of `i64`
/// nanoseconds. The clock decides the outcome, so the contract promises
/// nothing of it. On a machine whose clock stands before 1970 the call
/// panics.
#[verifier::external_body]
fn clock_nanos() -> (r: Option<i64>) {
    chrono::Utc::now().timestamp_nanos_opt()
}

/// Calls `chrono::DateTime::format` with `%Y-%m-%d %H:%M:%S` on the instant
/// that `chrono::DateTime::from_timestamp_nanos` makes of `nanos`. The text
/// depends on the instant alone, so the contract gives it its name.
#[verifier::external_body]
fn format_utc(nanos: i64) -> (r: String)
    ensures
        r@ == utc_text(nanos as int),
{
    chrono::DateTime::from_timestamp_nanos(nanos).format("%Y-%m-%d %H:%M:%S").to_string()
}

/// The instant, in nanoseconds since the epoch, that a clock reading stands
/// for: the reading itself, or the last instant where the reading is
/// missing.
pub open spec fn instant_of_reading(reading: Option<i64>) -> int {
    match reading {
        Some(nanos) => nanos as int,
        None => i64::MAX as int,
    }
}

/// A UTC instant with nanosecond resolution, counted from the Unix epoch.
#[derive(Debug, Clone, Copy, PartialEq, Eq, Structural, PartialOrd, Ord, Hash)]
pub struct Timestamp(pub i64);

impl View for Timestamp {
    type V = int;

    open spec fn view(&self) -> int {
        self.0 as int
    }
}

impl Timestamp {
    /// The present instant, as [`Timestamp::from_clock`] makes it of what the
    /// clock reads. The clock alone decides the outcome.
    pub fn now() -> (r: Timestamp) {
        Timestamp::from_clock(clock_nanos())
    }

    /// The instant of a clock reading in nanoseconds since the epoch. A
    /// reading that is missing lies past the range of this type and is held
    /// at its last instant.
    pub fn from_clock(reading: Option<i64>) -> (r: Timestamp)
        ensures
            r@ == instant_of_reading(reading),
    {
        match reading {
            Some(nanos) => Timestamp(nanos),
            None => Timestamp(i64::MAX),
        }
    }

    /// The instant `secs` seconds after the epoch.
    pub fn from_unix_secs(secs: i64) -> (r: Timestamp)
        requires
            i64::MIN <= secs * NANOS_PER_SEC <= i64::MAX,
        ensures
            r@ == secs * NANOS_PER_SEC,
    {
        Timestamp(secs * 1_000_000_000)
    }

    /// The instant `millis` milliseconds after the epoch.
    pub fn from_unix_millis(millis: i64) -> (r: Timestamp)
        requires
            i64::MIN <= millis * NANOS_PER_MILLI <= i64::MAX,
        ensures
            r@ == millis * NANOS_PER_MILLI,
    {
        Timestamp(millis * 1_000_000)
    }

    /// The instant `nanos` nanoseconds after the epoch.
    pub fn from_unix_nanos(nanos: i64) -> (r: Timestamp)
        ensures
            r@ == nanos,
    {
        Timestamp(nanos)
    }

    /// Whole seconds since the epoch, rounded towards the past.
    pub fn unix_secs(&self) -> (r: i64)
        ensures
            r == self@ / (NANOS_PER_SEC as int),
    {
        floor_div(self.0, 1_000_000_000)
    }

    /// Whole milliseconds since the epoch, rounded towards the past.
    pub fn unix_millis(&self) -> (r: i64)
        ensures
            r == self@ / (NANOS_PER_MILLI as int),
    {
        floor_div(self.0, 1_000_000)
    }

    /// Nanoseconds since the epoch.
    pub fn unix_nanos(&self) -> (r: i64)
        ensures
            r == self@,
    {
        self.0
    }

    /// The instant as `YYYY-MM-DD HH:MM:SS`.
    pub fn to_string(&self) -> (r: String)
        ensures
            r@ == utc_text(self@),
    {
        format_utc(self.0)
    }
}

impl core::ops::Add<Duration> for Timestamp {
    type Output = Timestamp;

    fn add(self, rhs: Duration) -> (r: Timestamp) {
        let sum: i128 = self.0 as i128 + rhs.0 as i128;
        Timestamp(sum as i64)
    }
}

impl vstd::std_specs::ops::AddSpecImpl<Duration> for Timestamp {
    open spec fn obeys_add_spec() -> bool {
        true
    }

    open spec fn add_req(self, rhs: Duration) -> bool {
        self@ + rhs@ <= i64::MAX
    }

    open spec fn add_spec(self, rhs: Duration) -> Timestamp {
        Timestamp((self@ + rhs@) as i64)
    }
}

impl core::ops::Sub<Duration> for Timestamp {
    type Output = Timestamp;

    fn sub(self, rhs: Duration) -> (r: Timestamp) {
        let diff: i128 = self.0 as i128 - rhs.0 as i128;
        Timestamp(diff as i64)
    }
}

impl vstd::std_specs::ops::SubSpecImpl<Duration> for Timestamp {
    open spec fn obeys_sub_spec() -> bool {
        true
    }

    open spec fn sub_req(self, rhs: Duration) -> bool {
        i64::MIN <= self@ - rhs@
    }

    open spec fn sub_spec(self, rhs: Duration) -> Timestamp {
        Timestamp((self@ - rhs@) as i64)
    }
}

/// `n` divided by a positive `d`, rounded down.
fn floor_div(n: i64, d: i64) -> (r: i64)
    requires
        d > 0,
    ensures
        r == n as int / d as int,
{
    if n >= 0 {
        n / d
    } else {
        let p: i64 = -(n + 1);
        let q: i64 = p / d;
        assert(n as int / d as int == -(q as int) - 1) by (nonlinear_arith)
            requires
                n < 0,
                d > 0,
                p == -(n + 1),
                q == p / d,
        ;
        -q - 1
    }
}

} // verus!
