//! When a rotation is due.
//!
//! Each local calendar day is cut into buckets of `interval` minutes that
//! start at midnight. A rotation is due when none has happened yet, when the
//! last one happened on another day, or when it happened in another bucket of
//! today.

use vstd::prelude::*;

verus! {

/// A point in local time, reduced to what scheduling and persistence read:
/// the calendar day (counted from January 1 of year 1 as day 1), the seconds
/// past local midnight and the nanoseconds past that second.
#[derive(Debug, Clone, Copy, PartialEq, Eq, Structural)]
pub struct Timestamp {
    pub day: i32,
    pub second: u32,
    pub nano: u32,
}

impl Timestamp {
    /// A timestamp made of its three parts.
    pub fn new(day: i32, second: u32, nano: u32) -> (t: Timestamp)
        ensures
            t.day == day,
            t.second == second,
            t.nano == nano,
    {
        Timestamp { day, second, nano }
    }

    /// The machine's current local time.
    pub fn now() -> (t: Timestamp)
        ensures
            t.wf(),
    {
        local_now()
    }

    /// Whole minutes past local midnight.
    pub open spec fn spec_minute_of_day(self) -> int {
        self.second as int / 60
    }

    /// Whole minutes past local midnight.
    pub fn minute_of_day(&self) -> (m: u32)
        ensures
            m == self.spec_minute_of_day(),
    {
        self.second / 60
    }

    /// The bucket of its day that this point falls in, for buckets of
    /// `interval` minutes.
    pub open spec fn spec_bucket(self, interval: u32) -> int
        recommends
            interval > 0,
    {
        self.spec_minute_of_day() / (interval as int)
    }

    /// The bucket of its day that this point falls in.
    pub fn bucket(&self, interval: u32) -> (b: u32)
        requires
            interval > 0,
        ensures
            b == self.spec_bucket(interval),
    {
        self.minute_of_day() / interval
    }

    /// Whether the clock could have produced this value: the seconds stay
    /// within one day.
    pub open spec fn wf(self) -> bool {
        self.second < 86_400
    }
}

/// Whether a rotation is due at `now`, given when the last one happened.
pub open spec fn spec_due(interval: u32, last: Option<Timestamp>, now: Timestamp) -> bool
    recommends
        interval > 0,
{
    match last {
        None => true,
        Some(last) => last.day != now.day || last.spec_bucket(interval) != now.spec_bucket(
            interval,
        ),
    }
}

/// Decides whether a rotation is due at `now`.
///
/// An interval of zero minutes has no buckets; it is a configuration error
/// that [`crate::config::Config::validate`] reports before any scheduling.
pub fn due(interval: u32, last: Option<Timestamp>, now: Timestamp) -> (r: bool)
    requires
        interval > 0,
    ensures
        r == spec_due(interval, last, now),
{
    match last {
        None => true,
        Some(last) => last.day != now.day || last.bucket(interval) != now.bucket(interval),
    }
}

/// Seconds from the given second of the epoch to the next minute boundary:
/// between 1 and 60.
pub open spec fn spec_seconds_till_minute(epoch_seconds: int) -> int {
    60 - epoch_seconds % 60
}

/// Seconds to sleep so as to wake at the next minute boundary.
pub fn seconds_till_minute(epoch_seconds: u64) -> (s: u64)
    ensures
        s == spec_seconds_till_minute(epoch_seconds as int),
        1 <= s <= 60,
{
    60 - epoch_seconds % 60
}

/// The current local time, read from `chrono::Local::now` and reduced to its
/// day count (`Datelike::num_days_from_ce`), its seconds past midnight
/// (`Timelike::num_seconds_from_midnight`) and its nanoseconds
/// (`Timelike::nanosecond`). Nothing is claimed of the value but that the
/// seconds stay within one day, which chrono documents.
#[verifier::external_body]
pub(crate) fn local_now() -> (now: Timestamp)
    ensures
        now.wf(),
{
    let t = chrono::Local::now();
    Timestamp {
        day: chrono::Datelike::num_days_from_ce(&t),
        second: chrono::Timelike::num_seconds_from_midnight(&t),
        nano: chrono::Timelike::nanosecond(&t),
    }
}

/// The seconds since the Unix epoch, read from `chrono::Utc::now` through
/// `DateTime::timestamp`. chrono builds that value from a duration since the
/// epoch, so it is never negative.
#[verifier::external_body]
pub(crate) fn epoch_seconds() -> (secs: i64)
    ensures
        secs >= 0,
{
    chrono::Utc::now().timestamp()
}

/// Decides whether a rotation is due right now, by the machine's local clock.
pub fn should_update_wallpaper(interval: u32, last_run_time: Option<Timestamp>) -> (r: bool)
    requires
        interval > 0,
    ensures
        exists|now: Timestamp| now.wf() && r == #[trigger] spec_due(interval, last_run_time, now),
        last_run_time is None ==> r,
{
    let now = local_now();
    due(interval, last_run_time, now)
}

/// Seconds to sleep from right now so as to wake at the next minute boundary.
pub fn get_seconds_till_minute() -> (s: u64)
    ensures
        exists|epoch_seconds: int|
            epoch_seconds >= 0 && s == #[trigger] spec_seconds_till_minute(epoch_seconds),
        1 <= s <= 60,
{
    let now = epoch_seconds();
    seconds_till_minute(now as u64)
}

/// Within one bucket of one day no second rotation is due: once a rotation
/// has been recorded at `last`, every `now` of the same day and bucket is
/// answered with `false`.
pub proof fn lemma_idempotent_within_bucket(interval: u32, last: Timestamp, now: Timestamp)
    requires
        interval > 0,
        last.day == now.day,
        last.spec_bucket(interval) == now.spec_bucket(interval),
    ensures
        !spec_due(interval, Some(last), now),
        !spec_due(interval, Some(now), now),
{
}

/// A change of calendar day makes a rotation due, whatever the buckets are.
pub proof fn lemma_day_rollover(interval: u32, last: Timestamp, now: Timestamp)
    requires
        last.day != now.day,
    ensures
        spec_due(interval, Some(last), now),
{
}

/// With no rotation on record one is always due.
pub proof fn lemma_first_rotation_due(interval: u32, now: Timestamp)
    ensures
        spec_due(interval, None, now),
{
}

/// Two points of one day that lie in one bucket are less than `interval`
/// minutes apart, and points of one day whose minutes agree lie in one bucket.
pub proof fn lemma_bucket_width(interval: u32, a: Timestamp, b: Timestamp)
    requires
        interval > 0,
    ensures
        a.spec_bucket(interval) == b.spec_bucket(interval) ==> a.spec_minute_of_day()
            - b.spec_minute_of_day() < interval,
        a.spec_minute_of_day() == b.spec_minute_of_day() ==> a.spec_bucket(interval)
            == b.spec_bucket(interval),
        0 <= a.spec_bucket(interval) <= a.spec_minute_of_day(),
{
    let n = interval as int;
    let x = a.spec_minute_of_day();
    let y = b.spec_minute_of_day();
    assert(x == n * (x / n) + x % n && 0 <= x % n < n) by (nonlinear_arith)
        requires
            n > 0,
            x >= 0,
    ;
    assert(y == n * (y / n) + y % n && 0 <= y % n < n) by (nonlinear_arith)
        requires
            n > 0,
            y >= 0,
    ;
    assert(0 <= x / n <= x) by (nonlinear_arith)
        requires
            n > 0,
            x >= 0,
    ;
}

} // verus!
