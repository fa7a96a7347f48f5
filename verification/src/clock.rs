//! Time as the generator sees it: whole ticks of one millisecond, counted
//! from an epoch, on top of nanoseconds since the Unix epoch.

use vstd::prelude::*;

verus! {

/// Length of one tick in nanoseconds: one millisecond.
pub const SNOWFLAKE_TIME_UNIT: i64 = 1_000_000;

/// The largest tick that a time in nanoseconds can give.
pub const MAX_TICK: i64 = 9_223_372_036_854;

/// The default epoch, 2022-01-01 00:00:00 UTC, in ticks since the Unix epoch.
pub const DEFAULT_START_TIME: i64 = 1_640_995_200_000;

/// The tick in which the time `nanos` lies: nanoseconds since the Unix epoch
/// divided by the tick length, rounded towards zero.
pub open spec fn ticks(nanos: int) -> int {
    if nanos >= 0 {
        nanos / 1_000_000
    } else {
        -((-nanos) / 1_000_000)
    }
}

/// Ticks from the epoch tick `start_time` to the time `now_nanos`.
pub open spec fn ticks_since(start_time: int, now_nanos: int) -> int {
    ticks(now_nanos) - start_time
}

/// How long to wait, in nanoseconds, until the clock that reads `now_nanos`
/// has moved `overtime` tick boundaries on: `overtime` whole ticks less the
/// part of the current tick that is already over.
pub open spec fn wait_nanos(overtime: nat, now_nanos: int) -> int {
    overtime * 1_000_000 - now_nanos % 1_000_000
}

/// A span of time to wait: whole seconds and the nanoseconds beyond them.
#[derive(Clone, Copy, Debug, PartialEq, Eq, Structural)]
pub struct Wait {
    /// Whole seconds.
    pub secs: u64,
    /// Nanoseconds beyond the whole seconds, below one thousand million.
    pub nanos: u32,
}

impl Wait {
    /// The whole span in nanoseconds.
    pub open spec fn total_nanos(self) -> nat {
        self.secs as nat * 1_000_000_000 + self.nanos as nat
    }
}

/// What the result of `chrono::TimeZone::with_ymd_and_hms`, called on `Utc`
/// and read through `chrono::DateTime::timestamp_nanos_opt`, is for a civil
/// date and time of day: its nanoseconds since the Unix epoch, or `None`
/// where the date does not exist or the count does not fit 64 bits.
pub uninterp spec fn utc_civil_nanos(
    year: int,
    month: int,
    day: int,
    hour: int,
    min: int,
    sec: int,
) -> Option<i64>;

/// Calls `chrono::Utc::now` and reads the result through
/// `chrono::DateTime::timestamp_nanos_opt`. Trusted: when a number comes
/// back it is not negative, because `Utc::now` builds its value from the
/// time passed since the Unix epoch. (`Utc::now` panics on a machine whose
/// clock stands before 1970.)
#[verifier::external_body]
fn utc_now_nanos() -> (r: Option<i64>)
    ensures
        r matches Some(n) ==> n >= 0,
{
    chrono::Utc::now().timestamp_nanos_opt()
}

/// Calls `chrono::TimeZone::with_ymd_and_hms` on `Utc` and reads the one
/// result, if there is exactly one, through
/// `chrono::DateTime::timestamp_nanos_opt`. Trusted: the result is a
/// function of the six numbers, and midnight before 1 January 2022 lies
/// 1 640 995 200 seconds after the Unix epoch.
#[verifier::external_body]
fn utc_nanos_of(year: i32, month: u32, day: u32, hour: u32, min: u32, sec: u32) -> (r: Option<i64>)
    ensures
        r == utc_civil_nanos(year as int, month as int, day as int, hour as int, min as int, sec as int),
        year == 2022 && month == 1 && day == 1 && hour == 0 && min == 0 && sec == 0 ==> r == Some(
            1_640_995_200_000_000_000i64,
        ),
{
    match chrono::TimeZone::with_ymd_and_hms(&chrono::Utc, year, month, day, hour, min, sec).single() {
        Some(time) => time.timestamp_nanos_opt(),
        None => None,
    }
}

/// The time now, in nanoseconds since the Unix epoch; 0 where that count
/// does not fit 64 bits.
pub fn now_nanos() -> (now: i64)
    ensures
        now >= 0,
{
    match utc_now_nanos() {
        Some(nanos) => nanos,
        None => 0,
    }
}

/// The default epoch in ticks since the Unix epoch.
pub fn default_start_time() -> (start_time: i64)
    ensures
        start_time == DEFAULT_START_TIME,
{
    match utc_nanos_of(2022, 1, 1, 0, 0, 0) {
        Some(nanos) => to_snowflake_time(nanos),
        None => 0,
    }
}

/// Turns nanoseconds since the Unix epoch into ticks.
pub fn to_snowflake_time(nanos: i64) -> (tick: i64)
    ensures
        tick == ticks(nanos as int),
        -MAX_TICK <= tick <= MAX_TICK,
{
    nanos / SNOWFLAKE_TIME_UNIT
}

/// Ticks elapsed from the epoch tick `start_time` to the time `now_nanos`.
pub fn current_elapsed_time(start_time: i64, now_nanos: i64) -> (elapsed: i64)
    requires
        -MAX_TICK <= start_time <= MAX_TICK,
    ensures
        elapsed == ticks_since(start_time as int, now_nanos as int),
        -2 * MAX_TICK <= elapsed <= 2 * MAX_TICK,
{
    to_snowflake_time(now_nanos) - start_time
}

/// How long a caller whose generator ran `overtime` ticks ahead of the clock
/// has to wait, when the clock reads `now_nanos`.
pub fn sleep_time(overtime: u64, now_nanos: i64) -> (wait: Wait)
    requires
        overtime >= 1,
        now_nanos >= 0,
    ensures
        wait.total_nanos() == wait_nanos(overtime as nat, now_nanos as int),
        wait.nanos < 1_000_000_000,
        (overtime - 1) * 1_000_000 < wait.total_nanos() <= overtime * 1_000_000,
{
    let over: i64 = now_nanos % SNOWFLAKE_TIME_UNIT;
    if over == 0 {
        let millis: u32 = (overtime % 1000) as u32;
        Wait { secs: overtime / 1000, nanos: millis * 1_000_000 }
    } else {
        let whole: u64 = overtime - 1;
        let millis: u32 = (whole % 1000) as u32;
        let rest: u32 = (SNOWFLAKE_TIME_UNIT - over) as u32;
        Wait { secs: whole / 1000, nanos: millis * 1_000_000 + rest }
    }
}

/// Where the epoch falls on a tick boundary and does not lie after `now`,
/// the ticks elapsed are the time passed since the epoch, divided by the
/// tick length.
pub proof fn lemma_ticks_since_epoch(start_nanos: int, now_nanos: int)
    requires
        0 <= start_nanos <= now_nanos,
        start_nanos % 1_000_000 == 0,
    ensures
        ticks_since(ticks(start_nanos), now_nanos) == (now_nanos - start_nanos) / 1_000_000,
{
}

/// Whatever the epoch, the ticks elapsed and the time passed since the
/// epoch, divided by the tick length, differ by one at most.
pub proof fn lemma_ticks_since_any_epoch(start_nanos: int, now_nanos: int)
    requires
        0 <= start_nanos <= now_nanos,
    ensures
        (now_nanos - start_nanos) / 1_000_000 <= ticks_since(ticks(start_nanos), now_nanos) <= (
        now_nanos - start_nanos) / 1_000_000 + 1,
{
}

} // verus!
