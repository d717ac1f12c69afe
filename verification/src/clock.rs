//! Time, in whole milliseconds.

use std::time::{Duration, Instant, SystemTime};
use vstd::prelude::*;

verus! {

/// A point of the monotonic clock, carried without being looked into.
#[verifier::external_type_specification]
#[verifier::external_body]
pub struct ExInstant(std::time::Instant);

/// A point of the wall clock, carried without being looked into.
#[verifier::external_type_specification]
#[verifier::external_body]
pub struct ExSystemTime(std::time::SystemTime);

/// The error of a time before another, carried without being looked into.
#[verifier::external_type_specification]
#[verifier::external_body]
pub struct ExSystemTimeError(std::time::SystemTimeError);

/// The time from one instant to another, which
/// `Instant::saturating_duration_since` returns; none where the second comes
/// before the first.
pub uninterp spec fn time_between(base: Instant, now: Instant) -> Duration;

/// What `SystemTime::duration_since` returns for a time and the epoch; `None`
/// for a time before it.
pub uninterp spec fn time_since_epoch(time: SystemTime) -> Option<Duration>;

/// The nanoseconds of a duration, which `Duration::as_nanos` returns.
pub uninterp spec fn duration_nanos(duration: Duration) -> u128;

/// The whole milliseconds of a duration.
pub open spec fn duration_millis(duration: Duration) -> u128 {
    (duration_nanos(duration) / 1_000_000) as u128
}

/// Calls `Duration::as_nanos`: the nanoseconds of a duration.
#[verifier::external_body]
fn nanos_of(duration: &Duration) -> (r: u128)
    ensures
        r == duration_nanos(*duration),
{
    duration.as_nanos()
}

/// Calls `Duration::as_millis`: the whole milliseconds of a duration, of which
/// each is a million nanoseconds.
#[verifier::external_body]
fn millis_of(duration: &Duration) -> (r: u128)
    ensures
        r == duration_millis(*duration),
{
    duration.as_millis()
}

/// Calls `Duration::from_millis`. The duration holds a million nanoseconds for
/// each millisecond.
#[verifier::external_body]
pub(crate) fn from_millis(millis: u64) -> (r: Duration)
    ensures
        duration_nanos(r) == millis * 1_000_000,
{
    Duration::from_millis(millis)
}

/// Calls `Duration::from_secs`. The duration holds a billion nanoseconds for
/// each second.
#[verifier::external_body]
pub(crate) fn from_secs(secs: u64) -> (r: Duration)
    ensures
        duration_nanos(r) == secs * 1_000_000_000,
{
    Duration::from_secs(secs)
}

/// Calls `Instant::now`. Nothing is claimed of the time that it reads.
#[verifier::external_body]
pub(crate) fn instant_now() -> (r: Instant)
{
    Instant::now()
}

/// Calls `Instant::saturating_duration_since`: the time from the first instant to
/// the second, none where the second comes before the first.
#[verifier::external_body]
fn time_since(base: &Instant, now: &Instant) -> (r: Duration)
    ensures
        r == time_between(*base, *now),
{
    now.saturating_duration_since(*base)
}

/// Calls `SystemTime::now`. Nothing is claimed of the time that it reads.
#[verifier::external_body]
fn wall_clock() -> (r: SystemTime)
{
    SystemTime::now()
}

/// Calls `SystemTime::duration_since` with the epoch: the time that has passed
/// since it, or an error for a time before it.
#[verifier::external_body]
fn since_epoch(time: &SystemTime) -> (r: Result<Duration, std::time::SystemTimeError>)
    ensures
        match r {
            Ok(duration) => time_since_epoch(*time) == Some(duration),
            Err(_) => time_since_epoch(*time) is None,
        },
{
    time.duration_since(std::time::UNIX_EPOCH)
}

/// The milliseconds of a duration, modulo 2^64.
pub open spec fn millis(duration: Duration) -> u64 {
    duration_millis(duration) as u64
}

/// The milliseconds of a duration, modulo 2^64.
pub fn duration_ms(duration: &Duration) -> (r: u64)
    ensures
        r == millis(*duration),
{
    #[verifier::truncate]
    (millis_of(duration) as u64)
}

/// The milliseconds from one instant to another, modulo 2^64.
pub open spec fn elapsed(base: Instant, now: Instant) -> u64 {
    millis(time_between(base, now))
}

/// The milliseconds that have passed from `base` to the instant that the
/// monotonic clock shows. Nothing is stated of which instant that is.
pub(crate) fn elapsed_ms(base: &Instant) -> (r: u64)
    ensures
        exists|now: Instant| r == #[trigger] elapsed(*base, now),
{
    let now = instant_now();
    let passed: u64 = duration_ms(&time_since(base, &now));
    assert(passed == elapsed(*base, now));
    passed
}

/// The milliseconds of an optional time to live, 0 where there is none.
pub fn ttl_ms(ttl: &Option<Duration>) -> (r: u64)
    ensures
        r == match *ttl {
            Some(duration) => millis(duration),
            None => 0,
        },
{
    match ttl {
        Some(duration) => duration_ms(duration),
        None => 0,
    }
}

/// Whether a time to live runs out: there is one, and it is not zero.
pub fn expires(ttl: &Option<Duration>) -> (r: bool)
    ensures
        r == (*ttl matches Some(duration) && duration_nanos(duration) > 0),
{
    match ttl {
        Some(duration) => nanos_of(duration) > 0,
        None => false,
    }
}

/// The milliseconds of a time since the epoch, 0 for a time before it.
pub open spec fn epoch_millis(since_epoch: Option<Duration>) -> i64 {
    match since_epoch {
        Some(duration) => duration_millis(duration) as i64,
        None => 0,
    }
}

/// The milliseconds of a time since the epoch, 0 for a time before it.
pub fn epoch_ms(since_epoch: &Option<Duration>) -> (r: i64)
    ensures
        r == epoch_millis(*since_epoch),
{
    match since_epoch {
        Some(duration) =>
            #[verifier::truncate]
            (millis_of(duration) as i64),
        None => 0,
    }
}

/// The milliseconds since the epoch, 0 where the clock stands before it.
pub fn now_ms() -> (r: i64)
    ensures
        exists|time: SystemTime| r == epoch_millis(#[trigger] time_since_epoch(time)),
{
    let time = wall_clock();
    let passed = match since_epoch(&time) {
        Ok(duration) => Some(duration),
        Err(_) => None,
    };
    assert(passed == time_since_epoch(time));
    epoch_ms(&passed)
}

/// A later deadline than the given time by an interval. It is at least 1, which
/// keeps 0 free to mean that there is none.
pub open spec fn deadline(now_ms: u64, interval_ms: u64) -> u64 {
    if now_ms + interval_ms > u64::MAX {
        u64::MAX
    } else if now_ms + interval_ms == 0 {
        1
    } else {
        (now_ms + interval_ms) as u64
    }
}

/// The given time plus an interval, at least 1.
pub fn deadline_after(now_ms: u64, interval_ms: u64) -> (r: u64)
    ensures
        r == deadline(now_ms, interval_ms),
{
    let at: u64 = now_ms.saturating_add(interval_ms);
    if at == 0 {
        1
    } else {
        at
    }
}

} // verus!
