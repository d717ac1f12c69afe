//! Durations, deadlines, breaker and log.

use std::time::{Duration, Instant, SystemTime};
use vstd::prelude::*;

use crate::breaker::{Breaker, BreakerView, LogThrottle, ThrottleView};
use crate::client::PrefixQuery;
use crate::clock::{deadline_after, duration_ms, epoch_ms, expires, now_ms, ttl_ms};
use crate::query::{QueryStart, QueryState};

verus! {

/// A duration is counted in whole milliseconds, of which each is a million
/// nanoseconds.
pub proof fn durations_are_counted_in_milliseconds(duration: Duration, r: u64)
    requires
        call_ensures(duration_ms, (&duration,), r),
        crate::clock::duration_nanos(duration) / 1_000_000 <= u64::MAX,
    ensures
        r == crate::clock::duration_nanos(duration) as int / 1_000_000,
{
}

/// A time to live is counted in milliseconds, and is 0 where there is none. It
/// runs out where there is one of any length.
pub proof fn a_time_to_live_is_counted_in_milliseconds(
    ttl: Option<Duration>,
    r: u64,
    runs_out: bool,
)
    requires
        call_ensures(ttl_ms, (&ttl,), r),
        call_ensures(expires, (&ttl,), runs_out),
        ttl is Some ==> crate::clock::duration_nanos(ttl->0) / 1_000_000 <= u64::MAX,
    ensures
        ttl is None ==> r == 0 && !runs_out,
        ttl is Some ==> r == crate::clock::duration_nanos(ttl->0) as int / 1_000_000,
        ttl is Some ==> (runs_out <==> crate::clock::duration_nanos(ttl->0) > 0),
{
}

/// The time is told in milliseconds since the epoch, and is 0 before it.
pub proof fn the_time_is_told_in_milliseconds(since_epoch: Option<Duration>, r: i64)
    requires
        call_ensures(epoch_ms, (&since_epoch,), r),
        since_epoch is Some ==> crate::clock::duration_nanos(since_epoch->0) / 1_000_000
            <= i64::MAX,
    ensures
        since_epoch is None ==> r == 0,
        since_epoch is Some ==> r == crate::clock::duration_nanos(since_epoch->0) as int
            / 1_000_000,
{
}

/// A deadline is the time plus the interval, as far as it can be counted, and
/// never 0.
pub proof fn a_deadline_is_the_time_plus_the_interval(now_ms: u64, interval_ms: u64, r: u64)
    requires
        call_ensures(deadline_after, (now_ms, interval_ms), r),
    ensures
        now_ms + interval_ms == 0 ==> r == 1,
        0 < now_ms + interval_ms <= u64::MAX ==> r == now_ms + interval_ms,
        now_ms + interval_ms > u64::MAX ==> r == u64::MAX,
{
}

/// A breaker starts closed, set as it was asked for.
pub proof fn a_breaker_starts_closed(threshold: u32, cooldown: Duration, r: Breaker, ms: u64)
    requires
        call_ensures(Breaker::new, (threshold, cooldown), r),
        call_ensures(duration_ms, (&cooldown,), ms),
    ensures
        r@.threshold == threshold,
        r@.cooldown_ms == ms,
        r@.consecutive_failures == 0,
        r@.open_until_ms == 0,
{
}

/// A breaker is open before its deadline, and closed from then on.
pub proof fn a_breaker_is_open_before_its_deadline(breaker: Breaker, now_ms: u64, r: bool)
    requires
        call_ensures(Breaker::is_open_at, (&breaker, now_ms), r),
    ensures
        r <==> now_ms < breaker@.open_until_ms,
        crate::breaker::is_open(breaker@, now_ms) <==> now_ms < breaker@.open_until_ms,
{
}

/// An answer closes a breaker and starts its count anew; nothing else of it
/// changes.
pub proof fn an_answer_closes_a_breaker(v: BreakerView)
    ensures
        ({
            let next = crate::breaker::after_success(v);
            &&& next.consecutive_failures == 0
            &&& next.open_until_ms == 0
            &&& next.threshold == v.threshold
            &&& next.cooldown_ms == v.cooldown_ms
            &&& next.base == v.base
        }),
{
}

/// An outage counts. The one that reaches the threshold opens the breaker for the
/// cooldown and starts the count anew; any other one leaves it as open or closed
/// as it was. A threshold of 0 is never reached.
pub proof fn an_outage_counts(v: BreakerView, now_ms: u64)
    requires
        v.consecutive_failures < u32::MAX,
    ensures
        ({
            let next = crate::breaker::after_failure(v, now_ms);
            let trips = v.threshold > 0 && v.consecutive_failures + 1 >= v.threshold;
            &&& next.threshold == v.threshold
            &&& next.cooldown_ms == v.cooldown_ms
            &&& next.base == v.base
            &&& !trips ==> next.consecutive_failures == v.consecutive_failures + 1
                && next.open_until_ms == v.open_until_ms
            &&& trips ==> next.consecutive_failures == 0
            &&& trips && 0 < now_ms + v.cooldown_ms <= u64::MAX ==> next.open_until_ms == now_ms
                + v.cooldown_ms
            &&& trips && now_ms + v.cooldown_ms > u64::MAX ==> next.open_until_ms == u64::MAX
            &&& trips && now_ms + v.cooldown_ms == 0 ==> next.open_until_ms == 1
        }),
{
}

/// A log lets the first message through.
pub proof fn a_log_starts_open(interval: Duration, r: LogThrottle, ms: u64)
    requires
        call_ensures(LogThrottle::new, (interval,), r),
        call_ensures(duration_ms, (&interval,), ms),
    ensures
        r@.interval_ms == ms,
        r@.next_ms == 0,
{
}

/// A message that is let through closes the log for its interval, and one that is
/// not changes nothing.
pub proof fn a_message_closes_the_log_for_its_interval(v: ThrottleView, now_ms: u64)
    ensures
        ({
            let next = crate::breaker::after_offer(v, now_ms);
            &&& crate::breaker::allows(v, now_ms) <==> v.next_ms <= now_ms
            &&& now_ms < v.next_ms ==> next == v
            &&& next.interval_ms == v.interval_ms
            &&& next.base == v.base
            &&& v.next_ms <= now_ms && 0 < now_ms + v.interval_ms <= u64::MAX ==> next.next_ms
                == now_ms + v.interval_ms
            &&& v.next_ms <= now_ms && now_ms + v.interval_ms > u64::MAX ==> next.next_ms
                == u64::MAX
            &&& v.next_ms <= now_ms && now_ms + v.interval_ms == 0 ==> next.next_ms == 1
        }),
{
}

/// The time is read from the wall clock, in milliseconds since the epoch.
///
/// `time` is what the clock showed.
pub proof fn the_time_is_read_from_the_wall_clock(r: i64) -> (time: SystemTime)
    requires
        call_ensures(now_ms, (), r),
    ensures
        crate::clock::time_since_epoch(time) is None ==> r == 0,
        (crate::clock::time_since_epoch(time) is Some && crate::clock::duration_nanos(
            crate::clock::time_since_epoch(time)->0,
        ) / 1_000_000 <= i64::MAX) ==> r == crate::clock::duration_nanos(
            crate::clock::time_since_epoch(time)->0,
        ) as int / 1_000_000,
{
    choose|time: SystemTime|
        r == crate::clock::epoch_millis(#[trigger] crate::clock::time_since_epoch(time))
}

/// A breaker and a log measure the milliseconds since they were made.
///
/// The instants are what the clock showed.
pub proof fn breaker_and_log_measure_the_time_since_they_were_made(
    breaker: Breaker,
    log: LogThrottle,
    breaker_ms: u64,
    log_ms: u64,
) -> (now: (Instant, Instant))
    requires
        call_ensures(Breaker::elapsed_ms, (&breaker,), breaker_ms),
        call_ensures(LogThrottle::elapsed_ms, (&log,), log_ms),
    ensures
        crate::clock::duration_nanos(crate::clock::time_between(breaker@.base, now.0)) / 1_000_000
            <= u64::MAX ==> breaker_ms == crate::clock::duration_nanos(
            crate::clock::time_between(breaker@.base, now.0),
        ) as int / 1_000_000,
        crate::clock::duration_nanos(crate::clock::time_between(log@.base, now.1)) / 1_000_000
            <= u64::MAX ==> log_ms == crate::clock::duration_nanos(
            crate::clock::time_between(log@.base, now.1),
        ) as int / 1_000_000,
{
    let first = choose|now: Instant|
        breaker_ms == #[trigger] crate::clock::elapsed(breaker@.base, now);
    let second = choose|now: Instant| log_ms == #[trigger] crate::clock::elapsed(log@.base, now);
    (first, second)
}

/// A breaker is open now where it is open at the time since it was made.
///
/// `now` is what the clock showed.
pub proof fn a_breaker_is_open_now_by_its_own_clock(breaker: Breaker, r: bool) -> (now: Instant)
    requires
        call_ensures(Breaker::is_open, (&breaker,), r),
    ensures
        crate::clock::duration_nanos(crate::clock::time_between(breaker@.base, now)) / 1_000_000
            <= u64::MAX ==> (r <==> (crate::clock::duration_nanos(
            crate::clock::time_between(breaker@.base, now),
        ) as int / 1_000_000) < breaker@.open_until_ms),
{
    choose|now: Instant|
        r == crate::breaker::is_open(
            breaker@,
            #[trigger] crate::clock::elapsed(breaker@.base, now),
        )
}

/// A query begins now as it begins at the time since the breaker was made.
///
/// `now` is what the clock showed.
pub proof fn a_query_begins_now_by_the_clock_of_the_breaker(
    state: QueryState,
    query: PrefixQuery,
    r: QueryStart,
) -> (now: Instant)
    requires
        call_ensures(QueryState::begin, (&state, &query), r),
    ensures
        query.hashes@.len() == 0 ==> r is Answer && r->Answer_0 is NoSignal
            && r->Answer_0->NoSignal_0 is Empty,
        query.hashes@.len() > 0 && crate::clock::duration_nanos(
            crate::clock::time_between(state@.breaker.base, now),
        ) / 1_000_000 <= u64::MAX ==> (r is Send <==> (crate::clock::duration_nanos(
            crate::clock::time_between(state@.breaker.base, now),
        ) as int / 1_000_000) >= state@.breaker.open_until_ms),
        query.hashes@.len() > 0 && r is Answer ==> r->Answer_0 is NoSignal
            && r->Answer_0->NoSignal_0 is Unavailable,
{
    choose|now: Instant|
        crate::query::begins(
            state@,
            query,
            #[trigger] crate::clock::elapsed(state@.breaker.base, now),
            r,
        )
}

} // verus!
