//! Skipping an index that is known to fail, and saying so now and then.
//!
//! Deadlines are measured on a monotonic clock. On a wall clock that steps
//! back, a breaker that had just opened would stay open for the size of the
//! step, and no query would be made that could close it.

use std::time::{Duration, Instant};
use vstd::prelude::*;

verus! {

/// Opens after a number of consecutive outages, for a while.
#[derive(Debug)]
pub struct Breaker {
    threshold: u32,
    cooldown: Duration,
    base: Instant,
    consecutive_failures: u32,
    /// Milliseconds since `base`; 0 means closed.
    open_until_ms: u64,
}

/// The model of a [`Breaker`].
pub struct BreakerView {
    pub threshold: u32,
    pub cooldown_ms: u64,
    pub base: Instant,
    pub consecutive_failures: u32,
    pub open_until_ms: u64,
}

impl View for Breaker {
    type V = BreakerView;

    closed spec fn view(&self) -> BreakerView {
        BreakerView {
            threshold: self.threshold,
            cooldown_ms: crate::clock::millis(self.cooldown),
            base: self.base,
            consecutive_failures: self.consecutive_failures,
            open_until_ms: self.open_until_ms,
        }
    }
}

/// Whether a breaker is open at a time.
pub open spec fn is_open(v: BreakerView, now_ms: u64) -> bool {
    v.open_until_ms > now_ms
}

/// A breaker after a query was answered.
pub open spec fn after_success(v: BreakerView) -> BreakerView {
    BreakerView { consecutive_failures: 0, open_until_ms: 0, ..v }
}

/// The count after one more failure.
pub open spec fn one_more(failures: u32) -> u32 {
    if failures == u32::MAX {
        0
    } else {
        (failures + 1) as u32
    }
}

/// A breaker after an outage at a time. The outage that reaches the threshold
/// opens it and starts the count anew; a threshold of 0 never opens it.
pub open spec fn after_failure(v: BreakerView, now_ms: u64) -> BreakerView {
    let failures = one_more(v.consecutive_failures);
    if v.threshold > 0 && failures >= v.threshold {
        BreakerView {
            consecutive_failures: 0,
            open_until_ms: crate::clock::deadline(now_ms, v.cooldown_ms),
            ..v
        }
    } else {
        BreakerView { consecutive_failures: failures, ..v }
    }
}

/// Whether the count of a breaker is below its threshold.
pub open spec fn breaker_is_valid(v: BreakerView) -> bool {
    v.threshold > 0 ==> v.consecutive_failures < v.threshold
}

impl Breaker {
    /// A closed breaker.
    pub fn new(threshold: u32, cooldown: Duration) -> (r: Breaker)
        ensures
            r@ == (BreakerView {
                threshold,
                cooldown_ms: crate::clock::millis(cooldown),
                base: r@.base,
                consecutive_failures: 0,
                open_until_ms: 0,
            }),
            breaker_is_valid(r@),
    {
        Breaker {
            threshold,
            cooldown,
            base: crate::clock::instant_now(),
            consecutive_failures: 0,
            open_until_ms: 0,
        }
    }

    /// The milliseconds from when the breaker was made to the instant that the
    /// monotonic clock shows.
    pub fn elapsed_ms(&self) -> (r: u64)
        ensures
            exists|now: Instant| r == #[trigger] crate::clock::elapsed(self@.base, now),
    {
        assert(self@.base == self.base);
        crate::clock::elapsed_ms(&self.base)
    }

    /// Whether the breaker is open at a time.
    pub fn is_open_at(&self, now_ms: u64) -> (r: bool)
        ensures
            r == is_open(self@, now_ms),
    {
        self.open_until_ms > now_ms
    }

    /// Whether the breaker is open now.
    pub fn is_open(&self) -> (r: bool)
        ensures
            exists|now: Instant|
                r == is_open(self@, #[trigger] crate::clock::elapsed(self@.base, now)),
    {
        let now_ms: u64 = self.elapsed_ms();
        self.is_open_at(now_ms)
    }

    /// Notes that a query was answered, which closes the breaker.
    pub fn record_success(&mut self)
        ensures
            final(self)@ == after_success(old(self)@),
            breaker_is_valid(final(self)@),
    {
        self.consecutive_failures = 0;
        self.open_until_ms = 0;
    }

    /// Notes an outage at a time.
    pub fn record_failure_at(&mut self, now_ms: u64)
        ensures
            final(self)@ == after_failure(old(self)@, now_ms),
            breaker_is_valid(old(self)@) ==> breaker_is_valid(final(self)@),
    {
        let failures: u32 = self.consecutive_failures.wrapping_add(1);
        if self.threshold > 0 && failures >= self.threshold {
            self.open_until_ms = crate::clock::deadline_after(
                now_ms,
                crate::clock::duration_ms(&self.cooldown),
            );
            self.consecutive_failures = 0;
        } else {
            self.consecutive_failures = failures;
        }
    }

    /// Notes an outage now.
    pub fn record_failure(&mut self)
        ensures
            exists|now: Instant|
                final(self)@ == after_failure(
                    old(self)@,
                    #[trigger] crate::clock::elapsed(old(self)@.base, now),
                ),
            breaker_is_valid(old(self)@) ==> breaker_is_valid(final(self)@),
    {
        let now_ms: u64 = self.elapsed_ms();
        self.record_failure_at(now_ms);
    }
}

/// A breaker after outages at the given times, none of which was followed by an
/// answered query.
pub open spec fn after_failures(v: BreakerView, times: Seq<u64>) -> BreakerView
    decreases times.len(),
{
    if times.len() == 0 {
        v
    } else {
        after_failure(after_failures(v, times.drop_last()), times.last())
    }
}

/// Fewer consecutive outages than the threshold leave a breaker as open or
/// closed as it was.
pub proof fn breaker_tolerates_fewer_failures_than_its_threshold(
    v: BreakerView,
    times: Seq<u64>,
)
    requires
        v.consecutive_failures == 0,
        times.len() < v.threshold,
    ensures
        after_failures(v, times).open_until_ms == v.open_until_ms,
        after_failures(v, times).consecutive_failures == times.len(),
        after_failures(v, times).threshold == v.threshold,
        after_failures(v, times).cooldown_ms == v.cooldown_ms,
    decreases times.len(),
{
    if times.len() > 0 {
        breaker_tolerates_fewer_failures_than_its_threshold(v, times.drop_last());
    }
}

/// As many consecutive outages as the threshold open a breaker from the last of
/// them until the cooldown has passed, and not longer.
pub proof fn breaker_opens_at_its_threshold(v: BreakerView, times: Seq<u64>, now_ms: u64)
    requires
        v.consecutive_failures == 0,
        v.threshold > 0,
        times.len() == v.threshold,
        times.last() + v.cooldown_ms <= u64::MAX,
    ensures
        times.last() <= now_ms < times.last() + v.cooldown_ms ==> is_open(
            after_failures(v, times),
            now_ms,
        ),
        now_ms > 0 && now_ms >= times.last() + v.cooldown_ms ==> !is_open(
            after_failures(v, times),
            now_ms,
        ),
        after_failures(v, times).consecutive_failures == 0,
{
    breaker_tolerates_fewer_failures_than_its_threshold(v, times.drop_last());
}

/// One answered query closes a breaker at once and forgets the outages before
/// it.
pub proof fn one_answer_closes_the_breaker(v: BreakerView, now_ms: u64)
    ensures
        !is_open(after_success(v), now_ms),
        after_success(v).consecutive_failures == 0,
{
}

/// A breaker never gets stuck: from its deadline on it is closed, whatever
/// happened before.
pub proof fn open_breaker_closes_by_itself(v: BreakerView, now_ms: u64)
    requires
        now_ms >= v.open_until_ms,
    ensures
        !is_open(v, now_ms),
{
}

/// A breaker with threshold 0 never opens.
pub proof fn threshold_zero_never_opens(v: BreakerView, times: Seq<u64>, now_ms: u64)
    requires
        v.threshold == 0,
        v.open_until_ms == 0,
    ensures
        !is_open(after_failures(v, times), now_ms),
        after_failures(v, times).threshold == 0,
        after_failures(v, times).open_until_ms == 0,
    decreases times.len(),
{
    if times.len() > 0 {
        threshold_zero_never_opens(v, times.drop_last(), now_ms);
    }
}

/// Lets one message through in each interval.
#[derive(Debug)]
pub struct LogThrottle {
    base: Instant,
    interval: Duration,
    /// Milliseconds since `base` before which no message is let through.
    next_ms: u64,
}

/// The model of a [`LogThrottle`].
pub struct ThrottleView {
    pub base: Instant,
    pub interval_ms: u64,
    pub next_ms: u64,
}

impl View for LogThrottle {
    type V = ThrottleView;

    closed spec fn view(&self) -> ThrottleView {
        ThrottleView {
            base: self.base,
            interval_ms: crate::clock::millis(self.interval),
            next_ms: self.next_ms,
        }
    }
}

/// Whether a message is let through at a time.
pub open spec fn allows(v: ThrottleView, now_ms: u64) -> bool {
    v.next_ms <= now_ms
}

/// A throttle after a message was offered at a time.
pub open spec fn after_offer(v: ThrottleView, now_ms: u64) -> ThrottleView {
    if allows(v, now_ms) {
        ThrottleView { next_ms: crate::clock::deadline(now_ms, v.interval_ms), ..v }
    } else {
        v
    }
}

impl LogThrottle {
    /// A throttle that lets the first message through.
    pub fn new(interval: Duration) -> (r: LogThrottle)
        ensures
            r@ == (ThrottleView {
                base: r@.base,
                interval_ms: crate::clock::millis(interval),
                next_ms: 0,
            }),
    {
        LogThrottle { base: crate::clock::instant_now(), interval, next_ms: 0 }
    }

    /// The milliseconds from when the throttle was made to the instant that the
    /// monotonic clock shows.
    pub fn elapsed_ms(&self) -> (r: u64)
        ensures
            exists|now: Instant| r == #[trigger] crate::clock::elapsed(self@.base, now),
    {
        assert(self@.base == self.base);
        crate::clock::elapsed_ms(&self.base)
    }

    /// Offers a message at a time.
    pub fn allow_at(&mut self, now_ms: u64) -> (r: bool)
        ensures
            r == allows(old(self)@, now_ms),
            final(self)@ == after_offer(old(self)@, now_ms),
    {
        if self.next_ms > now_ms {
            return false;
        }
        self.next_ms = crate::clock::deadline_after(
            now_ms,
            crate::clock::duration_ms(&self.interval),
        );
        true
    }

    /// Offers a message now.
    pub fn allow(&mut self) -> (r: bool)
        ensures
            exists|now: Instant|
                ({
                    let now_ms = #[trigger] crate::clock::elapsed(old(self)@.base, now);
                    r == allows(old(self)@, now_ms) && final(self)@ == after_offer(
                        old(self)@,
                        now_ms,
                    )
                }),
    {
        let now_ms: u64 = self.elapsed_ms();
        self.allow_at(now_ms)
    }
}

/// A throttle lets its first message through.
pub proof fn first_message_gets_through(v: ThrottleView, now_ms: u64)
    requires
        v.next_ms == 0,
    ensures
        allows(v, now_ms),
{
}

/// After a message, none is let through before the interval has passed, and one
/// is as soon as it has.
pub proof fn one_message_per_interval(v: ThrottleView, first_ms: u64, later_ms: u64)
    requires
        allows(v, first_ms),
        first_ms + v.interval_ms <= u64::MAX,
        later_ms > 0,
    ensures
        allows(after_offer(v, first_ms), later_ms) <==> later_ms >= first_ms + v.interval_ms,
{
}

} // verus!
