//! The course of a routing query: what is sent, and what the reply means.

use std::time::Instant;
use vstd::prelude::*;

use crate::breaker::{Breaker, BreakerView, LogThrottle, ThrottleView};
use crate::client::{
    NoSignalReason, OutcomeView, PrefixIndexConfig, PrefixIndexOutcome, PrefixQuery,
    SPEC_MISMATCH_LOG_INTERVAL_SECS,
};
use crate::pb::{MatchExternalKvPrefixRequest, MatchExternalKvPrefixResponse};

verus! {

/// What a client remembers from query to query.
#[derive(Debug)]
pub struct QueryState {
    breaker: Breaker,
    spec_mismatch_log: LogThrottle,
}

/// The model of a [`QueryState`].
pub struct QueryStateView {
    pub breaker: BreakerView,
    pub spec_mismatch_log: ThrottleView,
}

impl View for QueryState {
    type V = QueryStateView;

    closed spec fn view(&self) -> QueryStateView {
        QueryStateView {
            breaker: self.breaker@,
            spec_mismatch_log: self.spec_mismatch_log@,
        }
    }
}

/// What a query begins with.
#[derive(Debug)]
pub enum QueryStart {
    /// The outcome, without reaching for the index.
    Answer(PrefixIndexOutcome),
    /// This request is to be sent.
    Send(MatchExternalKvPrefixRequest),
}

/// How a sent request ended.
#[derive(Debug)]
pub enum QueryReply {
    /// The index answered.
    Answered(MatchExternalKvPrefixResponse),
    /// The request failed for this reason.
    Failed(NoSignalReason),
    /// The budget ran out.
    TimedOut,
}

/// What a query ends in.
#[derive(Debug)]
pub struct Settled {
    pub outcome: PrefixIndexOutcome,
    /// Whether a hash-space disagreement is to be reported now.
    pub report_mismatch: bool,
}

/// What a query begins with. One without blocks never reaches the index, and
/// none does while the breaker is open.
pub open spec fn begins(v: QueryStateView, query: PrefixQuery, now_ms: u64, r: QueryStart) -> bool {
    match r {
        QueryStart::Answer(outcome) => if query.hashes@.len() == 0 {
            outcome@ == OutcomeView::NoSignal(NoSignalReason::Empty)
        } else {
            crate::breaker::is_open(v.breaker, now_ms) && outcome@ == OutcomeView::NoSignal(
                NoSignalReason::Unavailable,
            )
        },
        QueryStart::Send(request) => {
            &&& query.hashes@.len() > 0
            &&& !crate::breaker::is_open(v.breaker, now_ms)
            &&& crate::text::texts(request.hashes@) == crate::client::wire_hashes(query.hashes@)
            &&& request.hash_spec == Some(query.spec)
            &&& request.max_blocks == query.max_blocks
            &&& request.top_k == query.top_k
            &&& request.count_as_hit == query.count_as_hit
        },
    }
}

/// Whether an answer tells of a hash-space disagreement and nothing else.
pub open spec fn tells_of_mismatch(reply: QueryReply) -> bool {
    reply matches QueryReply::Answered(response) && crate::client::outcome_of(response@)
        == OutcomeView::NoSignal(NoSignalReason::SpecMismatch)
}

/// What a reply means to the router.
pub open spec fn outcome(reply: QueryReply) -> OutcomeView {
    match reply {
        QueryReply::Answered(response) => crate::client::outcome_of(response@),
        QueryReply::Failed(reason) => OutcomeView::NoSignal(reason),
        QueryReply::TimedOut => OutcomeView::NoSignal(NoSignalReason::Timeout),
    }
}

/// The breaker after a reply: an answer closes it, trouble with the index
/// counts against it, and anything else leaves it alone.
pub open spec fn breaker_after(v: BreakerView, reply: QueryReply, now_ms: u64) -> BreakerView {
    match reply {
        QueryReply::Answered(_) => crate::breaker::after_success(v),
        QueryReply::Failed(reason) => if crate::client::is_outage(reason) {
            crate::breaker::after_failure(v, now_ms)
        } else {
            v
        },
        QueryReply::TimedOut => crate::breaker::after_failure(v, now_ms),
    }
}

/// The state after a reply.
pub open spec fn state_after(
    v: QueryStateView,
    reply: QueryReply,
    now_ms: u64,
    log_now_ms: u64,
) -> QueryStateView {
    QueryStateView {
        breaker: breaker_after(v.breaker, reply, now_ms),
        spec_mismatch_log: if tells_of_mismatch(reply) {
            crate::breaker::after_offer(v.spec_mismatch_log, log_now_ms)
        } else {
            v.spec_mismatch_log
        },
    }
}

impl QueryState {
    /// The state of a client that has made no query.
    pub fn new(config: &PrefixIndexConfig) -> (r: QueryState)
        ensures
            r@.breaker == (BreakerView {
                threshold: config.breaker_threshold,
                cooldown_ms: crate::clock::millis(config.breaker_cooldown),
                base: r@.breaker.base,
                consecutive_failures: 0,
                open_until_ms: 0,
            }),
            r@.spec_mismatch_log.interval_ms == SPEC_MISMATCH_LOG_INTERVAL_SECS * 1000,
            r@.spec_mismatch_log.next_ms == 0,
    {
        QueryState {
            breaker: Breaker::new(config.breaker_threshold, config.breaker_cooldown),
            spec_mismatch_log: LogThrottle::new(
                crate::clock::from_secs(SPEC_MISMATCH_LOG_INTERVAL_SECS),
            ),
        }
    }

    /// The breaker.
    pub fn breaker(&self) -> (r: &Breaker)
        ensures
            r@ == self@.breaker,
    {
        &self.breaker
    }

    /// Begins a query at a time of the breaker's clock.
    pub fn begin_at(&self, query: &PrefixQuery, now_ms: u64) -> (r: QueryStart)
        ensures
            begins(self@, *query, now_ms, r),
    {
        if query.hashes.len() == 0 {
            return QueryStart::Answer(PrefixIndexOutcome::NoSignal(NoSignalReason::Empty));
        }
        if self.breaker.is_open_at(now_ms) {
            return QueryStart::Answer(PrefixIndexOutcome::NoSignal(NoSignalReason::Unavailable));
        }
        QueryStart::Send(crate::client::build_request(query))
    }

    /// Begins a query now.
    pub fn begin(&self, query: &PrefixQuery) -> (r: QueryStart)
        ensures
            exists|now: Instant|
                begins(
                    self@,
                    *query,
                    #[trigger] crate::clock::elapsed(self@.breaker.base, now),
                    r,
                ),
    {
        let now_ms: u64 = self.breaker.elapsed_ms();
        self.begin_at(query, now_ms)
    }

    /// Takes in how a sent request ended, at times of the breaker's and of the
    /// log's clocks.
    pub fn settle_at(&mut self, reply: QueryReply, now_ms: u64, log_now_ms: u64) -> (r: Settled)
        ensures
            r.outcome@ == outcome(reply),
            final(self)@ == state_after(old(self)@, reply, now_ms, log_now_ms),
            r.report_mismatch == (tells_of_mismatch(reply) && crate::breaker::allows(
                old(self)@.spec_mismatch_log,
                log_now_ms,
            )),
    {
        match reply {
            QueryReply::Answered(response) => {
                self.breaker.record_success();
                let outcome = crate::client::read_response(response);
                let report_mismatch = match &outcome {
                    PrefixIndexOutcome::NoSignal(NoSignalReason::SpecMismatch) =>
                        self.spec_mismatch_log.allow_at(log_now_ms),
                    _ => false,
                };
                Settled { outcome, report_mismatch }
            },
            QueryReply::Failed(reason) => {
                if crate::client::is_index_outage(reason) {
                    self.breaker.record_failure_at(now_ms);
                }
                Settled { outcome: PrefixIndexOutcome::NoSignal(reason), report_mismatch: false }
            },
            QueryReply::TimedOut => {
                self.breaker.record_failure_at(now_ms);
                Settled {
                    outcome: PrefixIndexOutcome::NoSignal(NoSignalReason::Timeout),
                    report_mismatch: false,
                }
            },
        }
    }

    /// Takes in how a sent request ended, now.
    pub fn settle(&mut self, reply: QueryReply) -> (r: Settled)
        ensures
            r.outcome@ == outcome(reply),
            exists|now: Instant, log_now: Instant|
                ({
                    let now_ms = #[trigger] crate::clock::elapsed(old(self)@.breaker.base, now);
                    let log_now_ms = #[trigger] crate::clock::elapsed(
                        old(self)@.spec_mismatch_log.base,
                        log_now,
                    );
                    &&& final(self)@ == state_after(old(self)@, reply, now_ms, log_now_ms)
                    &&& r.report_mismatch == (tells_of_mismatch(reply) && crate::breaker::allows(
                        old(self)@.spec_mismatch_log,
                        log_now_ms,
                    ))
                }),
    {
        let now_ms: u64 = self.breaker.elapsed_ms();
        let log_now_ms: u64 = self.spec_mismatch_log.elapsed_ms();
        self.settle_at(reply, now_ms, log_now_ms)
    }
}

/// A query that the index refused is about that query: it leaves the breaker as
/// it was, however often it happens.
pub proof fn refused_query_leaves_the_breaker_alone(
    v: QueryStateView,
    reason: NoSignalReason,
    now_ms: u64,
    log_now_ms: u64,
)
    requires
        !crate::client::is_outage(reason),
    ensures
        state_after(v, QueryReply::Failed(reason), now_ms, log_now_ms).breaker == v.breaker,
{
}

/// Whatever goes wrong with a request, the router is left with no signal, never
/// with matches that it could not have received.
pub proof fn failure_is_no_signal(reply: QueryReply)
    requires
        !(reply is Answered),
    ensures
        outcome(reply) is NoSignal,
{
}

/// A lasting hash-space disagreement is reported once per interval: of two
/// answers that tell of it, the second is reported exactly where the interval
/// has passed since the first was.
pub proof fn lasting_mismatch_is_reported_once_per_interval(
    v: QueryStateView,
    reply: QueryReply,
    now_ms: u64,
    log_now_ms: u64,
    later_ms: u64,
)
    requires
        tells_of_mismatch(reply),
        crate::breaker::allows(v.spec_mismatch_log, log_now_ms),
        log_now_ms + v.spec_mismatch_log.interval_ms <= u64::MAX,
        later_ms > 0,
    ensures
        crate::breaker::allows(
            state_after(v, reply, now_ms, log_now_ms).spec_mismatch_log,
            later_ms,
        ) <==> later_ms >= log_now_ms + v.spec_mismatch_log.interval_ms,
{
    crate::breaker::one_message_per_interval(v.spec_mismatch_log, log_now_ms, later_ms);
}

/// While the breaker is open, no query reaches the index.
pub proof fn open_breaker_sends_nothing(
    v: QueryStateView,
    query: PrefixQuery,
    now_ms: u64,
    r: QueryStart,
)
    requires
        crate::breaker::is_open(v.breaker, now_ms),
        begins(v, query, now_ms, r),
    ensures
        r is Answer,
        r->Answer_0@ is NoSignal,
{
}

} // verus!
