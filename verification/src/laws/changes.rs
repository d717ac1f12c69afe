//! What the operations that change something change.

use std::time::Instant;
use vstd::prelude::*;

use crate::breaker::{Breaker, LogThrottle};
use crate::client::PrefixIndexOutcome;
use crate::query::{QueryReply, QueryState, Settled};
use crate::redis_backend::apply::ApplyRun;
use crate::redis_backend::codec::ReverseMember;
use crate::redis_backend::replies::PlacementOwner;
use crate::redis_backend::scan::PrefixScan;
use crate::status::RpcStatus;

verus! {

/// A success closes a breaker at once and starts its count anew.
pub proof fn a_success_closes(breaker: &mut Breaker)
    requires
        call_ensures(Breaker::record_success, (breaker,), ()),
    ensures
        final(breaker)@.open_until_ms == 0,
        final(breaker)@.consecutive_failures == 0,
        final(breaker)@.threshold == old(breaker)@.threshold,
        final(breaker)@.cooldown_ms == old(breaker)@.cooldown_ms,
        final(breaker)@.base == old(breaker)@.base,
{
}

/// A failure counts, and opens a breaker where the count reaches its threshold.
pub proof fn a_failure_counts(breaker: &mut Breaker, now_ms: u64)
    requires
        call_ensures(Breaker::record_failure_at, (breaker, now_ms), ()),
        old(breaker)@.consecutive_failures < u32::MAX,
    ensures
        final(breaker)@.threshold == old(breaker)@.threshold,
        final(breaker)@.cooldown_ms == old(breaker)@.cooldown_ms,
        final(breaker)@.base == old(breaker)@.base,
        ({
            let trips = old(breaker)@.threshold > 0 && old(breaker)@.consecutive_failures + 1
                >= old(breaker)@.threshold;
            &&& !trips ==> final(breaker)@.consecutive_failures
                == old(breaker)@.consecutive_failures + 1 && final(breaker)@.open_until_ms
                == old(breaker)@.open_until_ms
            &&& trips ==> final(breaker)@.consecutive_failures == 0
            &&& trips && 0 < now_ms + old(breaker)@.cooldown_ms <= u64::MAX
                ==> final(breaker)@.open_until_ms == now_ms + old(breaker)@.cooldown_ms
            &&& trips && now_ms + old(breaker)@.cooldown_ms > u64::MAX
                ==> final(breaker)@.open_until_ms == u64::MAX
        }),
{
}

/// A message is let through from its time on, and closes the log for its interval;
/// before that it is not, and nothing changes.
pub proof fn a_message_is_let_through_once_per_interval(
    log: &mut LogThrottle,
    now_ms: u64,
    r: bool,
)
    requires
        call_ensures(LogThrottle::allow_at, (log, now_ms), r),
    ensures
        r <==> old(log)@.next_ms <= now_ms,
        !r ==> final(log)@ == old(log)@,
        final(log)@.interval_ms == old(log)@.interval_ms,
        final(log)@.base == old(log)@.base,
        r && 0 < now_ms + old(log)@.interval_ms <= u64::MAX ==> final(log)@.next_ms == now_ms
            + old(log)@.interval_ms,
        r && now_ms + old(log)@.interval_ms > u64::MAX ==> final(log)@.next_ms == u64::MAX,
{
}

/// A settled query has the outcome of its reply, changes what the client remembers
/// as the reply does, and reports a hash-space disagreement where the reply tells
/// of one and the log lets a message through.
pub proof fn a_settled_query_has_the_outcome_of_its_reply(
    state: &mut QueryState,
    reply: QueryReply,
    now_ms: u64,
    log_now_ms: u64,
    r: Settled,
    read: PrefixIndexOutcome,
)
    requires
        call_ensures(QueryState::settle_at, (state, reply, now_ms, log_now_ms), r),
        reply is Answered ==> call_ensures(
            crate::client::read_response,
            (reply->Answered_0,),
            read,
        ),
    ensures
        reply is Answered ==> r.outcome@ == read@,
        reply is Failed ==> r.outcome is NoSignal && r.outcome->NoSignal_0 == reply->Failed_0,
        reply is TimedOut ==> r.outcome is NoSignal && r.outcome->NoSignal_0 is Timeout,
        final(state)@ == crate::query::state_after(old(state)@, reply, now_ms, log_now_ms),
        r.report_mismatch <==> reply is Answered && reply->Answered_0.matches@.len() == 0
            && reply->Answered_0.spec_mismatched_workers > 0
            && old(state)@.spec_mismatch_log.next_ms <= log_now_ms,
{
    if reply is Answered {
        assert(reply->Answered_0@.matches.len() == reply->Answered_0.matches@.len());
    }
}

/// A pair moves a batch to where it leads, or is refused with what is wrong and
/// changes nothing.
pub proof fn a_pair_moves_a_batch(
    run: &mut ApplyRun,
    first: i64,
    second: i64,
    r: Result<(), RpcStatus>,
)
    requires
        crate::redis_backend::apply::run_is_valid(old(run)@),
        crate::redis_backend::apply::awaits_pair(old(run)@.phase),
        call_ensures(ApplyRun::took_pair, (run, first, second), r),
    ensures
        ({
            let next = crate::redis_backend::apply::after_pair(old(run)@, first, second);
            &&& r is Ok <==> next is Ok
            &&& r is Ok ==> final(run)@ == next->Ok_0
            &&& r is Err ==> final(run)@ == old(run)@ && r->Err_0.code == next->Err_0.code
                && r->Err_0.message@ == next->Err_0.message
        }),
{
}

/// A status moves a reset to where it leads, or is refused with what is wrong and
/// changes nothing.
pub proof fn a_status_moves_a_reset(run: &mut ApplyRun, status: i64, r: Result<(), RpcStatus>)
    requires
        crate::redis_backend::apply::run_is_valid(old(run)@),
        old(run)@.phase is ResetFinish,
        call_ensures(ApplyRun::took_status, (run, status), r),
    ensures
        ({
            let next = crate::redis_backend::apply::after_reset_finish(old(run)@, status);
            &&& r is Ok <==> next is Ok
            &&& r is Ok ==> final(run)@ == next->Ok_0
            &&& r is Err ==> final(run)@ == old(run)@ && r->Err_0.code == next->Err_0.code
                && r->Err_0.message@ == next->Err_0.message
        }),
{
}

/// The stored sequence number ends a heartbeat.
pub proof fn a_sequence_number_ends_a_heartbeat(run: &mut ApplyRun, stored: i64)
    requires
        crate::redis_backend::apply::run_is_valid(old(run)@),
        old(run)@.phase is ReadSeq,
        call_ensures(ApplyRun::took_seq, (run, stored), ()),
    ensures
        final(run)@ == crate::redis_backend::apply::after_seq(old(run)@, stored),
{
}

/// A page moves a scan to where it leads, or is refused with what is wrong and
/// changes nothing.
pub proof fn a_page_moves_a_scan(
    run: &mut ApplyRun,
    next: u64,
    members: Vec<ReverseMember>,
    r: Result<(), RpcStatus>,
)
    requires
        crate::redis_backend::apply::run_is_valid(old(run)@),
        crate::redis_backend::apply::awaits_page(old(run)@.phase),
        call_ensures(ApplyRun::took_page, (run, next, members), r),
    ensures
        ({
            let after = crate::redis_backend::apply::after_page(
                old(run)@,
                next,
                members@.map_values(|m: ReverseMember| m@),
            );
            &&& r is Ok <==> after is Ok
            &&& r is Ok ==> final(run)@ == after->Ok_0
            &&& r is Err ==> final(run)@ == old(run)@ && r->Err_0.code == after->Err_0.code
                && r->Err_0.message@ == after->Err_0.message
        }),
{
    assert(crate::redis_backend::replies::member_views(members@) =~= members@.map_values(
        |m: ReverseMember| m@,
    ));
}

/// Finished jobs move a batch to where they lead, or the next action is refused
/// and nothing changes.
pub proof fn finished_jobs_move_a_batch(run: &mut ApplyRun, r: Result<(), RpcStatus>)
    requires
        crate::redis_backend::apply::run_is_valid(old(run)@),
        crate::redis_backend::apply::awaits_jobs(old(run)@.phase),
        call_ensures(ApplyRun::completed, (run,), r),
    ensures
        ({
            let next = crate::redis_backend::apply::after_jobs(old(run)@);
            &&& r is Ok <==> next is Ok
            &&& r is Ok ==> final(run)@ == next->Ok_0
            &&& r is Err ==> final(run)@ == old(run)@ && r->Err_0.code == next->Err_0.code
                && r->Err_0.message@ == next->Err_0.message
        }),
{
}

/// A reply moves a batch as what was read from it does.
pub proof fn a_reply_moves_a_batch(
    run: &mut ApplyRun,
    reply: redis::Value,
    r: Result<(), RpcStatus>,
)
    requires
        crate::redis_backend::apply::run_is_valid(old(run)@),
        crate::redis_backend::apply::awaits_reply(old(run)@.phase),
        call_ensures(ApplyRun::replied, (run, &reply), r),
    ensures
        crate::redis_backend::apply::reply_moves(old(run)@, reply, r, final(run)@),
{
}

/// A window moves a scan on over the placements that were read, in order.
pub proof fn a_window_moves_a_scan(scan: &mut PrefixScan, rows: Vec<Vec<PlacementOwner>>)
    requires
        crate::redis_backend::scan::scan_is_valid(old(scan)@),
        crate::redis_backend::scan::window_end(old(scan)@) == Some(
            old(scan)@.queried + rows@.len(),
        ),
        call_ensures(PrefixScan::absorb, (scan, &rows), ()),
    ensures
        final(scan)@ == crate::redis_backend::scan::absorbed(
            old(scan)@,
            rows@.map_values(
                |row: Vec<PlacementOwner>| row@.map_values(|o: PlacementOwner| o@),
            ),
        ),
        final(scan)@.queried == old(scan)@.queried + rows@.len(),
{
    let views = rows@.map_values(
        |row: Vec<PlacementOwner>| row@.map_values(|o: PlacementOwner| o@),
    );
    let table = crate::redis_backend::scan::row_views(rows@);
    assert(table =~= views) by {
        assert forall|i: int| 0 <= i < rows@.len() implies #[trigger] table[i] == views[i] by {
            assert(table[i] =~= rows@[i]@.map_values(|o: PlacementOwner| o@));
        }
    }
    crate::laws::scan::a_window_counts_what_it_read(old(scan)@, views);
}

/// A failure now counts as one at the time since the breaker was made, by what the
/// clock shows.
pub proof fn a_failure_now_counts_by_the_clock_of_the_breaker(breaker: &mut Breaker)
    requires
        call_ensures(Breaker::record_failure, (breaker,), ()),
    ensures
        exists|now: Instant|
            ({
                let ms = crate::clock::duration_nanos(
                    #[trigger] crate::clock::time_between(old(breaker)@.base, now),
                ) as int / 1_000_000;
                ms <= u64::MAX ==> final(breaker)@ == crate::breaker::after_failure(
                    old(breaker)@,
                    ms as u64,
                )
            }),
{
    assert forall|now: Instant| #[trigger]
        crate::clock::elapsed(old(breaker)@.base, now) == crate::clock::millis(
            crate::clock::time_between(old(breaker)@.base, now),
        ) by {}
}

/// A message now is let through as at the time since the log was made, by what the
/// clock shows.
pub proof fn a_message_now_goes_by_the_clock_of_the_log(log: &mut LogThrottle, r: bool)
    requires
        call_ensures(LogThrottle::allow, (log,), r),
    ensures
        exists|now: Instant|
            ({
                let ms = crate::clock::duration_nanos(
                    #[trigger] crate::clock::time_between(old(log)@.base, now),
                ) as int / 1_000_000;
                ms <= u64::MAX ==> (r <==> old(log)@.next_ms <= ms) && final(log)@
                    == crate::breaker::after_offer(old(log)@, ms as u64)
            }),
{
    assert forall|now: Instant| #[trigger]
        crate::clock::elapsed(old(log)@.base, now) == crate::clock::millis(
            crate::clock::time_between(old(log)@.base, now),
        ) by {}
}

/// A query settles now as at the times since the breaker and the log were made, by
/// what the clock shows.
pub proof fn a_query_settles_now_by_its_clocks(
    state: &mut QueryState,
    reply: QueryReply,
    r: Settled,
)
    requires
        call_ensures(QueryState::settle, (state, reply), r),
    ensures
        r.outcome@ == crate::query::outcome(reply),
        exists|now: Instant, log_now: Instant|
            ({
                let ms = crate::clock::duration_nanos(
                    #[trigger] crate::clock::time_between(old(state)@.breaker.base, now),
                ) as int / 1_000_000;
                let log_ms = crate::clock::duration_nanos(
                    #[trigger] crate::clock::time_between(
                        old(state)@.spec_mismatch_log.base,
                        log_now,
                    ),
                ) as int / 1_000_000;
                ms <= u64::MAX && log_ms <= u64::MAX ==> final(state)@
                    == crate::query::state_after(
                    old(state)@,
                    reply,
                    ms as u64,
                    log_ms as u64,
                ) && (r.report_mismatch <==> crate::query::tells_of_mismatch(reply)
                    && old(state)@.spec_mismatch_log.next_ms <= log_ms)
            }),
{
    assert forall|now: Instant| #[trigger]
        crate::clock::elapsed(old(state)@.breaker.base, now) == crate::clock::millis(
            crate::clock::time_between(old(state)@.breaker.base, now),
        ) by {}
    assert forall|now: Instant| #[trigger]
        crate::clock::elapsed(old(state)@.spec_mismatch_log.base, now) == crate::clock::millis(
            crate::clock::time_between(old(state)@.spec_mismatch_log.base, now),
        ) by {}
}

} // verus!
