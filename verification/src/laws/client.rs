//! What a router sends, and what it makes of a reply.

use vstd::prelude::*;

use crate::client::{
    build_request, classify_code, classify_status, hash_from_wire, hash_to_wire, is_index_outage,
    read_response, NoSignalReason, PrefixIndexConfig, PrefixIndexOutcome, PrefixMatch, PrefixQuery,
};
use crate::pb::{
    ExternalKvActionType, HashAlgorithm, HashSpec, MatchExternalKvPrefixRequest,
    MatchExternalKvPrefixResponse, TierType,
};
use crate::query::{QueryReply, QueryStart, QueryState, QueryStateView};
use crate::status::{code_of, Code, RpcStatus};

verus! {

/// A hash is sent in decimal, and read back only from that very text.
pub proof fn a_hash_is_sent_in_decimal(
    hash: i64,
    sent: String,
    wire: &str,
    read: Option<i64>,
)
    requires
        call_ensures(hash_to_wire, (hash,), sent),
        call_ensures(hash_from_wire, (wire,), read),
    ensures
        sent@ == crate::text::decimal(hash as int),
        read == Some(hash) <==> wire@ == sent@,
        read is Some ==> wire@ == crate::text::decimal(read->0 as int),
{
    crate::client::hash_round_trips(hash, read);
    if let Some(other) = read {
        if other == hash {
            assert(wire@ == sent@);
        }
    }
}

/// A query is sent with its blocks in order, the first 16384 of a longer one, and
/// with its limits as they are.
pub proof fn a_query_is_sent_as_it_is(query: PrefixQuery, r: MatchExternalKvPrefixRequest, i: int)
    requires
        call_ensures(build_request, (&query,), r),
        0 <= i < r.hashes@.len(),
    ensures
        r.hashes@.len() == if query.hashes@.len() <= 16384 {
            query.hashes@.len()
        } else {
            16384
        },
        r.hashes@[i]@ == crate::text::decimal(query.hashes@[i] as int),
        r.hash_spec is Some,
        r.hash_spec->0.block_size == query.spec.block_size,
        r.hash_spec->0.algo == query.spec.algo,
        r.hash_spec->0.version == query.spec.version,
        r.hash_spec->0.namespace@ == query.spec.namespace@,
        r.max_blocks == query.max_blocks,
        r.top_k == query.top_k,
        r.count_as_hit == query.count_as_hit,
{
    assert(crate::text::texts(r.hashes@).len() == r.hashes@.len());
    assert(crate::text::texts(r.hashes@)[i] == r.hashes@[i]@);
}

/// A query is made without limits, counts no hit and keeps what it is about.
pub proof fn a_query_starts_without_limits(hashes: Vec<i64>, spec: HashSpec, r: PrefixQuery)
    requires
        call_ensures(PrefixQuery::new, (hashes, spec), r),
    ensures
        r.hashes@ == hashes@,
        r.spec == spec,
        r.max_blocks == 0,
        r.top_k == 0,
        !r.count_as_hit,
{
}

/// The hash space of a worker is told by its page size and by whether it hashes
/// single tokens, which is 1, or pairs, which is 2.
pub proof fn a_hash_space_is_told_by_page_size_and_mode(
    block_size: u32,
    bigram: bool,
    r: HashSpec,
)
    requires
        call_ensures(HashSpec::sglang, (block_size, bigram), r),
    ensures
        r.block_size == block_size,
        bigram ==> r.algo == 2,
        !bigram ==> r.algo == 1,
        r.version == 0,
        r.namespace@.len() == 0,
{
    assert(r@.block_size == r.block_size);
}

/// The usual settings of a client.
pub proof fn the_usual_settings(endpoint: String, r: PrefixIndexConfig)
    requires
        call_ensures(PrefixIndexConfig::new, (endpoint,), r),
    ensures
        r.endpoint@ == endpoint@,
        crate::clock::duration_nanos(r.query_timeout) == 10_000_000,
        crate::clock::duration_nanos(r.connect_timeout) == 1_000_000_000,
        r.breaker_threshold == 5,
        crate::clock::duration_nanos(r.breaker_cooldown) == 5_000_000_000,
{
}

proof fn lemma_known_tiers(tiers: Seq<i32>)
    ensures
        crate::client::known_tiers(tiers) == tiers.filter(|t: i32| 0 <= t <= 3).map_values(
            |t: i32|
                if t == 0 {
                    TierType::TierUnknown
                } else if t == 1 {
                    TierType::TierHbm
                } else if t == 2 {
                    TierType::TierDram
                } else {
                    TierType::TierSsd
                },
        ),
    decreases tiers.len(),
{
    let known = |t: i32| 0 <= t <= 3;
    let name = |t: i32|
        if t == 0 {
            TierType::TierUnknown
        } else if t == 1 {
            TierType::TierHbm
        } else if t == 2 {
            TierType::TierDram
        } else {
            TierType::TierSsd
        };
    if tiers.len() == 0 {
        assert(tiers.filter(known) =~= Seq::<i32>::empty()) by {
            reveal(Seq::filter);
        }
        assert(tiers.filter(known).map_values(name) =~= Seq::<TierType>::empty());
    } else {
        let head = tiers.drop_last();
        lemma_known_tiers(head);
        assert(tiers =~= head.push(tiers.last()));
        head.lemma_filter_push(tiers.last(), known);
        if known(tiers.last()) {
            assert(tiers.filter(known).map_values(name) =~= head.filter(known).map_values(
                name,
            ).push(name(tiers.last())));
        }
    }
}

/// An answer with matches is handed to the router as it is: the same workers in
/// the same order, with address, data-parallel rank and prefix, and with the tiers
/// that are known. Without matches there is no signal, for the reason that workers
/// disagree about the hash space where some do, and else that nothing is held.
pub proof fn an_answer_is_handed_on_as_it_is(
    response: MatchExternalKvPrefixResponse,
    r: PrefixIndexOutcome,
)
    requires
        call_ensures(read_response, (response,), r),
    ensures
        response.matches@.len() > 0 ==> r is Matched && r->matches@.len() == response.matches@.len()
            && r->best_prefix_blocks == response.best_prefix_blocks,
        response.matches@.len() > 0 ==> forall|i: int|
            0 <= i < response.matches@.len() ==> (#[trigger] r->matches@[i]).worker_id@
                == response.matches@[i].worker_id@ && r->matches@[i].address@
                == response.matches@[i].address@ && r->matches@[i].dp_rank
                == response.matches@[i].dp_rank && r->matches@[i].matched_prefix_blocks
                == response.matches@[i].matched_prefix_blocks && r->matches@[i].tiers@
                == response.matches@[i].tiers@.filter(|t: i32| 0 <= t <= 3).map_values(
                |t: i32|
                    if t == 0 {
                        TierType::TierUnknown
                    } else if t == 1 {
                        TierType::TierHbm
                    } else if t == 2 {
                        TierType::TierDram
                    } else {
                        TierType::TierSsd
                    },
            ),
        response.matches@.len() == 0 && response.spec_mismatched_workers > 0 ==> r is NoSignal
            && r->NoSignal_0 is SpecMismatch,
        response.matches@.len() == 0 && response.spec_mismatched_workers == 0 ==> r is NoSignal
            && r->NoSignal_0 is Empty,
{
    assert(response@.matches.len() == response.matches@.len());
    if response.matches@.len() > 0 {
        let routed = crate::client::routed_matches(r->matches@);
        assert(routed.len() == r->matches@.len());
        assert forall|i: int| 0 <= i < response.matches@.len() implies (
        #[trigger] r->matches@[i]).worker_id@ == response.matches@[i].worker_id@
            && r->matches@[i].address@ == response.matches@[i].address@ && r->matches@[i].dp_rank
            == response.matches@[i].dp_rank && r->matches@[i].matched_prefix_blocks
            == response.matches@[i].matched_prefix_blocks && r->matches@[i].tiers@
            == response.matches@[i].tiers@.filter(|t: i32| 0 <= t <= 3).map_values(
            |t: i32|
                if t == 0 {
                    TierType::TierUnknown
                } else if t == 1 {
                    TierType::TierHbm
                } else if t == 2 {
                    TierType::TierDram
                } else {
                    TierType::TierSsd
                },
        ) by {
            assert(routed[i] == r->matches@[i]@);
            assert(response@.matches[i] == response.matches@[i]@);
            lemma_known_tiers(response.matches@[i].tiers@);
        }
    }
}

/// Where an answer lists the longest prefix first and names it, its best matches
/// are all that have it and no others, in order.
pub proof fn the_best_matches_are_all_that_tie(outcome: PrefixIndexOutcome, r: &[PrefixMatch], i: int)
    requires
        call_ensures(PrefixIndexOutcome::best_matches, (&outcome,), r),
        outcome is Matched,
        forall|a: int, b: int|
            0 <= a < b < outcome->matches@.len() ==> (
            #[trigger] outcome->matches@[a]).matched_prefix_blocks >= (
            #[trigger] outcome->matches@[b]).matched_prefix_blocks,
        outcome->matches@.len() > 0 ==> outcome->best_prefix_blocks
            == outcome->matches@[0].matched_prefix_blocks,
        0 <= i < outcome->matches@.len(),
    ensures
        r@.len() <= outcome->matches@.len(),
        i < r@.len() <==> outcome->matches@[i].matched_prefix_blocks == outcome->best_prefix_blocks,
        i < r@.len() ==> r@[i].worker_id@ == outcome->matches@[i].worker_id@ && r@[i].address@
            == outcome->matches@[i].address@ && r@[i].dp_rank == outcome->matches@[i].dp_rank
            && r@[i].matched_prefix_blocks == outcome->matches@[i].matched_prefix_blocks
            && r@[i].tiers@ == outcome->matches@[i].tiers@,
{
    let all = crate::client::routed_matches(outcome->matches@);
    let best = crate::client::routed_matches(r@);
    assert(all.len() == outcome->matches@.len());
    assert(best.len() == r@.len());
    assert forall|a: int, b: int| 0 <= a < b < all.len() implies (
    #[trigger] all[a]).matched_prefix_blocks >= (#[trigger] all[b]).matched_prefix_blocks by {
        assert(all[a] == outcome->matches@[a]@);
        assert(all[b] == outcome->matches@[b]@);
        assert(outcome->matches@[a].matched_prefix_blocks
            >= outcome->matches@[b].matched_prefix_blocks);
    }
    assert(all[0] == outcome->matches@[0]@);
    crate::client::best_matches_are_all_that_tie(all, i);
    crate::client::lemma_tied_bounds(all, all[0].matched_prefix_blocks);
    assert(all[i] == outcome->matches@[i]@);
    if i < r@.len() {
        assert(best[i] == r@[i]@);
    }
}

/// Without a signal there is no best match, and the longest prefix is 0.
pub proof fn no_signal_has_no_best_match(outcome: PrefixIndexOutcome, r: &[PrefixMatch], best: u32)
    requires
        call_ensures(PrefixIndexOutcome::best_matches, (&outcome,), r),
        call_ensures(PrefixIndexOutcome::best_prefix_blocks, (&outcome,), best),
    ensures
        outcome is NoSignal ==> r@.len() == 0 && best == 0,
        outcome is Matched ==> best == outcome->best_prefix_blocks,
{
    assert(crate::client::routed_matches(r@).len() == r@.len());
}

/// A refused query is about that query; trouble with the index is told apart from
/// it, and time from both.
pub proof fn a_status_is_told_apart(code: Code, r: NoSignalReason)
    requires
        call_ensures(classify_code, (code,), r),
    ensures
        r is Timeout <==> code is DeadlineExceeded || code is Cancelled,
        r is Unavailable <==> code is Unavailable || code is Internal || code is Unknown
            || code is Aborted,
        r is Unsupported <==> code is Unimplemented,
        r is Rejected <==> !(r is Timeout) && !(r is Unavailable) && !(r is Unsupported),
{
}

/// A gRPC status is told apart by its code.
pub proof fn a_grpc_status_is_told_apart_by_its_code(
    status: tonic::Status,
    code: Code,
    r: NoSignalReason,
    by_code: NoSignalReason,
)
    requires
        call_ensures(classify_status, (&status,), r),
        call_ensures(code_of, (&status,), code),
        call_ensures(classify_code, (code,), by_code),
    ensures
        r == by_code,
{
}

/// Only an unreachable index, a timeout and an index that does not know the query
/// count against the index.
pub proof fn only_trouble_with_the_index_counts(reason: NoSignalReason, r: bool)
    requires
        call_ensures(is_index_outage, (reason,), r),
    ensures
        r <==> reason is Unavailable || reason is Timeout || reason is Unsupported,
{
}

/// The codes of gRPC have the numbers that gRPC gives them.
pub proof fn codes_have_their_numbers(code: Code, number: i32, r: i32, back: Code)
    requires
        call_ensures(Code::number, (code,), r),
        call_ensures(Code::from_number, (number,), back),
    ensures
        code is Success <==> r == 0,
        code is Cancelled <==> r == 1,
        code is Unknown <==> r == 2,
        code is InvalidArgument <==> r == 3,
        code is DeadlineExceeded <==> r == 4,
        code is NotFound <==> r == 5,
        code is AlreadyExists <==> r == 6,
        code is PermissionDenied <==> r == 7,
        code is ResourceExhausted <==> r == 8,
        code is FailedPrecondition <==> r == 9,
        code is Aborted <==> r == 10,
        code is OutOfRange <==> r == 11,
        code is Unimplemented <==> r == 12,
        code is Internal <==> r == 13,
        code is Unavailable <==> r == 14,
        code is DataLoss <==> r == 15,
        code is Unauthenticated <==> r == 16,
        number == r ==> back == code,
        !(0 <= number <= 16) ==> back is Unknown,
{
}

/// A status is sent with its own code and message, and read with the code that it
/// was sent with.
pub proof fn a_status_is_sent_as_it_is(
    status: RpcStatus,
    r: tonic::Status,
    number: i32,
    read: Code,
)
    requires
        call_ensures(RpcStatus::to_grpc, (&status,), r),
        call_ensures(Code::number, (status.code,), number),
        call_ensures(code_of, (&r,), read),
    ensures
        crate::status::grpc_code(r) == number,
        crate::status::grpc_message(r) == status.message@,
        read == status.code,
{
}

/// Tiers and kinds of actions have the numbers that the protocol gives them.
pub proof fn tiers_and_kinds_have_their_numbers(
    number: i32,
    tier: Option<TierType>,
    kind: Option<ExternalKvActionType>,
    algorithm: HashAlgorithm,
    r: i32,
)
    requires
        call_ensures(TierType::from_number, (number,), tier),
        call_ensures(ExternalKvActionType::from_number, (number,), kind),
        call_ensures(HashAlgorithm::number, (algorithm,), r),
    ensures
        tier == Some(TierType::TierUnknown) <==> number == 0,
        tier == Some(TierType::TierHbm) <==> number == 1,
        tier == Some(TierType::TierDram) <==> number == 2,
        tier == Some(TierType::TierSsd) <==> number == 3,
        tier is None <==> !(0 <= number <= 3),
        kind == Some(ExternalKvActionType::ActionUnknown) <==> number == 0,
        kind == Some(ExternalKvActionType::ActionReport) <==> number == 1,
        kind == Some(ExternalKvActionType::ActionRevoke) <==> number == 2,
        kind == Some(ExternalKvActionType::ActionClearAllAtTier) <==> number == 3,
        kind is None <==> !(0 <= number <= 3),
        algorithm is HashAlgoUnknown <==> r == 0,
        algorithm is HashAlgoSha256ChainUnigram <==> r == 1,
        algorithm is HashAlgoSha256ChainBigram <==> r == 2,
{
}

/// A query without blocks has no signal because nothing is held. Any other one is
/// sent, unless the breaker is open, which ends it as unavailable.
pub proof fn a_query_is_sent_unless_the_breaker_is_open(
    state: QueryState,
    query: PrefixQuery,
    now_ms: u64,
    r: QueryStart,
    sent: MatchExternalKvPrefixRequest,
)
    requires
        call_ensures(QueryState::begin_at, (&state, &query, now_ms), r),
        call_ensures(build_request, (&query,), sent),
    ensures
        query.hashes@.len() == 0 ==> r is Answer && r->Answer_0 is NoSignal
            && r->Answer_0->NoSignal_0 is Empty,
        query.hashes@.len() > 0 && state@.breaker.open_until_ms > now_ms ==> r is Answer
            && r->Answer_0 is NoSignal && r->Answer_0->NoSignal_0 is Unavailable,
        query.hashes@.len() > 0 && state@.breaker.open_until_ms <= now_ms ==> r is Send
            && r->Send_0.hashes@.map_values(|t: String| t@) == sent.hashes@.map_values(
            |t: String| t@,
        ) && r->Send_0.hash_spec == sent.hash_spec && r->Send_0.max_blocks == sent.max_blocks
            && r->Send_0.top_k == sent.top_k && r->Send_0.count_as_hit == sent.count_as_hit,
{
    if r is Send {
        assert(crate::text::texts(r->Send_0.hashes@) =~= r->Send_0.hashes@.map_values(
            |t: String| t@,
        ));
        assert(crate::text::texts(sent.hashes@) =~= sent.hashes@.map_values(|t: String| t@));
    }
}

/// A client starts with a closed breaker that is set as its configuration says,
/// and with a log that lets the first message through and then one a minute.
pub proof fn a_client_starts_with_a_closed_breaker(config: PrefixIndexConfig, r: QueryState)
    requires
        call_ensures(QueryState::new, (&config,), r),
    ensures
        r@.breaker.threshold == config.breaker_threshold,
        r@.breaker.cooldown_ms == crate::clock::millis(config.breaker_cooldown),
        r@.breaker.consecutive_failures == 0,
        r@.breaker.open_until_ms == 0,
        r@.spec_mismatch_log.interval_ms == 60_000,
        r@.spec_mismatch_log.next_ms == 0,
{
}

/// A reply means what it says: an answer is read, a failure is no signal for its
/// reason, and a budget that ran out is no signal for that.
pub proof fn a_reply_means_what_it_says(
    response: MatchExternalKvPrefixResponse,
    read: PrefixIndexOutcome,
    reason: NoSignalReason,
)
    requires
        call_ensures(read_response, (response,), read),
    ensures
        crate::query::outcome(QueryReply::Answered(response)) == read@,
        crate::query::outcome(QueryReply::Failed(reason)) is NoSignal,
        crate::query::outcome(QueryReply::Failed(reason))->NoSignal_0 == reason,
        crate::query::outcome(QueryReply::TimedOut) is NoSignal,
        crate::query::outcome(QueryReply::TimedOut)->NoSignal_0 is Timeout,
{
}

/// What a reply does to what a client remembers. An answer closes the breaker and
/// starts its count anew. A timeout and trouble with the index count, and open it
/// where the count reaches its threshold. A refusal changes nothing. The log is
/// used only by an answer that names no worker but some of another hash space, and
/// a report of it is due where the log lets one through.
pub proof fn what_a_reply_does(
    v: QueryStateView,
    response: MatchExternalKvPrefixResponse,
    reason: NoSignalReason,
    now_ms: u64,
    log_now_ms: u64,
)
    requires
        v.breaker.consecutive_failures < u32::MAX,
        now_ms + v.breaker.cooldown_ms <= u64::MAX,
        now_ms + v.breaker.cooldown_ms > 0,
        log_now_ms + v.spec_mismatch_log.interval_ms <= u64::MAX,
        log_now_ms + v.spec_mismatch_log.interval_ms > 0,
    ensures
        ({
            let answered = crate::query::state_after(
                v,
                QueryReply::Answered(response),
                now_ms,
                log_now_ms,
            );
            let failed = crate::query::state_after(
                v,
                QueryReply::Failed(reason),
                now_ms,
                log_now_ms,
            );
            let late = crate::query::state_after(v, QueryReply::TimedOut, now_ms, log_now_ms);
            let counts = reason is Unavailable || reason is Timeout || reason is Unsupported;
            let trips = v.breaker.threshold > 0 && v.breaker.consecutive_failures + 1
                >= v.breaker.threshold;
            let disagrees = response.matches@.len() == 0 && response.spec_mismatched_workers > 0;
            &&& answered.breaker.consecutive_failures == 0
            &&& answered.breaker.open_until_ms == 0
            &&& answered.breaker.threshold == v.breaker.threshold
            &&& answered.breaker.cooldown_ms == v.breaker.cooldown_ms
            &&& answered.breaker.base == v.breaker.base
            &&& crate::query::tells_of_mismatch(QueryReply::Answered(response)) == disagrees
            &&& !(disagrees && v.spec_mismatch_log.next_ms <= log_now_ms)
                ==> answered.spec_mismatch_log == v.spec_mismatch_log
            &&& disagrees && v.spec_mismatch_log.next_ms <= log_now_ms
                ==> answered.spec_mismatch_log.next_ms == log_now_ms
                + v.spec_mismatch_log.interval_ms && answered.spec_mismatch_log.interval_ms
                == v.spec_mismatch_log.interval_ms && answered.spec_mismatch_log.base
                == v.spec_mismatch_log.base
            &&& !counts ==> failed == v
            &&& counts ==> failed == late
            &&& late.spec_mismatch_log == v.spec_mismatch_log
            &&& late.breaker.threshold == v.breaker.threshold
            &&& late.breaker.cooldown_ms == v.breaker.cooldown_ms
            &&& late.breaker.base == v.breaker.base
            &&& trips ==> late.breaker.consecutive_failures == 0 && late.breaker.open_until_ms
                == now_ms + v.breaker.cooldown_ms
            &&& !trips ==> late.breaker.consecutive_failures == v.breaker.consecutive_failures + 1
                && late.breaker.open_until_ms == v.breaker.open_until_ms
            &&& !crate::query::tells_of_mismatch(QueryReply::Failed(reason))
            &&& !crate::query::tells_of_mismatch(QueryReply::TimedOut)
            &&& crate::breaker::allows(v.spec_mismatch_log, log_now_ms) == (
            v.spec_mismatch_log.next_ms <= log_now_ms)
        }),
{
    assert(response@.matches.len() == response.matches@.len());
}

} // verus!
