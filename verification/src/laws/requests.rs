//! Which requests are accepted, and what reaches a backend.

use vstd::prelude::*;

use crate::ingest::{normalize_batch, normalize_hash};
use crate::pb::{
    ApplyExternalKvBatchRequest, ApplyExternalKvBatchResponse, ExternalKvAction,
    GetExternalKvHitCountsRequest, GetExternalKvHitCountsResponse, MatchExternalKvPrefixRequest,
    MatchExternalKvPrefixResponse, MatchExternalKvRequest, MatchExternalKvResponse,
};
use crate::service::{validate_batch, KvIndexerBackend, KvIndexerService};
use crate::status::RpcStatus;
use crate::validate::{
    validate_action, validate_actions, validate_hashes, validate_tier, validate_worker_id,
};

verus! {

/// A request names between 1 and 16384 blocks, none of them by an empty text. The
/// first thing that is wrong with it is told, in this order.
pub proof fn a_request_names_its_blocks(hashes: &[String], r: Result<(), RpcStatus>)
    requires
        call_ensures(validate_hashes, (hashes,), r),
    ensures
        r is Ok <==> 1 <= hashes@.len() <= 16384 && forall|i: int|
            0 <= i < hashes@.len() ==> (#[trigger] hashes@[i])@.len() > 0,
        hashes@.len() == 0 ==> r->Err_0.code is InvalidArgument && r->Err_0.message@
            == "hashes must not be empty"@,
        hashes@.len() > 16384 ==> r->Err_0.code is ResourceExhausted && r->Err_0.message@
            == "request contains "@ + crate::text::decimal(hashes@.len() as int)
            + " hashes; maximum is "@ + crate::text::decimal(16384),
        r is Err && 1 <= hashes@.len() <= 16384 ==> r->Err_0.code is InvalidArgument
            && r->Err_0.message@ == "hashes must not contain empty values"@,
{
    let all = crate::text::texts(hashes@);
    assert(all.len() == hashes@.len());
    if forall|i: int| 0 <= i < hashes@.len() ==> (#[trigger] hashes@[i])@.len() > 0 {
        assert forall|i: int| 0 <= i < all.len() implies (#[trigger] all[i]).len() > 0 by {
            assert(all[i] == hashes@[i]@);
        }
    } else {
        let i = choose|i: int| 0 <= i < hashes@.len() && (#[trigger] hashes@[i])@.len() == 0;
        assert(all[i].len() == 0);
    }
}

/// A worker has an id.
pub proof fn a_worker_has_an_id(worker_id: &str, r: Result<(), RpcStatus>)
    requires
        call_ensures(validate_worker_id, (worker_id,), r),
    ensures
        r is Ok <==> worker_id@.len() > 0,
        r is Err ==> r->Err_0.code is InvalidArgument && r->Err_0.message@
            == "worker_id must not be empty"@,
{
}

/// Blocks are held at HBM, DRAM or SSD, which are the tiers 1 to 3.
pub proof fn three_tiers_hold_blocks(tier: i32, r: Result<(), RpcStatus>)
    requires
        call_ensures(validate_tier, (tier,), r),
    ensures
        r is Ok <==> tier == 1 || tier == 2 || tier == 3,
        r is Err ==> r->Err_0.code is InvalidArgument,
        tier == 0 ==> r->Err_0.message@ == "tier must not be TIER_UNKNOWN"@,
        r is Err && tier != 0 ==> r->Err_0.message@ == "tier is not supported"@,
{
}

/// An action names a tier and is a report, a revocation or a clearing, which are
/// the kinds 1 to 3. The first two name their blocks as any request does; what a
/// clearing names does not matter.
pub proof fn an_action_is_of_three_kinds(
    action: ExternalKvAction,
    hashes: &[String],
    r: Result<(), RpcStatus>,
    by_tier: Result<(), RpcStatus>,
    by_hashes: Result<(), RpcStatus>,
)
    requires
        call_ensures(validate_action, (&action,), r),
        call_ensures(validate_tier, (action.tier,), by_tier),
        call_ensures(validate_hashes, (hashes,), by_hashes),
        hashes@ == action.hashes@,
    ensures
        by_tier is Err ==> r is Err && r->Err_0@ == by_tier->Err_0@,
        by_tier is Ok && (action.kind == 1 || action.kind == 2) ==> (r is Ok <==> by_hashes is Ok)
            && (r is Err ==> r->Err_0@ == by_hashes->Err_0@),
        by_tier is Ok && action.kind == 3 ==> r is Ok,
        by_tier is Ok && !(1 <= action.kind <= 3) ==> r is Err && r->Err_0.code is InvalidArgument
            && r->Err_0.message@ == "action type is not supported"@,
{
}

proof fn lemma_total(actions: Seq<ExternalKvAction>)
    ensures
        crate::validate::total_hashes(crate::validate::action_views(actions)) == actions.fold_left(
            0int,
            |sum: int, a: ExternalKvAction| sum + a.hashes@.len(),
        ),
    decreases actions.len(),
{
    let views = crate::validate::action_views(actions);
    if actions.len() > 0 {
        lemma_total(actions.drop_last());
        assert(views.drop_last() =~= crate::validate::action_views(actions.drop_last()));
        assert(views.last() == actions.last()@);
    }
}

proof fn lemma_first_error(
    actions: Seq<ExternalKvAction>,
    results: Seq<Result<(), RpcStatus>>,
    from: int,
)
    requires
        results.len() == actions.len(),
        forall|i: int|
            0 <= i < actions.len() ==> call_ensures(
                validate_action,
                (&#[trigger] actions[i],),
                results[i],
            ),
        0 <= from <= actions.len(),
    ensures
        ({
            let error = crate::validate::first_action_error(
                crate::validate::action_views(actions).skip(from),
            );
            &&& error is None <==> forall|i: int|
                from <= i < actions.len() ==> (#[trigger] results[i]) is Ok
            &&& forall|i: int|
                from <= i < actions.len() && (#[trigger] results[i]) is Err && (forall|j: int|
                    from <= j < i ==> (#[trigger] results[j]) is Ok) ==> error == Some(
                    results[i]->Err_0@,
                )
        }),
    decreases actions.len() - from,
{
    let views = crate::validate::action_views(actions);
    let rest = views.skip(from);
    if from < actions.len() {
        lemma_first_error(actions, results, from + 1);
        assert(rest.drop_first() =~= views.skip(from + 1));
        assert(rest[0] == actions[from]@);
        assert(call_ensures(validate_action, (&actions[from],), results[from]));
        let error = crate::validate::first_action_error(rest);
        assert forall|i: int|
            from <= i < actions.len() && (#[trigger] results[i]) is Err && (forall|j: int|
                from <= j < i ==> (#[trigger] results[j]) is Ok) implies error == Some(
            results[i]->Err_0@,
        ) by {
            if i > from {
                assert(results[from] is Ok);
            }
        }
    }
}

/// A batch holds at most 256 actions, which name at most 16384 blocks together,
/// and every one of its actions is acceptable. Else the first thing that is wrong
/// is told, that of the first bad action last. A batch without actions is
/// accepted.
///
/// `results` is what each action alone is told.
pub proof fn a_batch_holds_acceptable_actions(
    actions: &[ExternalKvAction],
    results: Seq<Result<(), RpcStatus>>,
    r: Result<(), RpcStatus>,
)
    requires
        call_ensures(validate_actions, (actions,), r),
        results.len() == actions@.len(),
        forall|i: int|
            0 <= i < actions@.len() ==> call_ensures(
                validate_action,
                (&#[trigger] actions@[i],),
                results[i],
            ),
    ensures
        ({
            let total = actions@.fold_left(
                0int,
                |sum: int, a: ExternalKvAction| sum + a.hashes@.len(),
            );
            &&& r is Ok <==> actions@.len() <= 256 && total <= 16384 && forall|i: int|
                0 <= i < actions@.len() ==> (#[trigger] results[i]) is Ok
            &&& actions@.len() > 256 ==> r->Err_0.code is ResourceExhausted && r->Err_0.message@
                == "batch contains "@ + crate::text::decimal(actions@.len() as int)
                + " actions; maximum is "@ + crate::text::decimal(256)
            &&& actions@.len() <= 256 && total > 16384 ==> r->Err_0.code is ResourceExhausted
                && r->Err_0.message@ == "batch contains "@ + crate::text::decimal(total)
                + " hashes; maximum is "@ + crate::text::decimal(16384)
            &&& forall|i: int|
                actions@.len() <= 256 && total <= 16384 && 0 <= i < actions@.len() && (
                #[trigger] results[i]) is Err && (forall|j: int|
                    0 <= j < i ==> (#[trigger] results[j]) is Ok) ==> r is Err && r->Err_0@
                    == results[i]->Err_0@
        }),
{
    let views = crate::validate::action_views(actions@);
    assert(views.len() == actions@.len());
    lemma_total(actions@);
    lemma_first_error(actions@, results, 0);
    assert(views.skip(0) =~= views);
}

/// A batch is refused for its worker id before it is refused for its actions.
pub proof fn a_batch_is_checked_id_first(
    request: ApplyExternalKvBatchRequest,
    worker_id: &str,
    actions: &[ExternalKvAction],
    r: Result<(), RpcStatus>,
    by_id: Result<(), RpcStatus>,
    by_actions: Result<(), RpcStatus>,
)
    requires
        call_ensures(validate_batch, (&request,), r),
        worker_id@ == request.worker_id@,
        actions@ == request.actions@,
        call_ensures(validate_worker_id, (worker_id,), by_id),
        call_ensures(validate_actions, (actions,), by_actions),
    ensures
        by_id is Err ==> r is Err && r->Err_0@ == by_id->Err_0@,
        by_id is Ok && by_actions is Err ==> r is Err && r->Err_0@ == by_actions->Err_0@,
        by_id is Ok && by_actions is Ok ==> r is Ok,
{
}

/// A hash that is a number is stored as the signed form of its 64 bits, and any
/// other text as it is.
pub proof fn a_hash_is_stored_as_its_signed_form(
    hash: &str,
    r: String,
    signed: Option<i64>,
    unsigned: Option<u64>,
)
    requires
        call_ensures(normalize_hash, (hash,), r),
        call_ensures(crate::text::parse_i64, (hash,), signed),
        call_ensures(crate::text::parse_u64, (hash,), unsigned),
    ensures
        signed is Some ==> r@ == crate::text::decimal(signed->0 as int),
        signed is None && unsigned is Some ==> r@ == crate::text::decimal(
            unsigned->0 as int - 18446744073709551616,
        ),
        signed is None && unsigned is None ==> r@ == hash@,
{
}

/// A batch reaches its backend as it was sent, but for its hashes, each of which
/// is in its stored form.
pub proof fn only_the_hashes_of_a_batch_change(
    request: ApplyExternalKvBatchRequest,
    r: ApplyExternalKvBatchRequest,
    i: int,
    k: int,
    hash: &str,
    stored: String,
)
    requires
        call_ensures(normalize_batch, (request,), r),
        0 <= i < request.actions@.len(),
        0 <= k < request.actions@[i].hashes@.len(),
        hash@ == request.actions@[i].hashes@[k]@,
        call_ensures(normalize_hash, (hash,), stored),
    ensures
        r.worker_id@ == request.worker_id@,
        r.worker_address@ == request.worker_address@,
        r.seq == request.seq,
        r.incarnation@ == request.incarnation@,
        r.hash_spec == request.hash_spec,
        r.dp_rank == request.dp_rank,
        r.actions@.len() == request.actions@.len(),
        r.actions@[i].kind == request.actions@[i].kind,
        r.actions@[i].tier == request.actions@[i].tier,
        r.actions@[i].component_masks@ == request.actions@[i].component_masks@,
        r.actions@[i].block_sizes@ == request.actions@[i].block_sizes@,
        r.actions@[i].hashes@.len() == request.actions@[i].hashes@.len(),
        r.actions@[i].hashes@[k]@ == stored@,
{
    let before = crate::validate::action_views(request.actions@);
    let after = crate::validate::action_views(r.actions@);
    assert(after.len() == r.actions@.len());
    assert(after[i] == r.actions@[i]@);
    assert(before[i] == request.actions@[i]@);
    assert(after[i].hashes.len() == r.actions@[i].hashes@.len());
    assert(after[i].hashes[k] == r.actions@[i].hashes@[k]@);
    assert(before[i].hashes[k] == request.actions@[i].hashes@[k]@);
}

/// A match that is asked for with bad hashes is refused, and any other one is
/// answered by the backend.
pub proof fn a_bad_match_never_reaches_the_backend<B: KvIndexerBackend>(
    service: KvIndexerService<B>,
    request: MatchExternalKvRequest,
    r: Result<MatchExternalKvResponse, RpcStatus>,
    hashes: &[String],
    checked: Result<(), RpcStatus>,
)
    requires
        call_ensures(KvIndexerService::<B>::match_external_kv, (&service, request), r),
        hashes@ == request.hashes@,
        call_ensures(validate_hashes, (hashes,), checked),
    ensures
        checked is Err ==> r is Err && r->Err_0@ == checked->Err_0@,
        checked is Ok ==> call_ensures(B::match_external_kv, (&service.backend(), request), r),
{
}

/// A prefix query with bad hashes is refused, and any other one is answered by
/// the backend.
pub proof fn a_bad_prefix_query_never_reaches_the_backend<B: KvIndexerBackend>(
    service: KvIndexerService<B>,
    request: MatchExternalKvPrefixRequest,
    r: Result<MatchExternalKvPrefixResponse, RpcStatus>,
    hashes: &[String],
    checked: Result<(), RpcStatus>,
)
    requires
        call_ensures(KvIndexerService::<B>::match_external_kv_prefix, (&service, request), r),
        hashes@ == request.hashes@,
        call_ensures(validate_hashes, (hashes,), checked),
    ensures
        checked is Err ==> r is Err && r->Err_0@ == checked->Err_0@,
        checked is Ok ==> call_ensures(
            B::match_external_kv_prefix,
            (&service.backend(), request),
            r,
        ),
{
}

/// A question for counters with bad hashes is refused, and any other one is
/// answered by the backend.
pub proof fn a_bad_question_for_counters_never_reaches_the_backend<B: KvIndexerBackend>(
    service: KvIndexerService<B>,
    request: GetExternalKvHitCountsRequest,
    r: Result<GetExternalKvHitCountsResponse, RpcStatus>,
    hashes: &[String],
    checked: Result<(), RpcStatus>,
)
    requires
        call_ensures(KvIndexerService::<B>::get_external_kv_hit_counts, (&service, request), r),
        hashes@ == request.hashes@,
        call_ensures(validate_hashes, (hashes,), checked),
    ensures
        checked is Err ==> r is Err && r->Err_0@ == checked->Err_0@,
        checked is Ok ==> call_ensures(
            B::get_external_kv_hit_counts,
            (&service.backend(), request),
            r,
        ),
{
}

/// A bad batch is refused, and any other one is answered by the backend, which
/// gets it from the same worker, with the same sequence number and the same
/// actions, each with the same blocks in their stored form.
pub proof fn a_bad_batch_never_reaches_the_backend<B: KvIndexerBackend>(
    service: KvIndexerService<B>,
    request: ApplyExternalKvBatchRequest,
    r: Result<ApplyExternalKvBatchResponse, RpcStatus>,
    checked: Result<(), RpcStatus>,
    i: int,
    k: int,
    hash: &str,
    normal: String,
) -> (stored: ApplyExternalKvBatchRequest)
    requires
        call_ensures(KvIndexerService::<B>::apply_external_kv_batch, (&service, request), r),
        call_ensures(validate_batch, (&request,), checked),
        call_ensures(normalize_hash, (hash,), normal),
    ensures
        checked is Err ==> r is Err && r->Err_0@ == checked->Err_0@,
        checked is Ok ==> call_ensures(
            B::apply_external_kv_batch,
            (&service.backend(), stored),
            r,
        ) && stored.worker_id@ == request.worker_id@ && stored.worker_address@
            == request.worker_address@ && stored.seq == request.seq && stored.incarnation@
            == request.incarnation@ && stored.hash_spec == request.hash_spec && stored.dp_rank
            == request.dp_rank && stored.actions@.len() == request.actions@.len() && forall|i: int|
            0 <= i < request.actions@.len() ==> (#[trigger] stored.actions@[i]).kind
                == request.actions@[i].kind && stored.actions@[i].tier == request.actions@[i].tier
                && stored.actions@[i].hashes@.len() == request.actions@[i].hashes@.len(),
        checked is Ok && 0 <= i < request.actions@.len() && 0 <= k
            < request.actions@[i].hashes@.len() && hash@ == request.actions@[i].hashes@[k]@
            ==> stored.actions@[i].hashes@[k]@ == normal@,
{
    if checked is Ok {
        let stored = choose|stored: ApplyExternalKvBatchRequest|
            crate::ingest::is_stored_form(request, stored) && #[trigger] call_ensures(
                B::apply_external_kv_batch,
                (&service.backend(), stored),
                r,
            );
        let before = crate::validate::action_views(request.actions@);
        let after = crate::validate::action_views(stored.actions@);
        assert(after.len() == stored.actions@.len());
        assert forall|i: int| 0 <= i < request.actions@.len() implies (
        #[trigger] stored.actions@[i]).kind == request.actions@[i].kind && stored.actions@[i].tier
            == request.actions@[i].tier && stored.actions@[i].hashes@.len()
            == request.actions@[i].hashes@.len() by {
            assert(after[i] == stored.actions@[i]@);
            assert(before[i] == request.actions@[i]@);
            assert(after[i].hashes.len() == stored.actions@[i].hashes@.len());
        }
        if 0 <= i < request.actions@.len() && 0 <= k < request.actions@[i].hashes@.len() {
            assert(after[i] == stored.actions@[i]@);
            assert(before[i] == request.actions@[i]@);
            assert(before[i].hashes[k] == request.actions@[i].hashes@[k]@);
            assert(stored.actions@[i].hashes@.len() == request.actions@[i].hashes@.len());
            assert(after[i].hashes[k] == stored.actions@[i].hashes@[k]@);
        }
        stored
    } else {
        request
    }
}

} // verus!
