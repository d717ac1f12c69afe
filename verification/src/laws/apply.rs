//! What a batch asks of the store, and where the answers lead it.

use vstd::prelude::*;

use crate::pb::ApplyExternalKvBatchRequest;
use crate::redis_backend::apply::{ApplyRun, PhaseView, RunView, Step};
use crate::redis_backend::codec::ReverseMemberView;
use crate::status::{RpcStatus, StatusView};

verus! {

/// A batch begins with what its request says: nothing is lost or changed on the
/// way. A publisher that names no incarnation counts as one that is called
/// `__legacy__`, and a batch that states no hash space, or one without a block
/// size, records none.
pub proof fn a_batch_begins_as_it_was_sent(
    request: ApplyExternalKvBatchRequest,
    now_ms: i64,
    ttl_ms: u64,
    r: ApplyRun,
)
    requires
        call_ensures(ApplyRun::start, (request, now_ms, ttl_ms), r),
    ensures
        r@.phase is Touch,
        r@.now_ms == now_ms,
        r@.ttl_ms == ttl_ms,
        r@.batch.worker == request.worker_id@,
        r@.batch.address == request.worker_address@,
        r@.batch.seq == request.seq,
        r@.batch.dp_rank == request.dp_rank,
        request.incarnation@.len() > 0 ==> r@.batch.incarnation == request.incarnation@,
        request.incarnation@.len() == 0 ==> r@.batch.incarnation == "__legacy__"@,
        request.hash_spec is None ==> r@.batch.spec.len() == 0,
        (request.hash_spec is Some && request.hash_spec->0.block_size == 0) ==> r@.batch.spec.len()
            == 0,
        (request.hash_spec is Some && request.hash_spec->0.block_size > 0) ==> r@.batch.spec
            == crate::text::decimal(request.hash_spec->0.block_size as int) + seq![':']
            + crate::text::decimal(request.hash_spec->0.algo as int) + seq![':']
            + crate::text::decimal(request.hash_spec->0.version as int) + seq![':']
            + request.hash_spec->0.namespace@,
        r@.batch.actions.len() == request.actions@.len(),
        forall|i: int|
            0 <= i < request.actions@.len() ==> (#[trigger] r@.batch.actions[i]).kind
                == request.actions@[i].kind && r@.batch.actions[i].tier == request.actions@[i].tier
                && r@.batch.actions[i].hashes.len() == request.actions@[i].hashes@.len(),
        forall|i: int, k: int|
            0 <= i < request.actions@.len() && 0 <= k < request.actions@[i].hashes@.len()
                ==> #[trigger] r@.batch.actions[i].hashes[k] == request.actions@[i].hashes@[k]@,
{
    if request.hash_spec is Some && request.hash_spec->0.block_size > 0 {
        assert(r@.batch.spec =~= crate::text::decimal(request.hash_spec->0.block_size as int)
            + seq![':'] + crate::text::decimal(request.hash_spec->0.algo as int) + seq![':']
            + crate::text::decimal(request.hash_spec->0.version as int) + seq![':']
            + request.hash_spec->0.namespace@);
    }
    assert forall|i: int, k: int|
        0 <= i < request.actions@.len() && 0 <= k < request.actions@[i].hashes@.len() implies
        #[trigger] r@.batch.actions[i].hashes[k] == request.actions@[i].hashes@[k]@ by {
        assert(r@.batch.actions[i] == request.actions@[i]@);
    }
}

/// A report places each of its blocks at the tier that it names, and at no other
/// one: the jobs carry the bit of that tier alone, the worker and the generation
/// of the batch, and the blocks in order.
pub proof fn a_report_places_blocks_at_its_tier(
    run: ApplyRun,
    index: nat,
    hashes: Seq<Seq<char>>,
    r: Step,
    k: int,
)
    requires
        crate::redis_backend::apply::run_is_valid(run@),
        run@.phase == (PhaseView::Act { index, hashes }),
        run@.batch.actions[index as int].kind == 1,
        call_ensures(ApplyRun::step, (&run,), r),
        0 <= k < hashes.len(),
        k < 256,
    ensures
        r is RunAll,
        r->RunAll_0@.len() == if hashes.len() <= 256 {
            hashes.len()
        } else {
            256
        },
        r->RunAll_0@[k].worker@ == run@.batch.worker,
        r->RunAll_0@[k].generation == run@.generation,
        r->RunAll_0@[k].kind is Report,
        r->RunAll_0@[k].kind->Report_hash@ == hashes[k],
        run@.batch.actions[index as int].tier == 1 ==> r->RunAll_0@[k].kind->Report_bit == 2,
        run@.batch.actions[index as int].tier == 2 ==> r->RunAll_0@[k].kind->Report_bit == 4,
        run@.batch.actions[index as int].tier == 3 ==> r->RunAll_0@[k].kind->Report_bit == 8,
        !(1 <= run@.batch.actions[index as int].tier <= 3)
            ==> r->RunAll_0@[k].kind->Report_bit == 0,
{
    let jobs = r->RunAll_0@;
    assert(crate::redis_backend::apply::job_views(jobs).len() == jobs.len());
    assert(crate::redis_backend::apply::job_views(jobs)[k] == jobs[k]@);
}

/// A revocation takes each of its blocks from the tier that it names, and from no
/// other one.
pub proof fn a_revocation_takes_blocks_from_its_tier(
    run: ApplyRun,
    index: nat,
    hashes: Seq<Seq<char>>,
    r: Step,
    k: int,
)
    requires
        crate::redis_backend::apply::run_is_valid(run@),
        run@.phase == (PhaseView::Act { index, hashes }),
        run@.batch.actions[index as int].kind == 2,
        call_ensures(ApplyRun::step, (&run,), r),
        0 <= k < hashes.len(),
        k < 256,
    ensures
        r is RunAll,
        r->RunAll_0@.len() == if hashes.len() <= 256 {
            hashes.len()
        } else {
            256
        },
        r->RunAll_0@[k].worker@ == run@.batch.worker,
        r->RunAll_0@[k].generation == run@.generation,
        r->RunAll_0@[k].kind is Revoke,
        r->RunAll_0@[k].kind->Revoke_hash@ == hashes[k],
        run@.batch.actions[index as int].tier == 1 ==> r->RunAll_0@[k].kind->Revoke_bit == 2,
        run@.batch.actions[index as int].tier == 2 ==> r->RunAll_0@[k].kind->Revoke_bit == 4,
        run@.batch.actions[index as int].tier == 3 ==> r->RunAll_0@[k].kind->Revoke_bit == 8,
        !(1 <= run@.batch.actions[index as int].tier <= 3)
            ==> r->RunAll_0@[k].kind->Revoke_bit == 0,
{
    let jobs = r->RunAll_0@;
    assert(crate::redis_backend::apply::job_views(jobs).len() == jobs.len());
    assert(crate::redis_backend::apply::job_views(jobs)[k] == jobs[k]@);
}

/// Clearing a tier takes the blocks that were found from that tier, and from no
/// other one.
pub proof fn clearing_takes_blocks_from_its_tier(
    run: ApplyRun,
    index: nat,
    next: u64,
    hashes: Seq<Seq<char>>,
    r: Step,
    k: int,
)
    requires
        crate::redis_backend::apply::run_is_valid(run@),
        run@.phase == (PhaseView::ClearRevoke { index, next, hashes }),
        run@.batch.actions[index as int].kind == 3,
        call_ensures(ApplyRun::step, (&run,), r),
        0 <= k < hashes.len(),
        k < 256,
    ensures
        r is RunAll,
        r->RunAll_0@.len() == if hashes.len() <= 256 {
            hashes.len()
        } else {
            256
        },
        r->RunAll_0@[k].worker@ == run@.batch.worker,
        r->RunAll_0@[k].generation == run@.generation,
        r->RunAll_0@[k].kind is Revoke,
        r->RunAll_0@[k].kind->Revoke_hash@ == hashes[k],
        run@.batch.actions[index as int].tier == 1 ==> r->RunAll_0@[k].kind->Revoke_bit == 2,
        run@.batch.actions[index as int].tier == 2 ==> r->RunAll_0@[k].kind->Revoke_bit == 4,
        run@.batch.actions[index as int].tier == 3 ==> r->RunAll_0@[k].kind->Revoke_bit == 8,
        !(1 <= run@.batch.actions[index as int].tier <= 3)
            ==> r->RunAll_0@[k].kind->Revoke_bit == 0,
{
    let jobs = r->RunAll_0@;
    assert(crate::redis_backend::apply::job_views(jobs).len() == jobs.len());
    assert(crate::redis_backend::apply::job_views(jobs)[k] == jobs[k]@);
}

/// A reset clears the entries that were found, each under the text by which it
/// is listed.
pub proof fn a_reset_clears_entries_as_they_are_listed(
    run: ApplyRun,
    next: u64,
    stale: Seq<ReverseMemberView>,
    r: Step,
    k: int,
)
    requires
        crate::redis_backend::apply::run_is_valid(run@),
        run@.phase == (PhaseView::ResetClear { next, stale }),
        call_ensures(ApplyRun::step, (&run,), r),
        0 <= k < stale.len(),
        k < 256,
    ensures
        r is RunAll,
        r->RunAll_0@.len() == if stale.len() <= 256 {
            stale.len()
        } else {
            256
        },
        r->RunAll_0@[k].worker@ == run@.batch.worker,
        r->RunAll_0@[k].generation == run@.generation,
        r->RunAll_0@[k].kind is Forget,
        r->RunAll_0@[k].kind->Forget_hash@ == stale[k].hash,
        r->RunAll_0@[k].kind->Forget_member@ == stale[k].encoded,
{
    let jobs = r->RunAll_0@;
    assert(crate::redis_backend::apply::job_views(jobs).len() == jobs.len());
    assert(crate::redis_backend::apply::job_views(jobs)[k] == jobs[k]@);
}

/// A worker is touched with the time, its time to live, its address, its
/// incarnation, its hash space and its data-parallel rank.
pub proof fn a_touch_says_what_the_worker_reports(run: ApplyRun, r: Step)
    requires
        crate::redis_backend::apply::run_is_valid(run@),
        run@.phase is Touch,
        call_ensures(ApplyRun::step, (&run,), r),
    ensures
        r is Run,
        r->Run_0 is Invoke,
        r->Run_0->Invoke_script is TouchMeta,
        r->Run_0->Invoke_keys@.len() == 1,
        r->Run_0->Invoke_keys@[0] is WorkerMeta,
        r->Run_0->Invoke_keys@[0]->WorkerMeta_0@ == run@.batch.worker,
        r->Run_0->Invoke_args@.len() == 6,
        r->Run_0->Invoke_args@[0]@ == crate::text::decimal(run@.now_ms as int),
        r->Run_0->Invoke_args@[1]@ == crate::text::decimal(run@.ttl_ms as int),
        r->Run_0->Invoke_args@[2]@ == run@.batch.address,
        r->Run_0->Invoke_args@[3]@ == run@.batch.incarnation,
        r->Run_0->Invoke_args@[4]@ == run@.batch.spec,
        r->Run_0->Invoke_args@[5]@ == crate::text::decimal(run@.batch.dp_rank as int),
{
    let keys = r->Run_0->Invoke_keys@;
    let args = r->Run_0->Invoke_args@;
    assert(crate::redis_backend::commands::key_views(keys).len() == keys.len());
    assert(crate::redis_backend::commands::key_views(keys)[0] == keys[0]@);
    assert(crate::text::texts(args).len() == args.len());
    assert(crate::text::texts(args)[0] == args[0]@);
    assert(crate::text::texts(args)[1] == args[1]@);
    assert(crate::text::texts(args)[2] == args[2]@);
    assert(crate::text::texts(args)[3] == args[3]@);
    assert(crate::text::texts(args)[4] == args[4]@);
    assert(crate::text::texts(args)[5] == args[5]@);
}

/// A batch is checked before it is applied and recorded after it, each time with
/// its sequence number and the generation that fences it.
pub proof fn check_and_commit_name_sequence_and_generation(run: ApplyRun, r: Step)
    requires
        crate::redis_backend::apply::run_is_valid(run@),
        run@.phase is CheckSeq || run@.phase is Commit,
        call_ensures(ApplyRun::step, (&run,), r),
    ensures
        r is Run,
        r->Run_0 is Invoke,
        run@.phase is CheckSeq ==> r->Run_0->Invoke_script is SeqCheck,
        run@.phase is Commit ==> r->Run_0->Invoke_script is SeqCommit,
        r->Run_0->Invoke_keys@.len() == 1,
        r->Run_0->Invoke_keys@[0] is WorkerMeta,
        r->Run_0->Invoke_keys@[0]->WorkerMeta_0@ == run@.batch.worker,
        r->Run_0->Invoke_args@.len() == 2,
        r->Run_0->Invoke_args@[0]@ == crate::text::decimal(run@.batch.seq as int),
        r->Run_0->Invoke_args@[1]@ == crate::text::decimal(run@.generation as int),
{
    let keys = r->Run_0->Invoke_keys@;
    let args = r->Run_0->Invoke_args@;
    assert(crate::redis_backend::commands::key_views(keys).len() == keys.len());
    assert(crate::redis_backend::commands::key_views(keys)[0] == keys[0]@);
    assert(crate::text::texts(args).len() == args.len());
    assert(crate::text::texts(args)[0] == args[0]@);
    assert(crate::text::texts(args)[1] == args[1]@);
}

/// A generation is opened under the worker's registry entry and by its number.
pub proof fn a_reset_ends_by_opening_the_generation(run: ApplyRun, r: Step)
    requires
        crate::redis_backend::apply::run_is_valid(run@),
        run@.phase is ResetFinish,
        call_ensures(ApplyRun::step, (&run,), r),
    ensures
        r is Run,
        r->Run_0 is Invoke,
        r->Run_0->Invoke_script is ResetFinish,
        r->Run_0->Invoke_keys@.len() == 1,
        r->Run_0->Invoke_keys@[0] is WorkerMeta,
        r->Run_0->Invoke_keys@[0]->WorkerMeta_0@ == run@.batch.worker,
        r->Run_0->Invoke_args@.len() == 1,
        r->Run_0->Invoke_args@[0]@ == crate::text::decimal(run@.generation as int),
{
    let keys = r->Run_0->Invoke_keys@;
    let args = r->Run_0->Invoke_args@;
    assert(crate::redis_backend::commands::key_views(keys).len() == keys.len());
    assert(crate::redis_backend::commands::key_views(keys)[0] == keys[0]@);
    assert(crate::text::texts(args).len() == args.len());
    assert(crate::text::texts(args)[0] == args[0]@);
}

/// The blocks of the batch's own worker are read page by page, each from the
/// cursor that the page before it gave.
pub proof fn pages_are_read_of_the_worker_itself(run: ApplyRun, r: Step)
    requires
        crate::redis_backend::apply::run_is_valid(run@),
        run@.phase is ResetScan || run@.phase is ClearScan,
        call_ensures(ApplyRun::step, (&run,), r),
    ensures
        r is Run,
        r->Run_0 is SetScan,
        r->Run_0->SetScan_key is WorkerBlocks,
        r->Run_0->SetScan_key->WorkerBlocks_0@ == run@.batch.worker,
        r->Run_0->SetScan_count == 256,
        run@.phase is ResetScan ==> r->Run_0->SetScan_cursor == run@.phase->ResetScan_cursor,
        run@.phase is ClearScan ==> r->Run_0->SetScan_cursor == run@.phase->ClearScan_cursor,
{
}

/// A heartbeat reads the sequence number of its own worker.
pub proof fn a_heartbeat_reads_its_own_sequence(run: ApplyRun, r: Step)
    requires
        crate::redis_backend::apply::run_is_valid(run@),
        run@.phase is ReadSeq,
        call_ensures(ApplyRun::step, (&run,), r),
    ensures
        r is Run,
        r->Run_0 is HashGet,
        r->Run_0->HashGet_key is WorkerMeta,
        r->Run_0->HashGet_key->WorkerMeta_0@ == run@.batch.worker,
        r->Run_0->HashGet_field@ == "seq"@,
{
}

/// A finished batch is answered with what it finished with.
pub proof fn a_finished_batch_is_answered(run: ApplyRun, r: Step)
    requires
        crate::redis_backend::apply::run_is_valid(run@),
        run@.phase is Finished,
        call_ensures(ApplyRun::step, (&run,), r),
    ensures
        r is Answer,
        r->Answer_0 == run@.phase->response,
{
}

/// A reply either moves a batch to where it should go, or is refused with the
/// expected status and leaves the batch where it was.
pub proof fn a_reply_moves_or_is_refused(
    r: Result<(), RpcStatus>,
    before: RunView,
    after: RunView,
    expected: Result<RunView, StatusView>,
)
    requires
        crate::redis_backend::apply::moved(r, before, after, expected),
    ensures
        expected is Ok <==> r is Ok,
        expected is Ok ==> after == expected->Ok_0,
        expected is Err ==> after == before && r->Err_0.code == expected->Err_0.code
            && r->Err_0.message@ == expected->Err_0.message,
{
}

/// A touch that is answered with a negative status ends the batch: the worker's
/// incarnation was retired. Any other answer gives the batch its generation; a
/// status of 1 says that a reset is due, and else the batch goes on to its check
/// or, without actions, to reading the sequence number.
pub proof fn a_touch_gives_the_generation(v: RunView, status: i64, generation: i64)
    requires
        v.phase is Touch,
    ensures
        ({
            let next = crate::redis_backend::apply::after_pair(v, status, generation);
            &&& status < 0 ==> next is Err && next->Err_0.code is FailedPrecondition
                && next->Err_0.message == "worker incarnation has been retired: "@
                + v.batch.incarnation
            &&& status >= 0 ==> next is Ok && next->Ok_0.batch == v.batch && next->Ok_0.now_ms
                == v.now_ms && next->Ok_0.ttl_ms == v.ttl_ms && next->Ok_0.generation == generation
            &&& status == 1 ==> next->Ok_0.phase == (PhaseView::ResetScan { cursor: 0 })
            &&& status >= 0 && status != 1 && v.batch.actions.len() > 0
                ==> next->Ok_0.phase is CheckSeq
            &&& status >= 0 && status != 1 && v.batch.actions.len() == 0
                ==> next->Ok_0.phase is ReadSeq
        }),
{
}

/// What the check answers decides: a negative status refuses the batch, 1 lets
/// its first action begin, and anything else answers it as a duplicate of what
/// was applied last.
pub proof fn the_check_decides(v: RunView, status: i64, last: i64)
    requires
        v.phase is CheckSeq,
        v.batch.actions.len() > 0,
    ensures
        ({
            let next = crate::redis_backend::apply::after_pair(v, status, last);
            let first = v.batch.actions[0];
            &&& status < 0 ==> next is Err && next->Err_0.code is FailedPrecondition
                && next->Err_0.message == "worker incarnation changed while applying batch"@
            &&& status >= 0 && status != 1 ==> next is Ok && next->Ok_0.phase is Finished
                && next->Ok_0.phase->response.duplicate
                && next->Ok_0.phase->response.has_applied_seq == (last >= 0)
                && next->Ok_0.phase->response.last_applied_seq == if last > 0 {
                last as int
            } else {
                0
            }
            &&& status == 1 && (first.kind == 1 || first.kind == 2) && first.hashes.len() > 0
                ==> next is Ok && next->Ok_0.phase == (PhaseView::Act {
                index: 0,
                hashes: first.hashes,
            }) && next->Ok_0.batch == v.batch && next->Ok_0.generation == v.generation
            &&& status == 1 && first.kind == 3 ==> next is Ok && next->Ok_0.phase == (
            PhaseView::ClearScan { index: 0, cursor: 0 }) && next->Ok_0.batch == v.batch
                && next->Ok_0.generation == v.generation
            &&& status == 1 && !(1 <= first.kind <= 3) ==> next is Err
                && next->Err_0.code is InvalidArgument && next->Err_0.message
                == "unsupported action type"@
        }),
{
}

/// Once recorded, a batch is answered with the sequence number that the store
/// keeps, and not as a duplicate.
pub proof fn the_commit_answers(v: RunView, status: i64, committed: i64)
    requires
        v.phase is Commit,
    ensures
        ({
            let next = crate::redis_backend::apply::after_pair(v, status, committed);
            &&& status < 0 ==> next is Err && next->Err_0.code is FailedPrecondition
                && next->Err_0.message == "worker incarnation changed while applying batch"@
            &&& status >= 0 ==> next is Ok && next->Ok_0.phase is Finished
                && !next->Ok_0.phase->response.duplicate
                && next->Ok_0.phase->response.has_applied_seq == (committed >= 0)
                && next->Ok_0.phase->response.last_applied_seq == if committed > 0 {
                committed as int
            } else {
                0
            }
        }),
{
}

/// A heartbeat is answered with the sequence number that is stored.
pub proof fn a_heartbeat_answers_what_is_stored(v: RunView, stored: i64)
    ensures
        ({
            let next = crate::redis_backend::apply::after_seq(v, stored);
            &&& next.phase is Finished
            &&& !next.phase->response.duplicate
            &&& next.phase->response.has_applied_seq == (stored >= 0)
            &&& next.phase->response.last_applied_seq == if stored > 0 {
                stored as int
            } else {
                0
            }
        }),
{
}

/// The generation opens unless the store refuses it.
pub proof fn an_opened_generation_goes_on(v: RunView, status: i64)
    ensures
        ({
            let next = crate::redis_backend::apply::after_reset_finish(v, status);
            &&& status < 0 ==> next is Err && next->Err_0.code is FailedPrecondition
                && next->Err_0.message == "worker generation changed while resetting"@
            &&& status >= 0 ==> next is Ok && next->Ok_0.batch == v.batch && next->Ok_0.generation
                == v.generation
            &&& status >= 0 && v.batch.actions.len() > 0 ==> next->Ok_0.phase is CheckSeq
            &&& status >= 0 && v.batch.actions.len() == 0 ==> next->Ok_0.phase is ReadSeq
        }),
{
}

/// A page of a reset is cleared of the entries of older generations, of those
/// alone and of each of them. A page without any is passed over, and behind the
/// last one the generation opens.
pub proof fn a_reset_page_loses_its_older_entries(
    v: RunView,
    next: u64,
    members: Seq<ReverseMemberView>,
    m: ReverseMemberView,
)
    requires
        v.phase is ResetScan,
    ensures
        ({
            let after = crate::redis_backend::apply::after_page(v, next, members);
            &&& after is Ok
            &&& after->Ok_0.batch == v.batch
            &&& after->Ok_0.generation == v.generation
            &&& after->Ok_0.phase is ResetClear ==> after->Ok_0.phase->ResetClear_next == next && (
            after->Ok_0.phase->stale.contains(m) <==> members.contains(m) && m.generation
                < v.generation)
            &&& members.contains(m) && m.generation < v.generation
                ==> after->Ok_0.phase is ResetClear
            &&& (after->Ok_0.phase is ResetClear || (next == 0 && after->Ok_0.phase is ResetFinish)
                || (next != 0 && after->Ok_0.phase == (PhaseView::ResetScan { cursor: next })))
        }),
{
    crate::redis_backend::apply_laws::reset_clears_only_older_generations(
        members,
        v.generation,
        m,
    );
    let stale = crate::redis_backend::apply::stale_members(members, v.generation);
    if stale.contains(m) {
        assert(stale.len() > 0);
    }
}

/// A page of an action that clears a tier loses the blocks of the current
/// generation, those alone, and each once. Behind the last page comes the next
/// action.
pub proof fn a_cleared_page_loses_its_current_blocks(
    v: RunView,
    index: nat,
    cursor: u64,
    next: u64,
    members: Seq<ReverseMemberView>,
    hash: Seq<char>,
)
    requires
        v.phase == (PhaseView::ClearScan { index, cursor }),
    ensures
        ({
            let after = crate::redis_backend::apply::after_page(v, next, members);
            let listed = exists|i: int|
                0 <= i < members.len() && (#[trigger] members[i]).hash == hash
                    && members[i].generation == v.generation;
            &&& listed ==> after is Ok && after->Ok_0.phase is ClearRevoke
            &&& after is Ok && after->Ok_0.phase is ClearRevoke
                ==> after->Ok_0.phase->ClearRevoke_index == index
                && after->Ok_0.phase->ClearRevoke_next == next
                && after->Ok_0.phase->ClearRevoke_hashes.no_duplicates() && (
            after->Ok_0.phase->ClearRevoke_hashes.contains(hash) <==> listed) && after->Ok_0.batch
                == v.batch && after->Ok_0.generation == v.generation
            &&& next != 0 ==> after is Ok && (after->Ok_0.phase is ClearRevoke
                || after->Ok_0.phase == (PhaseView::ClearScan { index, cursor: next }))
            &&& next == 0 && index + 1 >= v.batch.actions.len() ==> after is Ok && (
            after->Ok_0.phase is ClearRevoke || after->Ok_0.phase is Commit)
            &&& next == 0 && index + 1 < v.batch.actions.len() && (v.batch.actions[index as int
                + 1].kind == 1 || v.batch.actions[index as int + 1].kind == 2)
                && v.batch.actions[index as int + 1].hashes.len() > 0 ==> after is Ok && (
            after->Ok_0.phase is ClearRevoke || after->Ok_0.phase == (PhaseView::Act {
                index: (index + 1) as nat,
                hashes: v.batch.actions[index as int + 1].hashes,
            }))
            &&& next == 0 && index + 1 < v.batch.actions.len() && v.batch.actions[index as int
                + 1].kind == 3 ==> after is Ok && (after->Ok_0.phase is ClearRevoke
                || after->Ok_0.phase == (PhaseView::ClearScan {
                index: (index + 1) as nat,
                cursor: 0,
            }))
        }),
{
    crate::redis_backend::apply_laws::clear_takes_the_current_blocks_once(
        members,
        v.generation,
        hash,
    );
    let hashes = crate::text::distinct(
        crate::redis_backend::apply::member_hashes(members, v.generation),
    );
    if hashes.contains(hash) {
        assert(hashes.len() > 0);
    }
    lemma_entered_phase(v, index + 1);
}

/// An action begins with its blocks or with its scan, never with a revocation.
proof fn lemma_entered_phase(v: RunView, index: nat)
    ensures
        crate::redis_backend::apply::enter_action(v, index) matches Ok(next)
            ==> !(next.phase is ClearRevoke) && next.batch == v.batch && next.generation
            == v.generation,
    decreases v.batch.actions.len() - index,
{
    if index < v.batch.actions.len() {
        lemma_entered_phase(v, index + 1);
    }
}

/// Blocks that did not fit into a step are left for the next one, in order; none
/// is dropped and none is done twice.
pub proof fn a_step_leaves_the_rest_for_the_next(v: RunView)
    ensures
        ({
            let after = crate::redis_backend::apply::after_jobs(v);
            &&& (v.phase is Act && v.phase->Act_hashes.len() > 256) ==> after is Ok
                && after->Ok_0.phase == (PhaseView::Act {
                index: v.phase->Act_index,
                hashes: v.phase->Act_hashes.skip(256),
            }) && after->Ok_0.batch == v.batch && after->Ok_0.generation == v.generation
            &&& (v.phase is ClearRevoke && v.phase->ClearRevoke_hashes.len() > 256) ==> after is Ok
                && after->Ok_0.phase == (PhaseView::ClearRevoke {
                index: v.phase->ClearRevoke_index,
                next: v.phase->ClearRevoke_next,
                hashes: v.phase->ClearRevoke_hashes.skip(256),
            }) && after->Ok_0.batch == v.batch && after->Ok_0.generation == v.generation
            &&& (v.phase is ResetClear && v.phase->stale.len() > 256) ==> after is Ok
                && after->Ok_0.phase == (PhaseView::ResetClear {
                next: v.phase->ResetClear_next,
                stale: v.phase->stale.skip(256),
            }) && after->Ok_0.batch == v.batch && after->Ok_0.generation == v.generation
        }),
{
}

/// An action that is done makes way for the next one that has anything to do;
/// behind the last one the batch is recorded.
pub proof fn a_finished_action_makes_way_for_the_next(v: RunView, index: nat, hashes: Seq<Seq<char>>)
    requires
        v.phase == (PhaseView::Act { index, hashes }),
        hashes.len() <= 256,
    ensures
        ({
            let after = crate::redis_backend::apply::after_jobs(v);
            let next = v.batch.actions[index as int + 1];
            &&& index + 1 >= v.batch.actions.len() ==> after is Ok && after->Ok_0.phase is Commit
                && after->Ok_0.batch == v.batch && after->Ok_0.generation == v.generation
            &&& index + 1 < v.batch.actions.len() && (next.kind == 1 || next.kind == 2)
                && next.hashes.len() > 0 ==> after is Ok && after->Ok_0.phase == (PhaseView::Act {
                index: (index + 1) as nat,
                hashes: next.hashes,
            }) && after->Ok_0.batch == v.batch && after->Ok_0.generation == v.generation
            &&& index + 1 < v.batch.actions.len() && next.kind == 3 ==> after is Ok
                && after->Ok_0.phase == (PhaseView::ClearScan {
                index: (index + 1) as nat,
                cursor: 0,
            }) && after->Ok_0.batch == v.batch && after->Ok_0.generation == v.generation
        }),
{
}

/// A tier whose last page is done makes way for the next action, and any other
/// one for its next page.
pub proof fn a_cleared_page_makes_way_for_the_next(
    v: RunView,
    index: nat,
    next: u64,
    hashes: Seq<Seq<char>>,
)
    requires
        v.phase == (PhaseView::ClearRevoke { index, next, hashes }),
        hashes.len() <= 256,
    ensures
        ({
            let after = crate::redis_backend::apply::after_jobs(v);
            let then = v.batch.actions[index as int + 1];
            &&& next != 0 ==> after is Ok && after->Ok_0.phase == (PhaseView::ClearScan {
                index,
                cursor: next,
            }) && after->Ok_0.batch == v.batch && after->Ok_0.generation == v.generation
            &&& next == 0 && index + 1 >= v.batch.actions.len() ==> after is Ok
                && after->Ok_0.phase is Commit
            &&& next == 0 && index + 1 < v.batch.actions.len() && (then.kind == 1 || then.kind == 2)
                && then.hashes.len() > 0 ==> after is Ok && after->Ok_0.phase == (PhaseView::Act {
                index: (index + 1) as nat,
                hashes: then.hashes,
            })
            &&& next == 0 && index + 1 < v.batch.actions.len() && then.kind == 3 ==> after is Ok
                && after->Ok_0.phase == (PhaseView::ClearScan {
                index: (index + 1) as nat,
                cursor: 0,
            })
        }),
{
}

/// A reset whose last page is done opens the generation, and any other one reads
/// its next page.
pub proof fn a_reset_page_makes_way_for_the_next(
    v: RunView,
    next: u64,
    stale: Seq<ReverseMemberView>,
)
    requires
        v.phase == (PhaseView::ResetClear { next, stale }),
        stale.len() <= 256,
    ensures
        ({
            let after = crate::redis_backend::apply::after_jobs(v);
            &&& after is Ok
            &&& after->Ok_0.batch == v.batch
            &&& after->Ok_0.generation == v.generation
            &&& next == 0 ==> after->Ok_0.phase is ResetFinish
            &&& next != 0 ==> after->Ok_0.phase == (PhaseView::ResetScan { cursor: next })
        }),
{
}

/// An action that names no block is passed over, and one of an unknown kind is
/// refused.
pub proof fn an_action_without_blocks_is_passed_over(v: RunView, index: nat)
    requires
        index < v.batch.actions.len(),
    ensures
        ({
            let action = v.batch.actions[index as int];
            let entered = crate::redis_backend::apply::enter_action(v, index);
            &&& (action.kind == 1 || action.kind == 2) && action.hashes.len() == 0 ==> entered
                == crate::redis_backend::apply::enter_action(v, index + 1)
            &&& !(1 <= action.kind <= 3) ==> entered is Err && entered->Err_0.code
                is InvalidArgument && entered->Err_0.message == "unsupported action type"@
        }),
{
}

/// A reply is read as what the batch waits for, and moves it as what was read
/// does: a pair for a touch, a check and a commit, a number for a generation that
/// opens, the stored sequence number for a heartbeat, where none counts as -1, and
/// a page for a scan.
pub proof fn a_reply_is_read_as_what_is_waited_for(
    before: RunView,
    reply: redis::Value,
    r: Result<(), RpcStatus>,
    after: RunView,
)
    requires
        crate::redis_backend::apply::reply_moves(before, reply, r, after),
        crate::redis_backend::apply::awaits_reply(before.phase),
    ensures
        ({
            let numbers = crate::redis_backend::replies::reply_integers(reply);
            let number = crate::redis_backend::replies::reply_integer(reply);
            let field = crate::redis_backend::replies::reply_optional_integer(reply);
            let page = crate::redis_backend::replies::reply_page(reply);
            let empty = crate::redis_backend::replies::reply_is_empty_map(
                crate::redis_backend::replies::reply_data(reply),
            );
            let takes_pair = before.phase is Touch || before.phase is CheckSeq || before.phase
                is Commit;
            let takes_page = before.phase is ResetScan || before.phase is ClearScan;
            &&& takes_pair && numbers is Some && numbers->0.len() >= 2
                ==> crate::redis_backend::apply::moved(
                r,
                before,
                after,
                crate::redis_backend::apply::after_pair(before, numbers->0[0], numbers->0[1]),
            )
            &&& takes_pair && (numbers is None || numbers->0.len() < 2) ==> r is Err && after
                == before
            &&& before.phase is ResetFinish && number is Some
                ==> crate::redis_backend::apply::moved(
                r,
                before,
                after,
                crate::redis_backend::apply::after_reset_finish(before, number->0),
            )
            &&& before.phase is ResetFinish && number is None ==> r is Err && after == before
            &&& before.phase is ReadSeq && field is Some && field->0 is Some ==> r is Ok && after
                == crate::redis_backend::apply::after_seq(before, field->0->0)
            &&& before.phase is ReadSeq && field is Some && field->0 is None ==> r is Ok && after
                == crate::redis_backend::apply::after_seq(before, (-1) as i64)
            &&& before.phase is ReadSeq && field is None ==> r is Err && after == before
            &&& takes_page && !empty && page is Some ==> crate::redis_backend::apply::moved(
                r,
                before,
                after,
                crate::redis_backend::apply::after_page(
                    before,
                    (page->0).0,
                    (page->0).1.map_values(
                        |t: Seq<char>|
                            ReverseMemberView {
                                encoded: t,
                                generation: crate::redis_backend::codec::reverse_parts(t).0,
                                hash: crate::redis_backend::codec::reverse_parts(t).1,
                            },
                    ),
                ),
            )
            &&& takes_page && (empty || page is None) ==> r is Err && after == before
        }),
{
    let page = crate::redis_backend::replies::reply_page(reply);
    if page is Some {
        assert(crate::redis_backend::replies::parsed_members((page->0).1) =~= (
        page->0).1.map_values(
            |t: Seq<char>|
                ReverseMemberView {
                    encoded: t,
                    generation: crate::redis_backend::codec::reverse_parts(t).0,
                    hash: crate::redis_backend::codec::reverse_parts(t).1,
                },
        ));
    }
}

} // verus!
