//! What the store is asked to do for a block, a worker or a hit.

use vstd::prelude::*;

use crate::redis_backend::commands::{
    count_hit, read_hits, read_page, read_placement, read_seq, read_worker, Command, Job,
};
use crate::redis_backend::hits::HitBump;
use crate::redis_backend::schema::key_name;
use crate::status::RpcStatus;

verus! {

/// Reporting a block sets one bit of the worker in the placement of that block,
/// under the worker's generation.
pub proof fn a_report_sets_a_bit_of_the_placement(job: Job, r: Command)
    requires
        call_ensures(Job::open, (&job,), r),
        job.kind is Report,
    ensures
        r is Invoke,
        r->Invoke_script is PlacementSet,
        r->Invoke_keys@.len() == 1,
        r->Invoke_keys@[0] is Placement,
        r->Invoke_keys@[0]->Placement_0@ == job.kind->Report_hash@,
        r->Invoke_args@.len() == 3,
        r->Invoke_args@[0]@ == job.worker@,
        r->Invoke_args@[1]@ == crate::text::decimal(job.kind->Report_bit as int),
        r->Invoke_args@[2]@ == crate::text::decimal(job.generation as int),
{
    let keys = r->Invoke_keys@;
    let args = r->Invoke_args@;
    assert(crate::redis_backend::commands::key_views(keys).len() == keys.len());
    assert(crate::redis_backend::commands::key_views(keys)[0] == keys[0]@);
    assert(crate::text::texts(args).len() == args.len());
    assert(crate::text::texts(args)[0] == args[0]@);
    assert(crate::text::texts(args)[1] == args[1]@);
    assert(crate::text::texts(args)[2] == args[2]@);
}

/// Revoking a block clears one bit of the worker in the placement of that block,
/// under the worker's generation, with the hits of the block at hand.
pub proof fn a_revocation_clears_a_bit_of_the_placement(job: Job, r: Command)
    requires
        call_ensures(Job::open, (&job,), r),
        job.kind is Revoke,
    ensures
        r is Invoke,
        r->Invoke_script is PlacementClear,
        r->Invoke_keys@.len() == 2,
        r->Invoke_keys@[0] is Placement,
        r->Invoke_keys@[0]->Placement_0@ == job.kind->Revoke_hash@,
        r->Invoke_keys@[1] is Hits,
        r->Invoke_keys@[1]->Hits_0@ == job.kind->Revoke_hash@,
        r->Invoke_args@.len() == 3,
        r->Invoke_args@[0]@ == job.worker@,
        r->Invoke_args@[1]@ == crate::text::decimal(job.kind->Revoke_bit as int),
        r->Invoke_args@[2]@ == crate::text::decimal(job.generation as int),
{
    let keys = r->Invoke_keys@;
    let args = r->Invoke_args@;
    assert(crate::redis_backend::commands::key_views(keys).len() == keys.len());
    assert(crate::redis_backend::commands::key_views(keys)[0] == keys[0]@);
    assert(crate::redis_backend::commands::key_views(keys)[1] == keys[1]@);
    assert(crate::text::texts(args).len() == args.len());
    assert(crate::text::texts(args)[0] == args[0]@);
    assert(crate::text::texts(args)[1] == args[1]@);
    assert(crate::text::texts(args)[2] == args[2]@);
}

/// What an older generation left of a block is cleared from the placement of
/// that block, for that worker.
pub proof fn what_is_left_of_a_block_is_cleared(job: Job, r: Command)
    requires
        call_ensures(Job::open, (&job,), r),
        job.kind is Forget,
    ensures
        r is Invoke,
        r->Invoke_script is PlacementClearWorker,
        r->Invoke_keys@.len() == 2,
        r->Invoke_keys@[0] is Placement,
        r->Invoke_keys@[0]->Placement_0@ == job.kind->Forget_hash@,
        r->Invoke_keys@[1] is Hits,
        r->Invoke_keys@[1]->Hits_0@ == job.kind->Forget_hash@,
        r->Invoke_args@.len() == 2,
        r->Invoke_args@[0]@ == job.worker@,
        r->Invoke_args@[1]@ == crate::text::decimal(job.generation as int),
{
    let keys = r->Invoke_keys@;
    let args = r->Invoke_args@;
    assert(crate::redis_backend::commands::key_views(keys).len() == keys.len());
    assert(crate::redis_backend::commands::key_views(keys)[0] == keys[0]@);
    assert(crate::redis_backend::commands::key_views(keys)[1] == keys[1]@);
    assert(crate::text::texts(args).len() == args.len());
    assert(crate::text::texts(args)[0] == args[0]@);
    assert(crate::text::texts(args)[1] == args[1]@);
}

/// A placed block is entered among the blocks of its worker, as its generation
/// and its hash around a colon. A block that a newer generation owns is refused.
pub proof fn a_placed_block_is_entered(job: Job, status: i64, r: Result<Option<Command>, RpcStatus>)
    requires
        call_ensures(Job::close_with, (&job, status), r),
        job.kind is Report,
    ensures
        status < 0 ==> r is Err && r->Err_0.code is FailedPrecondition && r->Err_0.message@
            == "newer worker generation already owns placement"@,
        status >= 0 ==> r is Ok && r->Ok_0 is Some && r->Ok_0->0 is SetAdd
            && r->Ok_0->0->SetAdd_key is WorkerBlocks && r->Ok_0->0->SetAdd_key->WorkerBlocks_0@
            == job.worker@ && r->Ok_0->0->SetAdd_members@.len() == 1
            && r->Ok_0->0->SetAdd_members@[0]@ == crate::text::decimal(job.generation as int)
            + seq![':'] + job.kind->Report_hash@,
{
    if status >= 0 {
        let members = r->Ok_0->0->SetAdd_members@;
        assert(crate::text::texts(members).len() == members.len());
        assert(crate::text::texts(members)[0] == members[0]@);
    }
}

/// A revoked block leaves the blocks of its worker once the worker holds it at
/// no tier any more, which a status of 1 says, and stays while it does. One of
/// generation zero leaves under its bare hash too.
pub proof fn a_revoked_block_leaves_once_it_is_gone(
    job: Job,
    status: i64,
    r: Result<Option<Command>, RpcStatus>,
)
    requires
        call_ensures(Job::close_with, (&job, status), r),
        job.kind is Revoke,
    ensures
        status < 0 ==> r is Err && r->Err_0.code is FailedPrecondition && r->Err_0.message@
            == "newer worker generation already owns placement"@,
        status >= 0 && status != 1 ==> r is Ok && r->Ok_0 is None,
        status == 1 ==> r is Ok && r->Ok_0 is Some && r->Ok_0->0 is SetRemove
            && r->Ok_0->0->SetRemove_key is WorkerBlocks
            && r->Ok_0->0->SetRemove_key->WorkerBlocks_0@ == job.worker@
            && r->Ok_0->0->SetRemove_members@.len() == (if job.generation == 0 {
            2int
        } else {
            1
        }) && r->Ok_0->0->SetRemove_members@[0]@ == crate::text::decimal(job.generation as int)
            + seq![':'] + job.kind->Revoke_hash@ && (job.generation == 0
            ==> r->Ok_0->0->SetRemove_members@[1]@ == job.kind->Revoke_hash@),
{
    if status == 1 {
        let members = r->Ok_0->0->SetRemove_members@;
        assert(crate::text::texts(members).len() == members.len());
        assert(crate::text::texts(members)[0] == members[0]@);
        if job.generation == 0 {
            assert(crate::text::texts(members)[1] == members[1]@);
        }
    }
}

/// What an older generation left leaves the blocks of the worker under the entry
/// by which it was found, whatever the store says.
pub proof fn what_is_left_of_a_block_leaves(
    job: Job,
    status: i64,
    r: Result<Option<Command>, RpcStatus>,
)
    requires
        call_ensures(Job::close_with, (&job, status), r),
        job.kind is Forget,
    ensures
        r is Ok,
        r->Ok_0 is Some,
        r->Ok_0->0 is SetRemove,
        r->Ok_0->0->SetRemove_key is WorkerBlocks,
        r->Ok_0->0->SetRemove_key->WorkerBlocks_0@ == job.worker@,
        r->Ok_0->0->SetRemove_members@.len() == 1,
        r->Ok_0->0->SetRemove_members@[0]@ == job.kind->Forget_member@,
{
    let members = r->Ok_0->0->SetRemove_members@;
    assert(crate::text::texts(members).len() == members.len());
    assert(crate::text::texts(members)[0] == members[0]@);
}

/// The reply to an opened job is the status by which it is closed: the first
/// number of a pair for a revocation, the one number for any other job.
pub proof fn a_reply_closes_its_job(
    job: Job,
    reply: redis::Value,
    status: i64,
    by_reply: Result<Option<Command>, RpcStatus>,
    by_status: Result<Option<Command>, RpcStatus>,
)
    requires
        call_ensures(Job::close, (&job, &reply), by_reply),
        call_ensures(Job::close_with, (&job, status), by_status),
        job.kind is Revoke ==> crate::redis_backend::replies::reply_integers(reply) is Some
            && crate::redis_backend::replies::reply_integers(reply)->0.len() >= 2
            && crate::redis_backend::replies::reply_integers(reply)->0[0] == status,
        !(job.kind is Revoke) ==> crate::redis_backend::replies::reply_integer(reply) == Some(
            status,
        ),
    ensures
        by_reply is Ok <==> by_status is Ok,
        by_reply is Err ==> by_reply->Err_0@ == by_status->Err_0@,
        by_reply is Ok ==> (by_reply->Ok_0 is Some <==> by_status->Ok_0 is Some),
        by_reply is Ok && by_reply->Ok_0 is Some ==> by_reply->Ok_0->0@ == by_status->Ok_0->0@,
{
}

/// A hit is counted on the placement and the hits of its block.
pub proof fn a_hit_is_counted_on_its_block(now_ms: i64, bump: HitBump, r: Command)
    requires
        call_ensures(count_hit, (now_ms, &bump), r),
    ensures
        r is Invoke,
        r->Invoke_script is HitBump,
        r->Invoke_keys@.len() == 2,
        r->Invoke_keys@[0] is Placement,
        r->Invoke_keys@[0]->Placement_0@ == bump.hash@,
        r->Invoke_keys@[1] is Hits,
        r->Invoke_keys@[1]->Hits_0@ == bump.hash@,
        forall|args: Vec<String>| #[trigger]
            call_ensures(crate::redis_backend::hits::hit_bump_args, (now_ms, &bump), args)
                ==> crate::text::texts(r->Invoke_args@) == crate::text::texts(args@),
{
    let keys = r->Invoke_keys@;
    assert(crate::redis_backend::commands::key_views(keys).len() == keys.len());
    assert(crate::redis_backend::commands::key_views(keys)[0] == keys[0]@);
    assert(crate::redis_backend::commands::key_views(keys)[1] == keys[1]@);
}

/// The placement of a block is read under that block.
pub proof fn a_placement_is_read_of_its_block(hash: &str, r: Command)
    requires
        call_ensures(read_placement, (hash,), r),
    ensures
        r is Invoke,
        r->Invoke_script is MatchHash,
        r->Invoke_keys@.len() == 1,
        r->Invoke_keys@[0] is Placement,
        r->Invoke_keys@[0]->Placement_0@ == hash@,
        r->Invoke_args@.len() == 0,
{
    let keys = r->Invoke_keys@;
    assert(crate::redis_backend::commands::key_views(keys).len() == keys.len());
    assert(crate::redis_backend::commands::key_views(keys)[0] == keys[0]@);
    assert(crate::text::texts(r->Invoke_args@).len() == r->Invoke_args@.len());
}

/// The registry entry of a worker is read as of a time; whether its deadline
/// counts is told as `1` or `0`.
pub proof fn a_registry_entry_is_read_of_its_worker(
    worker: &str,
    now_ms: i64,
    workers_expire: bool,
    r: Command,
)
    requires
        call_ensures(read_worker, (worker, now_ms, workers_expire), r),
    ensures
        r is Invoke,
        r->Invoke_script is WorkerView,
        r->Invoke_keys@.len() == 1,
        r->Invoke_keys@[0] is WorkerMeta,
        r->Invoke_keys@[0]->WorkerMeta_0@ == worker@,
        r->Invoke_args@.len() == 2,
        r->Invoke_args@[0]@ == crate::text::decimal(now_ms as int),
        workers_expire ==> r->Invoke_args@[1]@ == "1"@,
        !workers_expire ==> r->Invoke_args@[1]@ == "0"@,
{
    let keys = r->Invoke_keys@;
    let args = r->Invoke_args@;
    assert(crate::redis_backend::commands::key_views(keys).len() == keys.len());
    assert(crate::redis_backend::commands::key_views(keys)[0] == keys[0]@);
    assert(crate::text::texts(args).len() == args.len());
    assert(crate::text::texts(args)[0] == args[0]@);
    assert(crate::text::texts(args)[1] == args[1]@);
}

/// The counter of a block is read under that block.
pub proof fn a_counter_is_read_of_its_block(hash: &str, r: Command)
    requires
        call_ensures(read_hits, (hash,), r),
    ensures
        r is HashGet,
        r->HashGet_key is Hits,
        r->HashGet_key->Hits_0@ == hash@,
        r->HashGet_field@ == "c"@,
{
}

/// A worker's sequence number is read under that worker.
pub proof fn a_sequence_is_read_of_its_worker(worker: &str, r: Command)
    requires
        call_ensures(read_seq, (worker,), r),
    ensures
        r is HashGet,
        r->HashGet_key is WorkerMeta,
        r->HashGet_key->WorkerMeta_0@ == worker@,
        r->HashGet_field@ == "seq"@,
{
}

/// A page is read of a worker's blocks, from the given cursor on.
pub proof fn a_page_is_read_of_its_worker(worker: &str, cursor: u64, r: Command)
    requires
        call_ensures(read_page, (worker, cursor), r),
    ensures
        r is SetScan,
        r->SetScan_key is WorkerBlocks,
        r->SetScan_key->WorkerBlocks_0@ == worker@,
        r->SetScan_cursor == cursor,
        r->SetScan_count == 256,
{
}

/// A key is named by its namespace, the worker or the block in braces, and what
/// is stored under it.
pub proof fn a_key_is_named_by_what_it_holds(
    ns: &str,
    key: crate::redis_backend::commands::Key,
    r: String,
)
    requires
        call_ensures(key_name, (ns, &key), r),
    ensures
        key is WorkerMeta ==> r@ == ns@ + (":{w:"@ + key->WorkerMeta_0@ + "}:meta"@),
        key is WorkerBlocks ==> r@ == ns@ + (":{w:"@ + key->WorkerBlocks_0@ + "}:blocks"@),
        key is Placement ==> r@ == ns@ + (":{h:"@ + key->Placement_0@ + "}:placement"@),
        key is Hits ==> r@ == ns@ + (":{h:"@ + key->Hits_0@ + "}:hits"@),
{
}

} // verus!
