//! The models say what the values hold.

use vstd::prelude::*;

use crate::client::PrefixMatch;
use crate::inputs::WorkerPrefixInput;
use crate::pb::{
    ExternalKvAction, ExternalKvNodeMatch, ExternalKvPrefixMatch, GetExternalKvHitCountsResponse,
    HashSpec, MatchExternalKvPrefixResponse, MatchExternalKvResponse, TierHashes,
};
use crate::prefix::BlockComponents;
use crate::redis_backend::codec::ReverseMember;
use crate::redis_backend::commands::{Command, Job};
use crate::redis_backend::hits::HitBump;
use crate::redis_backend::matching::Sighting;
use crate::redis_backend::replies::{PlacementOwner, WorkerView};
use crate::redis_backend::scan::PrefixCandidate;
use crate::redis_backend::settings::Settings;
use crate::status::RpcStatus;

verus! {

/// The models of what a match is made of say what it holds.
pub proof fn models_of_matches_are_faithful(
    prefix: ExternalKvPrefixMatch,
    routed: PrefixMatch,
    node: ExternalKvNodeMatch,
    list: TierHashes,
    i: int,
)
    ensures
        prefix@.worker_id == prefix.worker_id@,
        prefix@.address == prefix.address@,
        prefix@.dp_rank == prefix.dp_rank,
        prefix@.matched_prefix_blocks == prefix.matched_prefix_blocks,
        prefix@.tiers == prefix.tiers@,
        routed@.worker_id == routed.worker_id@,
        routed@.address == routed.address@,
        routed@.dp_rank == routed.dp_rank,
        routed@.matched_prefix_blocks == routed.matched_prefix_blocks,
        routed@.tiers == routed.tiers@,
        node@.worker_id == node.worker_id@,
        node@.address == node.address@,
        node@.dp_rank == node.dp_rank,
        node@.hashes_by_tier.len() == node.hashes_by_tier@.len(),
        0 <= i < node.hashes_by_tier@.len() ==> node@.hashes_by_tier[i]
            == node.hashes_by_tier@[i]@,
        list@.tier == list.tier,
        list@.hashes.len() == list.hashes@.len(),
        0 <= i < list.hashes@.len() ==> list@.hashes[i] == list.hashes@[i]@,
{
}

/// The models of answers say what they hold.
pub proof fn models_of_answers_are_faithful(
    prefix: MatchExternalKvPrefixResponse,
    found: MatchExternalKvResponse,
    hits: GetExternalKvHitCountsResponse,
    i: int,
)
    ensures
        prefix@.matches.len() == prefix.matches@.len(),
        0 <= i < prefix.matches@.len() ==> prefix@.matches[i] == prefix.matches@[i]@,
        prefix@.best_prefix_blocks == prefix.best_prefix_blocks,
        prefix@.queried_blocks == prefix.queried_blocks,
        prefix@.spec_mismatched_workers == prefix.spec_mismatched_workers,
        found@.len() == found.matches@.len(),
        0 <= i < found.matches@.len() ==> found@[i] == found.matches@[i]@,
        hits@.len() == hits.entries@.len(),
        0 <= i < hits.entries@.len() ==> hits@[i].0 == hits.entries@[i].hash@ && hits@[i].1
            == hits.entries@[i].hit_count_total,
{
}

/// The models of what is sent say what it holds.
pub proof fn models_of_requests_are_faithful(
    action: ExternalKvAction,
    spec: HashSpec,
    block: BlockComponents,
    input: WorkerPrefixInput,
    i: int,
)
    ensures
        action@.kind == action.kind,
        action@.tier == action.tier,
        action@.hashes.len() == action.hashes@.len(),
        0 <= i < action.hashes@.len() ==> action@.hashes[i] == action.hashes@[i]@,
        spec@.block_size == spec.block_size,
        spec@.algo == spec.algo,
        spec@.version == spec.version,
        spec@.namespace == spec.namespace@,
        block@.token_count == block.token_count,
        block@.tier_masks == block.tier_masks@,
        input@.worker_id == input.worker_id@,
        input@.address == input.address@,
        input@.spec == input.spec,
        input@.blocks.len() == input.blocks@.len(),
        0 <= i < input.blocks@.len() ==> (input@.blocks[i] is Some <==> input.blocks@[i] is Some),
        0 <= i < input.blocks@.len() && input.blocks@[i] is Some ==> input@.blocks[i]->0
            == input.blocks@[i]->0@,
{
}

/// The models of what the store keeps say what it holds.
pub proof fn models_of_records_are_faithful(
    owner: PlacementOwner,
    worker: WorkerView,
    member: ReverseMember,
    sighting: Sighting,
    candidate: PrefixCandidate,
    bump: HitBump,
    i: int,
)
    ensures
        owner@.worker == owner.worker@,
        owner@.generation == owner.generation,
        owner@.mask == owner.mask,
        worker@.address == worker.address@,
        worker@.alive == worker.alive,
        worker@.generation == worker.generation,
        worker@.spec == worker.spec@,
        worker@.dp_rank == worker.dp_rank,
        member@.encoded == member.encoded@,
        member@.generation == member.generation,
        member@.hash == member.hash@,
        sighting@.hash == sighting.hash@,
        sighting@.generation == sighting.generation,
        sighting@.mask == sighting.mask,
        candidate@.worker == candidate.worker@,
        candidate@.address == candidate.address@,
        candidate@.dp_rank == candidate.dp_rank,
        candidate@.generation == candidate.generation,
        candidate@.mask == candidate.mask,
        candidate@.matched == candidate.matched,
        bump@.hash == bump.hash@,
        bump@.owners.len() == bump.owners@.len(),
        0 <= i < bump.owners@.len() ==> bump@.owners[i].0 == bump.owners@[i].0@
            && bump@.owners[i].1 == bump.owners@[i].1,
{
}

/// The models of jobs, requests to the store, settings and statuses say what they
/// hold.
pub proof fn models_of_requests_to_the_store_are_faithful(
    job: Job,
    command: Command,
    settings: Settings,
    status: RpcStatus,
    i: int,
)
    ensures
        job.kind is Report ==> job@ is Report && job@->Report_worker == job.worker@
            && job@->Report_hash == job.kind->Report_hash@ && job@->Report_bit
            == job.kind->Report_bit && job@->Report_generation == job.generation,
        job.kind is Revoke ==> job@ is Revoke && job@->Revoke_worker == job.worker@
            && job@->Revoke_hash == job.kind->Revoke_hash@ && job@->Revoke_bit
            == job.kind->Revoke_bit && job@->Revoke_generation == job.generation,
        job.kind is Forget ==> job@ is Forget && job@->Forget_worker == job.worker@
            && job@->Forget_hash == job.kind->Forget_hash@ && job@->Forget_generation
            == job.generation,
        command is Invoke ==> command@ is Invoke && command@->Invoke_script
            == command->Invoke_script && command@->Invoke_keys.len() == command->Invoke_keys@.len()
            && command@->Invoke_args.len() == command->Invoke_args@.len(),
        command is Invoke && 0 <= i < command->Invoke_keys@.len() ==> command@->Invoke_keys[i]
            == command->Invoke_keys@[i]@,
        command is Invoke && 0 <= i < command->Invoke_args@.len() ==> command@->Invoke_args[i]
            == command->Invoke_args@[i]@,
        settings@.namespace == settings.namespace@,
        settings@.required == settings.required,
        settings@.worker_ttl_secs == settings.worker_ttl_secs,
        settings@.target is Single <==> settings.target is Single,
        settings.target is Single ==> settings@.target->Single_0 == settings.target->Single_0@,
        status@.code == status.code,
        status@.message == status.message@,
{
}

} // verus!
