//! Which requests the service refuses.
//!
//! Oversized requests are refused here, before any backend allocates or
//! schedules work in proportion to an unbounded list.

use vstd::prelude::*;
use vstd::string::StringExecFns;

use crate::pb::{ActionView, ExternalKvAction, ExternalKvActionType, TIER_HBM, TIER_SSD};
use crate::status::{Code, RpcStatus, StatusView};

verus! {

/// How many block hashes a request may name.
pub const MAX_HASHES_PER_REQUEST: usize = 16384;

/// How many actions a batch may hold.
pub const MAX_ACTIONS_PER_BATCH: usize = 256;

/// Whether a result is `Ok` exactly when there is no error, and else that error.
pub open spec fn reports(r: Result<(), RpcStatus>, error: Option<StatusView>) -> bool {
    match error {
        Some(e) => r matches Err(status) && status@ == e,
        None => r is Ok,
    }
}

/// What is wrong with a worker id.
pub open spec fn worker_id_error(worker_id: Seq<char>) -> Option<StatusView> {
    if worker_id.len() == 0 {
        Some(crate::status::status(Code::InvalidArgument, "worker_id must not be empty"@))
    } else {
        None
    }
}

/// Refuses an empty worker id.
pub fn validate_worker_id(worker_id: &str) -> (r: Result<(), RpcStatus>)
    ensures
        reports(r, worker_id_error(worker_id@)),
{
    if worker_id.is_empty() {
        Err(RpcStatus::invalid_argument("worker_id must not be empty"))
    } else {
        Ok(())
    }
}

/// Whether some hash is empty.
pub open spec fn has_empty_hash(hashes: Seq<Seq<char>>) -> bool {
    exists|i: int| 0 <= i < hashes.len() && (#[trigger] hashes[i]).len() == 0
}

/// What is wrong with the hashes of a request.
pub open spec fn hashes_error(hashes: Seq<Seq<char>>) -> Option<StatusView> {
    if hashes.len() == 0 {
        Some(crate::status::status(Code::InvalidArgument, "hashes must not be empty"@))
    } else if hashes.len() > MAX_HASHES_PER_REQUEST {
        Some(
            crate::status::status(
                Code::ResourceExhausted,
                "request contains "@ + crate::text::decimal(hashes.len() as int)
                    + " hashes; maximum is "@ + crate::text::decimal(
                    MAX_HASHES_PER_REQUEST as int,
                ),
            ),
        )
    } else if has_empty_hash(hashes) {
        Some(crate::status::status(Code::InvalidArgument, "hashes must not contain empty values"@))
    } else {
        None
    }
}

/// Writes `"{head}{count}{middle}{limit}"`.
fn count_message(head: &str, count: u128, middle: &str, limit: usize) -> (r: String)
    ensures
        r@ == head@ + crate::text::decimal(count as int) + middle@ + crate::text::decimal(
            limit as int,
        ),
{
    let mut message = head.to_owned();
    message.append(crate::text::decimal_text(count).as_str());
    message.append(middle);
    message.append(crate::text::decimal_text(limit as u128).as_str());
    message
}

/// Refuses a request without hashes, with too many of them, or with an empty
/// one.
pub fn validate_hashes(hashes: &[String]) -> (r: Result<(), RpcStatus>)
    ensures
        reports(r, hashes_error(crate::text::texts(hashes@))),
{
    let ghost all = crate::text::texts(hashes@);
    if hashes.len() == 0 {
        return Err(RpcStatus::invalid_argument("hashes must not be empty"));
    }
    if hashes.len() > MAX_HASHES_PER_REQUEST {
        return Err(
            RpcStatus::resource_exhausted(
                count_message(
                    "request contains ",
                    hashes.len() as u128,
                    " hashes; maximum is ",
                    MAX_HASHES_PER_REQUEST,
                ),
            ),
        );
    }
    let mut i: usize = 0;
    while i < hashes.len()
        invariant
            i <= hashes@.len() <= MAX_HASHES_PER_REQUEST,
            hashes@.len() > 0,
            all == crate::text::texts(hashes@),
            forall|k: int| 0 <= k < i ==> (#[trigger] all[k]).len() > 0,
        decreases hashes@.len() - i,
    {
        assert(all[i as int] == hashes@[i as int]@);
        if hashes[i].as_str().is_empty() {
            assert(has_empty_hash(all));
            return Err(RpcStatus::invalid_argument("hashes must not contain empty values"));
        }
        i = i + 1;
    }
    assert(!has_empty_hash(all));
    Ok(())
}

/// What is wrong with a tier.
pub open spec fn tier_error(tier: i32) -> Option<StatusView> {
    if TIER_HBM <= tier <= TIER_SSD {
        None
    } else if tier == 0 {
        Some(crate::status::status(Code::InvalidArgument, "tier must not be TIER_UNKNOWN"@))
    } else {
        Some(crate::status::status(Code::InvalidArgument, "tier is not supported"@))
    }
}

/// Refuses a tier that is unknown or not supported.
pub fn validate_tier(tier: i32) -> (r: Result<(), RpcStatus>)
    ensures
        reports(r, tier_error(tier)),
{
    if TIER_HBM <= tier && tier <= TIER_SSD {
        Ok(())
    } else if tier == 0 {
        Err(RpcStatus::invalid_argument("tier must not be TIER_UNKNOWN"))
    } else {
        Err(RpcStatus::invalid_argument("tier is not supported"))
    }
}

/// What is wrong with an action. One that clears a tier carries only the tier;
/// its hashes are ignored.
pub open spec fn action_error(action: ActionView) -> Option<StatusView> {
    if tier_error(action.tier) is Some {
        tier_error(action.tier)
    } else {
        match crate::pb::action_with_number(action.kind) {
            Some(ExternalKvActionType::ActionReport) => hashes_error(action.hashes),
            Some(ExternalKvActionType::ActionRevoke) => hashes_error(action.hashes),
            Some(ExternalKvActionType::ActionClearAllAtTier) => None,
            Some(ExternalKvActionType::ActionUnknown) | None => Some(
                crate::status::status(Code::InvalidArgument, "action type is not supported"@),
            ),
        }
    }
}

/// Refuses an action with a bad tier, a bad type or bad hashes.
pub fn validate_action(action: &ExternalKvAction) -> (r: Result<(), RpcStatus>)
    ensures
        reports(r, action_error(action@)),
{
    match validate_tier(action.tier) {
        Ok(()) => {},
        Err(e) => {
            return Err(e);
        },
    }
    match ExternalKvActionType::from_number(action.kind) {
        Some(ExternalKvActionType::ActionReport) => validate_hashes(action.hashes.as_slice()),
        Some(ExternalKvActionType::ActionRevoke) => validate_hashes(action.hashes.as_slice()),
        Some(ExternalKvActionType::ActionClearAllAtTier) => Ok(()),
        Some(ExternalKvActionType::ActionUnknown) | None => Err(
            RpcStatus::invalid_argument("action type is not supported"),
        ),
    }
}

/// How many hashes the actions of a batch name together.
pub open spec fn total_hashes(actions: Seq<ActionView>) -> nat
    decreases actions.len(),
{
    if actions.len() == 0 {
        0
    } else {
        total_hashes(actions.drop_last()) + actions.last().hashes.len()
    }
}

/// What is wrong with the first action that has something wrong.
pub open spec fn first_action_error(actions: Seq<ActionView>) -> Option<StatusView>
    decreases actions.len(),
{
    if actions.len() == 0 {
        None
    } else if action_error(actions[0]) is Some {
        action_error(actions[0])
    } else {
        first_action_error(actions.drop_first())
    }
}

/// What is wrong with the actions of a batch.
pub open spec fn actions_error(actions: Seq<ActionView>) -> Option<StatusView> {
    if actions.len() > MAX_ACTIONS_PER_BATCH {
        Some(
            crate::status::status(
                Code::ResourceExhausted,
                "batch contains "@ + crate::text::decimal(actions.len() as int)
                    + " actions; maximum is "@ + crate::text::decimal(MAX_ACTIONS_PER_BATCH as int),
            ),
        )
    } else if total_hashes(actions) > MAX_HASHES_PER_REQUEST {
        Some(
            crate::status::status(
                Code::ResourceExhausted,
                "batch contains "@ + crate::text::decimal(total_hashes(actions) as int)
                    + " hashes; maximum is "@ + crate::text::decimal(MAX_HASHES_PER_REQUEST as int),
            ),
        )
    } else {
        first_action_error(actions)
    }
}

/// The models of several actions.
pub open spec fn action_views(actions: Seq<ExternalKvAction>) -> Seq<ActionView> {
    actions.map_values(|a: ExternalKvAction| a@)
}

/// Refuses a batch with too many actions or hashes, or with a bad action. A
/// batch without actions is accepted: it only says that the worker is alive.
pub fn validate_actions(actions: &[ExternalKvAction]) -> (r: Result<(), RpcStatus>)
    ensures
        reports(r, actions_error(action_views(actions@))),
{
    let ghost all = action_views(actions@);
    if actions.len() > MAX_ACTIONS_PER_BATCH {
        return Err(
            RpcStatus::resource_exhausted(
                count_message(
                    "batch contains ",
                    actions.len() as u128,
                    " actions; maximum is ",
                    MAX_ACTIONS_PER_BATCH,
                ),
            ),
        );
    }
    let mut total: u128 = 0;
    let mut i: usize = 0;
    assert(all.take(0) =~= Seq::<ActionView>::empty());
    while i < actions.len()
        invariant
            i <= actions@.len() <= MAX_ACTIONS_PER_BATCH,
            all == action_views(actions@),
            total == total_hashes(all.take(i as int)),
            total <= i * usize::MAX,
        decreases actions@.len() - i,
    {
        assert(all.take(i + 1).drop_last() =~= all.take(i as int));
        assert(all.take(i + 1).last() == actions@[i as int]@);
        assert(i * usize::MAX + usize::MAX == (i + 1) * usize::MAX) by (nonlinear_arith);
        assert((i + 1) * usize::MAX <= 256 * usize::MAX) by (nonlinear_arith)
            requires
                i + 1 <= 256,
        ;
        total = total + actions[i].hashes.len() as u128;
        i = i + 1;
    }
    assert(all.take(i as int) =~= all);
    if total > MAX_HASHES_PER_REQUEST as u128 {
        return Err(
            RpcStatus::resource_exhausted(
                count_message("batch contains ", total, " hashes; maximum is ", MAX_HASHES_PER_REQUEST),
            ),
        );
    }
    let mut j: usize = 0;
    assert(all.skip(0) =~= all);
    while j < actions.len()
        invariant
            j <= actions@.len() <= MAX_ACTIONS_PER_BATCH,
            all == action_views(actions@),
            total_hashes(all) <= MAX_HASHES_PER_REQUEST,
            first_action_error(all) == first_action_error(all.skip(j as int)),
        decreases actions@.len() - j,
    {
        assert(all.skip(j as int)[0] == actions@[j as int]@);
        assert(all.skip(j as int).drop_first() =~= all.skip(j + 1));
        match validate_action(&actions[j]) {
            Ok(()) => {},
            Err(e) => {
                return Err(e);
            },
        }
        j = j + 1;
    }
    Ok(())
}

/// A batch that passes has only actions that pass, within the bounds.
pub proof fn accepted_batch_has_only_good_actions(actions: Seq<ActionView>, i: int)
    requires
        actions_error(actions) is None,
        0 <= i < actions.len(),
    ensures
        actions.len() <= MAX_ACTIONS_PER_BATCH,
        total_hashes(actions) <= MAX_HASHES_PER_REQUEST,
        action_error(actions[i]) is None,
        TIER_HBM <= actions[i].tier <= TIER_SSD,
{
    lemma_good_actions(actions, i);
}

proof fn lemma_good_actions(actions: Seq<ActionView>, i: int)
    requires
        first_action_error(actions) is None,
        0 <= i < actions.len(),
    ensures
        action_error(actions[i]) is None,
    decreases actions.len(),
{
    if i > 0 {
        lemma_good_actions(actions.drop_first(), i - 1);
    }
}

} // verus!
