//! The form in which block hashes enter the index.
//!
//! A block hash is a signed 64-bit number, stored in decimal. A publisher may
//! write the same 64 bits unsigned; both forms name the same block.

use vstd::prelude::*;

use crate::pb::{ActionView, ApplyExternalKvBatchRequest, ExternalKvAction};

verus! {

/// The stored form of a hash. A text that is no 64-bit number is stored as it
/// is.
pub open spec fn stored_hash(hash: Seq<char>) -> Seq<char> {
    match crate::text::parsed_i64(hash) {
        Some(signed) => crate::text::decimal(signed as int),
        None => match crate::text::parsed_u64(hash) {
            Some(unsigned) => crate::text::decimal(unsigned - 0x1_0000_0000_0000_0000),
            None => hash,
        },
    }
}

/// The stored form of a hash.
pub fn normalize_hash(hash: &str) -> (r: String)
    ensures
        r@ == stored_hash(hash@),
{
    match crate::text::parse_i64(hash) {
        Some(signed) => crate::text::signed_decimal_text(signed),
        None => match crate::text::parse_u64(hash) {
            Some(unsigned) => {
                proof {
                    lemma_unsigned_is_large(hash@);
                }
                crate::text::signed_decimal_text((unsigned as i128 - 0x1_0000_0000_0000_0000) as i64)
            },
            None => hash.to_owned(),
        },
    }
}

/// What is a `u64` but no `i64` is above the largest `i64`.
proof fn lemma_unsigned_is_large(s: Seq<char>)
    requires
        crate::text::parsed_i64(s) is None,
        crate::text::parsed_u64(s) is Some,
    ensures
        crate::text::parsed_u64(s)->0 > i64::MAX,
{
    assert(crate::text::parsed_nat(s) is Some);
    if s.len() > 0 && s[0] == '-' {
        assert(!crate::text::is_digit(s[0]));
        assert(!crate::text::is_digits(s));
    }
}

/// An action with its hashes in their stored form.
pub open spec fn stored_action(action: ActionView) -> ActionView {
    ActionView {
        hashes: action.hashes.map_values(|h: Seq<char>| stored_hash(h)),
        ..action
    }
}

/// An action with its hashes in their stored form.
fn normalize_action(action: ExternalKvAction) -> (r: ExternalKvAction)
    ensures
        r@ == stored_action(action@),
        r.component_masks == action.component_masks,
        r.block_sizes == action.block_sizes,
{
    let mut hashes: Vec<String> = Vec::new();
    let mut i: usize = 0;
    while i < action.hashes.len()
        invariant
            i <= action.hashes@.len(),
            hashes@.len() == i,
            forall|k: int|
                0 <= k < i ==> (#[trigger] hashes@[k])@ == stored_hash(action.hashes@[k]@),
        decreases action.hashes@.len() - i,
    {
        hashes.push(normalize_hash(action.hashes[i].as_str()));
        i = i + 1;
    }
    assert(crate::text::texts(hashes@) =~= stored_action(action@).hashes);
    ExternalKvAction {
        kind: action.kind,
        tier: action.tier,
        hashes,
        component_masks: action.component_masks,
        block_sizes: action.block_sizes,
    }
}

/// Whether `stored` is `sent` with the hashes in their stored form, and nothing
/// else changed.
pub open spec fn is_stored_form(
    sent: ApplyExternalKvBatchRequest,
    stored: ApplyExternalKvBatchRequest,
) -> bool {
    &&& stored.worker_id == sent.worker_id
    &&& stored.worker_address == sent.worker_address
    &&& stored.seq == sent.seq
    &&& stored.incarnation == sent.incarnation
    &&& stored.hash_spec == sent.hash_spec
    &&& stored.dp_rank == sent.dp_rank
    &&& crate::validate::action_views(stored.actions@) == crate::validate::action_views(
        sent.actions@,
    ).map_values(|a: ActionView| stored_action(a))
    &&& forall|i: int|
        0 <= i < sent.actions@.len() ==> (#[trigger] stored.actions@[i]).component_masks
            == sent.actions@[i].component_masks && stored.actions@[i].block_sizes
            == sent.actions@[i].block_sizes
}

/// Brings the hashes of a batch into their stored form.
pub fn normalize_batch(request: ApplyExternalKvBatchRequest) -> (r: ApplyExternalKvBatchRequest)
    ensures
        is_stored_form(request, r),
{
    let ghost input = request.actions@;
    let mut actions: Vec<ExternalKvAction> = Vec::new();
    for action in it: request.actions
        invariant
            it.seq() == input,
            actions@.len() == it.index(),
            forall|k: int|
                0 <= k < actions@.len() ==> (#[trigger] actions@[k])@ == stored_action(input[k]@)
                    && actions@[k].component_masks == input[k].component_masks
                    && actions@[k].block_sizes == input[k].block_sizes,
    {
        let ghost k = it.index() as int;
        assert(input[k] == action);
        actions.push(normalize_action(action));
    }
    assert(crate::validate::action_views(actions@) =~= crate::validate::action_views(
        input,
    ).map_values(|a: ActionView| stored_action(a)));
    ApplyExternalKvBatchRequest {
        worker_id: request.worker_id,
        worker_address: request.worker_address,
        seq: request.seq,
        incarnation: request.incarnation,
        hash_spec: request.hash_spec,
        dp_rank: request.dp_rank,
        actions,
    }
}

/// A block hash that a router writes is stored as it is written.
pub proof fn wire_form_is_the_stored_form(hash: i64)
    ensures
        stored_hash(crate::text::decimal(hash as int)) == crate::text::decimal(hash as int),
{
    crate::text::decimal_round_trips(hash as int);
}

/// The unsigned form of a block hash names the same block as the signed one.
pub proof fn unsigned_form_names_the_same_block(hash: i64)
    requires
        hash < 0,
    ensures
        stored_hash(crate::text::decimal(hash + 0x1_0000_0000_0000_0000)) == stored_hash(
            crate::text::decimal(hash as int),
        ),
{
    crate::text::decimal_round_trips(hash as int);
    crate::text::decimal_round_trips(hash + 0x1_0000_0000_0000_0000);
}

/// The stored form of a hash is its own stored form.
pub proof fn stored_form_is_final(hash: Seq<char>)
    ensures
        stored_hash(stored_hash(hash)) == stored_hash(hash),
{
    match crate::text::parsed_i64(hash) {
        Some(signed) => {
            crate::text::decimal_round_trips(signed as int);
        },
        None => match crate::text::parsed_u64(hash) {
            Some(unsigned) => {
                lemma_unsigned_is_large(hash);
                crate::text::decimal_round_trips(unsigned - 0x1_0000_0000_0000_0000);
            },
            None => {},
        },
    }
}

} // verus!
