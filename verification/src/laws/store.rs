//! What is written to the store, and what its replies say.

use vstd::prelude::*;

use crate::pb::HashSpec;
use crate::redis_backend::codec::{
    encode_checked_spec, encode_hash_spec, is_placed_at, parse_placement_value,
    parse_reverse_member, reverse_member, tier_bit, tiers_from_mask, ReverseMember,
};
use crate::redis_backend::replies::{
    first_pair, hit_count, members_from_page, owners_from_list, page_from_reply,
    placement_from_reply, require_current, script_pair, script_status, store_unavailable,
    stored_seq, to_status, worker_from_reply, PlacementOwner, WorkerView,
};
use crate::status::RpcStatus;

verus! {

/// A tier has a bit of its own: 2 for HBM, 4 for DRAM, 8 for SSD. No other tier is
/// stored.
pub proof fn a_tier_has_a_bit_of_its_own(tier: i32, r: i64)
    requires
        call_ensures(tier_bit, (tier,), r),
    ensures
        tier == 1 ==> r == 2,
        tier == 2 ==> r == 4,
        tier == 3 ==> r == 8,
        !(1 <= tier <= 3) ==> r == 0,
{
}

/// A mask places a block at the tiers whose bits are set in it.
pub proof fn a_mask_places_a_block_at_its_bits(mask: i64, tier: i32, r: bool)
    requires
        call_ensures(is_placed_at, (mask, tier), r),
    ensures
        tier == 1 ==> (r <==> mask & 2 != 0),
        tier == 2 ==> (r <==> mask & 4 != 0),
        tier == 3 ==> (r <==> mask & 8 != 0),
        !(1 <= tier <= 3) ==> !r,
{
}

/// The tiers of a mask are those whose bits are set in it, in ascending order.
pub proof fn the_tiers_of_a_mask_are_those_of_its_bits(mask: i64, r: Vec<i32>, tier: i32)
    requires
        call_ensures(tiers_from_mask, (mask,), r),
    ensures
        r@.contains(tier) <==> ((tier == 1 && mask & 2 != 0) || (tier == 2 && mask & 4 != 0) || (
        tier == 3 && mask & 8 != 0)),
        forall|i: int, j: int| 0 <= i < j < r@.len() ==> #[trigger] r@[i] < #[trigger] r@[j],
{
    crate::redis_backend::codec::tiers_of_lists_each_tier_once(mask);
}

/// A stored placement is a generation and a mask around a colon; a value without
/// one is a mask of generation 0. What is no number counts as 0.
pub proof fn a_placement_is_a_generation_and_a_mask(
    value: &str,
    r: (i64, i64),
    parts: Option<(&str, &str)>,
    generation: Option<i64>,
    mask: Option<i64>,
    whole: Option<i64>,
)
    requires
        call_ensures(parse_placement_value, (value,), r),
        call_ensures(crate::text::split_once, (value, ':'), parts),
        parts is Some ==> call_ensures(crate::text::parse_i64, ((parts->0).0,), generation),
        parts is Some ==> call_ensures(crate::text::parse_i64, ((parts->0).1,), mask),
        call_ensures(crate::text::parse_i64, (value,), whole),
    ensures
        parts is Some && generation is Some ==> r.0 == generation->0,
        parts is Some && generation is None ==> r.0 == 0,
        parts is Some && mask is Some ==> r.1 == mask->0,
        parts is Some && mask is None ==> r.1 == 0,
        parts is None ==> r.0 == 0,
        parts is None && whole is Some ==> r.1 == whole->0,
        parts is None && whole is None ==> r.1 == 0,
{
}

/// An entry among a worker's blocks is a generation and a hash around a colon. An
/// entry that does not begin with a number and a colon is a bare hash of
/// generation 0. What is written reads back, whatever the hash holds.
pub proof fn an_entry_is_a_generation_and_a_hash(
    generation: i64,
    hash: &str,
    written: String,
    member: &str,
    r: (i64, &str),
    parts: Option<(&str, &str)>,
    number: Option<i64>,
)
    requires
        call_ensures(reverse_member, (generation, hash), written),
        call_ensures(parse_reverse_member, (member,), r),
        call_ensures(crate::text::split_once, (member, ':'), parts),
        parts is Some ==> call_ensures(crate::text::parse_i64, ((parts->0).0,), number),
    ensures
        written@ == crate::text::decimal(generation as int) + seq![':'] + hash@,
        member@ == written@ ==> r.0 == generation && r.1@ == hash@,
        parts is Some && number is Some ==> r.0 == number->0 && r.1@ == (parts->0).1@,
        parts is None ==> r.0 == 0 && r.1@ == member@,
        parts is Some && number is None ==> r.0 == 0 && r.1@ == member@,
{
    crate::redis_backend::codec::reverse_member_round_trips(generation, hash@);
}

/// An entry keeps its text beside its parts.
pub proof fn an_entry_keeps_its_text(encoded: String, member: &str, r: ReverseMember, parts: (
    i64,
    &str,
))
    requires
        call_ensures(ReverseMember::parse, (encoded,), r),
        member@ == encoded@,
        call_ensures(parse_reverse_member, (member,), parts),
    ensures
        r.encoded@ == encoded@,
        r.generation == parts.0,
        r.hash@ == parts.1@,
{
    assert(r@.encoded == r.encoded@);
}

/// A hash space is recorded as its block size, algorithm, version and namespace,
/// with colons between them.
pub proof fn a_hash_space_is_recorded_part_by_part(spec: HashSpec, r: String)
    requires
        call_ensures(encode_hash_spec, (&spec,), r),
    ensures
        r@ == crate::text::decimal(spec.block_size as int) + seq![':'] + crate::text::decimal(
            spec.algo as int,
        ) + seq![':'] + crate::text::decimal(spec.version as int) + seq![':'] + spec.namespace@,
{
    assert(r@ =~= crate::text::decimal(spec.block_size as int) + seq![':'] + crate::text::decimal(
        spec.algo as int,
    ) + seq![':'] + crate::text::decimal(spec.version as int) + seq![':'] + spec.namespace@);
}

/// A hash space without a block size is not checked.
pub proof fn a_hash_space_without_block_size_is_not_checked(
    spec: Option<HashSpec>,
    r: Option<String>,
    whole: String,
)
    requires
        call_ensures(encode_checked_spec, (&spec,), r),
        spec is Some ==> call_ensures(encode_hash_spec, (&spec->0,), whole),
    ensures
        spec is None ==> r is None,
        spec is Some && spec->0.block_size == 0 ==> r is None,
        spec is Some && spec->0.block_size > 0 ==> r is Some && r->0@ == whole@,
{
}

/// The pair of a script is the first two of the numbers that it answers with.
pub proof fn a_pair_is_the_first_two_numbers(
    values: Vec<i64>,
    r: Result<(i64, i64), RpcStatus>,
)
    requires
        call_ensures(first_pair, (&values,), r),
    ensures
        values@.len() >= 2 ==> r is Ok && (r->Ok_0).0 == values@[0] && (r->Ok_0).1 == values@[1],
        values@.len() < 2 ==> r is Err && r->Err_0.code is Internal && r->Err_0.message@
            == "invalid Redis script response"@,
{
}

/// What scripts and fields answer is what was decoded from their replies.
pub proof fn replies_say_what_was_decoded(
    reply: redis::Value,
    pair: Result<(i64, i64), RpcStatus>,
    status: Result<i64, RpcStatus>,
    seq: Result<i64, RpcStatus>,
    hits: Result<Option<i64>, RpcStatus>,
)
    requires
        call_ensures(script_pair, (&reply,), pair),
        call_ensures(script_status, (&reply,), status),
        call_ensures(stored_seq, (&reply,), seq),
        call_ensures(hit_count, (&reply,), hits),
    ensures
        ({
            let numbers = crate::redis_backend::replies::reply_integers(reply);
            let number = crate::redis_backend::replies::reply_integer(reply);
            let field = crate::redis_backend::replies::reply_optional_integer(reply);
            &&& numbers is Some && numbers->0.len() >= 2 ==> pair is Ok && (pair->Ok_0).0
                == numbers->0[0] && (pair->Ok_0).1 == numbers->0[1]
            &&& numbers is None || numbers->0.len() < 2 ==> pair is Err
            &&& number is Some ==> status is Ok && status->Ok_0 == number->0
            &&& number is None ==> status is Err && status->Err_0.code is Unavailable
            &&& field is Some && field->0 is Some ==> seq is Ok && seq->Ok_0 == field->0->0
            &&& field is Some && field->0 is None ==> seq is Ok && seq->Ok_0 == -1
            &&& field is None ==> seq is Err && seq->Err_0.code is Unavailable
            &&& field is Some ==> hits is Ok && hits->Ok_0 == field->0
            &&& field is None ==> hits is Err && hits->Err_0.code is Unavailable
        }),
{
    if status is Err {
        lemma_store_failure(status->Err_0);
    }
    if seq is Err {
        lemma_store_failure(seq->Err_0);
    }
    if hits is Err {
        lemma_store_failure(hits->Err_0);
    }
}

/// A failure of the store makes it unavailable.
proof fn lemma_store_failure(status: RpcStatus)
    requires
        crate::redis_backend::replies::is_store_failure(status),
    ensures
        status.code is Unavailable,
{
    let error = choose|error: redis::RedisError| #[trigger]
        crate::redis_backend::replies::reports(status, error);
    let detail = choose|detail: String| #[trigger]
        call_ensures(crate::redis_backend::replies::error_text, (&error,), detail) && status@
            == crate::redis_backend::replies::store_failure(detail@);
}

/// A negative status is refused in the given words, and any other one is not.
pub proof fn a_negative_status_is_refused(status: i64, message: &str, r: Result<(), RpcStatus>)
    requires
        call_ensures(require_current, (status, message), r),
    ensures
        r is Err <==> status < 0,
        r is Err ==> r->Err_0.code is FailedPrecondition && r->Err_0.message@ == message@,
{
}

/// A failure of the store is reported as such, in its own words.
pub proof fn a_failure_is_reported_in_its_words(detail: &str, r: RpcStatus)
    requires
        call_ensures(store_unavailable, (detail,), r),
    ensures
        r.code is Unavailable,
        r.message@ == "redis backend error: "@ + detail@,
{
}

/// An error of the store is reported in the words of that error.
pub proof fn an_error_is_reported_in_its_words(error: redis::RedisError, r: RpcStatus) -> (detail:
    String)
    requires
        call_ensures(to_status, (error,), r),
    ensures
        call_ensures(crate::redis_backend::replies::error_text, (&error,), detail),
        r.code is Unavailable,
        r.message@ == "redis backend error: "@ + detail@,
{
    choose|detail: String| #[trigger]
        call_ensures(crate::redis_backend::replies::error_text, (&error,), detail) && r@
            == crate::redis_backend::replies::store_failure(detail@)
}

/// A placement is listed as pairs of a worker and a value; a worker without a
/// value is dropped.
pub proof fn a_placement_is_listed_in_pairs(
    flat: Vec<String>,
    r: Vec<PlacementOwner>,
    i: int,
    value: &str,
    parts: (i64, i64),
)
    requires
        call_ensures(owners_from_list, (&flat,), r),
        0 <= i < flat@.len() / 2,
        value@ == flat@[2 * i + 1]@,
        call_ensures(parse_placement_value, (value,), parts),
    ensures
        r@.len() == flat@.len() / 2,
        r@[i].worker@ == flat@[2 * i]@,
        r@[i].generation == parts.0,
        r@[i].mask == parts.1,
{
    let all = crate::text::texts(flat@);
    let views = crate::redis_backend::replies::owner_views(r@);
    assert(views.len() == r@.len());
    assert(views[i] == r@[i]@);
    assert(all[2 * i] == flat@[2 * i]@);
    assert(all[2 * i + 1] == flat@[2 * i + 1]@);
}

/// A placement is read from the texts of its reply.
pub proof fn a_placement_is_read_from_its_reply(
    reply: redis::Value,
    r: Result<Vec<PlacementOwner>, RpcStatus>,
    i: int,
    value: &str,
    parts: (i64, i64),
)
    requires
        call_ensures(placement_from_reply, (&reply,), r),
        crate::redis_backend::replies::reply_texts(reply) is Some,
        0 <= i < crate::redis_backend::replies::reply_texts(reply)->0.len() / 2,
        value@ == crate::redis_backend::replies::reply_texts(reply)->0[2 * i + 1],
        call_ensures(parse_placement_value, (value,), parts),
    ensures
        r is Ok,
        r->Ok_0@.len() == crate::redis_backend::replies::reply_texts(reply)->0.len() / 2,
        r->Ok_0@[i].worker@ == crate::redis_backend::replies::reply_texts(reply)->0[2 * i],
        r->Ok_0@[i].generation == parts.0,
        r->Ok_0@[i].mask == parts.1,
{
    let views = crate::redis_backend::replies::owner_views(r->Ok_0@);
    assert(views.len() == r->Ok_0@.len());
    assert(views[i] == r->Ok_0@[i]@);
}

/// A registry entry is read part by part; the worker is alive where the store says
/// so by 1.
pub proof fn a_registry_entry_is_read_part_by_part(
    reply: redis::Value,
    r: Result<WorkerView, RpcStatus>,
)
    requires
        call_ensures(worker_from_reply, (&reply,), r),
    ensures
        ({
            let entry = crate::redis_backend::replies::reply_registry_entry(reply);
            &&& entry is Some <==> r is Ok
            &&& entry is Some ==> r->Ok_0.address@ == (entry->0).0 && (r->Ok_0.alive <==> (
            entry->0).1 == 1) && r->Ok_0.generation == (entry->0).2 && r->Ok_0.spec@ == (
            entry->0).3 && r->Ok_0.dp_rank == (entry->0).4
            &&& r is Err ==> r->Err_0.code is Unavailable
        }),
{
    if r is Ok {
        assert(r->Ok_0@.address == r->Ok_0.address@);
    } else {
        lemma_store_failure(r->Err_0);
    }
}

/// The entries of a page are read one by one.
pub proof fn the_entries_of_a_page_are_read_one_by_one(
    page: Vec<String>,
    r: Vec<ReverseMember>,
    i: int,
    text: &str,
    parts: (i64, &str),
)
    requires
        call_ensures(members_from_page, (page,), r),
        0 <= i < page@.len(),
        text@ == page@[i]@,
        call_ensures(parse_reverse_member, (text,), parts),
    ensures
        r@.len() == page@.len(),
        r@[i].encoded@ == page@[i]@,
        r@[i].generation == parts.0,
        r@[i].hash@ == parts.1@,
{
    let views = crate::redis_backend::replies::member_views(r@);
    assert(views.len() == r@.len());
    assert(views[i] == r@[i]@);
    assert(crate::text::texts(page@)[i] == page@[i]@);
}

/// A page is a cursor and entries, none of which is lost.
pub proof fn a_page_is_a_cursor_and_entries(
    reply: redis::Value,
    r: Result<(u64, Vec<ReverseMember>), RpcStatus>,
)
    requires
        call_ensures(page_from_reply, (&reply,), r),
        !crate::redis_backend::replies::reply_is_empty_map(
            crate::redis_backend::replies::reply_data(reply),
        ),
        crate::redis_backend::replies::reply_page(reply) is Some,
    ensures
        r is Ok,
        (r->Ok_0).0 == (crate::redis_backend::replies::reply_page(reply)->0).0,
        (r->Ok_0).1@.len() == (crate::redis_backend::replies::reply_page(reply)->0).1.len(),
        forall|i: int|
            0 <= i < (r->Ok_0).1@.len() ==> (#[trigger] (r->Ok_0).1@[i]).encoded@ == (
            crate::redis_backend::replies::reply_page(reply)->0).1[i],
{
    let views = crate::redis_backend::replies::member_views((r->Ok_0).1@);
    assert(views.len() == (r->Ok_0).1@.len());
    assert forall|i: int| 0 <= i < (r->Ok_0).1@.len() implies (
    #[trigger] (r->Ok_0).1@[i]).encoded@ == (crate::redis_backend::replies::reply_page(
        reply,
    )->0).1[i] by {
        assert(views[i] == (r->Ok_0).1@[i]@);
    }
}

} // verus!
