//! Hit counting.

use vstd::prelude::*;

use crate::pb::GetExternalKvHitCountsResponse;
use crate::redis_backend::hits::{hit_bump_args, hit_count_response, HitBump};

verus! {

/// How many counters stand before a place.
proof fn lemma_counted(hashes: Seq<Seq<char>>, counts: Seq<Option<i64>>, n: int) -> (at: Seq<int>)
    requires
        0 <= n <= hashes.len(),
        n <= counts.len(),
    ensures
        at.len() == crate::redis_backend::hits::counted(hashes, counts, n).len(),
        forall|k: int|
            0 <= k < at.len() ==> 0 <= #[trigger] at[k] < n && counts[at[k]] is Some
                && crate::redis_backend::hits::counted(hashes, counts, n)[k].0 == hashes[at[k]]
                && crate::redis_backend::hits::counted(hashes, counts, n)[k].1 as int == (
            if counts[at[k]]->0 > 0 {
                counts[at[k]]->0 as int
            } else {
                0
            }),
        forall|k: int, l: int| 0 <= k < l < at.len() ==> #[trigger] at[k] < #[trigger] at[l],
        forall|i: int| 0 <= i < n && counts[i] is Some ==> #[trigger] at.contains(i),
    decreases n,
{
    if n == 0 {
        Seq::empty()
    } else {
        let before = lemma_counted(hashes, counts, n - 1);
        if counts[n - 1] is Some {
            let at = before.push(n - 1);
            assert forall|i: int| 0 <= i < n && counts[i] is Some implies #[trigger] at.contains(
                i,
            ) by {
                if i < n - 1 {
                    assert(before.contains(i));
                    let k = choose|k: int| 0 <= k < before.len() && before[k] == i;
                    assert(at[k] == i);
                } else {
                    assert(at[before.len() as int] == i);
                }
            }
            at
        } else {
            before
        }
    }
}

/// Every stored counter is reported as it is, a negative one as zero; blocks
/// without a counter are left out, nothing else is reported, and the entries
/// stand in the order of the blocks.
///
/// `at` tells which block each entry is about.
pub proof fn each_stored_counter_is_reported_once(
    hashes: Vec<String>,
    counts: Vec<Option<i64>>,
    r: GetExternalKvHitCountsResponse,
) -> (at: Seq<int>)
    requires
        call_ensures(hit_count_response, (&hashes, &counts), r),
    ensures
        at.len() == r.entries@.len(),
        forall|k: int|
            0 <= k < at.len() ==> 0 <= #[trigger] at[k] < hashes@.len() && at[k] < counts@.len()
                && counts@[at[k]] is Some && r.entries@[k].hash@ == hashes@[at[k]]@ && (counts@[at[k]]->0 >= 0
                ==> r.entries@[k].hit_count_total == counts@[at[k]]->0) && (counts@[at[k]]->0 < 0
                ==> r.entries@[k].hit_count_total == 0),
        forall|k: int, l: int| 0 <= k < l < at.len() ==> #[trigger] at[k] < #[trigger] at[l],
        forall|i: int|
            0 <= i < hashes@.len() && i < counts@.len() && counts@[i] is Some
                ==> #[trigger] at.contains(i),
{
    let names = crate::text::texts(hashes@);
    let n = if names.len() <= counts@.len() {
        names.len() as int
    } else {
        counts@.len() as int
    };
    let at = lemma_counted(names, counts@, n);
    assert forall|k: int| 0 <= k < at.len() implies r.entries@[k].hash@ == hashes@[#[trigger] at[k]]@
        && r.entries@[k].hit_count_total == r@[k].1 by {
        assert(r@[k] == (r.entries@[k].hash@, r.entries@[k].hit_count_total));
    }
    at
}

/// A hit is counted with the time first, then the id and the generation of each
/// worker, in order.
pub proof fn a_hit_names_the_time_and_each_worker(
    now_ms: i64,
    bump: HitBump,
    r: Vec<String>,
    i: int,
)
    requires
        call_ensures(hit_bump_args, (now_ms, &bump), r),
        0 <= i < bump.owners@.len(),
    ensures
        r@.len() == 1 + 2 * bump.owners@.len(),
        r@[0]@ == crate::text::decimal(now_ms as int),
        r@[1 + 2 * i]@ == bump.owners@[i].0@,
        r@[2 + 2 * i]@ == crate::text::decimal(bump.owners@[i].1 as int),
{
    lemma_bump_arguments(now_ms, bump@.owners, i);
    assert(crate::text::texts(r@)[0] == r@[0]@);
    assert(crate::text::texts(r@)[1 + 2 * i] == r@[1 + 2 * i]@);
    assert(crate::text::texts(r@)[2 + 2 * i] == r@[2 + 2 * i]@);
    assert(bump@.owners[i] == (bump.owners@[i].0@, bump.owners@[i].1));
}

proof fn lemma_bump_arguments(now_ms: i64, owners: Seq<(Seq<char>, i64)>, i: int)
    requires
        0 <= i < owners.len(),
    ensures
        ({
            let args = crate::redis_backend::hits::bump_arguments(now_ms, owners);
            &&& args.len() == 1 + 2 * owners.len()
            &&& args[0] == crate::text::decimal(now_ms as int)
            &&& args[1 + 2 * i] == owners[i].0
            &&& args[2 + 2 * i] == crate::text::decimal(owners[i].1 as int)
        }),
    decreases owners.len(),
{
    let head = owners.drop_last();
    if i < head.len() {
        lemma_bump_arguments(now_ms, head, i);
    } else if head.len() > 0 {
        lemma_bump_arguments(now_ms, head, 0);
    } else {
        assert(crate::redis_backend::hits::bump_arguments(now_ms, head).len() == 1);
    }
}

} // verus!
