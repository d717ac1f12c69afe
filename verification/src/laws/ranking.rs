//! In which order workers are listed.

use vstd::prelude::*;

use crate::inputs::assemble_prefix_response;
use crate::pb::{ExternalKvPrefixMatch, MatchExternalKvPrefixResponse, PrefixMatchView};
use crate::ranking::{rank, ranked_response, TieBreak};
use crate::redis_backend::scan::prefix_response;

verus! {

/// Whether a text comes before another one: it is a part of the other one's
/// beginning, or has the smaller character where they first differ.
pub open spec fn comes_before(a: Seq<char>, b: Seq<char>) -> bool {
    exists|p: int|
        0 <= p <= a.len() && p <= b.len() && a.take(p) == #[trigger] b.take(p) && p < b.len() && (p
            == a.len() || a[p] < b[p])
}

/// The text order, by the first difference.
pub(crate) proof fn lemma_text_order(a: Seq<char>, b: Seq<char>)
    ensures
        crate::text::text_le(a, b) && a != b ==> comes_before(a, b),
        comes_before(a, b) ==> crate::text::text_le(a, b) && a != b,
    decreases a.len(),
{
    if crate::text::text_le(a, b) && a != b {
        if a.len() == 0 {
            assert(b.len() > 0) by {
                if b.len() == 0 {
                    assert(a =~= b);
                }
            }
            assert(a.take(0) =~= b.take(0));
        } else if a[0] < b[0] {
            assert(a.take(0) =~= b.take(0));
        } else {
            let x = a.skip(1);
            let y = b.skip(1);
            assert(x != y) by {
                if x == y {
                    assert(a =~= seq![a[0]] + x);
                    assert(b =~= seq![b[0]] + y);
                }
            }
            lemma_text_order(x, y);
            let p = choose|p: int|
                0 <= p <= x.len() && p <= y.len() && x.take(p) == #[trigger] y.take(p) && p
                    < y.len() && (p == x.len() || x[p] < y[p]);
            assert(a.take(p + 1) =~= seq![a[0]] + x.take(p));
            assert(b.take(p + 1) =~= seq![b[0]] + y.take(p));
            assert(a.take(p + 1) == b.take(p + 1));
        }
    }
    if comes_before(a, b) {
        let p = choose|p: int|
            0 <= p <= a.len() && p <= b.len() && a.take(p) == #[trigger] b.take(p) && p < b.len()
                && (p == a.len() || a[p] < b[p]);
        if a.len() > 0 && p > 0 {
            let x = a.skip(1);
            let y = b.skip(1);
            assert(a[0] == a.take(p)[0]);
            assert(b[0] == b.take(p)[0]);
            assert(x.take(p - 1) =~= a.take(p).skip(1));
            assert(y.take(p - 1) =~= b.take(p).skip(1));
            assert(x.take(p - 1) == y.take(p - 1));
            assert(comes_before(x, y));
            lemma_text_order(x, y);
        }
    }
}

/// Ranking loses no match and adds none. The longest prefix comes first. Equally
/// long ones stay in the order in which they arrived, or come by worker id.
pub proof fn ranking_puts_the_longest_first(
    matches: Vec<ExternalKvPrefixMatch>,
    tie: TieBreak,
    r: Vec<ExternalKvPrefixMatch>,
    blocks: u32,
)
    requires
        call_ensures(rank, (matches, tie), r),
    ensures
        r@.len() == matches@.len(),
        r@.map_values(|m: ExternalKvPrefixMatch| m@).to_multiset() == matches@.map_values(
            |m: ExternalKvPrefixMatch| m@,
        ).to_multiset(),
        forall|i: int, j: int|
            0 <= i < j < r@.len() ==> (#[trigger] r@[i]).matched_prefix_blocks >= (
            #[trigger] r@[j]).matched_prefix_blocks,
        tie is WorkerId ==> forall|i: int, j: int|
            0 <= i < j < r@.len() && (#[trigger] r@[i]).matched_prefix_blocks == (
            #[trigger] r@[j]).matched_prefix_blocks ==> r@[i].worker_id@ == r@[j].worker_id@
                || comes_before(r@[i].worker_id@, r@[j].worker_id@),
        tie is Arrival ==> r@.map_values(|m: ExternalKvPrefixMatch| m@).filter(
            |m: PrefixMatchView| m.matched_prefix_blocks == blocks,
        ) == matches@.map_values(|m: ExternalKvPrefixMatch| m@).filter(
            |m: PrefixMatchView| m.matched_prefix_blocks == blocks,
        ),
{
    let before = crate::pb::prefix_matches(matches@);
    let after = crate::pb::prefix_matches(r@);
    assert(before =~= matches@.map_values(|m: ExternalKvPrefixMatch| m@));
    assert(after =~= r@.map_values(|m: ExternalKvPrefixMatch| m@));
    crate::ranking::ranking_orders_and_keeps_every_match(tie, before);
    assert forall|i: int, j: int| 0 <= i < j < r@.len() implies (
    #[trigger] r@[i]).matched_prefix_blocks >= (#[trigger] r@[j]).matched_prefix_blocks by {
        assert(after[i] == r@[i]@);
        assert(after[j] == r@[j]@);
        assert(crate::ranking::may_precede(tie, after[i], after[j]));
    }
    if tie is WorkerId {
        assert forall|i: int, j: int|
            0 <= i < j < r@.len() && (#[trigger] r@[i]).matched_prefix_blocks == (
            #[trigger] r@[j]).matched_prefix_blocks implies r@[i].worker_id@ == r@[j].worker_id@
            || comes_before(r@[i].worker_id@, r@[j].worker_id@) by {
            assert(after[i] == r@[i]@);
            assert(after[j] == r@[j]@);
            assert(crate::ranking::may_precede(tie, after[i], after[j]));
            lemma_text_order(r@[i].worker_id@, r@[j].worker_id@);
        }
    } else {
        crate::ranking::ranking_by_arrival_is_stable(before, blocks);
    }
}

/// An answer lists the ranked matches, the first `top_k` of them where that is
/// set, and names the longest prefix of all. The numbers that it is given stand
/// in it as they are.
pub proof fn an_answer_lists_the_first_of_the_ranked(
    tie: TieBreak,
    matches: Vec<ExternalKvPrefixMatch>,
    top_k: u32,
    queried_blocks: u32,
    spec_mismatched_workers: u32,
    r: MatchExternalKvPrefixResponse,
    ranked: Vec<ExternalKvPrefixMatch>,
)
    requires
        call_ensures(
            ranked_response,
            (tie, matches, top_k, queried_blocks, spec_mismatched_workers),
            r,
        ),
        call_ensures(rank, (matches, tie), ranked),
    ensures
        r.matches@.len() == if top_k == 0 || ranked@.len() <= top_k {
            ranked@.len()
        } else {
            top_k as nat
        },
        forall|i: int|
            0 <= i < r.matches@.len() ==> (#[trigger] r.matches@[i]).worker_id@
                == ranked@[i].worker_id@ && r.matches@[i].address@ == ranked@[i].address@
                && r.matches@[i].dp_rank == ranked@[i].dp_rank
                && r.matches@[i].matched_prefix_blocks == ranked@[i].matched_prefix_blocks
                && r.matches@[i].tiers@ == ranked@[i].tiers@,
        ranked@.len() > 0 ==> r.best_prefix_blocks == ranked@[0].matched_prefix_blocks,
        ranked@.len() == 0 ==> r.best_prefix_blocks == 0,
        r.queried_blocks == queried_blocks,
        r.spec_mismatched_workers == spec_mismatched_workers,
{
    let views = crate::pb::prefix_matches(ranked@);
    assert(views.len() == ranked@.len());
    assert(r@.matches.len() == r.matches@.len());
    assert forall|i: int| 0 <= i < r.matches@.len() implies (#[trigger] r.matches@[i]).worker_id@
        == ranked@[i].worker_id@ && r.matches@[i].address@ == ranked@[i].address@
        && r.matches@[i].dp_rank == ranked@[i].dp_rank && r.matches@[i].matched_prefix_blocks
        == ranked@[i].matched_prefix_blocks && r.matches@[i].tiers@ == ranked@[i].tiers@ by {
        assert(r@.matches[i] == r.matches@[i]@);
        assert(views[i] == ranked@[i]@);
    }
    if ranked@.len() > 0 {
        assert(views[0] == ranked@[0]@);
    }
}

/// A scan's answer is ranked by worker id where prefixes are equally long.
pub proof fn a_scan_is_ranked_by_worker_id(
    matches: Vec<ExternalKvPrefixMatch>,
    top_k: u32,
    queried_blocks: u32,
    spec_mismatched_workers: u32,
    r: MatchExternalKvPrefixResponse,
    ranked: MatchExternalKvPrefixResponse,
)
    requires
        call_ensures(
            prefix_response,
            (matches, top_k, queried_blocks, spec_mismatched_workers),
            r,
        ),
        call_ensures(
            ranked_response,
            (TieBreak::WorkerId, matches, top_k, queried_blocks, spec_mismatched_workers),
            ranked,
        ),
    ensures
        r@ == ranked@,
{
}

/// Worker ids, addresses and prefixes are put together into an answer that lists
/// each of them, the longest first and equally long ones in the order given.
pub proof fn entries_are_put_together_longest_first(
    entries: Vec<(String, String, u32)>,
    blocks_read: u32,
    r: MatchExternalKvPrefixResponse,
    blocks: u32,
)
    requires
        call_ensures(assemble_prefix_response, (entries, blocks_read), r),
    ensures
        ({
            let listed = entries@.map_values(
                |e: (String, String, u32)|
                    PrefixMatchView {
                        worker_id: e.0@,
                        address: e.1@,
                        dp_rank: 0,
                        matched_prefix_blocks: e.2,
                        tiers: Seq::empty(),
                    },
            );
            let answered = r.matches@.map_values(|m: ExternalKvPrefixMatch| m@);
            &&& r.matches@.len() == entries@.len()
            &&& answered.to_multiset() == listed.to_multiset()
            &&& answered.filter(|m: PrefixMatchView| m.matched_prefix_blocks == blocks)
                == listed.filter(|m: PrefixMatchView| m.matched_prefix_blocks == blocks)
            &&& forall|i: int, j: int|
                0 <= i < j < r.matches@.len() ==> (#[trigger] r.matches@[i]).matched_prefix_blocks
                    >= (#[trigger] r.matches@[j]).matched_prefix_blocks
            &&& r.matches@.len() > 0 ==> r.best_prefix_blocks
                == r.matches@[0].matched_prefix_blocks
            &&& r.matches@.len() == 0 ==> r.best_prefix_blocks == 0
            &&& r.queried_blocks == blocks_read
            &&& r.spec_mismatched_workers == 0
        }),
{
    let listed = crate::inputs::entry_matches(entries@);
    let answered = crate::pb::prefix_matches(r.matches@);
    assert(listed =~= entries@.map_values(
        |e: (String, String, u32)|
            PrefixMatchView {
                worker_id: e.0@,
                address: e.1@,
                dp_rank: 0,
                matched_prefix_blocks: e.2,
                tiers: Seq::empty(),
            },
    ));
    assert(answered =~= r.matches@.map_values(|m: ExternalKvPrefixMatch| m@));
    crate::ranking::ranking_orders_and_keeps_every_match(TieBreak::Arrival, listed);
    crate::ranking::ranking_by_arrival_is_stable(listed, blocks);
    assert forall|i: int, j: int| 0 <= i < j < r.matches@.len() implies (
    #[trigger] r.matches@[i]).matched_prefix_blocks >= (
    #[trigger] r.matches@[j]).matched_prefix_blocks by {
        assert(answered[i] == r.matches@[i]@);
        assert(answered[j] == r.matches@[j]@);
        assert(crate::ranking::may_precede(TieBreak::Arrival, answered[i], answered[j]));
    }
    if r.matches@.len() > 0 {
        assert(answered[0] == r.matches@[0]@);
    }
}

} // verus!
