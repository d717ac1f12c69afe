//! Ordering prefix matches and putting answers together.

use vstd::prelude::*;

use crate::pb::{
    ExternalKvPrefixMatch, MatchExternalKvPrefixResponse, PrefixMatchView, PrefixResponseView,
};

verus! {

/// Which of two equally long prefixes is listed first.
#[derive(Debug, Clone, Copy, PartialEq, Eq, Structural)]
pub enum TieBreak {
    /// The one that was found first.
    Arrival,
    /// The one whose worker id comes first.
    WorkerId,
}

/// Whether `a` may be listed before `b`.
pub open spec fn may_precede(tie: TieBreak, a: PrefixMatchView, b: PrefixMatchView) -> bool {
    ||| a.matched_prefix_blocks > b.matched_prefix_blocks
    ||| a.matched_prefix_blocks == b.matched_prefix_blocks && (tie is WorkerId
        ==> crate::text::text_le(a.worker_id, b.worker_id))
}

/// `e` listed behind everything in `s` that may precede it.
pub open spec fn insert_ranked(
    tie: TieBreak,
    s: Seq<PrefixMatchView>,
    e: PrefixMatchView,
) -> Seq<PrefixMatchView>
    decreases s.len(),
{
    if s.len() == 0 || may_precede(tie, s.last(), e) {
        s.push(e)
    } else {
        insert_ranked(tie, s.drop_last(), e).push(s.last())
    }
}

/// The matches in the order in which they are listed: longest first.
pub open spec fn ranked(tie: TieBreak, s: Seq<PrefixMatchView>) -> Seq<PrefixMatchView>
    decreases s.len(),
{
    if s.len() == 0 {
        s
    } else {
        insert_ranked(tie, ranked(tie, s.drop_last()), s.last())
    }
}

/// Whether a list is in the order of its ties.
pub open spec fn is_ranked(tie: TieBreak, s: Seq<PrefixMatchView>) -> bool {
    forall|i: int, j: int|
        0 <= i < j < s.len() ==> may_precede(tie, #[trigger] s[i], #[trigger] s[j])
}

proof fn lemma_may_precede_is_total(tie: TieBreak, a: PrefixMatchView, b: PrefixMatchView)
    ensures
        may_precede(tie, a, b) || may_precede(tie, b, a),
{
    crate::text::text_order_is_total(a.worker_id, b.worker_id);
}

proof fn lemma_may_precede_is_transitive(
    tie: TieBreak,
    a: PrefixMatchView,
    b: PrefixMatchView,
    c: PrefixMatchView,
)
    requires
        may_precede(tie, a, b),
        may_precede(tie, b, c),
    ensures
        may_precede(tie, a, c),
{
    if tie is WorkerId && a.matched_prefix_blocks == b.matched_prefix_blocks
        && b.matched_prefix_blocks == c.matched_prefix_blocks {
        crate::text::text_order_is_transitive(a.worker_id, b.worker_id, c.worker_id);
    }
}

proof fn lemma_insert_keeps_rank(tie: TieBreak, s: Seq<PrefixMatchView>, e: PrefixMatchView)
    requires
        is_ranked(tie, s),
    ensures
        is_ranked(tie, insert_ranked(tie, s, e)),
        insert_ranked(tie, s, e).to_multiset() =~= s.to_multiset().insert(e),
        insert_ranked(tie, s, e).len() == s.len() + 1,
    decreases s.len(),
{
    broadcast use vstd::seq_lib::group_to_multiset_ensures;

    let r = insert_ranked(tie, s, e);
    if s.len() == 0 || may_precede(tie, s.last(), e) {
        assert forall|i: int, j: int| 0 <= i < j < r.len() implies may_precede(
            tie,
            #[trigger] r[i],
            #[trigger] r[j],
        ) by {
            if j == s.len() && i < s.len() - 1 {
                lemma_may_precede_is_transitive(tie, s[i], s.last(), e);
            }
        }
    } else {
        let head = s.drop_last();
        lemma_insert_keeps_rank(tie, head, e);
        let inner = insert_ranked(tie, head, e);
        lemma_may_precede_is_total(tie, s.last(), e);
        assert(s =~= head.push(s.last()));
        assert forall|x: PrefixMatchView| #[trigger] inner.contains(x) implies may_precede(
            tie,
            x,
            s.last(),
        ) by {
            assert(inner.to_multiset().count(x) > 0);
            assert(head.to_multiset().insert(e).count(x) > 0);
            if x != e {
                assert(head.to_multiset().count(x) > 0);
                assert(head.contains(x));
                let k = choose|k: int| 0 <= k < head.len() && head[k] == x;
                assert(s[k] == x);
                assert(may_precede(tie, s[k], s[s.len() - 1]));
            }
        }
        assert forall|i: int, j: int| 0 <= i < j < r.len() implies may_precede(
            tie,
            #[trigger] r[i],
            #[trigger] r[j],
        ) by {
            if j == inner.len() {
                assert(inner.contains(inner[i]));
            } else {
                assert(may_precede(tie, inner[i], inner[j]));
            }
        }
    }
}

/// Ranking reorders the matches, longest first, and neither loses nor adds one.
pub proof fn ranking_orders_and_keeps_every_match(tie: TieBreak, s: Seq<PrefixMatchView>)
    ensures
        is_ranked(tie, ranked(tie, s)),
        ranked(tie, s).to_multiset() == s.to_multiset(),
        ranked(tie, s).len() == s.len(),
    decreases s.len(),
{
    broadcast use vstd::seq_lib::group_to_multiset_ensures;

    if s.len() > 0 {
        ranking_orders_and_keeps_every_match(tie, s.drop_last());
        lemma_insert_keeps_rank(tie, ranked(tie, s.drop_last()), s.last());
        assert(s =~= s.drop_last().push(s.last()));
    }
}

/// Whether no worker is listed twice.
pub open spec fn workers_differ(s: Seq<PrefixMatchView>) -> bool {
    forall|i: int, j: int|
        0 <= i < j < s.len() ==> (#[trigger] s[i]).worker_id != (#[trigger] s[j]).worker_id
}

/// Where no worker is listed twice, ranking by worker id does not depend on the
/// order in which the matches were found.
pub proof fn ranking_by_worker_is_unique(a: Seq<PrefixMatchView>, b: Seq<PrefixMatchView>)
    requires
        a.to_multiset() == b.to_multiset(),
        workers_differ(a),
    ensures
        ranked(TieBreak::WorkerId, a) == ranked(TieBreak::WorkerId, b),
{
    ranking_orders_and_keeps_every_match(TieBreak::WorkerId, a);
    ranking_orders_and_keeps_every_match(TieBreak::WorkerId, b);
    assert forall|x: PrefixMatchView, y: PrefixMatchView|
        a.contains(x) && a.contains(y) && x.worker_id == y.worker_id implies x == y by {
        let i = choose|i: int| 0 <= i < a.len() && a[i] == x;
        let j = choose|j: int| 0 <= j < a.len() && a[j] == y;
        if i < j {
            assert(a[i].worker_id != a[j].worker_id);
        } else if j < i {
            assert(a[j].worker_id != a[i].worker_id);
        }
    }
    lemma_ranked_lists_agree(
        a,
        ranked(TieBreak::WorkerId, a),
        ranked(TieBreak::WorkerId, b),
    );
}

/// Two ranked lists of the same matches are the same list.
proof fn lemma_ranked_lists_agree(
    all: Seq<PrefixMatchView>,
    a: Seq<PrefixMatchView>,
    b: Seq<PrefixMatchView>,
)
    requires
        is_ranked(TieBreak::WorkerId, a),
        is_ranked(TieBreak::WorkerId, b),
        a.to_multiset() == b.to_multiset(),
        a.to_multiset().subset_of(all.to_multiset()),
        forall|x: PrefixMatchView, y: PrefixMatchView|
            #![trigger all.contains(x), all.contains(y)]
            all.contains(x) && all.contains(y) && x.worker_id == y.worker_id ==> x == y,
    ensures
        a == b,
    decreases a.len(),
{
    broadcast use vstd::seq_lib::group_to_multiset_ensures;

    assert(a.len() == a.to_multiset().len());
    assert(b.len() == b.to_multiset().len());
    if a.len() == 0 {
        assert(a =~= b);
    } else {
        let x = a.last();
        let y = b.last();
        assert(a[a.len() - 1] == x && b[b.len() - 1] == y);
        assert(a.contains(x) && b.contains(y));
        assert(a.to_multiset().count(x) > 0 && b.to_multiset().count(y) > 0);
        assert(a.contains(y) && b.contains(x));
        assert(all.contains(x) && all.contains(y)) by {
            assert(all.to_multiset().count(x) > 0 && all.to_multiset().count(y) > 0);
        }
        let i = choose|i: int| 0 <= i < a.len() && a[i] == y;
        let j = choose|j: int| 0 <= j < b.len() && b[j] == x;
        if x != y {
            assert(may_precede(TieBreak::WorkerId, a[i], a[a.len() - 1]));
            assert(may_precede(TieBreak::WorkerId, b[j], b[b.len() - 1]));
            crate::text::text_order_is_antisymmetric(x.worker_id, y.worker_id);
        }
        assert(a =~= a.drop_last().push(x));
        assert(b =~= b.drop_last().push(x));
        assert(a.drop_last().to_multiset() =~= a.to_multiset().remove(x));
        assert(b.drop_last().to_multiset() =~= b.to_multiset().remove(x));
        lemma_ranked_lists_agree(all, a.drop_last(), b.drop_last());
    }
}

/// The matches of one length, in order.
pub open spec fn of_length(s: Seq<PrefixMatchView>, blocks: u32) -> Seq<PrefixMatchView> {
    s.filter(|m: PrefixMatchView| m.matched_prefix_blocks == blocks)
}

proof fn lemma_insert_is_stable(s: Seq<PrefixMatchView>, e: PrefixMatchView, blocks: u32)
    ensures
        of_length(insert_ranked(TieBreak::Arrival, s, e), blocks) == of_length(s.push(e), blocks),
    decreases s.len(),
{
    let pred = |m: PrefixMatchView| m.matched_prefix_blocks == blocks;
    if !(s.len() == 0 || may_precede(TieBreak::Arrival, s.last(), e)) {
        let head = s.drop_last();
        let inner = insert_ranked(TieBreak::Arrival, head, e);
        lemma_insert_is_stable(head, e, blocks);
        assert(s =~= head.push(s.last()));
        head.lemma_filter_push(s.last(), pred);
        head.lemma_filter_push(e, pred);
        s.lemma_filter_push(e, pred);
        inner.lemma_filter_push(s.last(), pred);
    }
}

/// Ranking by arrival keeps equally long prefixes in the order in which they
/// were found.
pub proof fn ranking_by_arrival_is_stable(s: Seq<PrefixMatchView>, blocks: u32)
    ensures
        of_length(ranked(TieBreak::Arrival, s), blocks) == of_length(s, blocks),
    decreases s.len(),
{
    if s.len() > 0 {
        let pred = |m: PrefixMatchView| m.matched_prefix_blocks == blocks;
        let head = s.drop_last();
        let sorted = ranked(TieBreak::Arrival, head);
        ranking_by_arrival_is_stable(head, blocks);
        lemma_insert_is_stable(sorted, s.last(), blocks);
        assert(s =~= head.push(s.last()));
        head.lemma_filter_push(s.last(), pred);
        sorted.lemma_filter_push(s.last(), pred);
    }
}

proof fn lemma_insert_position(
    tie: TieBreak,
    s: Seq<PrefixMatchView>,
    e: PrefixMatchView,
    at: int,
)
    requires
        0 <= at <= s.len(),
        at == 0 || may_precede(tie, s[at - 1], e),
        forall|k: int| at <= k < s.len() ==> !may_precede(tie, #[trigger] s[k], e),
    ensures
        insert_ranked(tie, s, e) == s.insert(at, e),
    decreases s.len(),
{
    if at == s.len() {
        assert(s.insert(at, e) =~= s.push(e));
    } else {
        assert(!may_precede(tie, s[s.len() - 1], e));
        lemma_insert_position(tie, s.drop_last(), e, at);
        assert(s.drop_last().insert(at, e).push(s.last()) =~= s.insert(at, e));
    }
}

/// Whether `a` may be listed before `b`.
fn precedes(tie: TieBreak, a: &ExternalKvPrefixMatch, b: &ExternalKvPrefixMatch) -> (r: bool)
    ensures
        r == may_precede(tie, a@, b@),
{
    if a.matched_prefix_blocks != b.matched_prefix_blocks {
        a.matched_prefix_blocks > b.matched_prefix_blocks
    } else {
        match tie {
            TieBreak::Arrival => true,
            TieBreak::WorkerId => crate::text::text_at_most(
                a.worker_id.as_str(),
                b.worker_id.as_str(),
            ),
        }
    }
}

/// Puts the matches in the order in which they are listed.
pub fn rank(matches: Vec<ExternalKvPrefixMatch>, tie: TieBreak) -> (r: Vec<ExternalKvPrefixMatch>)
    ensures
        crate::pb::prefix_matches(r@) == ranked(tie, crate::pb::prefix_matches(matches@)),
{
    let ghost all = crate::pb::prefix_matches(matches@);
    let ghost input = matches@;
    let mut sorted: Vec<ExternalKvPrefixMatch> = Vec::new();
    assert(crate::pb::prefix_matches(sorted@) =~= ranked(tie, all.take(0)));
    for m in it: matches
        invariant
            it.seq() == input,
            all == crate::pb::prefix_matches(input),
            crate::pb::prefix_matches(sorted@) == ranked(tie, all.take(it.index() as int)),
    {
        let ghost before = crate::pb::prefix_matches(sorted@);
        let ghost k = it.index();
        let mut at: usize = sorted.len();
        while at > 0 && !precedes(tie, &sorted[at - 1], &m)
            invariant
                at <= sorted@.len(),
                before == crate::pb::prefix_matches(sorted@),
                forall|j: int| at <= j < before.len() ==> !may_precede(tie, #[trigger] before[j], m@),
            decreases at,
        {
            at = at - 1;
        }
        proof {
            lemma_insert_position(tie, before, m@, at as int);
            assert(all.take(k + 1).drop_last() =~= all.take(k as int));
            assert(all.take(k + 1).last() == m@);
        }
        let ghost unsorted = sorted@;
        sorted.insert(at, m);
        assert(crate::pb::prefix_matches(sorted@) =~= before.insert(at as int, m@));
    }
    assert(all.take(input.len() as int) =~= all);
    sorted
}

/// The longest prefix of a ranked list.
pub open spec fn longest(s: Seq<PrefixMatchView>) -> u32 {
    if s.len() == 0 {
        0
    } else {
        s[0].matched_prefix_blocks
    }
}

/// The first `top_k` of a ranked list; all of it when `top_k` is 0.
pub open spec fn top(s: Seq<PrefixMatchView>, top_k: u32) -> Seq<PrefixMatchView> {
    if top_k == 0 || s.len() <= top_k {
        s
    } else {
        s.take(top_k as int)
    }
}

/// The answer that lists the given matches.
pub open spec fn answer(
    tie: TieBreak,
    matches: Seq<PrefixMatchView>,
    top_k: u32,
    queried_blocks: u32,
    spec_mismatched_workers: u32,
) -> PrefixResponseView {
    PrefixResponseView {
        matches: top(ranked(tie, matches), top_k),
        best_prefix_blocks: longest(ranked(tie, matches)),
        queried_blocks,
        spec_mismatched_workers,
    }
}

/// Ranks the matches, cuts the list to `top_k` workers and puts the answer
/// together.
pub fn ranked_response(
    tie: TieBreak,
    matches: Vec<ExternalKvPrefixMatch>,
    top_k: u32,
    queried_blocks: u32,
    spec_mismatched_workers: u32,
) -> (r: MatchExternalKvPrefixResponse)
    ensures
        r@ == answer(
            tie,
            crate::pb::prefix_matches(matches@),
            top_k,
            queried_blocks,
            spec_mismatched_workers,
        ),
{
    let mut matches = rank(matches, tie);
    let ghost sorted = crate::pb::prefix_matches(matches@);
    let best_prefix_blocks: u32 = if matches.len() > 0 {
        matches[0].matched_prefix_blocks
    } else {
        0
    };
    if top_k > 0 && matches.len() > top_k as usize {
        matches.truncate(top_k as usize);
    }
    assert(crate::pb::prefix_matches(matches@) =~= top(sorted, top_k));
    MatchExternalKvPrefixResponse {
        matches,
        best_prefix_blocks,
        queried_blocks,
        spec_mismatched_workers,
    }
}

/// The best prefix of an answer is the longest of all matches, also of those
/// that the list was cut before.
pub proof fn best_prefix_is_the_longest(
    tie: TieBreak,
    matches: Seq<PrefixMatchView>,
    top_k: u32,
    queried_blocks: u32,
    spec_mismatched_workers: u32,
    i: int,
)
    requires
        0 <= i < matches.len(),
    ensures
        matches[i].matched_prefix_blocks <= answer(
            tie,
            matches,
            top_k,
            queried_blocks,
            spec_mismatched_workers,
        ).best_prefix_blocks,
{
    broadcast use vstd::seq_lib::group_to_multiset_ensures;

    ranking_orders_and_keeps_every_match(tie, matches);
    let sorted = ranked(tie, matches);
    assert(matches.contains(matches[i]));
    assert(sorted.to_multiset().count(matches[i]) > 0);
    assert(sorted.contains(matches[i]));
    let k = choose|k: int| 0 <= k < sorted.len() && sorted[k] == matches[i];
    if k > 0 {
        assert(may_precede(tie, sorted[0], sorted[k]));
    }
}

} // verus!
