//! Which places the parts of a result come from.

use vstd::prelude::*;

verus! {

/// Whether places ascend.
pub open spec fn ascends(at: Seq<int>) -> bool {
    forall|k: int, l: int| 0 <= k < l < at.len() ==> #[trigger] at[k] < #[trigger] at[l]
}

/// Whether pairs of places ascend, row by row.
pub open spec fn ascends_by_row(at: Seq<(int, int)>) -> bool {
    forall|k: int, l: int|
        0 <= k < l < at.len() ==> (#[trigger] at[k]).0 < (#[trigger] at[l]).0 || (at[k].0 == at[l].0
            && at[k].1 < at[l].1)
}

/// The places of the values of a key.
pub(crate) proof fn lemma_places_of_values<V>(s: Seq<(Seq<char>, V)>, key: Seq<char>) -> (at: Seq<
    int,
>)
    ensures
        at.len() == crate::grouping::values_of(s, key).len(),
        forall|k: int|
            0 <= k < at.len() ==> 0 <= #[trigger] at[k] < s.len() && s[at[k]].0 == key
                && s[at[k]].1 == crate::grouping::values_of(s, key)[k],
        ascends(at),
        forall|i: int| 0 <= i < s.len() && s[i].0 == key ==> #[trigger] at.contains(i),
    decreases s.len(),
{
    if s.len() == 0 {
        Seq::empty()
    } else {
        let before = lemma_places_of_values(s.drop_last(), key);
        if s.last().0 == key {
            let at = before.push(s.len() - 1);
            assert forall|i: int| 0 <= i < s.len() && s[i].0 == key implies #[trigger] at.contains(
                i,
            ) by {
                if i < s.len() - 1 {
                    assert(s.drop_last()[i].0 == key);
                    assert(before.contains(i));
                    let k = choose|k: int| 0 <= k < before.len() && before[k] == i;
                    assert(at[k] == i);
                } else {
                    assert(at[before.len() as int] == i);
                }
            }
            at
        } else {
            assert forall|i: int|
                0 <= i < s.len() && s[i].0 == key implies #[trigger] before.contains(i) by {
                assert(s.drop_last()[i].0 == key);
            }
            before
        }
    }
}

/// The places of the first occurrences.
pub(crate) proof fn lemma_places_of_distinct(s: Seq<Seq<char>>) -> (at: Seq<int>)
    ensures
        at.len() == crate::text::distinct(s).len(),
        forall|k: int|
            0 <= k < at.len() ==> 0 <= #[trigger] at[k] < s.len() && s[at[k]]
                == crate::text::distinct(s)[k],
        ascends(at),
        forall|k: int, j: int|
            #![trigger at[k], s[j]]
            0 <= k < at.len() && 0 <= j < at[k] ==> s[j] != s[at[k]],
    decreases s.len(),
{
    if s.len() == 0 {
        Seq::empty()
    } else {
        let head = s.drop_last();
        let before = lemma_places_of_distinct(head);
        let n = s.len() - 1;
        let at = if head.contains(s.last()) {
            before
        } else {
            before.push(n)
        };
        assert forall|k: int, j: int|
            #![trigger at[k], s[j]]
            0 <= k < at.len() && 0 <= j < at[k] implies s[j] != s[at[k]] by {
            assert(head[j] == s[j]);
            if k < before.len() {
                assert(at[k] == before[k]);
                assert(head[j] != head[before[k]]);
            }
        }
        at
    }
}

} // verus!
