//! Grouping by a text, in the order in which the texts first appear.

use vstd::hash_map::StringHashMap;
use vstd::prelude::*;

verus! {

/// The keys of keyed values.
pub open spec fn keys<V>(s: Seq<(Seq<char>, V)>) -> Seq<Seq<char>> {
    s.map_values(|p: (Seq<char>, V)| p.0)
}

/// The values of one key, in order.
pub open spec fn values_of<V>(s: Seq<(Seq<char>, V)>, key: Seq<char>) -> Seq<V>
    decreases s.len(),
{
    if s.len() == 0 {
        Seq::empty()
    } else if s.last().0 == key {
        values_of(s.drop_last(), key).push(s.last().1)
    } else {
        values_of(s.drop_last(), key)
    }
}

/// Each key with its values, the keys in the order of their first appearance.
pub open spec fn grouped<V>(s: Seq<(Seq<char>, V)>) -> Seq<(Seq<char>, Seq<V>)> {
    crate::text::distinct(keys(s)).map_values(|key: Seq<char>| (key, values_of(s, key)))
}

/// The models of keyed values.
pub open spec fn keyed_views<T: View>(s: Seq<(String, T)>) -> Seq<(Seq<char>, T::V)> {
    s.map_values(|p: (String, T)| (p.0@, p.1@))
}

/// The models of the values of a group.
pub open spec fn value_views<T: View>(s: Seq<T>) -> Seq<T::V> {
    s.map_values(|x: T| x@)
}

/// The models of groups.
pub open spec fn group_views<T: View>(s: Seq<(String, Vec<T>)>) -> Seq<(Seq<char>, Seq<T::V>)> {
    s.map_values(|g: (String, Vec<T>)| (g.0@, value_views(g.1@)))
}

/// A value goes into the group of its key, or opens one.
proof fn lemma_grouped_push<V>(s: Seq<(Seq<char>, V)>, key: Seq<char>, value: V, at: int)
    requires
        0 <= at <= grouped(s).len(),
        at < grouped(s).len() ==> grouped(s)[at].0 == key,
        at == grouped(s).len() ==> !keys(s).contains(key),
    ensures
        at < grouped(s).len() ==> grouped(s.push((key, value))) =~= grouped(s).update(
            at,
            (key, grouped(s)[at].1.push(value)),
        ),
        at == grouped(s).len() ==> grouped(s.push((key, value))) =~= grouped(s).push(
            (key, seq![value]),
        ),
{
    let next = s.push((key, value));
    let order = crate::text::distinct(keys(s));
    assert(next.drop_last() =~= s);
    assert(keys(next).drop_last() =~= keys(s));
    assert(keys(next).last() == key);
    crate::text::distinct_keeps_each_text_once(keys(s));
    if at < grouped(s).len() {
        assert(order[at] == key);
        assert(order.contains(key));
        assert(crate::text::distinct(keys(next)) == order);
    } else {
        lemma_no_values(s, key);
        assert(values_of(next, key) =~= seq![value]);
        assert forall|k: int| 0 <= k < order.len() implies #[trigger] order[k] != key by {
            assert(order.contains(order[k]));
        }
    }
}

proof fn lemma_no_values<V>(s: Seq<(Seq<char>, V)>, key: Seq<char>)
    requires
        !keys(s).contains(key),
    ensures
        values_of(s, key).len() == 0,
    decreases s.len(),
{
    if s.len() > 0 {
        let head = s.drop_last();
        assert(keys(s)[s.len() - 1] == s.last().0);
        assert forall|k: int| 0 <= k < keys(head).len() implies #[trigger] keys(head)[k] != key by {
            assert(keys(s)[k] == keys(head)[k]);
        }
        lemma_no_values(head, key);
    }
}

/// Whether `index` finds the group of `key`.
spec fn finds<T: View>(
    index: Map<Seq<char>, usize>,
    groups: Seq<(String, Vec<T>)>,
    s: Seq<(Seq<char>, T::V)>,
    key: Seq<char>,
) -> bool {
    &&& index.contains_key(key) <==> keys(s).contains(key)
    &&& index.contains_key(key) ==> index[key] < groups.len() && groups[index[key] as int].0@ == key
}

/// Groups values by their keys.
pub fn group_by_text<T: View>(items: Vec<(String, T)>) -> (r: Vec<(String, Vec<T>)>)
    ensures
        group_views(r@) == grouped(keyed_views(items@)),
{
    let ghost input = items@;
    let ghost all = keyed_views(input);
    let mut groups: Vec<(String, Vec<T>)> = Vec::new();
    let mut index: StringHashMap<usize> = StringHashMap::new();
    assert(group_views(groups@) =~= grouped(all.take(0)));
    for item in it: items
        invariant
            it.seq() == input,
            all == keyed_views(input),
            group_views(groups@) == grouped(all.take(it.index() as int)),
            forall|key: Seq<char>|
                #[trigger] finds(index@, groups@, all.take(it.index() as int), key),
    {
        let ghost n = it.index() as int;
        let ghost done = all.take(n);
        let ghost groups_before = groups@;
        let ghost index_before = index@;
        let ghost key = item.0@;
        let ghost value = item.1@;
        proof {
            assert(all[n] == (key, value));
            assert(all.take(n + 1) =~= done.push((key, value)));
            assert(keys(all.take(n + 1)) =~= keys(done).push(key));
            assert(finds(index@, groups@, done, key));
        }
        let (name, content) = item;
        let known: Option<usize> = match index.get(name.as_str()) {
            Some(at) => Some(*at),
            None => None,
        };
        match known {
            Some(at) => {
                proof {
                    assert(group_views(groups@)[at as int].0 == key);
                    lemma_grouped_push(done, key, value, at as int);
                }
                groups[at].1.push(content);
                assert(value_views(groups@[at as int].1@) =~= value_views(
                    groups_before[at as int].1@,
                ).push(value));
                assert(group_views(groups@) =~= grouped(done.push((key, value))));
            },
            None => {
                proof {
                    lemma_grouped_push(done, key, value, groups@.len() as int);
                }
                let mut first: Vec<T> = Vec::new();
                first.push(content);
                assert(value_views(first@) =~= seq![value]);
                index.insert(name.clone(), groups.len());
                groups.push((name, first));
                assert(group_views(groups@) =~= grouped(done.push((key, value))));
            },
        }
        let ghost seen = keys(all.take(n + 1));
        assert forall|k: Seq<char>| #[trigger] finds(index@, groups@, all.take(n + 1), k) by {
            assert(finds(index_before, groups_before, done, k));
            if keys(done).contains(k) {
                let i = choose|i: int| 0 <= i < keys(done).len() && keys(done)[i] == k;
                assert(seen[i] == k);
            }
            if seen.contains(k) && k != key {
                let i = choose|i: int| 0 <= i < seen.len() && seen[i] == k;
                assert(keys(done)[i] == k);
            }
            if k == key {
                assert(seen[n] == key);
            }
        }
    }
    assert(all.take(input.len() as int) =~= all);
    groups
}

/// Whether `index` tells where the group of `key` is.
pub open spec fn locates<T: View>(
    index: Map<Seq<char>, usize>,
    groups: Seq<(String, Vec<T>)>,
    key: Seq<char>,
) -> bool {
    if index.contains_key(key) {
        index[key] < groups.len() && groups[index[key] as int].0@ == key
    } else {
        forall|i: int| 0 <= i < groups.len() ==> (#[trigger] groups[i]).0@ != key
    }
}

/// An index of groups by their keys.
pub fn index_groups<T: View>(groups: &Vec<(String, Vec<T>)>) -> (r: StringHashMap<usize>)
    ensures
        forall|key: Seq<char>| #[trigger] locates(r@, groups@, key),
{
    let mut index: StringHashMap<usize> = StringHashMap::new();
    let mut i: usize = 0;
    while i < groups.len()
        invariant
            i <= groups@.len(),
            forall|key: Seq<char>| #[trigger] locates(index@, groups@.take(i as int), key),
        decreases groups@.len() - i,
    {
        let ghost before = index@;
        index.insert(groups[i].0.clone(), i);
        assert forall|key: Seq<char>| #[trigger] locates(index@, groups@.take(i + 1), key) by {
            assert(locates(before, groups@.take(i as int), key));
            if key != groups@[i as int].0@ && !before.contains_key(key) {
                assert forall|j: int| 0 <= j < i + 1 implies (#[trigger] groups@.take(
                    i + 1,
                )[j]).0@ != key by {
                    if j < i {
                        assert(groups@.take(i as int)[j].0@ != key);
                    }
                }
            }
        }
        i = i + 1;
    }
    assert(groups@.take(i as int) =~= groups@);
    index
}

/// The group of a key holds the values of that key, and a key without a group
/// has none.
pub proof fn located_group_holds_the_values<T: View>(
    index: Map<Seq<char>, usize>,
    groups: Seq<(String, Vec<T>)>,
    s: Seq<(Seq<char>, T::V)>,
    key: Seq<char>,
)
    requires
        group_views(groups) == grouped(s),
        locates(index, groups, key),
    ensures
        index.contains_key(key) ==> value_views(groups[index[key] as int].1@) == values_of(s, key)
            && values_of(s, key).len() > 0,
        !index.contains_key(key) ==> values_of(s, key).len() == 0,
{
    let order = crate::text::distinct(keys(s));
    crate::text::distinct_keeps_each_text_once(keys(s));
    if index.contains_key(key) {
        let g = index[key] as int;
        assert(group_views(groups)[g] == (groups[g].0@, value_views(groups[g].1@)));
        assert(group_views(groups).len() == groups.len());
        assert(grouped(s).len() == order.len());
        assert(grouped(s)[g] == (order[g], values_of(s, order[g])));
        assert(order[g] == key);
        assert(order.contains(key));
        let i = choose|i: int| 0 <= i < keys(s).len() && keys(s)[i] == key;
        assert(s[i].0 == key);
        lemma_value_is_kept(s, i);
    } else {
        if keys(s).contains(key) {
            assert(order.contains(key));
            let g = choose|g: int| 0 <= g < order.len() && order[g] == key;
            assert(group_views(groups).len() == groups.len());
            assert(grouped(s)[g] == (order[g], values_of(s, order[g])));
            assert(group_views(groups)[g] == (groups[g].0@, value_views(groups[g].1@)));
            assert(groups[g].0@ == key);
        }
        lemma_no_values(s, key);
    }
}

/// Every value is in exactly the group of its key: the values of a group are
/// the values of its key, and every key has a group.
pub proof fn grouping_keeps_every_value<V>(s: Seq<(Seq<char>, V)>, i: int)
    requires
        0 <= i < s.len(),
    ensures
        exists|g: int|
            0 <= g < grouped(s).len() && (#[trigger] grouped(s)[g]).0 == s[i].0
                && grouped(s)[g].1.contains(s[i].1),
{
    let order = crate::text::distinct(keys(s));
    crate::text::distinct_keeps_each_text_once(keys(s));
    assert(keys(s)[i] == s[i].0);
    assert(keys(s).contains(s[i].0));
    assert(order.contains(s[i].0));
    let g = choose|g: int| 0 <= g < order.len() && order[g] == s[i].0;
    assert(grouped(s)[g].0 == s[i].0);
    lemma_value_is_kept(s, i);
}

proof fn lemma_value_is_kept<V>(s: Seq<(Seq<char>, V)>, i: int)
    requires
        0 <= i < s.len(),
    ensures
        values_of(s, s[i].0).contains(s[i].1),
    decreases s.len(),
{
    let values = values_of(s, s[i].0);
    if i == s.len() - 1 {
        assert(values[values.len() - 1] == s[i].1);
    } else {
        let head = s.drop_last();
        lemma_value_is_kept(head, i);
        let before = values_of(head, s[i].0);
        let k = choose|k: int| 0 <= k < before.len() && before[k] == s[i].1;
        assert(values[k] == s[i].1);
    }
}

} // verus!
