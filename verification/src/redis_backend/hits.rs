//! Hit counting: which blocks a query credits, and to whom.

use vstd::prelude::*;

use crate::pb::{GetExternalKvHitCountsResponse, HitCountEntry};

verus! {

/// The hit to record for one block.
#[derive(Debug)]
pub struct HitBump {
    pub hash: String,
    /// The workers that are credited, with the generation each must still be
    /// in.
    pub owners: Vec<(String, i64)>,
}

/// The model of a [`HitBump`].
pub struct HitBumpView {
    pub hash: Seq<char>,
    pub owners: Seq<(Seq<char>, i64)>,
}

impl View for HitBump {
    type V = HitBumpView;

    open spec fn view(&self) -> HitBumpView {
        HitBumpView { hash: self.hash@, owners: credited(self.owners@) }
    }
}

/// The models of credited workers.
pub open spec fn credited(owners: Seq<(String, i64)>) -> Seq<(Seq<char>, i64)> {
    owners.map_values(|o: (String, i64)| (o.0@, o.1))
}

/// The models of several bumps.
pub open spec fn bump_views(bumps: Seq<HitBump>) -> Seq<HitBumpView> {
    bumps.map_values(|b: HitBump| b@)
}

/// The arguments of the counting script: the time, then each worker with its
/// generation.
pub open spec fn bump_arguments(now_ms: i64, owners: Seq<(Seq<char>, i64)>) -> Seq<Seq<char>>
    decreases owners.len(),
{
    if owners.len() == 0 {
        seq![crate::text::decimal(now_ms as int)]
    } else {
        bump_arguments(now_ms, owners.drop_last()).push(owners.last().0).push(
            crate::text::decimal(owners.last().1 as int),
        )
    }
}

/// The arguments of the counting script.
pub fn hit_bump_args(now_ms: i64, bump: &HitBump) -> (r: Vec<String>)
    ensures
        crate::text::texts(r@) == bump_arguments(now_ms, bump@.owners),
{
    let ghost owners = bump@.owners;
    let mut args: Vec<String> = Vec::new();
    args.push(crate::text::signed_decimal_text(now_ms));
    assert(crate::text::texts(args@) =~= bump_arguments(now_ms, owners.take(0)));
    let mut i: usize = 0;
    while i < bump.owners.len()
        invariant
            i <= bump.owners@.len(),
            owners == credited(bump.owners@),
            crate::text::texts(args@) == bump_arguments(now_ms, owners.take(i as int)),
        decreases bump.owners@.len() - i,
    {
        let ghost before = args@;
        assert(owners.take(i + 1).drop_last() =~= owners.take(i as int));
        args.push(bump.owners[i].0.clone());
        args.push(crate::text::signed_decimal_text(bump.owners[i].1));
        assert(crate::text::texts(args@) =~= crate::text::texts(before).push(
            owners[i as int].0,
        ).push(crate::text::decimal(owners[i as int].1 as int)));
        i = i + 1;
    }
    assert(owners.take(i as int) =~= owners);
    args
}

/// The counters that exist, in the order of their blocks. A stored negative
/// counts as zero.
pub open spec fn counted(hashes: Seq<Seq<char>>, counts: Seq<Option<i64>>, n: int) -> Seq<
    (Seq<char>, u64),
>
    decreases n,
{
    if n <= 0 {
        Seq::empty()
    } else {
        let before = counted(hashes, counts, n - 1);
        match counts[n - 1] {
            Some(count) => before.push(
                (
                    hashes[n - 1],
                    if count > 0 {
                        count as u64
                    } else {
                        0
                    },
                ),
            ),
            None => before,
        }
    }
}

/// Pairs blocks with their counters and leaves out the blocks without one.
pub fn hit_count_response(hashes: &Vec<String>, counts: &Vec<Option<i64>>) -> (r:
    GetExternalKvHitCountsResponse)
    ensures
        r@ == counted(
            crate::text::texts(hashes@),
            counts@,
            crate::redis_backend::scan::paired(hashes@.len(), counts@.len()) as int,
        ),
{
    let ghost all = crate::text::texts(hashes@);
    let mut entries: Vec<HitCountEntry> = Vec::new();
    let n: usize = if hashes.len() <= counts.len() {
        hashes.len()
    } else {
        counts.len()
    };
    let mut i: usize = 0;
    let ghost model = |e: HitCountEntry| (e.hash@, e.hit_count_total);
    assert(entries@.map_values(model) =~= counted(all, counts@, 0));
    while i < n
        invariant
            i <= n <= hashes@.len(),
            n <= counts@.len(),
            all == crate::text::texts(hashes@),
            model == (|e: HitCountEntry| (e.hash@, e.hit_count_total)),
            entries@.map_values(model) == counted(all, counts@, i as int),
        decreases n - i,
    {
        if let Some(count) = counts[i] {
            let ghost before = entries@;
            let hit_count_total: u64 = if count > 0 {
                count as u64
            } else {
                0
            };
            entries.push(HitCountEntry { hash: hashes[i].clone(), hit_count_total });
            assert(entries@.map_values(model) =~= before.map_values(model).push(
                (all[i as int], hit_count_total),
            ));
        }
        i = i + 1;
    }
    GetExternalKvHitCountsResponse { entries }
}

} // verus!
