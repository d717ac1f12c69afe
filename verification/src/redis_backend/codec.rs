//! Text forms of what is stored in Redis.

use vstd::prelude::*;
use vstd::string::StringExecFns;

use crate::pb::{HashSpec, HashSpecView, TIER_DRAM, TIER_HBM, TIER_SSD};

verus! {

/// How many of a worker's blocks a page of its reverse index is asked for.
pub const REVERSE_SCAN_PAGE: usize = 256;

/// Whether a placement bitmask of `1 << tier` holds `tier`.
pub open spec fn placed_at(mask: i64, tier: i32) -> bool {
    ||| tier == TIER_HBM && mask & 2 != 0
    ||| tier == TIER_DRAM && mask & 4 != 0
    ||| tier == TIER_SSD && mask & 8 != 0
}

/// The tiers of a placement bitmask, in ascending order.
pub open spec fn tiers_of(mask: i64) -> Seq<i32> {
    seq![TIER_HBM, TIER_DRAM, TIER_SSD].filter(|tier: i32| placed_at(mask, tier))
}

/// The bit of a tier in a placement bitmask, 0 for a tier that is not stored.
pub open spec fn bit_of(tier: i32) -> i64 {
    if tier == TIER_HBM {
        2
    } else if tier == TIER_DRAM {
        4
    } else if tier == TIER_SSD {
        8
    } else {
        0
    }
}

/// The bit of a tier in a placement bitmask, 0 for a tier that is not stored.
pub fn tier_bit(tier: i32) -> (r: i64)
    ensures
        r == bit_of(tier),
{
    match tier {
        1 => 2,
        2 => 4,
        3 => 8,
        _ => 0,
    }
}

/// A tier's bit places a block at that tier and at no other.
pub proof fn tier_bit_places_one_tier(tier: i32, other: i32)
    requires
        TIER_HBM <= tier <= TIER_SSD,
    ensures
        placed_at(bit_of(tier), other) == (tier == other),
{
    assert(2i64 & 2 != 0 && 2i64 & 4 == 0 && 2i64 & 8 == 0) by (bit_vector);
    assert(4i64 & 2 == 0 && 4i64 & 4 != 0 && 4i64 & 8 == 0) by (bit_vector);
    assert(8i64 & 2 == 0 && 8i64 & 4 == 0 && 8i64 & 8 != 0) by (bit_vector);
}

/// Joining two bitmasks places a block at the tiers of either.
pub proof fn joined_masks_place_at_both(a: i64, b: i64, tier: i32)
    ensures
        placed_at(a | b, tier) == (placed_at(a, tier) || placed_at(b, tier)),
{
    assert((a | b) & 2 != 0 <==> (a & 2 != 0 || b & 2 != 0)) by (bit_vector);
    assert((a | b) & 4 != 0 <==> (a & 4 != 0 || b & 4 != 0)) by (bit_vector);
    assert((a | b) & 8 != 0 <==> (a & 8 != 0 || b & 8 != 0)) by (bit_vector);
}

/// A tier is listed exactly when the bitmask holds it, and the list ascends.
pub proof fn tiers_of_lists_each_tier_once(mask: i64)
    ensures
        forall|tier: i32| #[trigger] tiers_of(mask).contains(tier) <==> placed_at(mask, tier),
        forall|i: int, j: int|
            0 <= i < j < tiers_of(mask).len() ==> tiers_of(mask)[i] < tiers_of(mask)[j],
{
    lemma_tiers_of(mask);
    let t = tiers_of(mask);
    assert forall|tier: i32| #[trigger] t.contains(tier) <==> placed_at(mask, tier) by {
        let a = if placed_at(mask, TIER_HBM) {
            seq![TIER_HBM]
        } else {
            Seq::empty()
        };
        let b = if placed_at(mask, TIER_DRAM) {
            a.push(TIER_DRAM)
        } else {
            a
        };
        if placed_at(mask, tier) {
            if tier == TIER_HBM {
                assert(t[0] == tier);
            } else if tier == TIER_DRAM {
                assert(t[b.len() - 1] == tier);
            } else {
                assert(t[t.len() - 1] == tier);
            }
        }
    }
}

proof fn lemma_tiers_of(mask: i64)
    ensures
        tiers_of(mask) == ({
            let a = if placed_at(mask, TIER_HBM) {
                seq![TIER_HBM]
            } else {
                Seq::empty()
            };
            let b = if placed_at(mask, TIER_DRAM) {
                a.push(TIER_DRAM)
            } else {
                a
            };
            if placed_at(mask, TIER_SSD) {
                b.push(TIER_SSD)
            } else {
                b
            }
        }),
{
    let pred = |tier: i32| placed_at(mask, tier);
    let none = Seq::<i32>::empty();
    let one = seq![TIER_HBM];
    let two = seq![TIER_HBM, TIER_DRAM];
    let three = seq![TIER_HBM, TIER_DRAM, TIER_SSD];
    assert(one =~= none.push(TIER_HBM));
    assert(two =~= one.push(TIER_DRAM));
    assert(three =~= two.push(TIER_SSD));
    assert(none.filter(pred) =~= none) by {
        reveal(Seq::filter);
    }
    none.lemma_filter_push(TIER_HBM, pred);
    one.lemma_filter_push(TIER_DRAM, pred);
    two.lemma_filter_push(TIER_SSD, pred);
    assert(none.push(TIER_HBM) =~= one);
}

/// Whether a placement bitmask holds a tier.
pub fn is_placed_at(mask: i64, tier: i32) -> (r: bool)
    ensures
        r == placed_at(mask, tier),
{
    (tier == TIER_HBM && mask & 2 != 0) || (tier == TIER_DRAM && mask & 4 != 0) || (tier == TIER_SSD
        && mask & 8 != 0)
}

/// The tiers of a placement bitmask, in ascending order.
pub fn tiers_from_mask(mask: i64) -> (r: Vec<i32>)
    ensures
        r@ == tiers_of(mask),
{
    let mut r: Vec<i32> = Vec::new();
    if is_placed_at(mask, TIER_HBM) {
        r.push(TIER_HBM);
    }
    if is_placed_at(mask, TIER_DRAM) {
        r.push(TIER_DRAM);
    }
    if is_placed_at(mask, TIER_SSD) {
        r.push(TIER_SSD);
    }
    proof {
        lemma_tiers_of(mask);
        assert(r@ =~= tiers_of(mask));
    }
    r
}

/// The number that `s` writes, 0 when it writes none.
pub open spec fn number_or_zero(s: Seq<char>) -> i64 {
    match crate::text::parsed_i64(s) {
        Some(v) => v,
        None => 0,
    }
}

/// The generation and the tier bitmask of a stored placement. A value without
/// a generation is of generation zero.
pub open spec fn placement_parts(value: Seq<char>) -> (i64, i64) {
    match crate::text::split_parts(value, ':') {
        Some((generation, mask)) => (number_or_zero(generation), number_or_zero(mask)),
        None => (0, number_or_zero(value)),
    }
}

/// Reads the generation and the tier bitmask of a stored placement.
pub fn parse_placement_value(value: &str) -> (r: (i64, i64))
    ensures
        r == placement_parts(value@),
{
    match crate::text::split_once(value, ':') {
        Some((generation, mask)) => (
            crate::text::parse_i64(generation).unwrap_or(0),
            crate::text::parse_i64(mask).unwrap_or(0),
        ),
        None => (0, crate::text::parse_i64(value).unwrap_or(0)),
    }
}

/// The text that records a generation and a bitmask.
pub open spec fn placement_text(generation: i64, mask: i64) -> Seq<char> {
    crate::text::decimal(generation as int) + seq![':'] + crate::text::decimal(mask as int)
}

/// Every recorded generation and bitmask reads back as it was written.
pub proof fn placement_value_round_trips(generation: i64, mask: i64)
    ensures
        placement_parts(placement_text(generation, mask)) == (generation, mask),
{
    crate::text::decimal_characters(generation as int);
    crate::text::split_undoes_join(
        crate::text::decimal(generation as int),
        ':',
        crate::text::decimal(mask as int),
    );
    crate::text::decimal_round_trips(generation as int);
    crate::text::decimal_round_trips(mask as int);
}

/// The reverse index entry of a block.
pub open spec fn reverse_text(generation: i64, hash: Seq<char>) -> Seq<char> {
    crate::text::decimal(generation as int) + seq![':'] + hash
}

/// The generation and the hash of a reverse index entry. An entry without a
/// generation is a bare hash of generation zero.
pub open spec fn reverse_parts(member: Seq<char>) -> (i64, Seq<char>) {
    match crate::text::split_parts(member, ':') {
        Some((generation, hash)) => match crate::text::parsed_i64(generation) {
            Some(generation) => (generation, hash),
            None => (0, member),
        },
        None => (0, member),
    }
}

/// The reverse index entry of a block.
pub fn reverse_member(generation: i64, hash: &str) -> (r: String)
    ensures
        r@ == reverse_text(generation, hash@),
{
    let mut r = crate::text::signed_decimal_text(generation);
    proof {
        reveal_strlit(":");
        assert(":"@ =~= seq![':']);
    }
    r.append(":");
    r.append(hash);
    r
}

/// Reads the generation and the hash of a reverse index entry.
pub fn parse_reverse_member<'a>(member: &'a str) -> (r: (i64, &'a str))
    ensures
        (r.0, r.1@) == reverse_parts(member@),
{
    match crate::text::split_once(member, ':') {
        Some((generation, hash)) => match crate::text::parse_i64(generation) {
            Some(generation) => (generation, hash),
            None => (0, member),
        },
        None => (0, member),
    }
}

/// Every reverse index entry reads back as the generation and hash that it was
/// made from, whatever the hash holds.
pub proof fn reverse_member_round_trips(generation: i64, hash: Seq<char>)
    ensures
        reverse_parts(reverse_text(generation, hash)) == (generation, hash),
{
    crate::text::decimal_characters(generation as int);
    crate::text::split_undoes_join(crate::text::decimal(generation as int), ':', hash);
    crate::text::decimal_round_trips(generation as int);
}

/// A reverse index entry, with its parts.
#[derive(Debug)]
pub struct ReverseMember {
    pub encoded: String,
    pub generation: i64,
    pub hash: String,
}

/// The model of a [`ReverseMember`].
pub struct ReverseMemberView {
    pub encoded: Seq<char>,
    pub generation: i64,
    pub hash: Seq<char>,
}

impl View for ReverseMember {
    type V = ReverseMemberView;

    open spec fn view(&self) -> ReverseMemberView {
        ReverseMemberView {
            encoded: self.encoded@,
            generation: self.generation,
            hash: self.hash@,
        }
    }
}

/// The model of the entry that `encoded` writes.
pub open spec fn parsed_member(encoded: Seq<char>) -> ReverseMemberView {
    ReverseMemberView {
        encoded,
        generation: reverse_parts(encoded).0,
        hash: reverse_parts(encoded).1,
    }
}

impl ReverseMember {
    /// Reads a reverse index entry.
    pub fn parse(encoded: String) -> (r: ReverseMember)
        ensures
            r@ == parsed_member(encoded@),
    {
        let (generation, hash) = parse_reverse_member(encoded.as_str());
        let hash = hash.to_owned();
        ReverseMember { generation, hash, encoded }
    }

    /// The same entry once more.
    pub fn copy(&self) -> (r: ReverseMember)
        ensures
            r == *self,
    {
        ReverseMember {
            encoded: self.encoded.clone(),
            generation: self.generation,
            hash: self.hash.clone(),
        }
    }
}

/// The text that records a hash space.
pub open spec fn hash_spec_text(spec: HashSpecView) -> Seq<char> {
    crate::text::decimal(spec.block_size as int) + seq![':'] + (crate::text::decimal(
        spec.algo as int,
    ) + seq![':'] + (crate::text::decimal(spec.version as int) + seq![':'] + spec.namespace))
}

/// Encodes a hash spec into the text that is stored on the worker. It is only
/// compared, never read back, so the namespace, which may hold the separator,
/// stands last.
pub fn encode_hash_spec(spec: &HashSpec) -> (r: String)
    ensures
        r@ == hash_spec_text(spec@),
{
    let mut r = crate::text::decimal_text(spec.block_size as u128);
    proof {
        reveal_strlit(":");
        assert(":"@ =~= seq![':']);
    }
    r.append(":");
    let algo = crate::text::signed_decimal_text(spec.algo as i64);
    r.append(algo.as_str());
    r.append(":");
    crate::text::append_decimal(&mut r, spec.version as u128);
    r.append(":");
    r.append(spec.namespace.as_str());
    assert(r@ =~= hash_spec_text(spec@));
    r
}

/// Two hash spaces are stored as the same text only if they are equal.
pub proof fn hash_spec_encoding_is_injective(a: HashSpecView, b: HashSpecView)
    requires
        hash_spec_text(a) == hash_spec_text(b),
    ensures
        a == b,
{
    let a3 = crate::text::decimal(a.version as int) + seq![':'] + a.namespace;
    let b3 = crate::text::decimal(b.version as int) + seq![':'] + b.namespace;
    let a2 = crate::text::decimal(a.algo as int) + seq![':'] + a3;
    let b2 = crate::text::decimal(b.algo as int) + seq![':'] + b3;
    lemma_numbered_text_is_injective(a.block_size as int, a2, b.block_size as int, b2);
    lemma_numbered_text_is_injective(a.algo as int, a3, b.algo as int, b3);
    lemma_numbered_text_is_injective(
        a.version as int,
        a.namespace,
        b.version as int,
        b.namespace,
    );
}

proof fn lemma_numbered_text_is_injective(
    i: int,
    rest: Seq<char>,
    j: int,
    other: Seq<char>,
)
    requires
        crate::text::decimal(i) + seq![':'] + rest == crate::text::decimal(j) + seq![':'] + other,
    ensures
        i == j,
        rest == other,
{
    crate::text::decimal_characters(i);
    crate::text::decimal_characters(j);
    crate::text::split_undoes_join(crate::text::decimal(i), ':', rest);
    crate::text::split_undoes_join(crate::text::decimal(j), ':', other);
    crate::text::decimal_is_injective(i, j);
}

/// The stored form of a hash space that takes part in spec checking: one that
/// declares its block size.
pub open spec fn checked_spec(spec: Option<HashSpecView>) -> Option<Seq<char>> {
    match spec {
        Some(s) => if s.block_size > 0 {
            Some(hash_spec_text(s))
        } else {
            None
        },
        None => None,
    }
}

/// The model of an optional hash space.
pub open spec fn optional_spec(spec: Option<HashSpec>) -> Option<HashSpecView> {
    match spec {
        Some(s) => Some(s@),
        None => None,
    }
}

/// The stored form of a hash space, `None` when there is nothing to check.
pub fn encode_checked_spec(spec: &Option<HashSpec>) -> (r: Option<String>)
    ensures
        match r {
            Some(text) => checked_spec(optional_spec(*spec)) == Some(text@),
            None => checked_spec(optional_spec(*spec)) is None,
        },
{
    match spec {
        Some(spec) => {
            if spec.block_size > 0 {
                Some(encode_hash_spec(spec))
            } else {
                None
            }
        },
        None => None,
    }
}

} // verus!
