//! How numbers and lists are written and read.

use vstd::prelude::*;

use crate::laws::order::ascends;
use crate::laws::ranking::comes_before;
use crate::text::{
    decimal_text, dedup_preserve_order, first_texts, parse_i64, parse_u64, signed_decimal_text,
    split_list, split_once, text_at_most, trim, white_space,
};

verus! {

/// Numbers are written in base ten, the highest digit first and without leading
/// zeros, negative ones behind a minus sign.
pub proof fn numbers_are_written_in_base_ten(i: int)
    ensures
        0 <= i < 10 ==> crate::text::decimal(i).len() == 1 && crate::text::decimal(i)[0] as int == 48
            + i,
        i >= 10 ==> crate::text::decimal(i).drop_last() == crate::text::decimal(i / 10)
            && crate::text::decimal(i).last() as int == 48 + i % 10,
        i < 0 ==> crate::text::decimal(i).len() > 1 && crate::text::decimal(i)[0] == '-'
            && crate::text::decimal(i).skip(1) == crate::text::decimal(-i),
{
    if i >= 10 {
        assert(crate::text::decimal(i).drop_last() =~= crate::text::decimal(i / 10));
    } else if i < 0 {
        assert(crate::text::decimal(i).skip(1) =~= crate::text::decimal(-i));
        crate::text::decimal_characters(-i);
    }
}

/// An unsigned number is written as what it is.
pub proof fn an_unsigned_number_is_written(n: u128, r: String)
    requires
        call_ensures(decimal_text, (n,), r),
    ensures
        r@ == crate::text::decimal(n as int),
{
}

/// A signed number is written as what it is.
pub proof fn a_signed_number_is_written(i: i64, r: String)
    requires
        call_ensures(signed_decimal_text, (i,), r),
    ensures
        r@ == crate::text::decimal(i as int),
{
}

/// The number that digits write.
proof fn lemma_digits(s: Seq<char>)
    requires
        forall|k: int| 0 <= k < s.len() ==> '0' <= #[trigger] s[k] <= '9',
    ensures
        crate::text::digits_value(s) == s.fold_left(
            0int,
            |value: int, c: char| 10 * value + (c as int - 48),
        ),
    decreases s.len(),
{
    if s.len() > 0 {
        let head = s.drop_last();
        assert forall|k: int| 0 <= k < head.len() implies '0' <= #[trigger] head[k] <= '9' by {
            assert(head[k] == s[k]);
        }
        lemma_digits(head);
        assert('0' <= s[s.len() - 1] <= '9');
    }
}

/// A signed number is read from at least one digit behind an optional sign, where
/// it fits into 64 bits, and from nothing else.
///
/// `digits` is what stands behind the sign, where there is one.
pub proof fn a_signed_number_is_read_from_its_digits(s: &str, digits: Seq<char>, r: Option<i64>)
    requires
        call_ensures(parse_i64, (s,), r),
        (s@.len() > 0 && (s@[0] == '-' || s@[0] == '+')) ==> digits == s@.skip(1),
        !(s@.len() > 0 && (s@[0] == '-' || s@[0] == '+')) ==> digits == s@,
    ensures
        ({
            let size = digits.fold_left(0int, |value: int, c: char| 10 * value + (c as int - 48));
            let value = if s@.len() > 0 && s@[0] == '-' {
                -size
            } else {
                size
            };
            &&& r is Some <==> digits.len() > 0 && (forall|k: int|
                0 <= k < digits.len() ==> '0' <= #[trigger] digits[k] <= '9') && i64::MIN <= value
                <= i64::MAX
            &&& r is Some ==> r->0 == value
        }),
{
    if forall|k: int| 0 <= k < digits.len() ==> '0' <= #[trigger] digits[k] <= '9' {
        lemma_digits(digits);
    }
    assert(crate::text::is_digits(digits) <==> digits.len() > 0 && forall|k: int|
        0 <= k < digits.len() ==> '0' <= #[trigger] digits[k] <= '9');
    if s@.len() > 0 && s@[0] == '+' {
        assert(!crate::text::is_digit(s@[0]));
    }
}

/// An unsigned number is read from at least one digit behind an optional plus
/// sign, where it fits into 64 bits, and from nothing else.
///
/// `digits` is what stands behind the sign, where there is one.
pub proof fn an_unsigned_number_is_read_from_its_digits(s: &str, digits: Seq<char>, r: Option<u64>)
    requires
        call_ensures(parse_u64, (s,), r),
        (s@.len() > 0 && s@[0] == '+') ==> digits == s@.skip(1),
        !(s@.len() > 0 && s@[0] == '+') ==> digits == s@,
    ensures
        ({
            let value = digits.fold_left(0int, |value: int, c: char| 10 * value + (c as int - 48));
            &&& r is Some <==> digits.len() > 0 && (forall|k: int|
                0 <= k < digits.len() ==> '0' <= #[trigger] digits[k] <= '9') && value <= u64::MAX
            &&& r is Some ==> r->0 == value
        }),
{
    if forall|k: int| 0 <= k < digits.len() ==> '0' <= #[trigger] digits[k] <= '9' {
        lemma_digits(digits);
    }
    assert(crate::text::is_digits(digits) <==> digits.len() > 0 && forall|k: int|
        0 <= k < digits.len() ==> '0' <= #[trigger] digits[k] <= '9');
}

/// A text splits at its first separator, and not at all where it has none.
pub proof fn a_text_splits_at_its_first_separator(
    s: &str,
    separator: char,
    r: Option<(&str, &str)>,
)
    requires
        call_ensures(split_once, (s, separator), r),
    ensures
        r is Some <==> s@.contains(separator),
        r is Some ==> s@ == (r->0).0@ + seq![separator] + (r->0).1@ && !(r->0).0@.contains(separator),
{
    s@.index_of_first_ensures(separator);
    if r is Some {
        let i = s@.index_of_first(separator)->0;
        assert(s@ =~= s@.take(i) + seq![separator] + s@.skip(i + 1));
        assert(!s@.take(i).contains(separator));
    }
}

/// Texts are ordered by their first difference.
pub proof fn texts_are_ordered_by_their_first_difference(a: &str, b: &str, r: bool)
    requires
        call_ensures(text_at_most, (a, b), r),
    ensures
        r <==> a@ == b@ || comes_before(a@, b@),
{
    crate::laws::ranking::lemma_text_order(a@, b@);
    if a@ == b@ {
        crate::text::text_order_is_total(a@, b@);
    }
}

/// The first texts of a list are its beginning.
pub proof fn the_first_texts_are_the_beginning(s: &[String], n: usize, r: Vec<String>, i: int)
    requires
        n <= s@.len(),
        call_ensures(first_texts, (s, n), r),
        0 <= i < n,
    ensures
        r@.len() == n,
        r@[i]@ == s@[i]@,
{
}

/// Removing repetitions keeps the first occurrence of each text and the order of
/// the first occurrences. Nothing is lost and nothing is added.
///
/// `at` tells where each text that is kept first stood.
pub proof fn the_first_of_each_is_kept(hashes: &[String], r: Vec<String>) -> (at: Seq<int>)
    requires
        call_ensures(dedup_preserve_order, (hashes,), r),
    ensures
        at.len() == r@.len(),
        ascends(at),
        forall|k: int|
            0 <= k < at.len() ==> 0 <= #[trigger] at[k] < hashes@.len() && r@[k]@
                == hashes@[at[k]]@,
        forall|k: int, j: int|
            #![trigger at[k], hashes@[j]]
            0 <= k < at.len() && 0 <= j < at[k] ==> hashes@[j]@ != r@[k]@,
        forall|j: int|
            #![trigger hashes@[j]]
            0 <= j < hashes@.len() ==> r@.map_values(|t: String| t@).contains(hashes@[j]@),
{
    let all = crate::text::texts(hashes@);
    let kept = crate::text::texts(r@);
    let at = crate::laws::order::lemma_places_of_distinct(all);
    crate::text::distinct_keeps_each_text_once(all);
    assert(kept.len() == r@.len());
    assert(kept =~= r@.map_values(|t: String| t@));
    assert forall|k: int| 0 <= k < at.len() implies 0 <= #[trigger] at[k] < hashes@.len() && r@[k]@
        == hashes@[at[k]]@ by {
        assert(kept[k] == r@[k]@);
        assert(all[at[k]] == hashes@[at[k]]@);
    }
    assert forall|k: int, j: int|
        #![trigger at[k], hashes@[j]]
        0 <= k < at.len() && 0 <= j < at[k] implies hashes@[j]@ != r@[k]@ by {
        assert(all[j] == hashes@[j]@);
        assert(all[j] != all[at[k]]);
        assert(all[at[k]] == kept[k]);
        assert(kept[k] == r@[k]@);
    }
    assert forall|j: int|
        #![trigger hashes@[j]]
        0 <= j < hashes@.len() implies r@.map_values(|t: String| t@).contains(hashes@[j]@) by {
        assert(all[j] == hashes@[j]@);
        assert(all.contains(all[j]));
    }
    at
}

/// White space is what Unicode calls so.
pub proof fn white_space_is_unicodes(c: char, r: bool)
    requires
        call_ensures(white_space, (c,), r),
    ensures
        r <==> ((9 <= c as int <= 13) || c as int == 32 || c as int == 0x85 || c as int == 0xa0
            || c as int == 0x1680 || (0x2000 <= c as int <= 0x200a) || c as int == 0x2028 || c as int
            == 0x2029 || c as int == 0x202f || c as int == 0x205f || c as int == 0x3000),
{
}

proof fn lemma_trim_start(s: Seq<char>) -> (n: int)
    ensures
        0 <= n <= s.len(),
        crate::text::trim_start(s) == s.skip(n),
        forall|k: int| 0 <= k < n ==> crate::text::is_white_space(#[trigger] s[k]),
        n < s.len() ==> !crate::text::is_white_space(s[n]),
    decreases s.len(),
{
    if s.len() > 0 && crate::text::is_white_space(s[0]) {
        let rest = s.skip(1);
        let n = lemma_trim_start(rest);
        assert(rest.skip(n) =~= s.skip(n + 1));
        assert forall|k: int| 0 <= k < n + 1 implies crate::text::is_white_space(
            #[trigger] s[k],
        ) by {
            if k > 0 {
                assert(rest[k - 1] == s[k]);
            }
        }
        n + 1
    } else {
        assert(s.skip(0) =~= s);
        0
    }
}

proof fn lemma_trim_end(s: Seq<char>) -> (n: int)
    ensures
        0 <= n <= s.len(),
        crate::text::trim_end(s) == s.take(n),
        forall|k: int| n <= k < s.len() ==> crate::text::is_white_space(#[trigger] s[k]),
        n > 0 ==> !crate::text::is_white_space(s[n - 1]),
    decreases s.len(),
{
    if s.len() > 0 && crate::text::is_white_space(s.last()) {
        let rest = s.drop_last();
        let n = lemma_trim_end(rest);
        assert(rest.take(n) =~= s.take(n));
        assert forall|k: int| n <= k < s.len() implies crate::text::is_white_space(
            #[trigger] s[k],
        ) by {
            if k < s.len() - 1 {
                assert(rest[k] == s[k]);
            }
        }
        n
    } else {
        assert(s.take(s.len() as int) =~= s);
        s.len() as int
    }
}

/// Trimming takes white space from both ends and nothing else: what is left is a
/// part of the text that neither begins nor ends with white space, and all that
/// was taken is white space.
///
/// `at` tells where what is left begins.
pub proof fn trimming_takes_white_space_from_both_ends(s: &str, r: &str) -> (at: int)
    requires
        call_ensures(trim, (s,), r),
    ensures
        0 <= at <= at + r@.len() <= s@.len(),
        r@ == s@.subrange(at, at + r@.len()),
        forall|k: int, w: bool|
            #![trigger s@[k], call_ensures(white_space, (s@[k],), w)]
            (0 <= k < at || at + r@.len() <= k < s@.len()) && call_ensures(
                white_space,
                (s@[k],),
                w,
            ) ==> w,
        forall|w: bool| #[trigger]
            call_ensures(white_space, (r@[0],), w) && r@.len() > 0 ==> !w,
        forall|w: bool| #[trigger]
            call_ensures(white_space, (r@.last(),), w) && r@.len() > 0 ==> !w,
{
    let at = lemma_trim_start(s@);
    let body = s@.skip(at);
    let n = lemma_trim_end(body);
    assert(r@ == body.take(n));
    assert(r@ =~= s@.subrange(at, at + n));
    assert forall|k: int| 0 <= k < at || at + n <= k < s@.len() implies crate::text::is_white_space(
        #[trigger] s@[k],
    ) by {
        if k >= at {
            assert(body[k - at] == s@[k]);
        }
    }
    if n > 0 {
        assert(r@.last() == body[n - 1]);
        assert(r@[0] == body[0]);
        assert(body[0] == s@[at]);
    }
    at
}

proof fn lemma_pieces_without_separator(s: Seq<char>, separator: char)
    requires
        !s.contains(separator),
    ensures
        crate::text::pieces(s, separator) == seq![s],
    decreases s.len(),
{
    if s.len() == 0 {
        assert(s =~= Seq::<char>::empty());
    } else {
        let head = s.drop_last();
        assert(!head.contains(separator)) by {
            if head.contains(separator) {
                let k = choose|k: int| 0 <= k < head.len() && head[k] == separator;
                assert(s[k] == separator);
            }
        }
        lemma_pieces_without_separator(head, separator);
        assert(s[s.len() - 1] != separator);
        assert(head.push(s.last()) =~= s);
        assert(crate::text::pieces(s, separator) =~= seq![s]);
    }
}

proof fn lemma_pieces_around_separator(a: Seq<char>, separator: char, b: Seq<char>)
    ensures
        crate::text::pieces(a + seq![separator] + b, separator) == crate::text::pieces(a, separator)
            + crate::text::pieces(b, separator),
        crate::text::pieces(a, separator).len() > 0,
        crate::text::pieces(b, separator).len() > 0,
    decreases b.len(),
{
    let s = a + seq![separator] + b;
    lemma_some_piece(a, separator);
    lemma_some_piece(b, separator);
    if b.len() == 0 {
        assert(s.drop_last() =~= a);
        assert(s.last() == separator);
        assert(b =~= Seq::<char>::empty());
        assert(crate::text::pieces(s, separator) =~= crate::text::pieces(a, separator)
            + crate::text::pieces(b, separator));
    } else {
        let head = b.drop_last();
        assert(s.drop_last() =~= a + seq![separator] + head);
        assert(s.last() == b.last());
        lemma_pieces_around_separator(a, separator, head);
        assert(crate::text::pieces(s, separator) =~= crate::text::pieces(a, separator)
            + crate::text::pieces(b, separator));
    }
}

proof fn lemma_some_piece(s: Seq<char>, separator: char)
    ensures
        crate::text::pieces(s, separator).len() > 0,
    decreases s.len(),
{
    if s.len() > 0 {
        lemma_some_piece(s.drop_last(), separator);
    }
}

/// A text without a separator is a list of one, or of none where nothing but
/// white space is in it.
pub proof fn a_text_without_separator_is_one_item(
    s: &str,
    separator: char,
    r: Vec<String>,
    trimmed: &str,
)
    requires
        call_ensures(split_list, (s, separator), r),
        call_ensures(trim, (s,), trimmed),
        !s@.contains(separator),
    ensures
        trimmed@.len() == 0 ==> r@.len() == 0,
        trimmed@.len() > 0 ==> r@.len() == 1 && r@[0]@ == trimmed@,
{
    lemma_pieces_without_separator(s@, separator);
    let nonempty = |p: Seq<char>| p.len() > 0;
    let trimming = |p: Seq<char>| crate::text::trimmed(p);
    let items = seq![s@].map_values(trimming);
    let none = Seq::<Seq<char>>::empty();
    assert(items =~= none.push(trimmed@));
    none.lemma_filter_push(trimmed@, nonempty);
    assert(none.filter(nonempty) =~= none) by {
        reveal(Seq::filter);
    }
    assert(crate::text::texts(r@).len() == r@.len());
    if trimmed@.len() > 0 {
        assert(crate::text::texts(r@)[0] == r@[0]@);
    }
}

/// The items of a list are those before a separator and those behind it.
pub proof fn a_separator_parts_a_list(
    a: &str,
    separator: char,
    b: &str,
    s: &str,
    items_a: Vec<String>,
    items_b: Vec<String>,
    items: Vec<String>,
)
    requires
        s@ == a@ + seq![separator] + b@,
        call_ensures(split_list, (a, separator), items_a),
        call_ensures(split_list, (b, separator), items_b),
        call_ensures(split_list, (s, separator), items),
    ensures
        items@.map_values(|t: String| t@) == items_a@.map_values(|t: String| t@)
            + items_b@.map_values(|t: String| t@),
{
    let nonempty = |p: Seq<char>| p.len() > 0;
    let trimming = |p: Seq<char>| crate::text::trimmed(p);
    lemma_pieces_around_separator(a@, separator, b@);
    let x = crate::text::pieces(a@, separator).map_values(trimming);
    let y = crate::text::pieces(b@, separator).map_values(trimming);
    assert(crate::text::pieces(s@, separator).map_values(trimming) =~= x + y);
    Seq::filter_distributes_over_add(x, y, nonempty);
    assert(items@.map_values(|t: String| t@) =~= crate::text::texts(items@));
    assert(items_a@.map_values(|t: String| t@) =~= crate::text::texts(items_a@));
    assert(items_b@.map_values(|t: String| t@) =~= crate::text::texts(items_b@));
}

} // verus!
