//! Text primitives: decimal numbers, separators, ordering and deduplication.
//!
//! Every function is stated over the characters of its arguments, so callers
//! can reason about stored keys and wire values without looking at bytes.

use vstd::hash_set::StringHashSet;
use vstd::prelude::*;
use vstd::string::{StrSliceExecFns, StringExecFns};

verus! {

/// The character that writes the digit `d`.
pub open spec fn digit_char(d: int) -> char {
    (48 + d) as char
}

/// Whether `c` is one of `0` to `9`.
pub open spec fn is_digit(c: char) -> bool {
    '0' <= c <= '9'
}

/// The value of the digit `c`.
pub open spec fn digit_value(c: char) -> nat {
    (c as int - 48) as nat
}

/// The decimal form of a natural number, without leading zeros.
pub open spec fn decimal_nat(n: nat) -> Seq<char>
    decreases n,
{
    if n < 10 {
        seq![digit_char(n as int)]
    } else {
        decimal_nat(n / 10).push(digit_char((n % 10) as int))
    }
}

/// The decimal form of an integer.
pub open spec fn decimal(i: int) -> Seq<char> {
    if i < 0 {
        seq!['-'] + decimal_nat((-i) as nat)
    } else {
        decimal_nat(i as nat)
    }
}

/// The number that a run of digits writes.
pub open spec fn digits_value(s: Seq<char>) -> nat
    decreases s.len(),
{
    if s.len() == 0 {
        0
    } else {
        10 * digits_value(s.drop_last()) + digit_value(s.last())
    }
}

/// Whether `s` is a nonempty run of digits.
pub open spec fn is_digits(s: Seq<char>) -> bool {
    &&& s.len() > 0
    &&& forall|i: int| 0 <= i < s.len() ==> is_digit(#[trigger] s[i])
}

/// The integer that `s` writes: digits behind an optional sign. `None` for
/// anything else.
pub open spec fn parsed_int(s: Seq<char>) -> Option<int> {
    if s.len() > 0 && s[0] == '-' {
        if is_digits(s.skip(1)) {
            Some(-(digits_value(s.skip(1)) as int))
        } else {
            None
        }
    } else {
        match parsed_nat(s) {
            Some(n) => Some(n as int),
            None => None,
        }
    }
}

/// The natural number that `s` writes: digits behind an optional `+`. `None`
/// for anything else.
pub open spec fn parsed_nat(s: Seq<char>) -> Option<nat> {
    if s.len() > 0 && s[0] == '+' {
        if is_digits(s.skip(1)) {
            Some(digits_value(s.skip(1)))
        } else {
            None
        }
    } else if is_digits(s) {
        Some(digits_value(s))
    } else {
        None
    }
}

/// The `i64` that `s` writes, `None` when it writes none or one out of range.
pub open spec fn parsed_i64(s: Seq<char>) -> Option<i64> {
    match parsed_int(s) {
        Some(v) => if i64::MIN <= v <= i64::MAX {
            Some(v as i64)
        } else {
            None
        },
        None => None,
    }
}

/// The `u64` that `s` writes, `None` when it writes none or one out of range.
pub open spec fn parsed_u64(s: Seq<char>) -> Option<u64> {
    match parsed_nat(s) {
        Some(v) => if v <= u64::MAX {
            Some(v as u64)
        } else {
            None
        },
        None => None,
    }
}

/// The texts of a sequence of strings.
pub open spec fn texts(s: Seq<String>) -> Seq<Seq<char>> {
    s.map_values(|t: String| t@)
}

proof fn lemma_decimal_nat_digits(n: nat)
    ensures
        is_digits(decimal_nat(n)),
        digits_value(decimal_nat(n)) == n,
    decreases n,
{
    if n < 10 {
        assert(decimal_nat(n).drop_last() =~= Seq::<char>::empty());
        assert(digits_value(decimal_nat(n).drop_last()) == 0);
    } else {
        lemma_decimal_nat_digits(n / 10);
        let head = decimal_nat(n / 10);
        let s = decimal_nat(n);
        assert(s.drop_last() =~= head);
        assert forall|i: int| 0 <= i < s.len() implies is_digit(#[trigger] s[i]) by {
            if i < head.len() {
                assert(s[i] == head[i]);
            }
        }
    }
}

/// Reading a decimal form gives back the number that was written.
pub proof fn decimal_round_trips(i: int)
    ensures
        parsed_int(decimal(i)) == Some(i),
        i >= 0 ==> parsed_nat(decimal(i)) == Some(i as nat),
{
    if i < 0 {
        lemma_decimal_nat_digits((-i) as nat);
        assert(decimal(i).skip(1) =~= decimal_nat((-i) as nat));
    } else {
        lemma_decimal_nat_digits(i as nat);
        let s = decimal(i);
        assert(is_digit(s[0]));
    }
}

/// Two numbers with the same decimal form are equal.
pub proof fn decimal_is_injective(a: int, b: int)
    requires
        decimal(a) == decimal(b),
    ensures
        a == b,
{
    decimal_round_trips(a);
    decimal_round_trips(b);
}

/// A decimal form holds digits and at most a leading minus sign.
pub proof fn decimal_characters(i: int)
    ensures
        decimal(i).len() > 0,
        forall|k: int|
            0 <= k < decimal(i).len() ==> is_digit(#[trigger] decimal(i)[k]) || decimal(i)[k]
                == '-',
{
    if i < 0 {
        let d = decimal_nat((-i) as nat);
        lemma_decimal_nat_digits((-i) as nat);
        assert forall|k: int| 0 <= k < decimal(i).len() implies is_digit(#[trigger] decimal(i)[k])
            || decimal(i)[k] == '-' by {
            if k > 0 {
                assert(decimal(i)[k] == d[k - 1]);
            }
        }
    } else {
        lemma_decimal_nat_digits(i as nat);
    }
}

/// The literal that writes one digit.
fn digit_text(d: u8) -> (r: &'static str)
    requires
        d < 10,
    ensures
        r@ == seq![digit_char(d as int)],
{
    proof {
        reveal_strlit("0");
        reveal_strlit("1");
        reveal_strlit("2");
        reveal_strlit("3");
        reveal_strlit("4");
        reveal_strlit("5");
        reveal_strlit("6");
        reveal_strlit("7");
        reveal_strlit("8");
        reveal_strlit("9");
    }
    let r = match d {
        0 => "0",
        1 => "1",
        2 => "2",
        3 => "3",
        4 => "4",
        5 => "5",
        6 => "6",
        7 => "7",
        8 => "8",
        _ => "9",
    };
    assert(r@ =~= seq![digit_char(d as int)]);
    r
}

/// Appends the decimal form of `n` to `out`.
pub fn append_decimal(out: &mut String, n: u128)
    ensures
        final(out)@ == old(out)@ + decimal(n as int),
    decreases n,
{
    if n >= 10 {
        append_decimal(out, n / 10);
    }
    out.append(digit_text((n % 10) as u8));
    proof {
        if n >= 10 {
            assert(old(out)@ + decimal((n / 10) as int) + seq![digit_char((n % 10) as int)]
                =~= old(out)@ + decimal(n as int));
        } else {
            assert(decimal(n as int) =~= seq![digit_char(n as int)]);
        }
    }
}

/// The decimal form of an unsigned number.
pub fn decimal_text(n: u128) -> (r: String)
    ensures
        r@ == decimal(n as int),
{
    let mut out = String::new();
    append_decimal(&mut out, n);
    assert(out@ =~= decimal(n as int));
    out
}

/// The decimal form of a signed number.
pub fn signed_decimal_text(i: i64) -> (r: String)
    ensures
        r@ == decimal(i as int),
{
    let mut out = String::new();
    if i < 0 {
        proof {
            reveal_strlit("-");
        }
        out.append("-");
        let magnitude: u128 = (-(i as i128)) as u128;
        append_decimal(&mut out, magnitude);
        assert(out@ =~= decimal(i as int));
    } else {
        append_decimal(&mut out, i as u128);
        assert(out@ =~= decimal(i as int));
    }
    out
}

/// The characters of `s`, in order.
pub fn chars_of(s: &str) -> (r: Vec<char>)
    ensures
        r@ == s@,
{
    let mut r: Vec<char> = Vec::new();
    for c in it: s.chars()
        invariant
            it.seq() == s@,
            r@ == s@.take(it.index() as int),
    {
        r.push(c);
        assert(s@.take(it.index() + 1) =~= s@.take(it.index() as int).push(c));
    }
    assert(r@ =~= s@);
    r
}

proof fn lemma_digits_value_grows(s: Seq<char>, k: int)
    requires
        0 <= k <= s.len(),
    ensures
        digits_value(s.take(k)) <= digits_value(s),
    decreases s.len() - k,
{
    if k == s.len() {
        assert(s.take(k) =~= s);
    } else {
        lemma_digits_value_grows(s, k + 1);
        assert(s.take(k + 1).drop_last() =~= s.take(k));
    }
}

/// Reads the digits from `from` on. Values above `u64::MAX` are reported as
/// out of range rather than as a number.
fn read_digits(chars: &Vec<char>, from: usize) -> (r: Option<u128>)
    requires
        from <= chars@.len(),
    ensures
        match r {
            Some(v) => is_digits(chars@.skip(from as int)) && v == digits_value(
                chars@.skip(from as int),
            ) && v <= u64::MAX,
            None => !is_digits(chars@.skip(from as int)) || digits_value(chars@.skip(from as int))
                > u64::MAX,
        },
{
    let ghost s = chars@.skip(from as int);
    if from == chars.len() {
        return None;
    }
    let mut value: u128 = 0;
    let mut over: bool = false;
    let mut i: usize = from;
    while i < chars.len()
        invariant
            from <= i <= chars@.len(),
            s == chars@.skip(from as int),
            forall|k: int| 0 <= k < i - from ==> is_digit(#[trigger] s[k]),
            over ==> digits_value(s) > u64::MAX,
            !over ==> value == digits_value(s.take(i - from)) && value <= u64::MAX,
        decreases chars@.len() - i,
    {
        let c = chars[i];
        if !('0' <= c && c <= '9') {
            assert(s[i - from] == c);
            return None;
        }
        assert(s.take(i - from + 1).drop_last() =~= s.take(i - from));
        assert(s.take(i - from + 1).last() == c);
        if !over {
            value = value * 10 + (c as u32 - 48) as u128;
            if value > u64::MAX as u128 {
                over = true;
                proof {
                    lemma_digits_value_grows(s, i - from + 1);
                }
            }
        }
        i = i + 1;
    }
    assert(s.take(i - from) =~= s);
    if over {
        None
    } else {
        Some(value)
    }
}

/// Reads an `i64`: decimal digits behind an optional sign.
pub fn parse_i64(s: &str) -> (r: Option<i64>)
    ensures
        r == parsed_i64(s@),
{
    let chars = chars_of(s);
    if chars.len() == 0 {
        return None;
    }
    let negative = chars[0] == '-';
    let from: usize = if negative || chars[0] == '+' {
        1
    } else {
        0
    };
    assert(s@.skip(0) =~= s@);
    match read_digits(&chars, from) {
        Some(magnitude) => {
            if negative {
                if magnitude <= 0x8000_0000_0000_0000 {
                    Some((-(magnitude as i128)) as i64)
                } else {
                    None
                }
            } else if magnitude <= i64::MAX as u128 {
                Some(magnitude as i64)
            } else {
                None
            }
        },
        None => None,
    }
}

/// Reads a `u64`: decimal digits behind an optional `+`.
pub fn parse_u64(s: &str) -> (r: Option<u64>)
    ensures
        r == parsed_u64(s@),
{
    let chars = chars_of(s);
    if chars.len() == 0 {
        return None;
    }
    let from: usize = if chars[0] == '+' {
        1
    } else {
        0
    };
    assert(s@.skip(0) =~= s@);
    match read_digits(&chars, from) {
        Some(value) => Some(value as u64),
        None => None,
    }
}

/// Whether two texts are equal.
pub fn same_text(a: &str, b: &str) -> (r: bool)
    ensures
        r == (a@ == b@),
{
    let left = a.as_bytes();
    let right = b.as_bytes();
    if left.len() != right.len() {
        return false;
    }
    let mut i: usize = 0;
    while i < left.len()
        invariant
            i <= left@.len(),
            left@.len() == right@.len(),
            left@ == vstd::utf8::encode_utf8(a@),
            right@ == vstd::utf8::encode_utf8(b@),
            forall|k: int| 0 <= k < i ==> left@[k] == right@[k],
        decreases left@.len() - i,
    {
        if left[i] != right[i] {
            return false;
        }
        i = i + 1;
    }
    assert(left@ =~= right@);
    proof {
        vstd::utf8::encode_utf8_decode_utf8(a@);
        vstd::utf8::encode_utf8_decode_utf8(b@);
    }
    true
}

/// The parts of `s` before and behind its first `separator`.
pub open spec fn split_parts(s: Seq<char>, separator: char) -> Option<(Seq<char>, Seq<char>)> {
    match s.index_of_first(separator) {
        Some(i) => Some((s.take(i), s.skip(i + 1))),
        None => None,
    }
}

/// Text put together around a separator that its head does not hold splits
/// into the same two parts.
pub proof fn split_undoes_join(head: Seq<char>, separator: char, tail: Seq<char>)
    requires
        !head.contains(separator),
    ensures
        split_parts(head + seq![separator] + tail, separator) == Some((head, tail)),
{
    let s = head + seq![separator] + tail;
    s.index_of_first_ensures(separator);
    assert(s[head.len() as int] == separator);
    let i = s.index_of_first(separator).unwrap();
    if i < head.len() {
        assert(s[i] == head[i]);
    }
    assert(s.take(i) =~= head);
    assert(s.skip(i + 1) =~= tail);
}

/// Splits `s` at its first `separator`.
pub fn split_once<'a>(s: &'a str, separator: char) -> (r: Option<(&'a str, &'a str)>)
    ensures
        match (r, split_parts(s@, separator)) {
            (Some((head, tail)), Some((h, t))) => head@ == h && tail@ == t,
            (None, None) => true,
            _ => false,
        },
{
    let chars = chars_of(s);
    proof {
        s@.index_of_first_ensures(separator);
    }
    let mut i: usize = 0;
    while i < chars.len()
        invariant
            i <= chars@.len(),
            chars@ == s@,
            forall|k: int| 0 <= k < i ==> s@[k] != separator,
        decreases chars@.len() - i,
    {
        if chars[i] == separator {
            let head = s.substring_char(0, i);
            let tail = s.substring_char(i + 1, chars.len());
            proof {
                s@.index_of_first_ensures(separator);
                assert(s@.subrange(0, i as int) =~= s@.take(i as int));
                assert(s@.subrange(i + 1, s@.len() as int) =~= s@.skip(i + 1));
            }
            return Some((head, tail));
        }
        i = i + 1;
    }
    proof {
        s@.index_of_first_ensures(separator);
    }
    None
}

/// Whether `a` stands before or at `b` in character order, the order in which
/// their UTF-8 bytes compare.
pub open spec fn text_le(a: Seq<char>, b: Seq<char>) -> bool
    decreases a.len(),
{
    ||| a.len() == 0
    ||| b.len() > 0 && (a[0] < b[0] || (a[0] == b[0] && text_le(a.skip(1), b.skip(1))))
}

/// Any two texts are ordered one way or the other.
pub proof fn text_order_is_total(a: Seq<char>, b: Seq<char>)
    ensures
        text_le(a, b) || text_le(b, a),
    decreases a.len(),
{
    if a.len() > 0 && b.len() > 0 && a[0] == b[0] {
        text_order_is_total(a.skip(1), b.skip(1));
    }
}

/// The text order is transitive.
pub proof fn text_order_is_transitive(a: Seq<char>, b: Seq<char>, c: Seq<char>)
    requires
        text_le(a, b),
        text_le(b, c),
    ensures
        text_le(a, c),
    decreases a.len(),
{
    if a.len() > 0 && a[0] == b[0] && b[0] == c[0] {
        text_order_is_transitive(a.skip(1), b.skip(1), c.skip(1));
    }
}

/// Texts that are ordered both ways are equal.
pub proof fn text_order_is_antisymmetric(a: Seq<char>, b: Seq<char>)
    requires
        text_le(a, b),
        text_le(b, a),
    ensures
        a == b,
    decreases a.len(),
{
    if a.len() > 0 {
        text_order_is_antisymmetric(a.skip(1), b.skip(1));
        assert(a =~= seq![a[0]] + a.skip(1));
        assert(b =~= seq![b[0]] + b.skip(1));
    } else {
        assert(a =~= b);
    }
}

/// Whether `a` stands before or at `b` in character order.
pub fn text_at_most(a: &str, b: &str) -> (r: bool)
    ensures
        r == text_le(a@, b@),
{
    let left = chars_of(a);
    let right = chars_of(b);
    let mut i: usize = 0;
    assert(a@.skip(0) =~= a@);
    assert(b@.skip(0) =~= b@);
    while i < left.len()
        invariant
            i <= left@.len(),
            i <= right@.len(),
            left@ == a@,
            right@ == b@,
            text_le(a@, b@) == text_le(a@.skip(i as int), b@.skip(i as int)),
        decreases left@.len() - i,
    {
        if i >= right.len() {
            return false;
        }
        if left[i] < right[i] {
            return true;
        }
        if left[i] != right[i] {
            return false;
        }
        assert(a@.skip(i as int).skip(1) =~= a@.skip(i + 1));
        assert(b@.skip(i as int).skip(1) =~= b@.skip(i + 1));
        i = i + 1;
    }
    true
}

/// Copies the first `n` texts.
pub fn first_texts(s: &[String], n: usize) -> (r: Vec<String>)
    requires
        n <= s@.len(),
    ensures
        r@ == s@.take(n as int),
{
    let mut r: Vec<String> = Vec::new();
    let mut i: usize = 0;
    while i < n
        invariant
            i <= n <= s@.len(),
            r@ == s@.take(i as int),
        decreases n - i,
    {
        r.push(s[i].clone());
        assert(s@.take(i + 1) =~= s@.take(i as int).push(s@[i as int]));
        i = i + 1;
    }
    r
}

/// The first occurrence of each text, in order.
pub open spec fn distinct(s: Seq<Seq<char>>) -> Seq<Seq<char>>
    decreases s.len(),
{
    if s.len() == 0 {
        Seq::empty()
    } else if s.drop_last().contains(s.last()) {
        distinct(s.drop_last())
    } else {
        distinct(s.drop_last()).push(s.last())
    }
}

/// Deduplication loses no text, adds none and repeats none.
pub proof fn distinct_keeps_each_text_once(s: Seq<Seq<char>>)
    ensures
        distinct(s).no_duplicates(),
        distinct(s).len() <= s.len(),
        forall|t: Seq<char>| #[trigger] distinct(s).contains(t) <==> s.contains(t),
    decreases s.len(),
{
    if s.len() > 0 {
        let head = s.drop_last();
        distinct_keeps_each_text_once(head);
        let d = distinct(head);
        let last = s.last();
        assert forall|t: Seq<char>| #[trigger] distinct(s).contains(t) <==> s.contains(t) by {
            assert(d.contains(t) <==> head.contains(t));
            if s.contains(t) {
                let k = choose|k: int| 0 <= k < s.len() && s[k] == t;
                if k < head.len() {
                    assert(head[k] == t);
                }
                assert(head.contains(t) || t == last);
            }
            if head.contains(t) {
                let k = choose|k: int| 0 <= k < head.len() && head[k] == t;
                assert(s[k] == t);
            }
            if t == last {
                assert(s[s.len() - 1] == t);
            }
            if !head.contains(last) {
                let e = d.push(last);
                if d.contains(t) {
                    let k = choose|k: int| 0 <= k < d.len() && d[k] == t;
                    assert(e[k] == t);
                }
                if t == last {
                    assert(e[d.len() as int] == t);
                }
                if e.contains(t) {
                    let k = choose|k: int| 0 <= k < e.len() && e[k] == t;
                    if k < d.len() {
                        assert(d[k] == t);
                    }
                }
            }
        }
        if !head.contains(last) {
            assert(!d.contains(last));
            assert forall|i: int, j: int|
                0 <= i < d.push(last).len() && 0 <= j < d.push(last).len() && i
                    != j implies d.push(last)[i] != d.push(last)[j] by {
                if i < d.len() && j < d.len() {
                    assert(d[i] != d[j]);
                } else if i < d.len() {
                    assert(d[i] != last);
                } else if j < d.len() {
                    assert(d[j] != last);
                }
            }
        }
    }
}

/// Keeps the first occurrence of each hash.
pub fn dedup_preserve_order(hashes: &[String]) -> (r: Vec<String>)
    ensures
        texts(r@) == distinct(texts(hashes@)),
{
    let mut seen = StringHashSet::new();
    let mut r: Vec<String> = Vec::new();
    let mut i: usize = 0;
    let ghost all = texts(hashes@);
    while i < hashes.len()
        invariant
            i <= hashes@.len(),
            all == texts(hashes@),
            texts(r@) == distinct(all.take(i as int)),
            forall|t: Seq<char>| #[trigger] seen@.contains(t) <==> all.take(i as int).contains(t),
        decreases hashes@.len() - i,
    {
        let ghost before = all.take(i as int);
        let ghost after = all.take(i + 1);
        let ghost kept = r@;
        let ghost seen_before = seen@;
        assert(after.drop_last() =~= before);
        assert(after.last() == hashes@[i as int]@);
        if seen.insert(hashes[i].clone()) {
            r.push(hashes[i].clone());
            assert(texts(r@) =~= texts(kept).push(hashes@[i as int]@));
        }
        assert forall|t: Seq<char>| #[trigger] seen@.contains(t) <==> after.contains(t) by {
            assert(seen_before.contains(t) <==> before.contains(t));
            if before.contains(t) {
                let k = choose|k: int| 0 <= k < before.len() && before[k] == t;
                assert(after[k] == t);
            }
            if t == after.last() {
                assert(after[i as int] == t);
            }
            if after.contains(t) {
                let k = choose|k: int| 0 <= k < after.len() && after[k] == t;
                if k < i {
                    assert(before[k] == t);
                }
            }
        }
        i = i + 1;
    }
    assert(all.take(i as int) =~= all);
    r
}

/// Whether `c` has Unicode's `White_Space` property.
pub open spec fn is_white_space(c: char) -> bool {
    ||| '\u{9}' <= c <= '\u{d}'
    ||| c == ' '
    ||| c == '\u{85}'
    ||| c == '\u{a0}'
    ||| c == '\u{1680}'
    ||| '\u{2000}' <= c <= '\u{200a}'
    ||| c == '\u{2028}'
    ||| c == '\u{2029}'
    ||| c == '\u{202f}'
    ||| c == '\u{205f}'
    ||| c == '\u{3000}'
}

/// Whether `c` is white space.
pub fn white_space(c: char) -> (r: bool)
    ensures
        r == is_white_space(c),
{
    ('\u{9}' <= c && c <= '\u{d}') || c == ' ' || c == '\u{85}' || c == '\u{a0}' || c == '\u{1680}'
        || ('\u{2000}' <= c && c <= '\u{200a}') || c == '\u{2028}' || c == '\u{2029}' || c
        == '\u{202f}' || c == '\u{205f}' || c == '\u{3000}'
}

/// `s` without leading white space.
pub open spec fn trim_start(s: Seq<char>) -> Seq<char>
    decreases s.len(),
{
    if s.len() > 0 && is_white_space(s[0]) {
        trim_start(s.skip(1))
    } else {
        s
    }
}

/// `s` without trailing white space.
pub open spec fn trim_end(s: Seq<char>) -> Seq<char>
    decreases s.len(),
{
    if s.len() > 0 && is_white_space(s.last()) {
        trim_end(s.drop_last())
    } else {
        s
    }
}

/// `s` without leading and trailing white space.
pub open spec fn trimmed(s: Seq<char>) -> Seq<char> {
    trim_end(trim_start(s))
}

/// Removes leading and trailing white space.
pub fn trim<'a>(s: &'a str) -> (r: &'a str)
    ensures
        r@ == trimmed(s@),
{
    let chars = chars_of(s);
    let mut start: usize = 0;
    assert(s@.skip(0) =~= s@);
    while start < chars.len() && white_space(chars[start])
        invariant
            start <= chars@.len(),
            chars@ == s@,
            trim_start(s@) == trim_start(s@.skip(start as int)),
        decreases chars@.len() - start,
    {
        assert(s@.skip(start as int).skip(1) =~= s@.skip(start + 1));
        start = start + 1;
    }
    let ghost body = s@.skip(start as int);
    assert(trim_start(s@) == body);
    let mut end: usize = chars.len();
    assert(s@.subrange(start as int, end as int) =~= body);
    while end > start && white_space(chars[end - 1])
        invariant
            start <= end <= chars@.len(),
            chars@ == s@,
            trim_end(body) == trim_end(s@.subrange(start as int, end as int)),
        decreases end,
    {
        assert(s@.subrange(start as int, end as int).drop_last() =~= s@.subrange(
            start as int,
            end - 1,
        ));
        end = end - 1;
    }
    assert(trim_end(body) == s@.subrange(start as int, end as int));
    s.substring_char(start, end)
}

/// The pieces of `s` between its separators.
pub open spec fn pieces(s: Seq<char>, separator: char) -> Seq<Seq<char>>
    decreases s.len(),
{
    if s.len() == 0 {
        seq![Seq::empty()]
    } else {
        let before = pieces(s.drop_last(), separator);
        if s.last() == separator {
            before.push(Seq::empty())
        } else {
            before.drop_last().push(before.last().push(s.last()))
        }
    }
}

/// The nonempty pieces of a list, trimmed.
pub open spec fn list_items(s: Seq<char>, separator: char) -> Seq<Seq<char>> {
    pieces(s, separator).map_values(|p: Seq<char>| trimmed(p)).filter(|p: Seq<char>| p.len() > 0)
}

/// Splits `s` at every separator, trims the pieces and drops the empty ones.
pub fn split_list(s: &str, separator: char) -> (r: Vec<String>)
    ensures
        texts(r@) == list_items(s@, separator),
{
    let chars = chars_of(s);
    let mut r: Vec<String> = Vec::new();
    let mut start: usize = 0;
    let mut i: usize = 0;
    let ghost nonempty = |p: Seq<char>| p.len() > 0;
    let ghost trimming = |p: Seq<char>| trimmed(p);
    assert(s@.take(0) =~= Seq::<char>::empty());
    assert(s@.subrange(0, 0) =~= Seq::<char>::empty());
    proof {
        reveal_with_fuel(Seq::filter, 2);
        assert(pieces(s@.take(0), separator).drop_last().map_values(trimming) =~= Seq::<
            Seq<char>,
        >::empty());
    }
    assert(texts(r@) =~= Seq::<Seq<char>>::empty());
    while i < chars.len()
        invariant
            start <= i <= chars@.len(),
            chars@ == s@,
            nonempty == (|p: Seq<char>| p.len() > 0),
            trimming == (|p: Seq<char>| trimmed(p)),
            pieces(s@.take(i as int), separator).len() > 0,
            pieces(s@.take(i as int), separator).last() == s@.subrange(start as int, i as int),
            texts(r@) == pieces(s@.take(i as int), separator).drop_last().map_values(
                trimming,
            ).filter(nonempty),
        decreases chars@.len() - i,
    {
        let ghost before = pieces(s@.take(i as int), separator);
        let ghost after = pieces(s@.take(i + 1), separator);
        assert(s@.take(i + 1).drop_last() =~= s@.take(i as int));
        if chars[i] == separator {
            let ghost kept = r@;
            let piece = trim(s.substring_char(start, i));
            proof {
                assert(after.drop_last() =~= before);
                assert(before.map_values(trimming) =~= before.drop_last().map_values(
                    trimming,
                ).push(piece@));
                before.drop_last().map_values(trimming).lemma_filter_push(piece@, nonempty);
            }
            if !piece.is_empty() {
                r.push(piece.to_owned());
                assert(texts(r@) =~= texts(kept).push(piece@));
            }
            start = i + 1;
            assert(s@.subrange(start as int, i + 1) =~= Seq::<char>::empty());
        } else {
            assert(after.drop_last() =~= before.drop_last());
            assert(s@.subrange(start as int, i + 1) =~= s@.subrange(start as int, i as int).push(
                s@[i as int],
            ));
        }
        i = i + 1;
    }
    let ghost all = pieces(s@, separator);
    let ghost kept = r@;
    assert(s@.take(i as int) =~= s@);
    let piece = trim(s.substring_char(start, chars.len()));
    proof {
        assert(all.map_values(trimming) =~= all.drop_last().map_values(trimming).push(piece@));
        all.drop_last().map_values(trimming).lemma_filter_push(piece@, nonempty);
    }
    if !piece.is_empty() {
        r.push(piece.to_owned());
        assert(texts(r@) =~= texts(kept).push(piece@));
    }
    r
}

} // verus!
