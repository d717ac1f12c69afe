//! Under which names things are stored.
//!
//! A cluster places a key by the part of its name that stands in braces. The
//! keys of one block share that part, so that a script can work on both.

use vstd::prelude::*;
use vstd::string::StringExecFns;

use crate::redis_backend::commands::{Key, KeyView};

verus! {

/// The name of a key behind its namespace.
pub open spec fn name_text(key: KeyView) -> Seq<char> {
    match key {
        KeyView::WorkerMeta(worker) => ":{w:"@ + worker + "}:meta"@,
        KeyView::WorkerBlocks(worker) => ":{w:"@ + worker + "}:blocks"@,
        KeyView::Placement(hash) => ":{h:"@ + hash + "}:placement"@,
        KeyView::Hits(hash) => ":{h:"@ + hash + "}:hits"@,
    }
}

/// The name of a key in a namespace.
pub open spec fn key_text(ns: Seq<char>, key: KeyView) -> Seq<char> {
    ns + name_text(key)
}

/// The name of a key in a namespace.
pub fn key_name(ns: &str, key: &Key) -> (r: String)
    ensures
        r@ == key_text(ns@, key@),
{
    let mut name = ns.to_owned();
    match key {
        Key::WorkerMeta(worker) => {
            name.append(":{w:");
            name.append(worker.as_str());
            name.append("}:meta");
        },
        Key::WorkerBlocks(worker) => {
            name.append(":{w:");
            name.append(worker.as_str());
            name.append("}:blocks");
        },
        Key::Placement(hash) => {
            name.append(":{h:");
            name.append(hash.as_str());
            name.append("}:placement");
        },
        Key::Hits(hash) => {
            name.append(":{h:");
            name.append(hash.as_str());
            name.append("}:hits");
        },
    }
    assert(name@ =~= key_text(ns@, key@));
    name
}

/// Where a character first stands from `from` on; the length where it does not.
pub open spec fn next_at(s: Seq<char>, c: char, from: int) -> int
    decreases s.len() - from,
{
    if from >= s.len() {
        s.len() as int
    } else if s[from] == c {
        from
    } else {
        next_at(s, c, from + 1)
    }
}

/// The part of a name by which a cluster places its key: what stands between
/// the first opening brace and the first closing one behind it. Where nothing
/// does, it is the whole name.
pub open spec fn slot_part(name: Seq<char>) -> Seq<char> {
    let open = next_at(name, '{', 0);
    let close = next_at(name, '}', open + 1);
    if open + 1 < close < name.len() {
        name.subrange(open + 1, close)
    } else {
        name
    }
}

proof fn lemma_next_at(s: Seq<char>, c: char, from: int, at: int)
    requires
        0 <= from <= at < s.len(),
        s[at] == c,
    ensures
        from <= next_at(s, c, from) <= at,
        s[next_at(s, c, from)] == c,
    decreases at - from,
{
    if s[from] != c {
        lemma_next_at(s, c, from + 1, at);
    }
}

proof fn lemma_next_at_in_the_front(a: Seq<char>, b: Seq<char>, c: char, from: int)
    requires
        0 <= from,
        next_at(a, c, from) < a.len(),
    ensures
        next_at(a + b, c, from) == next_at(a, c, from),
    decreases a.len() - from,
{
    if a[from] != c {
        lemma_next_at_in_the_front(a, b, c, from + 1);
    }
}

proof fn lemma_slot_part_of_the_front(front: Seq<char>, rest: Seq<char>)
    requires
        ({
            let open = next_at(front, '{', 0);
            let close = next_at(front, '}', open + 1);
            0 <= open && open + 1 < close < front.len()
        }),
    ensures
        slot_part(front + rest) == slot_part(front),
{
    let open = next_at(front, '{', 0);
    let close = next_at(front, '}', open + 1);
    if open >= front.len() {
        assert(next_at(front, '}', open + 1) == front.len());
    }
    lemma_next_at_in_the_front(front, rest, '{', 0);
    lemma_next_at_in_the_front(front, rest, '}', open + 1);
    assert((front + rest).subrange(open + 1, close) =~= front.subrange(open + 1, close));
}

/// Whether the first brace that a namespace opens is closed at once. Such a
/// namespace leaves a cluster nothing to place its keys by but their whole
/// names.
pub open spec fn opens_empty_braces(ns: Seq<char>) -> bool {
    let open = next_at(ns, '{', 0);
    open + 1 < ns.len() && ns[open + 1] == '}'
}

/// The placement and the hits of a block are placed by the same part of their
/// names, so that they share a slot of a cluster.
pub proof fn keys_of_a_block_share_a_slot(ns: Seq<char>, hash: Seq<char>)
    requires
        !opens_empty_braces(ns),
    ensures
        slot_part(key_text(ns, KeyView::Placement(hash))) == slot_part(
            key_text(ns, KeyView::Hits(hash)),
        ),
{
    reveal_strlit(":{h:");
    reveal_strlit("}:placement");
    reveal_strlit("}:hits");
    let front = ns + ":{h:"@ + hash + seq!['}'];
    let brace = ns.len() as int + 1;
    let last = front.len() - 1;
    assert(front[brace] == '{');
    assert(front[last] == '}');
    lemma_next_at(front, '{', 0, brace);
    let open = next_at(front, '{', 0);
    lemma_next_at(front, '}', open + 1, last);
    if open < ns.len() {
        lemma_next_at(ns, '{', 0, open);
        lemma_next_at_in_the_front(ns, ":{h:"@ + hash + seq!['}'], '{', 0);
        assert(ns + (":{h:"@ + hash + seq!['}']) =~= front);
        if open + 1 < ns.len() {
            assert(front[open + 1] == ns[open + 1]);
        } else {
            assert(front[open + 1] == ':');
        }
    } else {
        assert(open == brace);
        assert(front[open + 1] == 'h');
    }
    assert(front[open + 1] != '}');
    lemma_slot_part_of_the_front(front, ":placement"@);
    lemma_slot_part_of_the_front(front, ":hits"@);
    reveal_strlit(":placement");
    reveal_strlit(":hits");
    assert(front + ":placement"@ =~= key_text(ns, KeyView::Placement(hash)));
    assert(front + ":hits"@ =~= key_text(ns, KeyView::Hits(hash)));
}

/// Within a namespace no two keys have the same name.
pub proof fn keys_have_names_of_their_own(ns: Seq<char>, a: KeyView, b: KeyView)
    requires
        key_text(ns, a) == key_text(ns, b),
    ensures
        a == b,
{
    reveal_strlit(":{w:");
    reveal_strlit(":{h:");
    reveal_strlit("}:meta");
    reveal_strlit("}:blocks");
    reveal_strlit("}:placement");
    reveal_strlit("}:hits");
    let name_a = key_text(ns, a);
    let name_b = key_text(ns, b);
    let n = name_a.len() as int;
    let at = ns.len() as int + 4;
    assert(name_a[n - 1] == name_b[n - 1]);
    assert(name_a[n - 2] == name_b[n - 2]);
    let text_a = key_subject(a);
    let text_b = key_subject(b);
    assert(text_a =~= name_a.subrange(at, at + text_a.len()));
    assert(text_b =~= name_b.subrange(at, at + text_b.len()));
}

/// The worker or the block that a key is about.
pub open spec fn key_subject(key: KeyView) -> Seq<char> {
    match key {
        KeyView::WorkerMeta(worker) => worker,
        KeyView::WorkerBlocks(worker) => worker,
        KeyView::Placement(hash) => hash,
        KeyView::Hits(hash) => hash,
    }
}

} // verus!
