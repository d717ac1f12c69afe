//! The routing side of the prefix index.
//!
//! A router asks the index which worker already holds a request's prefix. The
//! answer is advice: a router that cannot reach the index must still route. So
//! a query ends in a [`PrefixIndexOutcome`], which has no error: every failure
//! is a reason why there is no signal, and the router falls back to what it
//! would do without an index.
//!
//! A query runs on a routing hot path. Repeated outages trip a breaker, and an
//! open breaker answers without reaching for the index.

use std::time::Duration;
use vstd::prelude::*;

use crate::pb::{
    HashAlgorithm, HashSpec, HashSpecView, MatchExternalKvPrefixRequest,
    MatchExternalKvPrefixResponse, PrefixMatchView, PrefixResponseView, TierType,
};
use crate::status::Code;
use crate::validate::MAX_HASHES_PER_REQUEST;

verus! {

/// Budget of a query, in milliseconds. A routing query that takes longer has
/// cost more than the cache hit it was looking for.
pub const DEFAULT_QUERY_TIMEOUT_MS: u64 = 10;

/// How long a connection may take to come up, in seconds.
pub const DEFAULT_CONNECT_TIMEOUT_SECS: u64 = 1;

/// Consecutive outages before the breaker opens.
pub const DEFAULT_BREAKER_THRESHOLD: u32 = 5;

/// How long the breaker stays open, in seconds.
pub const DEFAULT_BREAKER_COOLDOWN_SECS: u64 = 5;

/// How often a lasting hash-space disagreement is reported, in seconds.
pub const SPEC_MISMATCH_LOG_INTERVAL_SECS: u64 = 60;

/// Writes a block hash the way it is published and stored.
pub fn hash_to_wire(hash: i64) -> (r: String)
    ensures
        r@ == crate::text::decimal(hash as int),
{
    crate::text::signed_decimal_text(hash)
}

/// What a text reads as: the hash that is written as this very text, `None`
/// where none is.
pub open spec fn reads_as(wire: Seq<char>, r: Option<i64>) -> bool {
    match r {
        Some(hash) => wire == crate::text::decimal(hash as int),
        None => forall|hash: i64| wire != #[trigger] crate::text::decimal(hash as int),
    }
}

/// Reads a block hash; `None` for a text that no block hash is written as.
pub fn hash_from_wire(wire: &str) -> (r: Option<i64>)
    ensures
        reads_as(wire@, r),
{
    proof {
        assert forall|hash: i64| wire@ == #[trigger] crate::text::decimal(
            hash as int,
        ) implies crate::text::parsed_i64(wire@) == Some(hash) by {
            crate::text::decimal_round_trips(hash as int);
        }
    }
    match crate::text::parse_i64(wire) {
        Some(hash) => if crate::text::same_text(wire, hash_to_wire(hash).as_str()) {
            Some(hash)
        } else {
            None
        },
        None => None,
    }
}

/// Every block hash reads back as it was written, and as nothing else.
pub proof fn hash_round_trips(hash: i64, r: Option<i64>)
    ensures
        reads_as(crate::text::decimal(hash as int), r) <==> r == Some(hash),
{
    if let Some(read) = r {
        if reads_as(crate::text::decimal(hash as int), r) {
            crate::text::decimal_is_injective(hash as int, read as int);
        }
    }
}

/// Different block hashes are written differently.
pub proof fn wire_form_is_injective(a: i64, b: i64)
    requires
        crate::text::decimal(a as int) == crate::text::decimal(b as int),
    ensures
        a == b,
{
    crate::text::decimal_is_injective(a as int, b as int);
}

impl HashSpec {
    /// The hash space of block hashing at a worker's page size. `bigram` is true
    /// for models that hash over overlapping token pairs.
    pub fn sglang(block_size: u32, bigram: bool) -> (r: HashSpec)
        ensures
            r@ == (HashSpecView {
                block_size,
                algo: if bigram {
                    HashAlgorithm::HashAlgoSha256ChainBigram.wire_number()
                } else {
                    HashAlgorithm::HashAlgoSha256ChainUnigram.wire_number()
                },
                version: 0,
                namespace: Seq::empty(),
            }),
    {
        let algo = if bigram {
            HashAlgorithm::HashAlgoSha256ChainBigram
        } else {
            HashAlgorithm::HashAlgoSha256ChainUnigram
        };
        let namespace = String::new();
        assert(namespace@ =~= Seq::<char>::empty());
        HashSpec { block_size, algo: algo.number(), version: 0, namespace }
    }
}

/// A routing query: the request's block hashes in order, and the hash space in
/// which they were computed.
#[derive(Debug, Clone, PartialEq, Eq)]
pub struct PrefixQuery {
    /// The first of them is that of the request's first block.
    pub hashes: Vec<i64>,
    pub spec: HashSpec,
    /// Stop after this many blocks; 0 means all of them.
    pub max_blocks: u32,
    /// Return at most this many workers; 0 means all of them.
    pub top_k: u32,
    pub count_as_hit: bool,
}

impl PrefixQuery {
    /// A query without limits that counts no hit.
    pub fn new(hashes: Vec<i64>, spec: HashSpec) -> (r: PrefixQuery)
        ensures
            r.hashes == hashes,
            r.spec == spec,
            r.max_blocks == 0,
            r.top_k == 0,
            !r.count_as_hit,
    {
        PrefixQuery { hashes, spec, max_blocks: 0, top_k: 0, count_as_hit: false }
    }
}

/// One worker's reusable prefix.
#[derive(Debug, Clone, PartialEq, Eq)]
pub struct PrefixMatch {
    pub worker_id: String,
    /// The worker's routing identity. A router compares it with its own worker
    /// URLs, so the two must agree byte for byte.
    pub address: String,
    pub dp_rank: u32,
    /// How many leading blocks of the query the worker holds.
    pub matched_prefix_blocks: u32,
    pub tiers: Vec<TierType>,
}

/// The model of a [`PrefixMatch`].
pub struct RoutedMatchView {
    pub worker_id: Seq<char>,
    pub address: Seq<char>,
    pub dp_rank: u32,
    pub matched_prefix_blocks: u32,
    pub tiers: Seq<TierType>,
}

impl View for PrefixMatch {
    type V = RoutedMatchView;

    open spec fn view(&self) -> RoutedMatchView {
        RoutedMatchView {
            worker_id: self.worker_id@,
            address: self.address@,
            dp_rank: self.dp_rank,
            matched_prefix_blocks: self.matched_prefix_blocks,
            tiers: self.tiers@,
        }
    }
}

/// The models of several matches.
pub open spec fn routed_matches(s: Seq<PrefixMatch>) -> Seq<RoutedMatchView> {
    s.map_values(|m: PrefixMatch| m@)
}

/// Why a query gave no signal.
#[derive(Debug, Clone, Copy, PartialEq, Eq, Structural)]
pub enum NoSignalReason {
    /// The index answered, but no worker holds even the first block.
    Empty,
    /// The index could not be reached, or the breaker is open.
    Unavailable,
    /// The query exceeded its budget.
    Timeout,
    /// The index does not know this query. Like an outage this is about the
    /// index, not about one request.
    Unsupported,
    /// Workers hold the prefix but recorded another hash space, so no query will
    /// match until the configuration is mended.
    SpecMismatch,
    /// The index refused the query.
    Rejected,
}

/// What a routing query ends in. There is no error on purpose.
#[derive(Debug, Clone, PartialEq, Eq)]
pub enum PrefixIndexOutcome {
    Matched {
        /// Longest prefix first.
        matches: Vec<PrefixMatch>,
        best_prefix_blocks: u32,
    },
    NoSignal(NoSignalReason),
}

/// The model of a [`PrefixIndexOutcome`].
pub enum OutcomeView {
    Matched { matches: Seq<RoutedMatchView>, best_prefix_blocks: u32 },
    NoSignal(NoSignalReason),
}

impl View for PrefixIndexOutcome {
    type V = OutcomeView;

    open spec fn view(&self) -> OutcomeView {
        match self {
            PrefixIndexOutcome::Matched { matches, best_prefix_blocks } => OutcomeView::Matched {
                matches: routed_matches(matches@),
                best_prefix_blocks: *best_prefix_blocks,
            },
            PrefixIndexOutcome::NoSignal(reason) => OutcomeView::NoSignal(*reason),
        }
    }
}

/// How many leading matches have the given length.
pub open spec fn tied(s: Seq<RoutedMatchView>, blocks: u32) -> nat
    decreases s.len(),
{
    if s.len() == 0 || s[0].matched_prefix_blocks != blocks {
        0
    } else {
        1 + tied(s.drop_first(), blocks)
    }
}

/// The workers tied for the longest prefix.
pub open spec fn best_of(outcome: OutcomeView) -> Seq<RoutedMatchView> {
    match outcome {
        OutcomeView::Matched { matches, best_prefix_blocks } => matches.take(
            tied(matches, best_prefix_blocks) as int,
        ),
        OutcomeView::NoSignal(_) => Seq::empty(),
    }
}

proof fn lemma_tied_count(s: Seq<RoutedMatchView>, blocks: u32, n: int)
    requires
        0 <= n <= s.len(),
        forall|i: int| 0 <= i < n ==> (#[trigger] s[i]).matched_prefix_blocks == blocks,
        n == s.len() || s[n].matched_prefix_blocks != blocks,
    ensures
        tied(s, blocks) == n,
    decreases s.len(),
{
    if n > 0 {
        assert(s[0].matched_prefix_blocks == blocks);
        assert forall|i: int| 0 <= i < n - 1 implies (
        #[trigger] s.drop_first()[i]).matched_prefix_blocks == blocks by {
            assert(s[i + 1].matched_prefix_blocks == blocks);
        }
        lemma_tied_count(s.drop_first(), blocks, n - 1);
    }
}

impl PrefixIndexOutcome {
    /// The workers tied for the longest prefix, among which a caller that
    /// balances load chooses. None when there was no signal.
    pub fn best_matches(&self) -> (r: &[PrefixMatch])
        ensures
            routed_matches(r@) == best_of(self@),
    {
        match self {
            PrefixIndexOutcome::Matched { matches, best_prefix_blocks } => {
                let ghost all = routed_matches(matches@);
                let mut count: usize = 0;
                while count < matches.len() && matches[count].matched_prefix_blocks
                    == *best_prefix_blocks
                    invariant
                        count <= matches@.len(),
                        all == routed_matches(matches@),
                        forall|i: int|
                            0 <= i < count ==> (#[trigger] all[i]).matched_prefix_blocks
                                == *best_prefix_blocks,
                    decreases matches@.len() - count,
                {
                    assert(all[count as int] == matches@[count as int]@);
                    count = count + 1;
                }
                proof {
                    if count < matches@.len() {
                        assert(all[count as int] == matches@[count as int]@);
                    }
                    lemma_tied_count(all, *best_prefix_blocks, count as int);
                }
                let best = vstd::slice::slice_subrange(matches.as_slice(), 0, count);
                assert(routed_matches(best@) =~= all.take(count as int));
                best
            },
            PrefixIndexOutcome::NoSignal(_) => {
                let none: &[PrefixMatch] = &[];
                assert(routed_matches(none@) =~= Seq::<RoutedMatchView>::empty());
                none
            },
        }
    }

    /// The longest prefix that any worker holds, 0 when there was no signal.
    pub fn best_prefix_blocks(&self) -> (r: u32)
        ensures
            r == match self@ {
                OutcomeView::Matched { matches: _, best_prefix_blocks } => best_prefix_blocks,
                OutcomeView::NoSignal(_) => 0,
            },
    {
        match self {
            PrefixIndexOutcome::Matched { matches: _, best_prefix_blocks } => *best_prefix_blocks,
            PrefixIndexOutcome::NoSignal(_) => 0,
        }
    }
}

/// Where the matches are listed longest first, the workers tied for the longest
/// prefix are all that hold it.
pub proof fn best_matches_are_all_that_tie(matches: Seq<RoutedMatchView>, i: int)
    requires
        0 <= i < matches.len(),
        forall|a: int, b: int|
            0 <= a < b < matches.len() ==> (#[trigger] matches[a]).matched_prefix_blocks >= (
            #[trigger] matches[b]).matched_prefix_blocks,
    ensures
        i < tied(matches, matches[0].matched_prefix_blocks) <==> matches[i].matched_prefix_blocks
            == matches[0].matched_prefix_blocks,
{
    let best = matches[0].matched_prefix_blocks;
    lemma_tied_bounds(matches, best);
    let n = tied(matches, best) as int;
    if i >= n {
        if n < i {
            assert(matches[n].matched_prefix_blocks >= matches[i].matched_prefix_blocks);
        }
        if n > 0 {
            assert(matches[0].matched_prefix_blocks >= matches[n].matched_prefix_blocks);
        }
    }
}

pub(crate) proof fn lemma_tied_bounds(s: Seq<RoutedMatchView>, blocks: u32)
    ensures
        tied(s, blocks) <= s.len(),
        forall|i: int|
            0 <= i < tied(s, blocks) ==> (#[trigger] s[i]).matched_prefix_blocks == blocks,
        tied(s, blocks) < s.len() ==> s[tied(s, blocks) as int].matched_prefix_blocks != blocks,
    decreases s.len(),
{
    if s.len() > 0 && s[0].matched_prefix_blocks == blocks {
        let rest = s.drop_first();
        lemma_tied_bounds(rest, blocks);
        assert forall|i: int| 0 <= i < tied(s, blocks) implies (
        #[trigger] s[i]).matched_prefix_blocks == blocks by {
            if i > 0 {
                assert(rest[i - 1] == s[i]);
            }
        }
    }
}

/// A source of answers to routing queries.
pub trait ExternalPrefixIndex {
    /// Answers a query. It cannot fail.
    fn match_prefix(&mut self, query: &PrefixQuery) -> (r: PrefixIndexOutcome);
}

/// How a client reaches the index.
#[derive(Debug)]
pub struct PrefixIndexConfig {
    /// Where the index listens, such as `http://127.0.0.1:50051`.
    pub endpoint: String,
    pub query_timeout: Duration,
    pub connect_timeout: Duration,
    pub breaker_threshold: u32,
    pub breaker_cooldown: Duration,
}

impl Clone for PrefixIndexConfig {
    fn clone(&self) -> (r: PrefixIndexConfig)
        ensures
            r.endpoint@ == self.endpoint@,
            r.query_timeout == self.query_timeout,
            r.connect_timeout == self.connect_timeout,
            r.breaker_threshold == self.breaker_threshold,
            r.breaker_cooldown == self.breaker_cooldown,
    {
        PrefixIndexConfig {
            endpoint: self.endpoint.clone(),
            query_timeout: self.query_timeout,
            connect_timeout: self.connect_timeout,
            breaker_threshold: self.breaker_threshold,
            breaker_cooldown: self.breaker_cooldown,
        }
    }
}

impl PrefixIndexConfig {
    /// The usual settings for an endpoint.
    pub fn new(endpoint: String) -> (r: PrefixIndexConfig)
        ensures
            r.endpoint == endpoint,
            crate::clock::duration_nanos(r.query_timeout) == DEFAULT_QUERY_TIMEOUT_MS * 1_000_000,
            crate::clock::duration_nanos(r.connect_timeout) == DEFAULT_CONNECT_TIMEOUT_SECS
                * 1_000_000_000,
            r.breaker_threshold == DEFAULT_BREAKER_THRESHOLD,
            crate::clock::duration_nanos(r.breaker_cooldown) == DEFAULT_BREAKER_COOLDOWN_SECS
                * 1_000_000_000,
    {
        PrefixIndexConfig {
            endpoint,
            query_timeout: crate::clock::from_millis(DEFAULT_QUERY_TIMEOUT_MS),
            connect_timeout: crate::clock::from_secs(DEFAULT_CONNECT_TIMEOUT_SECS),
            breaker_threshold: DEFAULT_BREAKER_THRESHOLD,
            breaker_cooldown: crate::clock::from_secs(DEFAULT_BREAKER_COOLDOWN_SECS),
        }
    }
}

/// The first blocks of a query that fit into a request, as they are written.
pub open spec fn wire_hashes(hashes: Seq<i64>) -> Seq<Seq<char>> {
    let n = if hashes.len() <= MAX_HASHES_PER_REQUEST {
        hashes.len()
    } else {
        MAX_HASHES_PER_REQUEST as nat
    };
    Seq::new(n, |i: int| crate::text::decimal(hashes[i] as int))
}

/// The request for a query. A query that is too long is cut rather than
/// refused: a shorter question has an answer, a refused one has none.
pub fn build_request(query: &PrefixQuery) -> (r: MatchExternalKvPrefixRequest)
    ensures
        crate::text::texts(r.hashes@) == wire_hashes(query.hashes@),
        r.hash_spec == Some(query.spec),
        r.max_blocks == query.max_blocks,
        r.top_k == query.top_k,
        r.count_as_hit == query.count_as_hit,
{
    let n: usize = if query.hashes.len() <= MAX_HASHES_PER_REQUEST {
        query.hashes.len()
    } else {
        MAX_HASHES_PER_REQUEST
    };
    let mut hashes: Vec<String> = Vec::new();
    let mut i: usize = 0;
    while i < n
        invariant
            i <= n <= query.hashes@.len(),
            hashes@.len() == i,
            forall|k: int|
                0 <= k < i ==> (#[trigger] hashes@[k])@ == crate::text::decimal(
                    query.hashes@[k] as int,
                ),
        decreases n - i,
    {
        hashes.push(hash_to_wire(query.hashes[i]));
        i = i + 1;
    }
    assert(crate::text::texts(hashes@) =~= wire_hashes(query.hashes@));
    MatchExternalKvPrefixRequest {
        hashes,
        hash_spec: Some(query.spec.clone()),
        max_blocks: query.max_blocks,
        top_k: query.top_k,
        count_as_hit: query.count_as_hit,
    }
}

/// A request that was built for a query with at least one block passes the
/// service's checks on hashes.
pub proof fn built_request_is_accepted(hashes: Seq<i64>)
    requires
        hashes.len() > 0,
    ensures
        crate::validate::hashes_error(wire_hashes(hashes)) is None,
{
    let wire = wire_hashes(hashes);
    assert forall|i: int| 0 <= i < wire.len() implies (#[trigger] wire[i]).len() > 0 by {
        crate::text::decimal_characters(hashes[i] as int);
    }
}

/// Whether a reason is about the index rather than about one query.
pub open spec fn is_outage(reason: NoSignalReason) -> bool {
    reason is Unavailable || reason is Timeout || reason is Unsupported
}

/// Whether a reason is about the index rather than about one query. Only such a
/// one counts against the index: one malformed query must not take routing
/// advice from all others.
pub fn is_index_outage(reason: NoSignalReason) -> (r: bool)
    ensures
        r == is_outage(reason),
{
    match reason {
        NoSignalReason::Unavailable | NoSignalReason::Timeout | NoSignalReason::Unsupported => true,
        _ => false,
    }
}

/// The reason that a status stands for.
pub open spec fn reason_of(code: Code) -> NoSignalReason {
    match code {
        Code::DeadlineExceeded | Code::Cancelled => NoSignalReason::Timeout,
        Code::Unavailable | Code::Internal | Code::Unknown | Code::Aborted =>
            NoSignalReason::Unavailable,
        Code::Unimplemented => NoSignalReason::Unsupported,
        _ => NoSignalReason::Rejected,
    }
}

/// The reason that a code stands for.
pub fn classify_code(code: Code) -> (r: NoSignalReason)
    ensures
        r == reason_of(code),
{
    match code {
        Code::DeadlineExceeded | Code::Cancelled => NoSignalReason::Timeout,
        Code::Unavailable | Code::Internal | Code::Unknown | Code::Aborted =>
            NoSignalReason::Unavailable,
        Code::Unimplemented => NoSignalReason::Unsupported,
        _ => NoSignalReason::Rejected,
    }
}

/// The reason that a gRPC status stands for.
pub fn classify_status(status: &tonic::Status) -> (r: NoSignalReason)
    ensures
        r == reason_of(crate::status::code_with_number(crate::status::grpc_code(*status))),
{
    classify_code(crate::status::code_of(status))
}

/// The tiers that are known, in order.
pub open spec fn known_tiers(tiers: Seq<i32>) -> Seq<TierType>
    decreases tiers.len(),
{
    if tiers.len() == 0 {
        Seq::empty()
    } else {
        match crate::pb::tier_with_number(tiers.last()) {
            Some(tier) => known_tiers(tiers.drop_last()).push(tier),
            None => known_tiers(tiers.drop_last()),
        }
    }
}

/// What a reported match is to a router.
pub open spec fn routed(m: PrefixMatchView) -> RoutedMatchView {
    RoutedMatchView {
        worker_id: m.worker_id,
        address: m.address,
        dp_rank: m.dp_rank,
        matched_prefix_blocks: m.matched_prefix_blocks,
        tiers: known_tiers(m.tiers),
    }
}

/// What a router makes of an answer. An empty one stands for a cold cache or
/// for a hash-space disagreement; only the count of mismatched workers tells
/// them apart.
pub open spec fn outcome_of(response: PrefixResponseView) -> OutcomeView {
    if response.matches.len() > 0 {
        OutcomeView::Matched {
            matches: response.matches.map_values(|m: PrefixMatchView| routed(m)),
            best_prefix_blocks: response.best_prefix_blocks,
        }
    } else if response.spec_mismatched_workers > 0 {
        OutcomeView::NoSignal(NoSignalReason::SpecMismatch)
    } else {
        OutcomeView::NoSignal(NoSignalReason::Empty)
    }
}

/// The tiers that are known, in order.
fn read_tiers(tiers: &Vec<i32>) -> (r: Vec<TierType>)
    ensures
        r@ == known_tiers(tiers@),
{
    let mut known: Vec<TierType> = Vec::new();
    let mut i: usize = 0;
    assert(known@ =~= known_tiers(tiers@.take(0)));
    while i < tiers.len()
        invariant
            i <= tiers@.len(),
            known@ == known_tiers(tiers@.take(i as int)),
        decreases tiers@.len() - i,
    {
        assert(tiers@.take(i + 1).drop_last() =~= tiers@.take(i as int));
        if let Some(tier) = TierType::from_number(tiers[i]) {
            known.push(tier);
        }
        i = i + 1;
    }
    assert(tiers@.take(i as int) =~= tiers@);
    known
}

/// What a router makes of an answer.
pub fn read_response(response: MatchExternalKvPrefixResponse) -> (r: PrefixIndexOutcome)
    ensures
        r@ == outcome_of(response@),
{
    let ghost view = response@;
    let ghost input = response.matches@;
    let best_prefix_blocks = response.best_prefix_blocks;
    assert(view.matches.len() == input.len());
    if response.matches.len() == 0 {
        if response.spec_mismatched_workers > 0 {
            return PrefixIndexOutcome::NoSignal(NoSignalReason::SpecMismatch);
        }
        return PrefixIndexOutcome::NoSignal(NoSignalReason::Empty);
    }
    let mut matches: Vec<PrefixMatch> = Vec::new();
    for m in it: response.matches
        invariant
            it.seq() == input,
            view.matches == crate::pb::prefix_matches(input),
            matches@.len() == it.index(),
            forall|k: int|
                0 <= k < matches@.len() ==> (#[trigger] matches@[k])@ == routed(view.matches[k]),
    {
        let ghost k = it.index() as int;
        assert(view.matches[k] == m@);
        let tiers = read_tiers(&m.tiers);
        matches.push(
            PrefixMatch {
                worker_id: m.worker_id,
                address: m.address,
                dp_rank: m.dp_rank,
                matched_prefix_blocks: m.matched_prefix_blocks,
                tiers,
            },
        );
    }
    assert(routed_matches(matches@) =~= view.matches.map_values(|m: PrefixMatchView| routed(m)));
    PrefixIndexOutcome::Matched { matches, best_prefix_blocks }
}

} // verus!
