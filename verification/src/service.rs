//! The indexer service: requests are checked, then handed to a backend.

use vstd::prelude::*;

use crate::inputs::WorkerPrefixInput;
use crate::pb::{
    ApplyExternalKvBatchRequest, ApplyExternalKvBatchResponse, GetExternalKvHitCountsRequest,
    GetExternalKvHitCountsResponse, MatchExternalKvPrefixRequest, MatchExternalKvPrefixResponse,
    MatchExternalKvRequest, MatchExternalKvResponse, NodeMatchView,
};
use crate::status::RpcStatus;

verus! {

/// Storage of the indexer. Deliberately narrow: every change flows through
/// `apply_external_kv_batch`, so there is one ordered write path.
pub trait KvIndexerBackend: Sized {
    /// Applies a batch. Its actions have been checked and are to be applied in
    /// order.
    fn apply_external_kv_batch(&self, request: ApplyExternalKvBatchRequest) -> (r: Result<
        ApplyExternalKvBatchResponse,
        RpcStatus,
    >);

    /// Answers which workers hold which of the given blocks.
    fn match_external_kv(&self, request: MatchExternalKvRequest) -> (r: Result<
        MatchExternalKvResponse,
        RpcStatus,
    >);

    /// Collects what the prefix rules need about each worker, aligned with
    /// `hashes`.
    ///
    /// Unless a backend knows better, this knows nothing of components: it asks
    /// which workers hold the blocks, without counting a hit, and takes each
    /// held block as a whole.
    fn collect_worker_prefix_inputs(&self, hashes: &Vec<String>) -> (r: Result<
        Vec<WorkerPrefixInput>,
        RpcStatus,
    >)
        default_ensures
            exists|
                request: MatchExternalKvRequest,
                m: Result<MatchExternalKvResponse, RpcStatus>,
            | #[trigger]
                call_ensures(Self::match_external_kv, (self, request), m) && request.hashes@
                    == hashes@ && !request.count_as_hit && match m {
                    Ok(matched) => r matches Ok(inputs) && crate::inputs::input_views(inputs@)
                        == matched@.map_values(
                        |node: NodeMatchView|
                            crate::inputs::whole_block_input(crate::text::texts(hashes@), node),
                    ),
                    Err(e) => r matches Err(f) && f == e,
                },
    {
        let request = MatchExternalKvRequest {
            hashes: crate::text::first_texts(hashes.as_slice(), hashes.len()),
            count_as_hit: false,
        };
        let ghost asked = request;
        assert(asked.hashes@ =~= hashes@);
        match self.match_external_kv(request) {
            Ok(matched) => {
                let ghost m = Ok::<MatchExternalKvResponse, RpcStatus>(matched);
                assert(call_ensures(Self::match_external_kv, (self, asked), m));
                Ok(crate::inputs::legacy_inputs_from_match(hashes, &matched))
            },
            Err(e) => {
                let ghost m = Err::<MatchExternalKvResponse, RpcStatus>(e);
                assert(call_ensures(Self::match_external_kv, (self, asked), m));
                Err(e)
            },
        }
    }

    /// Answers how much of an ordered request each worker can serve.
    ///
    /// This is what the query means: a backend that answers it in a cheaper way
    /// has to report the same workers, with the same addresses and the same
    /// prefixes. It may read fewer blocks, order equally long prefixes
    /// otherwise, and report the data-parallel rank and the tiers of a worker,
    /// of which a placement match says nothing.
    fn match_external_kv_prefix(&self, request: MatchExternalKvPrefixRequest) -> (r: Result<
        MatchExternalKvPrefixResponse,
        RpcStatus,
    >)
        default_ensures
            ({
                let limit = crate::prefix::considered(request.hashes@.len(), request.max_blocks);
                if limit == 0 {
                    r matches Ok(response) && response@ == crate::inputs::engine_answer(
                        Seq::empty(),
                        0,
                    )
                } else {
                    exists|hashes: Vec<String>, m: Result<Vec<WorkerPrefixInput>, RpcStatus>|
                        #[trigger]
                        call_ensures(Self::collect_worker_prefix_inputs, (self, &hashes), m)
                            && hashes@ == request.hashes@.take(limit as int) && match m {
                            Ok(inputs) => r matches Ok(response) && response@
                                == crate::inputs::cut(
                                crate::inputs::engine_answer(
                                    crate::inputs::input_views(inputs@),
                                    limit as u32,
                                ),
                                request.top_k,
                            ),
                            Err(e) => r matches Err(f) && f == e,
                        }
                }
            }),
    {
        let limit: usize = crate::prefix::prefix_limit(request.hashes.len(), request.max_blocks);
        let hashes = crate::text::first_texts(request.hashes.as_slice(), limit);
        if hashes.len() == 0 {
            let none: Vec<WorkerPrefixInput> = Vec::new();
            assert(crate::inputs::input_views(none@) =~= Seq::empty());
            return Ok(crate::inputs::compute_prefix_response(none.as_slice(), 0));
        }
        match self.collect_worker_prefix_inputs(&hashes) {
            Ok(inputs) => {
                let ghost m = Ok::<Vec<WorkerPrefixInput>, RpcStatus>(inputs);
                assert(call_ensures(Self::collect_worker_prefix_inputs, (self, &hashes), m));
                let response = crate::inputs::compute_prefix_response(
                    inputs.as_slice(),
                    hashes.len() as u32,
                );
                Ok(crate::inputs::cut_to(response, request.top_k))
            },
            Err(e) => {
                let ghost m = Err::<Vec<WorkerPrefixInput>, RpcStatus>(e);
                assert(call_ensures(Self::collect_worker_prefix_inputs, (self, &hashes), m));
                Err(e)
            },
        }
    }

    /// Answers how often the given blocks were hit.
    fn get_external_kv_hit_counts(&self, request: GetExternalKvHitCountsRequest) -> (r: Result<
        GetExternalKvHitCountsResponse,
        RpcStatus,
    >);
}

/// The service over a backend.
#[derive(Debug)]
pub struct KvIndexerService<B> {
    backend: B,
}

impl<B> KvIndexerService<B> {
    /// The backend that requests are handed to.
    pub closed spec fn backend(&self) -> B {
        self.backend
    }
}

impl<B> KvIndexerService<B> where B: KvIndexerBackend {
    /// A service over the given backend.
    pub fn new(backend: B) -> (r: Self)
        ensures
            r.backend() == backend,
    {
        KvIndexerService { backend }
    }

    /// Which workers hold which of the given blocks. A refused request does not
    /// reach the backend; the answer to any other one is the backend's.
    pub fn match_external_kv(&self, request: MatchExternalKvRequest) -> (r: Result<
        MatchExternalKvResponse,
        RpcStatus,
    >)
        ensures
            match crate::validate::hashes_error(crate::text::texts(request.hashes@)) {
                Some(error) => r matches Err(status) && status@ == error,
                None => call_ensures(B::match_external_kv, (&self.backend(), request), r),
            },
    {
        match crate::validate::validate_hashes(request.hashes.as_slice()) {
            Ok(()) => self.backend.match_external_kv(request),
            Err(status) => Err(status),
        }
    }

    /// How much of an ordered request each worker can serve. A refused request
    /// does not reach the backend; the answer to any other one is the backend's.
    pub fn match_external_kv_prefix(&self, request: MatchExternalKvPrefixRequest) -> (r: Result<
        MatchExternalKvPrefixResponse,
        RpcStatus,
    >)
        ensures
            match crate::validate::hashes_error(crate::text::texts(request.hashes@)) {
                Some(error) => r matches Err(status) && status@ == error,
                None => call_ensures(B::match_external_kv_prefix, (&self.backend(), request), r),
            },
    {
        match crate::validate::validate_hashes(request.hashes.as_slice()) {
            Ok(()) => self.backend.match_external_kv_prefix(request),
            Err(status) => Err(status),
        }
    }

    /// How often the given blocks were hit. A refused request does not reach the
    /// backend; the answer to any other one is the backend's.
    pub fn get_external_kv_hit_counts(&self, request: GetExternalKvHitCountsRequest) -> (r: Result<
        GetExternalKvHitCountsResponse,
        RpcStatus,
    >)
        ensures
            match crate::validate::hashes_error(crate::text::texts(request.hashes@)) {
                Some(error) => r matches Err(status) && status@ == error,
                None => call_ensures(B::get_external_kv_hit_counts, (&self.backend(), request), r),
            },
    {
        match crate::validate::validate_hashes(request.hashes.as_slice()) {
            Ok(()) => self.backend.get_external_kv_hit_counts(request),
            Err(status) => Err(status),
        }
    }

    /// Applies a batch. One without a worker id, or with a bad action, does not
    /// reach the backend; any other one does with its hashes in their stored
    /// form, and the answer is the backend's.
    pub fn apply_external_kv_batch(&self, request: ApplyExternalKvBatchRequest) -> (r: Result<
        ApplyExternalKvBatchResponse,
        RpcStatus,
    >)
        ensures
            match batch_error(request) {
                Some(error) => r matches Err(status) && status@ == error,
                None => exists|stored: ApplyExternalKvBatchRequest|
                    crate::ingest::is_stored_form(request, stored) && #[trigger] call_ensures(
                        B::apply_external_kv_batch,
                        (&self.backend(), stored),
                        r,
                    ),
            },
    {
        match validate_batch(&request) {
            Ok(()) => {
                let stored = crate::ingest::normalize_batch(request);
                let ghost kept = stored;
                let r = self.backend.apply_external_kv_batch(stored);
                assert(call_ensures(B::apply_external_kv_batch, (&self.backend(), kept), r));
                r
            },
            Err(status) => Err(status),
        }
    }
}

/// What is wrong with a batch: its worker id, or else its actions.
pub open spec fn batch_error(request: ApplyExternalKvBatchRequest) -> Option<
    crate::status::StatusView,
> {
    if crate::validate::worker_id_error(request.worker_id@) is Some {
        crate::validate::worker_id_error(request.worker_id@)
    } else {
        crate::validate::actions_error(crate::validate::action_views(request.actions@))
    }
}

/// Refuses a batch without a worker id or with a bad action.
pub fn validate_batch(request: &ApplyExternalKvBatchRequest) -> (r: Result<(), RpcStatus>)
    ensures
        crate::validate::reports(r, batch_error(*request)),
{
    match crate::validate::validate_worker_id(request.worker_id.as_str()) {
        Ok(()) => crate::validate::validate_actions(request.actions.as_slice()),
        Err(status) => Err(status),
    }
}

} // verus!
