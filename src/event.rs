//! Canonical events emitted by provider sources, and the position marker
//! that travels with each of them.
use vstd::prelude::*;

verus! {

/// Opaque, monotonically advancing marker of a point in a provider's history.
#[derive(Clone, Copy, Debug, PartialEq, Eq, Structural)]
pub struct BlockPtr {
    pub number: u64,
}

/// Normalised event passed to the mapper.
#[derive(Clone, Debug, PartialEq, Eq)]
pub enum IngestEvent {
    /// Model metadata or version update.
    ModelMeta { provider: String, model_id: String, version: String, params: u64, timestamp: u64 },
    /// Inference job completion.
    InferenceJob {
        provider: String,
        job_id: String,
        latency_ms: u32,
        cost_wei: u128,
        success: bool,
        timestamp: u64,
    },
    /// Provider heartbeat / stats.
    ProviderStats { provider: String, node_id: String, gpu_util: u8, score: u32, timestamp: u64 },
}

/// Mathematical content of an [`IngestEvent`]: strings as character sequences.
pub ghost enum IngestEventView {
    ModelMeta { provider: Seq<char>, model_id: Seq<char>, version: Seq<char>, params: u64, timestamp: u64 },
    InferenceJob {
        provider: Seq<char>,
        job_id: Seq<char>,
        latency_ms: u32,
        cost_wei: u128,
        success: bool,
        timestamp: u64,
    },
    ProviderStats { provider: Seq<char>, node_id: Seq<char>, gpu_util: u8, score: u32, timestamp: u64 },
}

impl View for IngestEvent {
    type V = IngestEventView;

    open spec fn view(&self) -> IngestEventView {
        match self {
            IngestEvent::ModelMeta { provider, model_id, version, params, timestamp } =>
                IngestEventView::ModelMeta {
                    provider: provider@,
                    model_id: model_id@,
                    version: version@,
                    params: *params,
                    timestamp: *timestamp,
                },
            IngestEvent::InferenceJob { provider, job_id, latency_ms, cost_wei, success, timestamp } =>
                IngestEventView::InferenceJob {
                    provider: provider@,
                    job_id: job_id@,
                    latency_ms: *latency_ms,
                    cost_wei: *cost_wei,
                    success: *success,
                    timestamp: *timestamp,
                },
            IngestEvent::ProviderStats { provider, node_id, gpu_util, score, timestamp } =>
                IngestEventView::ProviderStats {
                    provider: provider@,
                    node_id: node_id@,
                    gpu_util: *gpu_util,
                    score: *score,
                    timestamp: *timestamp,
                },
        }
    }
}

impl IngestEventView {
    /// The provider network that emitted the event.
    pub open spec fn provider(self) -> Seq<char> {
        match self {
            IngestEventView::ModelMeta { provider, .. } => provider,
            IngestEventView::InferenceJob { provider, .. } => provider,
            IngestEventView::ProviderStats { provider, .. } => provider,
        }
    }

    /// The event's logical time.
    pub open spec fn timestamp(self) -> u64 {
        match self {
            IngestEventView::ModelMeta { timestamp, .. } => timestamp,
            IngestEventView::InferenceJob { timestamp, .. } => timestamp,
            IngestEventView::ProviderStats { timestamp, .. } => timestamp,
        }
    }
}

impl IngestEvent {
    /// The provider network that emitted the event.
    pub fn provider(&self) -> (r: &String)
        ensures
            r@ == self@.provider(),
    {
        match self {
            IngestEvent::ModelMeta { provider, .. } => provider,
            IngestEvent::InferenceJob { provider, .. } => provider,
            IngestEvent::ProviderStats { provider, .. } => provider,
        }
    }

    /// The event's logical time.
    pub fn timestamp(&self) -> (r: u64)
        ensures
            r == self@.timestamp(),
    {
        match self {
            IngestEvent::ModelMeta { timestamp, .. } => *timestamp,
            IngestEvent::InferenceJob { timestamp, .. } => *timestamp,
            IngestEvent::ProviderStats { timestamp, .. } => *timestamp,
        }
    }
}

} // verus!
