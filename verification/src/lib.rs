//! Shared metadata index for SGLang KV-cache blocks.
//!
//! The crate holds the rules of the index: which requests are valid, how much
//! of a request's prefix a worker can serve, how placement records are read and
//! written, and how a router reacts to what the index answers. Talking to Redis
//! and to gRPC peers is left to the program around it, which hands plain values
//! in and carries out what comes back.

pub mod breaker;
pub mod client;
pub mod clock;
pub mod grouping;
pub mod ingest;
pub mod inputs;
pub mod laws;
pub mod pb;
pub mod prefix;
pub mod query;
pub mod ranking;
pub mod redis_backend;
pub mod service;
pub mod status;
pub mod text;
pub mod validate;

pub use client::{
    ExternalPrefixIndex, NoSignalReason, PrefixIndexConfig, PrefixIndexOutcome, PrefixMatch,
    PrefixQuery,
};
pub use service::{KvIndexerBackend, KvIndexerService};
pub use status::{Code, RpcStatus};
pub use validate::MAX_HASHES_PER_REQUEST;
