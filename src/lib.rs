//! Normalised ingestion of compute-provider event streams.
//!
//! Provider events are turned into canonical entity modifications by a pure,
//! deterministic mapping engine; a per-provider reconnect state machine keeps
//! each upstream alive with capped exponential backoff.
pub mod event;
pub mod schema;
pub mod mapper;
pub mod resilience;
pub mod sink;
