//! Event buffering with incremental, idempotent export to durable sinks.
//!
//! The library holds the logic of the pipeline: the append-only event log and
//! its watermark queries, the per-sink export cursor, the relational batch
//! upsert plan, the columnar mapping and object naming, the credential cache
//! decisions and the metrics aggregation. Network, disk and encoding work is
//! done by the caller with the values computed here.

pub mod auth;
pub mod columnar;
pub mod errors;
pub mod event;
pub mod export;
pub mod ingest;
pub mod log;
pub mod metrics;
pub mod relational;
pub mod text;
