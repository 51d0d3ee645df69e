//! Batch dispatch engine for structured generation requests.
//!
//! The library holds the verified core of a batch processor that issues one
//! generative request per input row under a concurrency cap and a rate
//! limit, retries transient failures, extracts structured JSON from each
//! response, and keeps an append-only audit log of the run.

pub mod audit;
pub mod batch;
pub mod config;
pub mod json;
pub mod limiter;
pub mod parser;
pub mod protocol;
pub mod render;
pub mod retry;
