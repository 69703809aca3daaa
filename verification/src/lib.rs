//! An embeddable, asynchronous log-processing engine: callers enqueue
//! structured events without blocking; a worker drains them in batches,
//! applies a security transform (redaction, encryption, integrity hash),
//! renders them through a configurable formatter, and fans them out to the
//! configured sinks — console, bounded in-memory ring, rotating and
//! compressing file, retrying remote endpoint — while tracking throughput,
//! error and backlog counters.
//!
//! Every decision the engine makes is verified here; the waiting, the
//! spawning, and the file and network writes themselves are left to the
//! embedding runner, which performs what the engine plans and reports the
//! outcomes back.

pub mod config;
pub mod formatters;
pub mod handlers;
pub mod level;
pub mod logger;
pub mod metrics;
pub mod security;
pub mod text;
