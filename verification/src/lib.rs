//! Client-side reliability layer for a remote key-value store's bulk APIs.
//!
//! The store caps how many records a single bulk-write (25) or bulk-read
//! (100) request may carry, and a response may report that only a subset of
//! the submitted records was applied. This crate holds the engine that deals
//! with that: splitting an oversized workload into provider-sized chunks,
//! driving each chunk through a retry loop with exponential backoff, and
//! merging the per-chunk outcomes into one final accounting of what
//! succeeded and what failed.
//!
//! Everything here is plain computation over plain values. The network
//! calls themselves live with the caller: per attempt the caller submits one
//! chunk, then hands the store's answer (how many records were left
//! unprocessed, or the terminal error) back to the engine.

pub mod batch;
pub mod chunking;
pub mod error;
pub mod query;
pub mod retry;
pub mod scan;
pub mod validate;

pub use batch::{BatchGetResult, BatchWriteResult, FailedItem, FailedKey};
pub use error::Error;
pub use query::QueryResult;
pub use retry::RetryConfig;
pub use scan::ScanResult;
