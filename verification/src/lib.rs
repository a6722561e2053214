//! Batched historical block re-execution and canonical chain-state fan-out.
//!
//! The crate re-executes contiguous ranges of already-finalized blocks in
//! bounded batches against a rolling state view, and broadcasts the resulting
//! canonical-chain transitions (commits and reorganizations) to independent
//! subscribers. Sender recovery, batching thresholds, the notification hub and
//! the in-memory provider/executor models are verified; the secp256k1 and
//! keccak primitives are consumed as trusted capabilities.

pub mod backfill;
pub mod chain;
pub mod executor;
pub mod hashed_cursor;
pub mod hub;
pub mod primitives;
pub mod provider;
pub mod record;
pub mod recovery;
pub mod stream;
pub mod test_utils;
pub mod thresholds;
pub mod transaction;
