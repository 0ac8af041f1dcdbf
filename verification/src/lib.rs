//! Checkpointed stream-consumption core for a block indexer.
//!
//! The library resolves the block height at which consumption begins,
//! parses and produces the durable checkpoint value, and drives the
//! serialized per-message handling loop that advances the checkpoint.

pub mod checkpoint;
pub mod consumer;
pub mod resolver;
