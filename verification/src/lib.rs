//! Verified core of a bridge indexer for Avail finalized blocks.
//!
//! The library holds the logic of the indexer: the call decoder, the
//! per-block transformer that turns filtered extrinsics into table rows,
//! a model of the relational store with its upsert semantics, the
//! progress/resume rules, and the decision functions of the parallel
//! sync engine.  Network and database I/O live outside the library and
//! hand it plain values.

pub mod codec;
pub mod configuration;
pub mod db;
pub mod encode;
pub mod indexer;
pub mod laws;
pub mod serialize;
pub mod sync;
pub mod syncer;
pub mod transform;
pub mod types;
