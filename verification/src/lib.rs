//! Shard-resolution core of a database proxy.
//!
//! Given a sharded table's configuration and a candidate shard-key value,
//! this crate decides which physical shard (or set of shards) should receive
//! a query. Four routing strategies stand behind one construction protocol:
//! uniform hashing over the shard count, ordered-range lookup, discrete-list
//! lookup, and nearest-centroid probing for vector keys. A staged
//! [`builder::ContextBuilder`] assembles an immutable [`context::Context`],
//! which [`context::Context::resolve`] evaluates to a shard assignment.

pub mod builder;
pub mod centroids;
pub mod config;
pub mod context;
pub mod error;
pub mod hasher;
pub mod lists;
pub mod operator;
pub mod ranges;
pub mod value;
