//! Core of a sharded, replicated key-value store: the per-group consensus
//! runtime and the shard migration protocol that rides on it.

pub mod cmd;
pub mod error;
pub mod journal;
pub mod kernel;
pub mod lsmstore;
pub mod metadata;
pub mod migration;
pub mod platform;
pub mod raftgroup;
pub mod storage;
pub mod stream_engine;
pub mod text;
