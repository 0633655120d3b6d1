//! The per-group consensus runtime: membership codec, replica cache,
//! message routing and the worker that drives one consensus node.

use vstd::prelude::*;

pub mod applier;
pub mod cache;
pub mod codec;
pub mod conf;
pub mod message;
pub mod pending;
pub mod snap;
pub mod storage;
pub mod worker;

pub use self::conf::conf_state_from_group_descriptor;
pub use self::worker::{RaftWorker, Request, StateObserver};

verus! {

/// How much consistency a read asks for.
#[derive(Clone, Copy, Debug, PartialEq, Eq, Structural)]
pub enum ReadPolicy {
    /// Read what is there.
    Relaxed,
    /// Wait until every entry committed so far is applied.
    LeaseRead,
    /// The same, after a heartbeat round with a majority of the members.
    ReadIndex,
}

/// How a worker is tuned.
#[derive(Clone, Copy, Debug, PartialEq, Eq, Structural)]
pub struct RaftConfig {
    /// The time between two ticks of the logical clock, in milliseconds.
    pub tick_interval_ms: u64,
    /// How many queued requests a worker takes in a row before it advances
    /// its node.
    pub max_request_burst: usize,
}

impl Default for RaftConfig {
    fn default() -> (cfg: RaftConfig)
        ensures
            cfg == (RaftConfig { tick_interval_ms: 500, max_request_burst: 10240 }),
    {
        RaftConfig { tick_interval_ms: 500, max_request_burst: 10240 }
    }
}

} // verus!
