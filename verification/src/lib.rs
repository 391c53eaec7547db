//! Core routing and dispatch engine of a uProtocol streamer: a message bridge
//! that forwards uProtocol messages between heterogeneous transports.

pub mod api;
pub mod claims;
pub mod egress_pool;
pub mod egress_worker;
pub mod endpoint;
pub mod ingress_listener;
pub mod ingress_registry;
pub mod publish_resolution;
pub mod queue;
pub mod refcounts;
pub mod route_counts;
pub mod route_table;
pub mod scenario;
pub mod static_file;
pub mod streamer;
pub mod subscription;
pub mod transport;
pub mod uri;
pub mod worker_runtime;

pub use endpoint::Endpoint;
pub use streamer::UStreamer;

use vstd::prelude::*;

verus! {

/// Identity key over a transport handle. Two keys are equal iff they were
/// derived from the same underlying transport instance; the caller that owns
/// the actual transport handles derives the numeric identity (for example from
/// the address of a shared handle) and guarantees that property.
#[derive(Clone, Copy, PartialEq, Eq, Structural, Hash, Debug)]
pub struct ComparableTransport {
    pub id: u64,
}

impl ComparableTransport {
    /// Wraps a transport identity into a comparison key.
    pub fn new(transport_id: u64) -> (r: ComparableTransport)
        ensures
            r.id == transport_id,
    {
        ComparableTransport { id: transport_id }
    }
}

} // verus!
