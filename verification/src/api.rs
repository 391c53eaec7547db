//! Outward facade: free functions mirroring the streamer's route lifecycle.

use vstd::prelude::*;
use crate::endpoint::Endpoint;
use crate::streamer::{
    EgressWorkerSpawn,
    StreamerError,
    SubscriptionProvider,
    UStreamer,
    add_route_outcome,
    delete_route_outcome,
};
use crate::transport::Transport;

verus! {

/// Creates a streamer; see [`UStreamer::new`].
pub fn new<P: SubscriptionProvider>(name: &str, message_queue_size: u16, usubscription: &P) -> (r:
    Result<UStreamer, StreamerError>)
    requires
        message_queue_size >= 1,
    ensures
        match r {
            Ok(s) => s.wf() && s.routes().len() == 0 && s.pool().len() == 0 && s.registry().len()
                == 0,
            Err(e) => e is InvalidArgument,
        },
{
    UStreamer::new(name, message_queue_size, usubscription)
}

/// Installs a forwarding rule; see [`UStreamer::add_forwarding_rule`].
pub fn add_forwarding_rule<T: Transport>(
    streamer: &mut UStreamer,
    ingress: Endpoint,
    egress: Endpoint,
    ingress_transport: &T,
) -> (r: Result<Option<EgressWorkerSpawn>, StreamerError>)
    requires
        old(streamer).wf(),
    ensures
        final(streamer).wf(),
        add_route_outcome(*old(streamer), *final(streamer), ingress@, egress@, r),
{
    streamer.add_forwarding_rule(ingress, egress, ingress_transport)
}

/// Deletes a forwarding rule; see [`UStreamer::delete_forwarding_rule`].
pub fn delete_forwarding_rule<T: Transport>(
    streamer: &mut UStreamer,
    ingress: Endpoint,
    egress: Endpoint,
    ingress_transport: &T,
) -> (r: Result<(), StreamerError>)
    requires
        old(streamer).wf(),
    ensures
        final(streamer).wf(),
        delete_route_outcome(*old(streamer), *final(streamer), ingress@, egress@, r),
{
    streamer.delete_forwarding_rule(ingress, egress, ingress_transport)
}

} // verus!
