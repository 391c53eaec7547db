//! Route endpoints: one side of a forwarding rule.

use vstd::prelude::*;
use crate::ComparableTransport;

verus! {

/// Ghost image of an [`Endpoint`].
pub ghost struct EndpointView {
    pub name: Seq<char>,
    pub authority: Seq<char>,
    pub transport: u64,
}

/// One side of a route: a label, the authority the endpoint speaks for, and
/// the identity key of the transport that carries its traffic. The authority
/// is never empty.
#[derive(Debug)]
pub struct Endpoint {
    pub name: String,
    pub authority: String,
    pub transport: ComparableTransport,
}

impl View for Endpoint {
    type V = EndpointView;

    open spec fn view(&self) -> EndpointView {
        EndpointView { name: self.name@, authority: self.authority@, transport: self.transport.id }
    }
}

impl Clone for Endpoint {
    /// A clone is the same endpoint.
    fn clone(&self) -> (r: Endpoint)
        ensures
            r@ == self@,
    {
        let r = Endpoint {
            name: self.name.clone(),
            authority: self.authority.clone(),
            transport: self.transport,
        };
        proof {
            assert(r@ =~= self@);
        }
        r
    }
}

/// Builds an endpoint from its parts.
pub fn build_endpoint(name: &str, authority: &str, transport: ComparableTransport) -> (r: Endpoint)
    requires
        authority@.len() > 0,
    ensures
        r@ == (EndpointView { name: name@, authority: authority@, transport: transport.id }),
{
    let r = Endpoint { name: name.to_owned(), authority: authority.to_owned(), transport };
    proof {
        assert(r@ =~= EndpointView { name: name@, authority: authority@, transport: transport.id });
    }
    r
}

impl Endpoint {
    /// Creates an endpoint; the authority must be non-empty.
    pub fn new(name: &str, authority: &str, transport: ComparableTransport) -> (r: Endpoint)
        requires
            authority@.len() > 0,
        ensures
            r@ == (EndpointView { name: name@, authority: authority@, transport: transport.id }),
    {
        build_endpoint(name, authority, transport)
    }
}

} // verus!
