//! How many installed routes use a given egress transport, or share a given
//! ingress listener: the counts that the streamer's refcounts must equal.

use vstd::prelude::*;
use crate::ingress_registry::{ListenerKeyView, listener_key};
use crate::route_table::RuleView;

verus! {

/// The listener key of one route: its ingress transport and the two
/// authorities.
pub open spec fn rule_listener_key(r: RuleView) -> ListenerKeyView {
    listener_key(r.in_transport, r.in_authority, r.out_authority)
}

/// How many of `routes` have `t` as their egress transport.
pub open spec fn egress_route_count(routes: Seq<RuleView>, t: u64) -> nat
    decreases routes.len(),
{
    if routes.len() == 0 {
        0
    } else {
        egress_route_count(routes.drop_last(), t) + if routes.last().out_transport == t {
            1nat
        } else {
            0nat
        }
    }
}

/// How many of `routes` share the ingress listener keyed `k`.
pub open spec fn listener_route_count(routes: Seq<RuleView>, k: ListenerKeyView) -> nat
    decreases routes.len(),
{
    if routes.len() == 0 {
        0
    } else {
        listener_route_count(routes.drop_last(), k) + if rule_listener_key(routes.last()) == k {
            1nat
        } else {
            0nat
        }
    }
}

/// Neither count exceeds the number of routes.
pub proof fn lemma_route_counts_le_len(routes: Seq<RuleView>, t: u64, k: ListenerKeyView)
    ensures
        egress_route_count(routes, t) <= routes.len(),
        listener_route_count(routes, k) <= routes.len(),
    decreases routes.len(),
{
    if routes.len() > 0 {
        lemma_route_counts_le_len(routes.drop_last(), t, k);
    }
}

/// Installing one more route raises exactly the counts of its egress
/// transport and of its listener key, each by one.
pub proof fn lemma_route_counts_push(routes: Seq<RuleView>, rule: RuleView, t: u64, k: ListenerKeyView)
    ensures
        egress_route_count(routes.push(rule), t) == egress_route_count(routes, t) + if rule.out_transport == t {
            1nat
        } else {
            0nat
        },
        listener_route_count(routes.push(rule), k) == listener_route_count(routes, k) + if rule_listener_key(rule) == k {
            1nat
        } else {
            0nat
        },
{
    assert(routes.push(rule).drop_last() =~= routes);
}

/// Removing the route at `i` lowers exactly the counts of its egress
/// transport and of its listener key, each by one.
pub proof fn lemma_route_counts_remove(routes: Seq<RuleView>, i: int, t: u64, k: ListenerKeyView)
    requires
        0 <= i < routes.len(),
    ensures
        egress_route_count(routes, t) == egress_route_count(routes.remove(i), t) + if routes[i].out_transport == t {
            1nat
        } else {
            0nat
        },
        listener_route_count(routes, k) == listener_route_count(routes.remove(i), k) + if rule_listener_key(routes[i]) == k {
            1nat
        } else {
            0nat
        },
    decreases routes.len(),
{
    if i == routes.len() - 1 {
        assert(routes.remove(i) =~= routes.drop_last());
    } else {
        lemma_route_counts_remove(routes.drop_last(), i, t, k);
        assert(routes.remove(i).drop_last() =~= routes.drop_last().remove(i));
        assert(routes.remove(i).last() == routes.last());
    }
}

} // verus!
