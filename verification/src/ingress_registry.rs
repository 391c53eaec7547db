//! Ingress listener registry: one refcounted listener per (ingress transport,
//! ingress authority, egress authority), installed with full rollback when any
//! of its filter registrations fails.

use vstd::prelude::*;
use crate::ComparableTransport;
use crate::ingress_listener::ForwardingListener;
use crate::publish_resolution::PublishRouteResolver;
use crate::subscription::SubscriptionDirectory;
use crate::transport::{Message, Transport};
use crate::refcounts::{rc_bump, rc_contains, rc_distinct, rc_drop_ref, rc_index_of, rc_positive, rc_refcount};
use crate::uri::{Uri, str_eq, uauthority_to_uuri};

verus! {

/// Why a listener could not be installed.
#[derive(Debug)]
pub enum ForwardingListenerError {
    /// The request/response filter registration failed.
    FailToRegisterNotificationRequestResponseListener,
    /// A publish filter registration failed; carries the source filter.
    FailToRegisterPublishListener(Uri),
}

impl ForwardingListenerError {
    /// A human-readable description of the failure.
    pub fn describe(&self) -> (r: String)
        ensures
            r@.len() > 0,
    {
        match self {
            ForwardingListenerError::FailToRegisterNotificationRequestResponseListener => {
                let r = "Failed to register notification request/response listener".to_owned();
                proof {
                    reveal_strlit("Failed to register notification request/response listener");
                }
                r
            },
            ForwardingListenerError::FailToRegisterPublishListener(_uri) => {
                let r = "Failed to register publish listener".to_owned();
                proof {
                    reveal_strlit("Failed to register publish listener");
                }
                r
            },
        }
    }
}

/// Ghost image of a registry key: the ingress transport identity and the two
/// authorities of the route.
pub ghost struct ListenerKeyView {
    pub in_transport: u64,
    pub in_authority: Seq<char>,
    pub out_authority: Seq<char>,
}

/// One registry entry: the key, how many routes share the listener, and the
/// listener itself.
pub struct ListenerEntry {
    pub in_transport: ComparableTransport,
    pub in_authority: String,
    pub out_authority: String,
    pub active: usize,
    pub listener: ForwardingListener,
}

/// The ghost image of a registry: each key with its refcount.
pub open spec fn registry_views(s: Seq<ListenerEntry>) -> Seq<(ListenerKeyView, nat)> {
    s.map_values(
        |e: ListenerEntry|
            (
                ListenerKeyView {
                    in_transport: e.in_transport.id,
                    in_authority: e.in_authority@,
                    out_authority: e.out_authority@,
                },
                e.active as nat,
            ),
    )
}

/// No key has two entries.
pub open spec fn registry_distinct(s: Seq<(ListenerKeyView, nat)>) -> bool {
    rc_distinct(s)
}

/// Every entry is referenced at least once.
pub open spec fn registry_positive(s: Seq<(ListenerKeyView, nat)>) -> bool {
    rc_positive(s)
}

/// Whether the registry holds an entry for `k`.
pub open spec fn registry_contains(s: Seq<(ListenerKeyView, nat)>, k: ListenerKeyView) -> bool {
    rc_contains(s, k)
}

/// The index of `k`'s entry.
pub open spec fn registry_index_of(s: Seq<(ListenerKeyView, nat)>, k: ListenerKeyView) -> int {
    rc_index_of(s, k)
}

/// How many routes share `k`'s listener: its entry's refcount, or zero.
pub open spec fn registry_refcount(s: Seq<(ListenerKeyView, nat)>, k: ListenerKeyView) -> nat {
    rc_refcount(s, k)
}

/// The registry after one more route shares `k`'s existing listener.
pub open spec fn registry_bump(s: Seq<(ListenerKeyView, nat)>, k: ListenerKeyView) -> Seq<
    (ListenerKeyView, nat),
> {
    rc_bump(s, k)
}

/// The registry after one route gives up `k`'s listener: the refcount drops by
/// one, and the entry leaves when it reaches zero.
pub open spec fn registry_drop_ref(s: Seq<(ListenerKeyView, nat)>, k: ListenerKeyView) -> Seq<
    (ListenerKeyView, nat),
> {
    rc_drop_ref(s, k)
}

/// The key for one route's ingress listener.
pub open spec fn listener_key(
    in_transport: u64,
    in_authority: Seq<char>,
    out_authority: Seq<char>,
) -> ListenerKeyView {
    ListenerKeyView { in_transport, in_authority, out_authority }
}

/// The ingress listener registry.
pub struct ForwardingListeners {
    listeners: Vec<ListenerEntry>,
}

impl ForwardingListeners {
    /// The registry's ghost image.
    pub closed spec fn view_registry(&self) -> Seq<(ListenerKeyView, nat)> {
        registry_views(self.listeners@)
    }

    /// Well-formed: one entry per key, every entry referenced.
    pub open spec fn wf(&self) -> bool {
        registry_distinct(self.view_registry()) && registry_positive(self.view_registry())
    }

    /// An empty registry.
    pub fn new() -> (r: ForwardingListeners)
        ensures
            r.wf(),
            r.view_registry() == Seq::<(ListenerKeyView, nat)>::empty(),
    {
        let r = ForwardingListeners { listeners: Vec::new() };
        proof {
            assert(r.view_registry() =~= Seq::<(ListenerKeyView, nat)>::empty());
        }
        r
    }

    /// How many listener keys have an entry.
    pub fn len(&self) -> (n: usize)
        ensures
            n == self.view_registry().len(),
    {
        self.listeners.len()
    }

    /// How many routes share the listener under the given key; zero without
    /// an entry.
    pub fn refcount_of(
        &self,
        in_transport_key: ComparableTransport,
        in_authority: &str,
        out_authority: &str,
    ) -> (r: usize)
        requires
            self.wf(),
        ensures
            r == registry_refcount(
                self.view_registry(),
                listener_key(in_transport_key.id, in_authority@, out_authority@),
            ),
    {
        match self.position_of(in_transport_key, in_authority, out_authority) {
            Some(i) => {
                proof {
                    crate::refcounts::lemma_rc_at_index(
                        self.view_registry(),
                        listener_key(in_transport_key.id, in_authority@, out_authority@),
                        i as int,
                    );
                }
                self.listeners[i].active
            },
            None => 0,
        }
    }

    /// The index of the entry for the given key, when present.
    fn position_of(
        &self,
        in_transport_key: ComparableTransport,
        in_authority: &str,
        out_authority: &str,
    ) -> (r: Option<usize>)
        ensures
            match r {
                Some(i) => i < self.view_registry().len() && self.view_registry()[i as int].0
                    == listener_key(in_transport_key.id, in_authority@, out_authority@),
                None => !registry_contains(
                    self.view_registry(),
                    listener_key(in_transport_key.id, in_authority@, out_authority@),
                ),
            },
    {
        let ghost k = listener_key(in_transport_key.id, in_authority@, out_authority@);
        let n = self.listeners.len();
        for i in 0..n
            invariant
                n == self.listeners.len(),
                k == listener_key(in_transport_key.id, in_authority@, out_authority@),
                forall|j: int| 0 <= j < i ==> self.view_registry()[j].0 != k,
        {
            let entry = &self.listeners[i];
            proof {
                assert(self.listeners@[i as int] == *entry);
                assert(self.view_registry()[i as int] == (
                    ListenerKeyView {
                        in_transport: self.listeners@[i as int].in_transport.id,
                        in_authority: self.listeners@[i as int].in_authority@,
                        out_authority: self.listeners@[i as int].out_authority@,
                    },
                    self.listeners@[i as int].active as nat,
                ));
            }
            if entry.in_transport.id == in_transport_key.id && str_eq(
                entry.in_authority.as_str(),
                in_authority,
            ) && str_eq(entry.out_authority.as_str(), out_authority) {
                proof {
                    assert(self.view_registry()[i as int].0 == k);
                }
                return Some(i);
            } else {
                proof {
                    assert(self.view_registry()[i as int].0 != k);
                }
            }
        }
        None
    }

    /// Installs (or shares) the listener for one route.
    ///
    /// An existing entry simply gains a reference: no listener is created and
    /// nothing is registered on the transport. Otherwise a fresh listener is
    /// bound to the route's queue sender and registered under the
    /// request/response filter pair and under every publish source filter the
    /// resolver derives from the subscription directory; if any registration
    /// fails, every registration made so far is unregistered again, the
    /// registry is left unchanged, and the failure is returned.
    pub fn insert<T: Transport>(
        &mut self,
        in_transport: &T,
        in_transport_key: ComparableTransport,
        in_authority: &str,
        out_authority: &str,
        forwarding_id: &str,
        out_sender: tokio::sync::broadcast::Sender<Message>,
        subscriptions: &SubscriptionDirectory,
    ) -> (r: Result<Option<ForwardingListener>, ForwardingListenerError>)
        requires
            old(self).wf(),
            registry_refcount(
                old(self).view_registry(),
                listener_key(in_transport_key.id, in_authority@, out_authority@),
            ) < usize::MAX,
        ensures
            final(self).wf(),
            ({
                let k = listener_key(in_transport_key.id, in_authority@, out_authority@);
                &&& registry_contains(old(self).view_registry(), k) ==> (r matches Ok(None))
                    && final(self).view_registry() == registry_bump(old(self).view_registry(), k)
                &&& !registry_contains(old(self).view_registry(), k) ==> match r {
                    Ok(shared) => (shared matches Some(listener) && listener.route_id_view()
                        == forwarding_id@) && final(self).view_registry() == old(
                        self,
                    ).view_registry().push((k, 1nat)),
                    Err(_) => final(self).view_registry() == old(self).view_registry(),
                }
            }),
    {
        let ghost k = listener_key(in_transport_key.id, in_authority@, out_authority@);
        let ghost old_registry = self.view_registry();
        if let Some(i) = self.position_of(in_transport_key, in_authority, out_authority) {
            proof {
                let j = registry_index_of(old_registry, k);
                assert(0 <= j < old_registry.len() && old_registry[j].0 == k);
                assert(j == i);
            }
            let current = self.listeners[i].active;
            let refreshed = ListenerEntry {
                in_transport: self.listeners[i].in_transport,
                in_authority: self.listeners[i].in_authority.clone(),
                out_authority: self.listeners[i].out_authority.clone(),
                active: current + 1,
                listener: self.listeners[i].listener.clone(),
            };
            self.listeners[i] = refreshed;
            proof {
                assert(self.view_registry() =~= registry_bump(old_registry, k));
            }
            return Ok(None);
        }
        let forwarding_listener = ForwardingListener::new(forwarding_id, out_sender);

        let request_source_filter = uauthority_to_uuri(in_authority);
        let request_sink_filter = uauthority_to_uuri(out_authority);

        if in_transport.register_listener(
            &request_source_filter,
            Some(&request_sink_filter),
            &forwarding_listener,
        ).is_err() {
            let _ = in_transport.unregister_listener(
                &request_source_filter,
                Some(&request_sink_filter),
                &forwarding_listener,
            );
            return Err(ForwardingListenerError::FailToRegisterNotificationRequestResponseListener);
        }
        let subscribers = subscriptions.lookup_route_subscribers(out_authority);
        let publish_source_filters = PublishRouteResolver::derive_source_filters(
            in_authority,
            out_authority,
            &subscribers,
        );
        let filter_count = publish_source_filters.len();
        let mut registered: usize = 0;
        let mut failed = false;
        while registered < filter_count && !failed
            invariant
                registered <= filter_count == publish_source_filters.len(),
                failed ==> registered < filter_count,
            decreases (if failed {
                0int
            } else {
                filter_count - registered + 1
            }),
        {
            if in_transport.register_listener(
                &publish_source_filters[registered],
                None,
                &forwarding_listener,
            ).is_err() {
                failed = true;
            } else {
                registered = registered + 1;
            }
        }
        if failed {
            let _ = in_transport.unregister_listener(
                &request_source_filter,
                Some(&request_sink_filter),
                &forwarding_listener,
            );
            for back in 0..registered
                invariant
                    registered < filter_count == publish_source_filters.len(),
            {
                let _ = in_transport.unregister_listener(
                    &publish_source_filters[back],
                    None,
                    &forwarding_listener,
                );
            }
            return Err(
                ForwardingListenerError::FailToRegisterPublishListener(
                    publish_source_filters[registered].clone(),
                ),
            );
        }
        let shared = forwarding_listener.clone();
        self.listeners.push(
            ListenerEntry {
                in_transport: in_transport_key,
                in_authority: in_authority.to_owned(),
                out_authority: out_authority.to_owned(),
                active: 1,
                listener: forwarding_listener,
            },
        );
        proof {
            assert(self.view_registry() =~= old_registry.push((k, 1nat)));
        }
        Ok(Some(shared))
    }

    /// Releases one route's share of a listener. When the last share goes,
    /// the entry is removed and the same filter set that installation
    /// registered is unregistered again: the request/response pair first, then
    /// every publish source filter recomputed from the subscription directory.
    /// A failed unregistration never aborts the remaining ones. Releasing an
    /// absent key changes nothing.
    pub fn remove<T: Transport>(
        &mut self,
        in_transport: &T,
        in_transport_key: ComparableTransport,
        in_authority: &str,
        out_authority: &str,
        subscriptions: &SubscriptionDirectory,
    )
        requires
            old(self).wf(),
        ensures
            final(self).wf(),
            ({
                let k = listener_key(in_transport_key.id, in_authority@, out_authority@);
                &&& registry_contains(old(self).view_registry(), k) ==> final(self).view_registry()
                    == registry_drop_ref(old(self).view_registry(), k)
                &&& !registry_contains(old(self).view_registry(), k) ==> final(self).view_registry()
                    == old(self).view_registry()
            }),
    {
        let ghost k = listener_key(in_transport_key.id, in_authority@, out_authority@);
        let ghost old_registry = self.view_registry();
        let position = self.position_of(in_transport_key, in_authority, out_authority);
        match position {
            None => {},
            Some(i) => {
                proof {
                    let j = registry_index_of(old_registry, k);
                    assert(0 <= j < old_registry.len() && old_registry[j].0 == k);
                    assert(j == i);
                }
                let current = self.listeners[i].active;
                if current > 1 {
                    let refreshed = ListenerEntry {
                        in_transport: self.listeners[i].in_transport,
                        in_authority: self.listeners[i].in_authority.clone(),
                        out_authority: self.listeners[i].out_authority.clone(),
                        active: current - 1,
                        listener: self.listeners[i].listener.clone(),
                    };
                    self.listeners[i] = refreshed;
                    proof {
                        assert(self.view_registry() =~= registry_drop_ref(old_registry, k));
                    }
                } else {
                    let removed = self.listeners.remove(i);
                    proof {
                        assert(self.view_registry() =~= old_registry.remove(i as int));
                        assert forall|a: int, b: int|
                            0 <= a < b < self.view_registry().len() implies self.view_registry()[a].0
                            != self.view_registry()[b].0 by {
                            let a0 = if a < i { a } else { a + 1 };
                            let b0 = if b < i { b } else { b + 1 };
                            assert(old_registry.remove(i as int)[a] == old_registry[a0]);
                            assert(old_registry.remove(i as int)[b] == old_registry[b0]);
                        }
                    }
                    let forwarding_listener = removed.listener;
                    let request_source_filter = uauthority_to_uuri(in_authority);
                    let request_sink_filter = uauthority_to_uuri(out_authority);
                    let _ = in_transport.unregister_listener(
                        &request_source_filter,
                        Some(&request_sink_filter),
                        &forwarding_listener,
                    );
                    let subscribers = subscriptions.lookup_route_subscribers(out_authority);
                    let publish_source_filters = PublishRouteResolver::derive_source_filters(
                        in_authority,
                        out_authority,
                        &subscribers,
                    );
                    let filter_count = publish_source_filters.len();
                    for idx in 0..filter_count
                        invariant
                            filter_count == publish_source_filters.len(),
                    {
                        let _ = in_transport.unregister_listener(
                            &publish_source_filters[idx],
                            None,
                            &forwarding_listener,
                        );
                    }
                }
            },
        }
    }
}

} // verus!
