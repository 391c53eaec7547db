//! The streamer facade: holds the route table, the egress pool, the ingress
//! listener registry and the subscription directory snapshot, and drives
//! `add_forwarding_rule` / `delete_forwarding_rule` across them with rollback.

use vstd::prelude::*;
use vstd::string::StringExecFns;
use crate::ComparableTransport;
use crate::egress_pool::{TransportForwarders, pool_bump, pool_contains, pool_drop_ref, pool_refcount};
use crate::endpoint::{Endpoint, EndpointView};
use crate::ingress_registry::{
    ForwardingListeners,
    ListenerKeyView,
    listener_key,
    registry_bump,
    registry_contains,
    registry_drop_ref,
    registry_refcount,
};
use crate::refcounts::{lemma_rc_at_index, lemma_rc_bump, lemma_rc_drop, lemma_rc_push};
use crate::route_counts::{
    egress_route_count,
    lemma_route_counts_le_len,
    lemma_route_counts_push,
    lemma_route_counts_remove,
    listener_route_count,
    rule_listener_key,
};
use crate::route_table::{
    ForwardingRules,
    RuleView,
    build_forwarding_rule,
    insert_forwarding_rule,
    remove_forwarding_rule,
    rule_of,
    rules_remove,
};
use crate::subscription::{SubscriptionDirectory, SubscriptionRecord, SubscriptionRecordView, record_views};
use crate::transport::{Message, Transport};
use crate::uri::{Uri, str_eq, uauthority_to_uuri};

verus! {

/// Failure surfaced by the streamer's route lifecycle.
#[derive(Debug)]
pub enum StreamerError {
    /// The request was unusable: a same-authority route, a failed subscription
    /// bootstrap, or a listener registration failure (the description says
    /// which).
    InvalidArgument(String),
    /// The route is already installed.
    AlreadyExists,
    /// No such route is installed.
    NotFound,
}

/// The request the streamer issues once, at construction, to fetch every
/// subscription: the universal subscriber (wildcard authority, all-ones
/// identity).
pub struct FetchSubscriptionsRequest {
    pub subscriber: Uri,
}

/// Source of subscription records, implemented by the embedding program: a
/// static file, an RPC client, or any other directory. Called exactly once at
/// streamer construction; the streamer states nothing about its behaviour and
/// handles both outcomes.
pub trait SubscriptionProvider {
    /// Returns every subscription record, or a reason the directory is
    /// unavailable.
    fn fetch_subscriptions(&self, request: &FetchSubscriptionsRequest) -> Result<
        Vec<SubscriptionRecord>,
        String,
    >;
}

/// Returned when a route brought a new egress transport into the pool: the
/// caller must start that transport's dispatch worker, feeding it from this
/// receiver.
pub struct EgressWorkerSpawn {
    pub egress_transport: ComparableTransport,
    pub receiver: tokio::sync::broadcast::Receiver<Message>,
}

/// The uProtocol streamer: forwards messages between transports along the
/// routes installed in it.
pub struct UStreamer {
    name: String,
    registered_forwarding_rules: ForwardingRules,
    transport_forwarders: TransportForwarders,
    forwarding_listeners: ForwardingListeners,
    subscription_directory: SubscriptionDirectory,
}

impl UStreamer {
    /// The installed routes.
    pub closed spec fn routes(&self) -> Seq<RuleView> {
        self.registered_forwarding_rules.view_rules()
    }

    /// The egress pool: each egress transport with its route count.
    pub closed spec fn pool(&self) -> Seq<(u64, nat)> {
        self.transport_forwarders.view_pool()
    }

    /// The listener registry: each listener key with its route count.
    pub closed spec fn registry(&self) -> Seq<(ListenerKeyView, nat)> {
        self.forwarding_listeners.view_registry()
    }

    /// The subscription directory snapshot.
    pub closed spec fn subscriptions(&self) -> Seq<SubscriptionRecordView> {
        self.subscription_directory.view_records()
    }

    /// The configured capacity of each egress queue.
    pub closed spec fn queue_capacity(&self) -> nat {
        self.transport_forwarders.queue_size()
    }

    /// The streamer's name, as given at construction.
    pub closed spec fn name_view(&self) -> Seq<char> {
        self.name@
    }

    /// Well-formed: the three stores are well-formed, every egress pool entry
    /// counts exactly the installed routes that use its transport, and every
    /// registry entry counts exactly the installed routes that share its
    /// listener.
    pub closed spec fn wf(&self) -> bool {
        &&& self.registered_forwarding_rules.wf()
        &&& self.transport_forwarders.wf()
        &&& self.forwarding_listeners.wf()
        &&& forall|t: u64|
            #[trigger] pool_refcount(self.pool(), t) == egress_route_count(self.routes(), t)
        &&& forall|k: ListenerKeyView|
            #[trigger] registry_refcount(self.registry(), k) == listener_route_count(
                self.routes(),
                k,
            )
    }

    /// Whether two streamer states hold the same routes, pool, registry and
    /// subscription snapshot.
    pub open spec fn same_stores(self, other: UStreamer) -> bool {
        &&& self.routes() == other.routes()
        &&& self.pool() == other.pool()
        &&& self.registry() == other.registry()
        &&& self.subscriptions() == other.subscriptions()
    }
}

/// What a successful `add_forwarding_rule` did to the stores: the rule is
/// appended; its egress transport's pool entry gains a reference, or appears
/// with one reference together with a worker-spawn request; its listener key's
/// registry entry gains a reference, or appears with one.
pub open spec fn route_added(
    pre: UStreamer,
    post: UStreamer,
    rule: RuleView,
    spawned: Option<EgressWorkerSpawn>,
) -> bool {
    &&& post.routes() == pre.routes().push(rule)
    &&& pool_contains(pre.pool(), rule.out_transport) ==> post.pool() == pool_bump(
        pre.pool(),
        rule.out_transport,
    ) && spawned is None
    &&& !pool_contains(pre.pool(), rule.out_transport) ==> post.pool() == pre.pool().push(
        (rule.out_transport, 1nat),
    ) && (spawned matches Some(w) && w.egress_transport.id == rule.out_transport)
    &&& registry_contains(pre.registry(), rule_listener_key(rule)) ==> post.registry()
        == registry_bump(pre.registry(), rule_listener_key(rule))
    &&& !registry_contains(pre.registry(), rule_listener_key(rule)) ==> post.registry()
        == pre.registry().push((rule_listener_key(rule), 1nat))
    &&& post.subscriptions() == pre.subscriptions()
}

/// The full contract of `add_forwarding_rule`: a same-authority pair is
/// rejected and changes nothing; an already-installed route is rejected and
/// changes nothing; otherwise either the route is installed as `route_added`
/// says, or a listener registration failed and every store reads as before.
pub open spec fn add_route_outcome(
    pre: UStreamer,
    post: UStreamer,
    ingress: EndpointView,
    egress: EndpointView,
    r: Result<Option<EgressWorkerSpawn>, StreamerError>,
) -> bool {
    let rule = rule_of(ingress, egress);
    &&& ingress.authority == egress.authority ==> (r matches Err(StreamerError::InvalidArgument(_)))
        && post.same_stores(pre)
    &&& ingress.authority != egress.authority && pre.routes().contains(rule) ==> (r matches Err(
        StreamerError::AlreadyExists,
    )) && post.same_stores(pre)
    &&& ingress.authority != egress.authority && !pre.routes().contains(rule) ==> match r {
        Ok(spawned) => route_added(pre, post, rule, spawned),
        Err(e) => (e matches StreamerError::InvalidArgument(_)) && post.same_stores(pre),
    }
}

/// The full contract of `delete_forwarding_rule`: a same-authority pair is
/// rejected and changes nothing; an absent route is `NotFound` and changes
/// nothing; otherwise the route leaves the table and both of its refcounts
/// drop by one, their entries leaving with the last reference.
pub open spec fn delete_route_outcome(
    pre: UStreamer,
    post: UStreamer,
    ingress: EndpointView,
    egress: EndpointView,
    r: Result<(), StreamerError>,
) -> bool {
    let rule = rule_of(ingress, egress);
    &&& ingress.authority == egress.authority ==> (r matches Err(StreamerError::InvalidArgument(_)))
        && post.same_stores(pre)
    &&& ingress.authority != egress.authority && !pre.routes().contains(rule) ==> (r matches Err(
        StreamerError::NotFound,
    )) && post.same_stores(pre)
    &&& ingress.authority != egress.authority && pre.routes().contains(rule) ==> {
        &&& r is Ok
        &&& post.routes() == rules_remove(pre.routes(), rule)
        &&& !post.routes().contains(rule)
        &&& post.pool() == pool_drop_ref(pre.pool(), rule.out_transport)
        &&& post.registry() == registry_drop_ref(pre.registry(), rule_listener_key(rule))
        &&& post.subscriptions() == pre.subscriptions()
    }
}

impl UStreamer {
    /// A streamer over an already-fetched subscription snapshot: no routes, an
    /// empty pool and registry.
    pub fn with_subscriptions(
        name: &str,
        message_queue_size: u16,
        subscriptions: Vec<SubscriptionRecord>,
    ) -> (r: UStreamer)
        requires
            message_queue_size >= 1,
        ensures
            r.wf(),
            r.routes() == Seq::<RuleView>::empty(),
            r.pool() == Seq::<(u64, nat)>::empty(),
            r.registry() == Seq::<(ListenerKeyView, nat)>::empty(),
            r.subscriptions() == record_views(subscriptions@),
            r.queue_capacity() == message_queue_size,
            r.name_view() == name@,
    {
        let r = UStreamer {
            name: name.to_owned(),
            registered_forwarding_rules: ForwardingRules::new(),
            transport_forwarders: TransportForwarders::new(message_queue_size as usize),
            forwarding_listeners: ForwardingListeners::new(),
            subscription_directory: SubscriptionDirectory::new(subscriptions),
        };
        proof {
            assert forall|t: u64|
                #[trigger] pool_refcount(r.pool(), t) == egress_route_count(r.routes(), t) by {
                assert(!pool_contains(r.pool(), t));
            }
            assert forall|k: ListenerKeyView|
                #[trigger] registry_refcount(r.registry(), k) == listener_route_count(
                    r.routes(),
                    k,
                ) by {
                assert(!registry_contains(r.registry(), k));
            }
        }
        r
    }

    /// Creates a streamer. The subscription directory is fetched once, here,
    /// with the universal-subscriber request; a provider failure is a fatal
    /// initialization error.
    pub fn new<P: SubscriptionProvider>(name: &str, message_queue_size: u16, usubscription: &P) -> (r:
        Result<UStreamer, StreamerError>)
        requires
            message_queue_size >= 1,
        ensures
            match r {
                Ok(s) => {
                    &&& s.wf()
                    &&& s.routes() == Seq::<RuleView>::empty()
                    &&& s.pool() == Seq::<(u64, nat)>::empty()
                    &&& s.registry() == Seq::<(ListenerKeyView, nat)>::empty()
                    &&& s.queue_capacity() == message_queue_size
                },
                Err(e) => e is InvalidArgument,
            },
    {
        let request = FetchSubscriptionsRequest { subscriber: uauthority_to_uuri("*") };
        match usubscription.fetch_subscriptions(&request) {
            Ok(records) => Ok(Self::with_subscriptions(name, message_queue_size, records)),
            Err(reason) => Err(StreamerError::InvalidArgument(reason)),
        }
    }

    /// The streamer's name.
    pub fn name(&self) -> (r: &str)
        ensures
            r@ == self.name_view(),
    {
        self.name.as_str()
    }

    /// How many routes are installed.
    pub fn route_count(&self) -> (n: usize)
        ensures
            n == self.routes().len(),
    {
        self.registered_forwarding_rules.len()
    }

    /// How many installed routes use `transport` as their egress transport.
    pub fn egress_refcount(&self, transport: ComparableTransport) -> (r: usize)
        requires
            self.wf(),
        ensures
            r == pool_refcount(self.pool(), transport.id),
    {
        self.transport_forwarders.refcount_of(transport)
    }

    /// How many installed routes share the ingress listener of the given
    /// transport and authority pair.
    pub fn listener_refcount(
        &self,
        in_transport: ComparableTransport,
        in_authority: &str,
        out_authority: &str,
    ) -> (r: usize)
        requires
            self.wf(),
        ensures
            r == registry_refcount(
                self.registry(),
                listener_key(in_transport.id, in_authority@, out_authority@),
            ),
    {
        self.forwarding_listeners.refcount_of(in_transport, in_authority, out_authority)
    }

    /// The label identifying one route in listener and worker names.
    fn forwarding_id(ingress: &Endpoint, egress: &Endpoint) -> (r: String)
        ensures
            r@ == ingress@.name + "->"@ + egress@.name,
    {
        let mut id = ingress.name.clone();
        id.append("->");
        id.append(egress.name.as_str());
        proof {
            assert(id@ =~= ingress@.name + "->"@ + egress@.name);
        }
        id
    }

    /// Installs a forwarding rule from `ingress` to `egress`, rolling every
    /// store back when the listener cannot be fully registered. On success the
    /// caller receives a worker-spawn request whenever the egress transport
    /// was new to the pool.
    pub fn add_forwarding_rule<T: Transport>(
        &mut self,
        ingress: Endpoint,
        egress: Endpoint,
        ingress_transport: &T,
    ) -> (r: Result<Option<EgressWorkerSpawn>, StreamerError>)
        requires
            old(self).wf(),
        ensures
            final(self).wf(),
            add_route_outcome(*old(self), *final(self), ingress@, egress@, r),
    {
        if str_eq(ingress.authority.as_str(), egress.authority.as_str()) {
            let reason = "cannot forward between endpoints of the same authority".to_owned();
            return Err(StreamerError::InvalidArgument(reason));
        }
        let forwarding_rule = build_forwarding_rule(&ingress, &egress);
        let ghost rule = forwarding_rule@;
        let ghost pre = *self;
        let inserted = insert_forwarding_rule(
            &mut self.registered_forwarding_rules,
            forwarding_rule.clone(),
        );
        if !inserted {
            proof {
                lemma_wf_same_stores(*old(self), *self);
            }
            return Err(StreamerError::AlreadyExists);
        }
        let route_len = self.registered_forwarding_rules.len();
        let ghost t = egress@.transport;
        proof {
            lemma_route_counts_le_len(pre.routes(), t, rule_listener_key(rule));
            assert(pool_refcount(pre.pool(), t) == egress_route_count(pre.routes(), t));
            assert(pre.routes().len() == route_len - 1);
            assert(pool_refcount(pre.pool(), t) < usize::MAX);
        }
        let (out_sender, maybe_receiver) = self.transport_forwarders.insert(egress.transport);
        let ghost mid = *self;
        let forwarding_id = Self::forwarding_id(&ingress, &egress);
        proof {
            assert(registry_refcount(pre.registry(), rule_listener_key(rule)) < usize::MAX);
            assert(rule_listener_key(rule) == listener_key(
                ingress.transport.id,
                ingress.authority@,
                egress.authority@,
            ));
        }
        let insert_result = self.forwarding_listeners.insert(
            ingress_transport,
            ingress.transport,
            ingress.authority.as_str(),
            egress.authority.as_str(),
            forwarding_id.as_str(),
            out_sender,
            &self.subscription_directory,
        );
        match insert_result {
            Err(registration_failure) => {
                remove_forwarding_rule(&mut self.registered_forwarding_rules, &forwarding_rule);
                self.transport_forwarders.remove(egress.transport);
                proof {
                    lemma_add_rollback_restores(pre, mid, *self, rule);
                    lemma_wf_same_stores(pre, *self);
                }
                Err(StreamerError::InvalidArgument(registration_failure.describe()))
            },
            Ok(_shared_listener) => {
                proof {
                    lemma_add_success_wf(pre, *self, rule);
                }
                match maybe_receiver {
                    Some(receiver) => Ok(
                        Some(EgressWorkerSpawn { egress_transport: egress.transport, receiver }),
                    ),
                    None => Ok(None),
                }
            },
        }
    }

    /// Deletes the forwarding rule from `ingress` to `egress`, releasing its
    /// share of the egress worker and of the ingress listener.
    pub fn delete_forwarding_rule<T: Transport>(
        &mut self,
        ingress: Endpoint,
        egress: Endpoint,
        ingress_transport: &T,
    ) -> (r: Result<(), StreamerError>)
        requires
            old(self).wf(),
        ensures
            final(self).wf(),
            delete_route_outcome(*old(self), *final(self), ingress@, egress@, r),
    {
        if str_eq(ingress.authority.as_str(), egress.authority.as_str()) {
            let reason = "cannot forward between endpoints of the same authority".to_owned();
            return Err(StreamerError::InvalidArgument(reason));
        }
        let forwarding_rule = build_forwarding_rule(&ingress, &egress);
        let ghost rule = forwarding_rule@;
        let ghost pre = *self;
        let removed = remove_forwarding_rule(
            &mut self.registered_forwarding_rules,
            &forwarding_rule,
        );
        if !removed {
            proof {
                lemma_wf_same_stores(*old(self), *self);
            }
            return Err(StreamerError::NotFound);
        }
        proof {
            lemma_delete_prepares(pre, rule);
        }
        self.transport_forwarders.remove(egress.transport);
        self.forwarding_listeners.remove(
            ingress_transport,
            ingress.transport,
            ingress.authority.as_str(),
            egress.authority.as_str(),
            &self.subscription_directory,
        );
        proof {
            lemma_delete_success_wf(pre, *self, rule);
        }
        Ok(())
    }
}

/// A streamer whose well-formed components read exactly as a well-formed
/// state's is well-formed itself.
proof fn lemma_wf_same_stores(pre: UStreamer, post: UStreamer)
    requires
        pre.wf(),
        post.same_stores(pre),
        post.registered_forwarding_rules.wf(),
        post.transport_forwarders.wf(),
        post.forwarding_listeners.wf(),
    ensures
        post.wf(),
{
    assert forall|t: u64|
        #[trigger] pool_refcount(post.pool(), t) == egress_route_count(post.routes(), t) by {
        assert(pool_refcount(pre.pool(), t) == egress_route_count(pre.routes(), t));
    }
    assert forall|k: ListenerKeyView|
        #[trigger] registry_refcount(post.registry(), k) == listener_route_count(
            post.routes(),
            k,
        ) by {
        assert(registry_refcount(pre.registry(), k) == listener_route_count(pre.routes(), k));
    }
}

/// After a failed listener registration, undoing the route insert and the
/// pool reference leaves every store exactly as before the call.
proof fn lemma_add_rollback_restores(pre: UStreamer, mid: UStreamer, post: UStreamer, rule: RuleView)
    requires
        pre.wf(),
        !pre.routes().contains(rule),
        mid.routes() == pre.routes().push(rule),
        pool_contains(pre.pool(), rule.out_transport) ==> mid.pool() == pool_bump(
            pre.pool(),
            rule.out_transport,
        ),
        !pool_contains(pre.pool(), rule.out_transport) ==> mid.pool() == pre.pool().push(
            (rule.out_transport, 1nat),
        ),
        mid.registry() == pre.registry(),
        mid.subscriptions() == pre.subscriptions(),
        post.routes() == rules_remove(mid.routes(), rule),
        pool_contains(mid.pool(), rule.out_transport) ==> post.pool() == pool_drop_ref(
            mid.pool(),
            rule.out_transport,
        ),
        !pool_contains(mid.pool(), rule.out_transport) ==> post.pool() == mid.pool(),
        post.registry() == mid.registry(),
        post.subscriptions() == mid.subscriptions(),
    ensures
        post.same_stores(pre),
{
    let t = rule.out_transport;
    // The pushed rule is the only occurrence, so removing it restores the table.
    let pushed = pre.routes().push(rule);
    assert(pushed[pre.routes().len() as int] == rule);
    assert(pushed.contains(rule));
    let i = choose|i: int| 0 <= i < pushed.len() && pushed[i] == rule;
    if i < pre.routes().len() {
        assert(pre.routes()[i] == rule);
        assert(pre.routes().contains(rule));
    }
    assert(i == pre.routes().len());
    assert(post.routes() =~= pre.routes());

    if pool_contains(pre.pool(), t) {
        let i0 = crate::refcounts::rc_index_of(pre.pool(), t);
        assert(0 <= i0 < pre.pool().len() && pre.pool()[i0].0 == t);
        lemma_rc_bump(pre.pool(), t);
        assert(mid.pool()[i0].0 == t);
        lemma_rc_at_index(mid.pool(), t, i0);
        assert(pool_refcount(mid.pool(), t) == pool_refcount(pre.pool(), t) + 1);
        assert(pool_refcount(pre.pool(), t) >= 1);
        assert(pool_contains(mid.pool(), t));
        assert(post.pool() == pool_drop_ref(mid.pool(), t));
        assert(post.pool() == mid.pool().update(
            i0,
            (t, (pool_refcount(mid.pool(), t) - 1) as nat),
        ));
        assert(pre.pool()[i0] == (t, pool_refcount(pre.pool(), t)));
        assert(post.pool() =~= pre.pool());
    } else {
        lemma_rc_push(pre.pool(), t);
        assert(mid.pool() == pre.pool().push((t, 1nat)));
        lemma_rc_at_index(mid.pool(), t, pre.pool().len() as int);
        assert(pool_contains(mid.pool(), t));
        assert(pool_refcount(mid.pool(), t) == 1);
        assert(post.pool() == mid.pool().remove(pre.pool().len() as int));
        assert(post.pool() =~= pre.pool());
    }
}

/// After the route insert, the pool reference and the listener share all
/// succeeded, the refcount invariants hold again.
proof fn lemma_add_success_wf(pre: UStreamer, post: UStreamer, rule: RuleView)
    requires
        pre.wf(),
        post.registered_forwarding_rules.wf(),
        post.transport_forwarders.wf(),
        post.forwarding_listeners.wf(),
        post.routes() == pre.routes().push(rule),
        pool_contains(pre.pool(), rule.out_transport) ==> post.pool() == pool_bump(
            pre.pool(),
            rule.out_transport,
        ),
        !pool_contains(pre.pool(), rule.out_transport) ==> post.pool() == pre.pool().push(
            (rule.out_transport, 1nat),
        ),
        registry_contains(pre.registry(), rule_listener_key(rule)) ==> post.registry()
            == registry_bump(pre.registry(), rule_listener_key(rule)),
        !registry_contains(pre.registry(), rule_listener_key(rule)) ==> post.registry()
            == pre.registry().push((rule_listener_key(rule), 1nat)),
    ensures
        post.wf(),
{
    let t = rule.out_transport;
    let k = rule_listener_key(rule);
    if pool_contains(pre.pool(), t) {
        lemma_rc_bump(pre.pool(), t);
    } else {
        lemma_rc_push(pre.pool(), t);
    }
    if registry_contains(pre.registry(), k) {
        lemma_rc_bump(pre.registry(), k);
    } else {
        lemma_rc_push(pre.registry(), k);
    }
    assert forall|u: u64|
        #[trigger] pool_refcount(post.pool(), u) == egress_route_count(post.routes(), u) by {
        lemma_route_counts_push(pre.routes(), rule, u, k);
        assert(pool_refcount(pre.pool(), u) == egress_route_count(pre.routes(), u));
    }
    assert forall|u: ListenerKeyView|
        #[trigger] registry_refcount(post.registry(), u) == listener_route_count(
            post.routes(),
            u,
        ) by {
        lemma_route_counts_push(pre.routes(), rule, t, u);
        assert(registry_refcount(pre.registry(), u) == listener_route_count(pre.routes(), u));
    }
}

/// A route that is installed keeps both of its refcounts at one or more, so
/// its pool entry and registry entry are present.
proof fn lemma_delete_prepares(pre: UStreamer, rule: RuleView)
    requires
        pre.wf(),
        pre.routes().contains(rule),
    ensures
        pool_contains(pre.pool(), rule.out_transport),
        registry_contains(pre.registry(), rule_listener_key(rule)),
        pool_refcount(pre.pool(), rule.out_transport) >= 1,
        registry_refcount(pre.registry(), rule_listener_key(rule)) >= 1,
{
    let t = rule.out_transport;
    let k = rule_listener_key(rule);
    let i = choose|i: int| 0 <= i < pre.routes().len() && pre.routes()[i] == rule;
    lemma_route_counts_remove(pre.routes(), i, t, k);
    assert(egress_route_count(pre.routes(), t) >= 1);
    assert(listener_route_count(pre.routes(), k) >= 1);
    assert(pool_refcount(pre.pool(), t) >= 1);
    assert(registry_refcount(pre.registry(), k) >= 1);
    if !pool_contains(pre.pool(), t) {
        assert(pool_refcount(pre.pool(), t) == 0);
    }
    if !registry_contains(pre.registry(), k) {
        assert(registry_refcount(pre.registry(), k) == 0);
    }
}

/// After the route leaves the table and both refcounts drop, the refcount
/// invariants hold again.
proof fn lemma_delete_success_wf(pre: UStreamer, post: UStreamer, rule: RuleView)
    requires
        pre.wf(),
        pre.routes().contains(rule),
        post.registered_forwarding_rules.wf(),
        post.transport_forwarders.wf(),
        post.forwarding_listeners.wf(),
        post.routes() == rules_remove(pre.routes(), rule),
        post.pool() == pool_drop_ref(pre.pool(), rule.out_transport),
        post.registry() == registry_drop_ref(pre.registry(), rule_listener_key(rule)),
    ensures
        post.wf(),
{
    let t = rule.out_transport;
    let k = rule_listener_key(rule);
    lemma_delete_prepares(pre, rule);
    lemma_rc_drop(pre.pool(), t);
    lemma_rc_drop(pre.registry(), k);
    let i = choose|i: int| 0 <= i < pre.routes().len() && pre.routes()[i] == rule;
    assert(post.routes() == pre.routes().remove(i));
    assert forall|u: u64|
        #[trigger] pool_refcount(post.pool(), u) == egress_route_count(post.routes(), u) by {
        lemma_route_counts_remove(pre.routes(), i, u, k);
        assert(pool_refcount(pre.pool(), u) == egress_route_count(pre.routes(), u));
    }
    assert forall|u: ListenerKeyView|
        #[trigger] registry_refcount(post.registry(), u) == listener_route_count(
            post.routes(),
            u,
        ) by {
        lemma_route_counts_remove(pre.routes(), i, t, u);
        assert(registry_refcount(pre.registry(), u) == listener_route_count(pre.routes(), u));
    }
}

impl UStreamer {
    /// Installs a forwarding route; the route-lifecycle name of
    /// [`UStreamer::add_forwarding_rule`].
    pub fn add_route<T: Transport>(
        &mut self,
        ingress: Endpoint,
        egress: Endpoint,
        ingress_transport: &T,
    ) -> (r: Result<Option<EgressWorkerSpawn>, StreamerError>)
        requires
            old(self).wf(),
        ensures
            final(self).wf(),
            add_route_outcome(*old(self), *final(self), ingress@, egress@, r),
    {
        self.add_forwarding_rule(ingress, egress, ingress_transport)
    }

    /// Deletes a forwarding route; the route-lifecycle name of
    /// [`UStreamer::delete_forwarding_rule`].
    pub fn delete_route<T: Transport>(
        &mut self,
        ingress: Endpoint,
        egress: Endpoint,
        ingress_transport: &T,
    ) -> (r: Result<(), StreamerError>)
        requires
            old(self).wf(),
        ensures
            final(self).wf(),
            delete_route_outcome(*old(self), *final(self), ingress@, egress@, r),
    {
        self.delete_forwarding_rule(ingress, egress, ingress_transport)
    }
}

/// Law: in every well-formed streamer state, each egress transport's pool
/// entry counts exactly the installed routes that use it, and each listener
/// key's registry entry counts exactly the installed routes that share it. In
/// particular, any number of routes sharing one egress transport share one
/// queue entry, and any number of routes sharing one listener key share one
/// listener registration.
pub proof fn lemma_refcounts_match_routes(s: UStreamer, t: u64, k: ListenerKeyView)
    requires
        s.wf(),
    ensures
        pool_refcount(s.pool(), t) == egress_route_count(s.routes(), t),
        registry_refcount(s.registry(), k) == listener_route_count(s.routes(), k),
{
}

/// Law: after a route is installed, installing the same route again is
/// rejected with `AlreadyExists` and leaves the routes, the pool refcounts
/// and the registry refcounts unchanged.
pub proof fn lemma_duplicate_add_rejected(
    pre: UStreamer,
    mid: UStreamer,
    post: UStreamer,
    ingress: EndpointView,
    egress: EndpointView,
    spawned: Option<EgressWorkerSpawn>,
    r2: Result<Option<EgressWorkerSpawn>, StreamerError>,
)
    requires
        ingress.authority != egress.authority,
        !pre.routes().contains(rule_of(ingress, egress)),
        add_route_outcome(pre, mid, ingress, egress, Ok(spawned)),
        add_route_outcome(mid, post, ingress, egress, r2),
    ensures
        r2 matches Err(StreamerError::AlreadyExists),
        post.same_stores(mid),
{
    let rule = rule_of(ingress, egress);
    assert(mid.routes() == pre.routes().push(rule));
    assert(mid.routes()[pre.routes().len() as int] == rule);
    assert(mid.routes().contains(rule));
}

/// Law: after a route is deleted, deleting it again is rejected with
/// `NotFound` and changes nothing.
pub proof fn lemma_delete_idempotent(
    pre: UStreamer,
    mid: UStreamer,
    post: UStreamer,
    ingress: EndpointView,
    egress: EndpointView,
    r2: Result<(), StreamerError>,
)
    requires
        ingress.authority != egress.authority,
        pre.routes().contains(rule_of(ingress, egress)),
        delete_route_outcome(pre, mid, ingress, egress, Ok(())),
        delete_route_outcome(mid, post, ingress, egress, r2),
    ensures
        r2 matches Err(StreamerError::NotFound),
        post.same_stores(mid),
{
    assert(!mid.routes().contains(rule_of(ingress, egress)));
}

/// Law: a well-formed streamer holds at most one pool entry, and so one
/// broadcast queue and one worker, per egress transport.
pub proof fn lemma_one_queue_per_transport(s: UStreamer, i: int, j: int)
    requires
        s.wf(),
        0 <= i < s.pool().len(),
        0 <= j < s.pool().len(),
        s.pool()[i].0 == s.pool()[j].0,
    ensures
        i == j,
{
    if i < j {
        assert(s.pool()[i].0 != s.pool()[j].0);
    }
    if j < i {
        assert(s.pool()[j].0 != s.pool()[i].0);
    }
}

/// Law: installing a route whose egress transport is already used by an
/// installed route spawns no new worker; the existing pool entry just gains a
/// reference.
pub proof fn lemma_shared_egress_reuses_worker(
    pre: UStreamer,
    post: UStreamer,
    rule: RuleView,
    spawned: Option<EgressWorkerSpawn>,
)
    requires
        pre.wf(),
        route_added(pre, post, rule, spawned),
        egress_route_count(pre.routes(), rule.out_transport) >= 1,
    ensures
        spawned is None,
        post.pool().len() == pre.pool().len(),
        pool_refcount(post.pool(), rule.out_transport) == pool_refcount(
            pre.pool(),
            rule.out_transport,
        ) + 1,
{
    let t = rule.out_transport;
    assert(pool_refcount(pre.pool(), t) == egress_route_count(pre.routes(), t));
    assert(pool_refcount(pre.pool(), t) >= 1);
    assert(pool_contains(pre.pool(), t));
    lemma_rc_bump(pre.pool(), t);
}

/// Law: installing a route whose (ingress transport, ingress authority,
/// egress authority) listener is already installed registers nothing new; the
/// existing registry entry just gains a reference.
pub proof fn lemma_shared_listener_reused(
    pre: UStreamer,
    post: UStreamer,
    rule: RuleView,
    spawned: Option<EgressWorkerSpawn>,
)
    requires
        pre.wf(),
        route_added(pre, post, rule, spawned),
        listener_route_count(pre.routes(), rule_listener_key(rule)) >= 1,
    ensures
        post.registry().len() == pre.registry().len(),
        registry_refcount(post.registry(), rule_listener_key(rule)) == registry_refcount(
            pre.registry(),
            rule_listener_key(rule),
        ) + 1,
{
    let k = rule_listener_key(rule);
    assert(registry_refcount(pre.registry(), k) == listener_route_count(pre.routes(), k));
    assert(registry_refcount(pre.registry(), k) >= 1);
    assert(registry_contains(pre.registry(), k));
    lemma_rc_bump(pre.registry(), k);
}

} // verus!
