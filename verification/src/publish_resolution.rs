//! Publish-source filter derivation: given the subscribers of a route's egress
//! authority, derive the deduplicated set of publish source filters that the
//! route's ingress listener must subscribe to.

use vstd::prelude::*;
use crate::uri::{Uri, UriView, authority_admits, wildcard_authority};
use crate::subscription::{SubscriptionRecord, SubscriptionRecordView, record_views};

verus! {

/// Whether a subscription topic can originate from the ingress authority: its
/// authority is the ingress authority, or the wildcard `*`.
pub open spec fn topic_admits_ingress(topic_authority: Seq<char>, ingress_authority: Seq<char>) -> bool {
    authority_admits(topic_authority, ingress_authority)
}

/// The publish source filter synthesized from a topic: the ingress authority
/// with the topic's entity, version and resource fields.
pub open spec fn synthesized_filter(ingress_authority: Seq<char>, topic: UriView) -> UriView {
    UriView {
        authority_name: ingress_authority,
        ue_id: topic.ue_id,
        ue_version_major: topic.ue_version_major,
        resource_id: topic.resource_id,
    }
}

/// The source filter one topic contributes: the synthesized filter when the
/// topic's authority admits the ingress authority, nothing otherwise.
pub open spec fn filter_for_topic(ingress_authority: Seq<char>, topic: UriView) -> Option<UriView> {
    if topic_admits_ingress(topic.authority_name, ingress_authority) {
        Some(synthesized_filter(ingress_authority, topic))
    } else {
        None
    }
}

/// The source filters contributed by a sequence of subscription records, in
/// order, duplicates included.
pub open spec fn contributed_filters(
    ingress_authority: Seq<char>,
    subscribers: Seq<SubscriptionRecordView>,
) -> Seq<UriView>
    decreases subscribers.len(),
{
    if subscribers.len() == 0 {
        Seq::empty()
    } else {
        let rest = contributed_filters(ingress_authority, subscribers.drop_last());
        match filter_for_topic(ingress_authority, subscribers.last().topic) {
            Some(filter) => rest.push(filter),
            None => rest,
        }
    }
}

/// A sequence with every element's first occurrence kept and later duplicates
/// dropped.
pub open spec fn first_occurrences(s: Seq<UriView>) -> Seq<UriView>
    decreases s.len(),
{
    if s.len() == 0 {
        Seq::empty()
    } else {
        let rest = first_occurrences(s.drop_last());
        if s.drop_last().contains(s.last()) {
            rest
        } else {
            rest.push(s.last())
        }
    }
}

/// What the resolver returns: the deduplicated source filters of the given
/// subscribers, for one ingress authority.
pub open spec fn resolved_filters(
    ingress_authority: Seq<char>,
    subscribers: Seq<SubscriptionRecordView>,
) -> Seq<UriView> {
    first_occurrences(contributed_filters(ingress_authority, subscribers))
}

/// The ghost images of a sequence of URIs.
pub open spec fn uri_views(s: Seq<Uri>) -> Seq<UriView> {
    s.map_values(|u: Uri| u@)
}

/// `first_occurrences` keeps membership: it holds an element iff the input
/// holds it.
pub proof fn lemma_first_occurrences_membership(s: Seq<UriView>, x: UriView)
    ensures
        first_occurrences(s).contains(x) <==> s.contains(x),
    decreases s.len(),
{
    if s.len() > 0 {
        lemma_first_occurrences_membership(s.drop_last(), x);
        if s.contains(x) {
            if x == s.last() {
                if s.drop_last().contains(x) {
                    assert(first_occurrences(s).contains(x));
                } else {
                    assert(first_occurrences(s) == first_occurrences(s.drop_last()).push(s.last()));
                    assert(first_occurrences(s).last() == x);
                    assert(first_occurrences(s).contains(x));
                }
            } else {
                let i = choose|i: int| 0 <= i < s.len() && s[i] == x;
                assert(s[i] == x && i < s.len() - 1);
                assert(s.drop_last()[i] == x);
                assert(s.drop_last().contains(x));
                assert(first_occurrences(s.drop_last()).contains(x));
                let j = choose|j: int|
                    0 <= j < first_occurrences(s.drop_last()).len() && first_occurrences(
                        s.drop_last(),
                    )[j] == x;
                assert(first_occurrences(s)[j] == x);
            }
        } else {
            assert(!s.drop_last().contains(x));
            if first_occurrences(s).contains(x) {
                let j = choose|j: int|
                    0 <= j < first_occurrences(s).len() && first_occurrences(s)[j] == x;
                if j < first_occurrences(s.drop_last()).len() {
                    assert(first_occurrences(s.drop_last()).contains(x));
                } else {
                    assert(x == s.last());
                    assert(s.contains(x));
                }
            }
        }
    }
}

/// The deduplicated resolver output holds no element twice.
pub proof fn lemma_first_occurrences_distinct(s: Seq<UriView>)
    ensures
        forall|i: int, j: int|
            0 <= i < j < first_occurrences(s).len() ==> first_occurrences(s)[i] != first_occurrences(
                s,
            )[j],
    decreases s.len(),
{
    if s.len() > 0 {
        lemma_first_occurrences_distinct(s.drop_last());
        let prev = first_occurrences(s.drop_last());
        if !s.drop_last().contains(s.last()) {
            lemma_first_occurrences_membership(s.drop_last(), s.last());
            assert(!prev.contains(s.last()));
            assert forall|i: int, j: int|
                0 <= i < j < first_occurrences(s).len() implies first_occurrences(s)[i]
                != first_occurrences(s)[j] by {
                if j < prev.len() {
                } else {
                    assert(first_occurrences(s)[j] == s.last());
                    assert(first_occurrences(s)[i] == prev[i]);
                    if prev[i] == s.last() {
                        assert(prev.contains(s.last()));
                    }
                }
            }
        }
    }
}

/// Resolves publish source filters for route listeners under one
/// ingress-to-egress pair.
pub struct PublishRouteResolver;

impl PublishRouteResolver {
    /// Returns `true` when a subscription topic can originate from the ingress
    /// authority: the topic authority is the ingress authority, or `*`.
    pub fn topic_matches_ingress_authority(ingress_authority: &str, topic: &Uri) -> (r: bool)
        ensures
            r == topic_admits_ingress(topic@.authority_name, ingress_authority@),
    {
        crate::uri::authority_matches(topic.authority_name.as_str(), ingress_authority)
    }

    /// Builds the publish source filter for one subscriber topic, when the
    /// topic admits the ingress authority; `None` drops the record.
    pub fn derive_source_filter_for_topic(ingress_authority: &str, egress_authority: &str, topic: &Uri) -> (r: Option<Uri>)
        ensures
            match r {
                Some(filter) => filter_for_topic(ingress_authority@, topic@) == Some(filter@),
                None => filter_for_topic(ingress_authority@, topic@) is None,
            },
    {
        if !Self::topic_matches_ingress_authority(ingress_authority, topic) {
            return None;
        }
        Some(
            Uri::new(
                ingress_authority.to_owned(),
                topic.ue_id,
                topic.ue_version_major,
                topic.resource_id,
            ),
        )
    }

    /// Derives the deduplicated publish source filters for all matching
    /// subscribers: every record whose topic authority is the ingress
    /// authority or `*` contributes the synthesized filter, duplicates are
    /// dropped, and records whose topic authority is neither contribute
    /// nothing.
    pub fn derive_source_filters(
        ingress_authority: &str,
        egress_authority: &str,
        subscribers: &Vec<SubscriptionRecord>,
    ) -> (r: Vec<Uri>)
        ensures
            uri_views(r@) == resolved_filters(ingress_authority@, record_views(subscribers@)),
    {
        let mut result: Vec<Uri> = Vec::new();
        let n = subscribers.len();
        for i in 0..n
            invariant
                n == subscribers.len(),
                uri_views(result@) == resolved_filters(
                    ingress_authority@,
                    record_views(subscribers@.take(i as int)),
                ),
        {
            proof {
                assert(record_views(subscribers@.take(i + 1 as int)).drop_last() =~= record_views(
                    subscribers@.take(i as int),
                ));
                assert(record_views(subscribers@.take(i + 1 as int)).last() == subscribers@[
                    i as int]@);
            }
            let ghost prior = contributed_filters(
                ingress_authority@,
                record_views(subscribers@.take(i as int)),
            );
            let ghost old_views = uri_views(result@);
            if let Some(filter) = Self::derive_source_filter_for_topic(
                ingress_authority,
                egress_authority,
                &subscribers[i].topic,
            ) {
                proof {
                    assert(contributed_filters(
                        ingress_authority@,
                        record_views(subscribers@.take(i + 1 as int)),
                    ) == prior.push(filter@));
                    assert(prior.push(filter@).drop_last() =~= prior);
                    assert(prior.push(filter@).last() == filter@);
                }
                let already_present = Self::contains_uri(&result, &filter);
                proof {
                    lemma_first_occurrences_membership(prior, filter@);
                    assert(already_present == prior.contains(filter@));
                }
                if !already_present {
                    result.push(filter);
                    proof {
                        assert(uri_views(result@) =~= first_occurrences(prior).push(filter@));
                    }
                }
            } else {
                proof {
                    assert(contributed_filters(
                        ingress_authority@,
                        record_views(subscribers@.take(i + 1 as int)),
                    ) == prior);
                }
            }
            proof {
                assert(uri_views(result@) =~= resolved_filters(
                    ingress_authority@,
                    record_views(subscribers@.take(i + 1 as int)),
                ));
            }
        }
        proof {
            assert(subscribers@.take(n as int) =~= subscribers@);
        }
        result
    }

    /// Whether `filters` already holds a URI structurally equal to `uri`.
    fn contains_uri(filters: &Vec<Uri>, uri: &Uri) -> (r: bool)
        ensures
            r == uri_views(filters@).contains(uri@),
    {
        let n = filters.len();
        for i in 0..n
            invariant
                n == filters.len(),
                forall|k: int| 0 <= k < i ==> filters@[k]@ != uri@,
        {
            if filters[i].matches(uri) {
                proof {
                    assert(uri_views(filters@)[i as int] == uri@);
                }
                return true;
            }
        }
        proof {
            if uri_views(filters@).contains(uri@) {
                let j = choose|j: int|
                    0 <= j < uri_views(filters@).len() && uri_views(filters@)[j] == uri@;
                assert(filters@[j]@ == uri@);
            }
        }
        false
    }
}

/// Law: the resolver's output holds no duplicate URIs, for any ingress
/// authority and any sequence of subscription records.
pub proof fn lemma_resolver_output_deduplicated(
    ingress_authority: Seq<char>,
    subscribers: Seq<SubscriptionRecordView>,
)
    ensures
        forall|i: int, j: int|
            0 <= i < j < resolved_filters(ingress_authority, subscribers).len() ==> resolved_filters(
                ingress_authority,
                subscribers,
            )[i] != resolved_filters(ingress_authority, subscribers)[j],
{
    lemma_first_occurrences_distinct(contributed_filters(ingress_authority, subscribers));
}

/// Law: a subscription whose topic authority is neither the ingress authority
/// nor the wildcard `*` contributes nothing to the resolver's output.
pub proof fn lemma_resolver_authority_filter(
    ingress_authority: Seq<char>,
    subscribers: Seq<SubscriptionRecordView>,
    blocked: SubscriptionRecordView,
)
    requires
        blocked.topic.authority_name != wildcard_authority(),
        blocked.topic.authority_name != ingress_authority,
    ensures
        resolved_filters(ingress_authority, subscribers.push(blocked)) == resolved_filters(
            ingress_authority,
            subscribers,
        ),
{
    assert(subscribers.push(blocked).drop_last() =~= subscribers);
    assert(filter_for_topic(ingress_authority, blocked.topic) is None);
}

/// Law: a topic with the wildcard authority `*` produces a source filter whose
/// authority is the ingress authority and whose entity, version and resource
/// fields are the topic's own.
pub proof fn lemma_wildcard_topic_rewrite(ingress_authority: Seq<char>, topic: UriView)
    requires
        topic.authority_name == wildcard_authority(),
    ensures
        filter_for_topic(ingress_authority, topic) == Some(
            UriView {
                authority_name: ingress_authority,
                ue_id: topic.ue_id,
                ue_version_major: topic.ue_version_major,
                resource_id: topic.resource_id,
            },
        ),
{
}

} // verus!
