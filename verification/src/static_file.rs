//! Read-only subscription backend over a static JSON configuration: an object
//! mapping topic URI keys to arrays of subscriber URI strings. Unusable
//! topics, subscriber lists and subscribers are skipped, never fatal; only a
//! file that is no JSON object at all is an error.
//!
//! The embedding program reads the configured file and hands its text in;
//! everything after that point is plain parsing and filtering.

use vstd::prelude::*;
use crate::publish_resolution::{first_occurrences, lemma_first_occurrences_membership, uri_views};
use crate::subscription::{SubscriptionRecord, SubscriptionRecordView, record_views};
use crate::uri::{Uri, UriView};

verus! {

/// Every topic of the static configuration is normalized to this resource
/// identifier.
pub const STATIC_RESOURCE_ID: u32 = 0x8001;

/// The static-file subscription backend: remembers which file it was created
/// over.
pub struct USubscriptionStaticFile {
    static_file: String,
}

/// One top-level entry of the configuration, decomposed into plain values:
/// the topic key and, when the entry's value is an array, its elements (each
/// a string, or nothing where the element is no string).
pub type TopicEntry = (String, Option<Vec<Option<String>>>);

/// The ghost image of a decomposed entry.
pub open spec fn topic_entry_view(e: TopicEntry) -> (Seq<char>, Option<Seq<Option<Seq<char>>>>) {
    (
        e.0@,
        match e.1 {
            Some(values) => Some(
                values@.map_values(
                    |v: Option<String>|
                        match v {
                            Some(s) => Some(s@),
                            None => None,
                        },
                ),
            ),
            None => None,
        },
    )
}

/// The ghost images of a sequence of decomposed entries.
pub open spec fn topic_entry_views(s: Seq<TopicEntry>) -> Seq<
    (Seq<char>, Option<Seq<Option<Seq<char>>>>),
> {
    s.map_values(|e: TopicEntry| topic_entry_view(e))
}

/// The top-level object entries of a JSON text, when the text is a JSON
/// object; what the outside JSON parser yields.
pub uninterp spec fn json_topic_entries(text: Seq<char>) -> Option<
    Seq<(Seq<char>, Option<Seq<Option<Seq<char>>>>)>,
>;

/// Relies on `serde_json::from_str` and the `serde_json::Value` accessors
/// `as_object`, `as_array` and `as_str`: whether a text is a JSON object, and
/// the decomposition of its entries into keys, arrays and strings, are
/// functions of the text alone. The entries come out in the parser's own
/// deterministic order (its object map is ordered by key).
#[verifier::external_body]
fn parse_json_topic_entries(text: &str) -> (r: Option<Vec<TopicEntry>>)
    ensures
        (r is Some) == (json_topic_entries(text@) is Some),
        r matches Some(entries) ==> json_topic_entries(text@) == Some(
            topic_entry_views(entries@),
        ),
{
    let value: serde_json::Value = serde_json::from_str(text).ok()?;
    let object = value.as_object()?;
    Some(
        object.iter().map(
            |(topic_key, subscriber_values)| {
                (
                    topic_key.clone(),
                    subscriber_values.as_array().map(
                        |values| values.iter().map(|v| v.as_str().map(str::to_owned)).collect(),
                    ),
                )
            },
        ).collect(),
    )
}

/// The result of parsing a URI string; what the outside uProtocol URI parser
/// accepts and yields.
pub uninterp spec fn parsed_uri(s: Seq<char>) -> Option<UriView>;

/// Relies on `up_rust::UUri::from_str`: whether a URI string parses, and the
/// authority, entity, version and resource fields it parses to, are functions
/// of the string alone.
#[verifier::external_body]
fn parse_uri(s: &str) -> (r: Option<Uri>)
    ensures
        (r is Some) == (parsed_uri(s@) is Some),
        r matches Some(u) ==> parsed_uri(s@) == Some(u@),
{
    match <up_rust::UUri as core::str::FromStr>::from_str(s) {
        Ok(u) => Some(
            Uri {
                authority_name: u.authority_name,
                ue_id: u.ue_id,
                ue_version_major: u.ue_version_major,
                resource_id: u.resource_id,
            },
        ),
        Err(_) => None,
    }
}

/// A topic with its resource identifier forced to the static backend's fixed
/// value.
pub open spec fn normalized_topic(t: UriView) -> UriView {
    UriView {
        authority_name: t.authority_name,
        ue_id: t.ue_id,
        ue_version_major: t.ue_version_major,
        resource_id: STATIC_RESOURCE_ID,
    }
}

/// The records one topic entry contributes, in order: nothing when its key
/// does not parse or its value is no array; otherwise one record per parsable
/// subscriber string, under the normalized topic.
pub open spec fn entry_records(
    entry: (Seq<char>, Option<Seq<Option<Seq<char>>>>),
) -> Seq<SubscriptionRecordView> {
    match parsed_uri(entry.0) {
        None => Seq::empty(),
        Some(topic) => match entry.1 {
            None => Seq::empty(),
            Some(values) => subscriber_records(normalized_topic(topic), values),
        },
    }
}

/// The records a subscriber list contributes under one topic, in order.
pub open spec fn subscriber_records(topic: UriView, values: Seq<Option<Seq<char>>>) -> Seq<
    SubscriptionRecordView,
>
    decreases values.len(),
{
    if values.len() == 0 {
        Seq::empty()
    } else {
        let rest = subscriber_records(topic, values.drop_last());
        match values.last() {
            None => rest,
            Some(subscriber_text) => match parsed_uri(subscriber_text) {
                None => rest,
                Some(subscriber) => rest.push(
                    SubscriptionRecordView { topic, subscriber },
                ),
            },
        }
    }
}

/// All records the configuration's entries contribute, in order, duplicates
/// included.
pub open spec fn config_records(
    entries: Seq<(Seq<char>, Option<Seq<Option<Seq<char>>>>)>,
) -> Seq<SubscriptionRecordView>
    decreases entries.len(),
{
    if entries.len() == 0 {
        Seq::empty()
    } else {
        config_records(entries.drop_last()) + entry_records(entries.last())
    }
}

/// A sequence of records with every record's first occurrence kept and later
/// duplicates dropped.
pub open spec fn distinct_records(s: Seq<SubscriptionRecordView>) -> Seq<SubscriptionRecordView>
    decreases s.len(),
{
    if s.len() == 0 {
        Seq::empty()
    } else {
        let rest = distinct_records(s.drop_last());
        if s.drop_last().contains(s.last()) {
            rest
        } else {
            rest.push(s.last())
        }
    }
}

/// `distinct_records` keeps membership.
proof fn lemma_distinct_records_membership(s: Seq<SubscriptionRecordView>, x: SubscriptionRecordView)
    ensures
        distinct_records(s).contains(x) <==> s.contains(x),
    decreases s.len(),
{
    if s.len() > 0 {
        lemma_distinct_records_membership(s.drop_last(), x);
        if s.contains(x) {
            if x == s.last() {
                if !s.drop_last().contains(x) {
                    assert(distinct_records(s).last() == x);
                }
            } else {
                let i = choose|i: int| 0 <= i < s.len() && s[i] == x;
                assert(s.drop_last()[i] == x);
                assert(s.drop_last().contains(x));
                let j = choose|j: int|
                    0 <= j < distinct_records(s.drop_last()).len() && distinct_records(
                        s.drop_last(),
                    )[j] == x;
                assert(distinct_records(s)[j] == x);
            }
        } else {
            assert(!s.drop_last().contains(x));
            if distinct_records(s).contains(x) {
                let j = choose|j: int|
                    0 <= j < distinct_records(s).len() && distinct_records(s)[j] == x;
                if j < distinct_records(s.drop_last()).len() {
                    assert(distinct_records(s.drop_last()).contains(x));
                } else {
                    assert(x == s.last());
                    assert(s.contains(x));
                }
            }
        }
    }
}

/// What parsing the configuration yields: the deduplicated records of every
/// entry, when the text is a JSON object.
pub open spec fn parsed_static_subscriptions(text: Seq<char>) -> Option<
    Seq<SubscriptionRecordView>,
> {
    match json_topic_entries(text) {
        None => None,
        Some(entries) => Some(distinct_records(config_records(entries))),
    }
}

impl USubscriptionStaticFile {
    /// Creates a backend remembering the configuration file it serves.
    pub fn new(static_file: String) -> (r: USubscriptionStaticFile)
        ensures
            r.static_file_view() == static_file@,
    {
        USubscriptionStaticFile { static_file }
    }

    /// The configured file, as given at construction.
    pub closed spec fn static_file_view(&self) -> Seq<char> {
        self.static_file@
    }

    /// The configured file.
    pub fn static_file(&self) -> (r: &str)
        ensures
            r@ == self.static_file_view(),
    {
        self.static_file.as_str()
    }

    /// Parses a static configuration text into subscription records: one
    /// record per parsable (topic, subscriber) pair, topics normalized to the
    /// fixed resource identifier, duplicates dropped. Only a text that is no
    /// JSON object is an error; every unusable entry is skipped.
    pub fn parse_static_subscriptions(&self, config: &str) -> (r: Result<
        Vec<SubscriptionRecord>,
        String,
    >)
        ensures
            match r {
                Ok(records) => parsed_static_subscriptions(config@) == Some(
                    record_views(records@),
                ),
                Err(_) => parsed_static_subscriptions(config@) is None,
            },
    {
        let entries = match parse_json_topic_entries(config) {
            Some(entries) => entries,
            None => {
                let reason =
                    "static subscription file must be a JSON object mapping topic URI keys to arrays of subscriber URI strings".to_owned();
                return Err(reason);
            },
        };
        let mut records: Vec<SubscriptionRecord> = Vec::new();
        let entry_count = entries.len();
        for i in 0..entry_count
            invariant
                entry_count == entries@.len(),
                record_views(records@) == distinct_records(
                    config_records(topic_entry_views(entries@.take(i as int))),
                ),
        {
            proof {
                assert(topic_entry_views(entries@.take(i + 1 as int)).drop_last()
                    =~= topic_entry_views(entries@.take(i as int)));
                assert(topic_entry_views(entries@.take(i + 1 as int)).last() == topic_entry_view(
                    entries@[i as int],
                ));
            }
            let entry = &entries[i];
            let parsed_topic = parse_uri(entry.0.as_str());
            if parsed_topic.is_none() || entry.1.is_none() {
                proof {
                    lemma_collect_entry(
                        record_views(records@),
                        topic_entry_views(entries@.take(i as int)),
                        topic_entry_view(entries@[i as int]),
                    );
                }
            } else {
                let mut topic = parsed_topic.unwrap();
                topic.resource_id = STATIC_RESOURCE_ID;
                proof {
                    assert(topic@ == normalized_topic(parsed_uri(entry.0@).unwrap()));
                }
                let values = entry.1.as_ref().unwrap();
                let ghost value_views = topic_entry_view(entries@[i as int]).1.unwrap();
                let ghost prior_contributed = config_records(
                    topic_entry_views(entries@.take(i as int)),
                );
                let value_count = values.len();
                for j in 0..value_count
                    invariant
                        value_count == values@.len(),
                        value_views == topic_entry_view(entries@[i as int]).1.unwrap(),
                        value_views.len() == values@.len(),
                        forall|v: int|
                            0 <= v < values@.len() ==> value_views[v] == (match values@[v] {
                                Some(s) => Some(s@),
                                None => None,
                            }),
                        topic@ == normalized_topic(parsed_uri(entries@[i as int].0@).unwrap()),
                        parsed_uri(entries@[i as int].0@) is Some,
                        prior_contributed == config_records(
                            topic_entry_views(entries@.take(i as int)),
                        ),
                        record_views(records@) == distinct_records(
                            prior_contributed + subscriber_records(
                                topic@,
                                value_views.take(j as int),
                            ),
                        ),
                {
                    proof {
                        assert(value_views.take(j + 1 as int).drop_last() =~= value_views.take(
                            j as int,
                        ));
                        assert(value_views.take(j + 1 as int).last() == value_views[j as int]);
                    }
                    let parsed_subscriber = match &values[j] {
                        Some(subscriber_text) => parse_uri(subscriber_text.as_str()),
                        None => None,
                    };
                    match parsed_subscriber {
                        None => {
                            proof {
                                assert(subscriber_records(topic@, value_views.take(j + 1 as int))
                                    =~= subscriber_records(topic@, value_views.take(j as int)));
                            }
                        },
                        Some(subscriber) => {
                            let record = SubscriptionRecord { topic: topic.clone(), subscriber };
                            let ghost flat = prior_contributed + subscriber_records(
                                topic@,
                                value_views.take(j as int),
                            );
                            proof {
                                assert(subscriber_records(topic@, value_views.take(j + 1 as int))
                                    =~= subscriber_records(
                                    topic@,
                                    value_views.take(j as int),
                                ).push(record@));
                                assert(prior_contributed + subscriber_records(
                                    topic@,
                                    value_views.take(j + 1 as int),
                                ) =~= flat.push(record@));
                                lemma_distinct_records_membership(flat, record@);
                                assert(flat.push(record@).drop_last() =~= flat);
                            }
                            let already_present = contains_record(&records, &record);
                            proof {
                                assert(already_present == flat.contains(record@));
                            }
                            if !already_present {
                                records.push(record);
                                proof {
                                    assert(record_views(records@) =~= distinct_records(
                                        flat.push(record@),
                                    ));
                                }
                            } else {
                                proof {
                                    assert(record_views(records@) =~= distinct_records(
                                        flat.push(record@),
                                    ));
                                }
                            }
                        },
                    }
                }
                proof {
                    assert(value_views.take(value_views.len() as int) =~= value_views);
                    lemma_collect_entry_with_values(
                        record_views(records@),
                        topic_entry_views(entries@.take(i as int)),
                        topic_entry_view(entries@[i as int]),
                        topic@,
                        value_views,
                    );
                }
            }
        }
        proof {
            assert(entries@.take(entry_count as int) =~= entries@);
        }
        Ok(records)
    }
}

/// The subscriber URIs of the records subscribed to exactly `topic`, in
/// order, duplicates included.
pub open spec fn matching_subscriber_uris(
    records: Seq<SubscriptionRecordView>,
    topic: UriView,
) -> Seq<UriView>
    decreases records.len(),
{
    if records.len() == 0 {
        Seq::empty()
    } else {
        let rest = matching_subscriber_uris(records.drop_last(), topic);
        if records.last().topic == topic {
            rest.push(records.last().subscriber)
        } else {
            rest
        }
    }
}

/// What `fetch_subscribers` returns for one topic: the deduplicated
/// subscriber URIs of every record subscribed to the normalized topic.
pub open spec fn subscribers_for(records: Seq<SubscriptionRecordView>, topic: UriView) -> Seq<
    UriView,
> {
    first_occurrences(matching_subscriber_uris(records, topic))
}

impl USubscriptionStaticFile {
    /// Returns the subscribers of one topic: the requested topic is
    /// normalized to the fixed resource identifier, the configuration's
    /// records are filtered to that exact topic, and duplicate subscriber
    /// URIs are dropped. An empty result is a valid outcome.
    pub fn fetch_subscribers(&self, config: &str, requested_topic: &Uri) -> (r: Result<
        Vec<Uri>,
        String,
    >)
        ensures
            match r {
                Ok(subscribers) => parsed_static_subscriptions(config@) matches Some(records)
                    && uri_views(subscribers@) == subscribers_for(
                    records,
                    normalized_topic(requested_topic@),
                ),
                Err(_) => parsed_static_subscriptions(config@) is None,
            },
    {
        let records = match self.parse_static_subscriptions(config) {
            Ok(records) => records,
            Err(reason) => {
                return Err(reason);
            },
        };
        let mut canonical = requested_topic.clone();
        canonical.resource_id = STATIC_RESOURCE_ID;
        proof {
            assert(canonical@ == normalized_topic(requested_topic@));
        }
        let mut subscribers: Vec<Uri> = Vec::new();
        let n = records.len();
        for i in 0..n
            invariant
                n == records.len(),
                canonical@ == normalized_topic(requested_topic@),
                uri_views(subscribers@) == first_occurrences(
                    matching_subscriber_uris(record_views(records@.take(i as int)), canonical@),
                ),
        {
            proof {
                assert(record_views(records@.take(i + 1 as int)).drop_last() =~= record_views(
                    records@.take(i as int),
                ));
                assert(record_views(records@.take(i + 1 as int)).last() == records@[i as int]@);
            }
            let ghost prior = matching_subscriber_uris(
                record_views(records@.take(i as int)),
                canonical@,
            );
            if records[i].topic.matches(&canonical) {
                let subscriber = records[i].subscriber.clone();
                proof {
                    assert(matching_subscriber_uris(
                        record_views(records@.take(i + 1 as int)),
                        canonical@,
                    ) =~= prior.push(subscriber@));
                    assert(prior.push(subscriber@).drop_last() =~= prior);
                    lemma_first_occurrences_membership(prior, subscriber@);
                }
                let already_present = contains_uri(&subscribers, &subscriber);
                proof {
                    assert(already_present == prior.contains(subscriber@));
                }
                if !already_present {
                    subscribers.push(subscriber);
                    proof {
                        assert(uri_views(subscribers@) =~= first_occurrences(prior.push(
                            uri_views(subscribers@).last(),
                        )));
                    }
                } else {
                    proof {
                        assert(uri_views(subscribers@) =~= first_occurrences(
                            matching_subscriber_uris(
                                record_views(records@.take(i + 1 as int)),
                                canonical@,
                            ),
                        ));
                    }
                }
            } else {
                proof {
                    assert(matching_subscriber_uris(
                        record_views(records@.take(i + 1 as int)),
                        canonical@,
                    ) =~= prior);
                }
            }
        }
        proof {
            assert(records@.take(n as int) =~= records@);
        }
        Ok(subscribers)
    }
}

/// Whether `uris` already holds a URI structurally equal to `uri`.
fn contains_uri(uris: &Vec<Uri>, uri: &Uri) -> (r: bool)
    ensures
        r == uri_views(uris@).contains(uri@),
{
    let n = uris.len();
    for i in 0..n
        invariant
            n == uris.len(),
            forall|k: int| 0 <= k < i ==> uris@[k]@ != uri@,
    {
        if uris[i].matches(uri) {
            proof {
                assert(uri_views(uris@)[i as int] == uri@);
            }
            return true;
        }
    }
    proof {
        if uri_views(uris@).contains(uri@) {
            let j = choose|j: int| 0 <= j < uri_views(uris@).len() && uri_views(uris@)[j] == uri@;
            assert(uris@[j]@ == uri@);
        }
    }
    false
}

/// Whether `records` already holds a record equal to `record`.
fn contains_record(records: &Vec<SubscriptionRecord>, record: &SubscriptionRecord) -> (r: bool)
    ensures
        r == record_views(records@).contains(record@),
{
    let n = records.len();
    for i in 0..n
        invariant
            n == records.len(),
            forall|k: int| 0 <= k < i ==> record_views(records@)[k] != record@,
    {
        if records[i].topic.matches(&record.topic) && records[i].subscriber.matches(
            &record.subscriber,
        ) {
            proof {
                assert(record_views(records@)[i as int] =~= record@);
            }
            return true;
        } else {
            proof {
                assert(record_views(records@)[i as int] != record@);
            }
        }
    }
    proof {
        if record_views(records@).contains(record@) {
            let j = choose|j: int|
                0 <= j < record_views(records@).len() && record_views(records@)[j] == record@;
        }
    }
    false
}

/// An entry that contributes nothing extends the contributed records by
/// nothing.
proof fn lemma_collect_entry(
    collected: Seq<SubscriptionRecordView>,
    prior: Seq<(Seq<char>, Option<Seq<Option<Seq<char>>>>)>,
    entry: (Seq<char>, Option<Seq<Option<Seq<char>>>>),
)
    requires
        collected == distinct_records(config_records(prior)),
        entry_records(entry) == Seq::<SubscriptionRecordView>::empty(),
    ensures
        collected == distinct_records(config_records(prior.push(entry))),
{
    assert(prior.push(entry).drop_last() =~= prior);
    assert(prior.push(entry).last() == entry);
    assert(config_records(prior.push(entry)) =~= config_records(prior));
}

/// After every subscriber of an entry is collected, the records equal the
/// deduplication over the entry list extended by that entry.
proof fn lemma_collect_entry_with_values(
    collected: Seq<SubscriptionRecordView>,
    prior: Seq<(Seq<char>, Option<Seq<Option<Seq<char>>>>)>,
    entry: (Seq<char>, Option<Seq<Option<Seq<char>>>>),
    topic: UriView,
    values: Seq<Option<Seq<char>>>,
)
    requires
        parsed_uri(entry.0) is Some,
        topic == normalized_topic(parsed_uri(entry.0).unwrap()),
        entry.1 == Some(values),
        collected == distinct_records(config_records(prior) + subscriber_records(topic, values)),
    ensures
        collected == distinct_records(config_records(prior.push(entry))),
{
    assert(prior.push(entry).drop_last() =~= prior);
    assert(prior.push(entry).last() == entry);
    assert(entry_records(entry) == subscriber_records(topic, values));
    assert(config_records(prior.push(entry)) =~= config_records(prior) + subscriber_records(
        topic,
        values,
    ));
}

} // verus!
