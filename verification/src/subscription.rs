//! Subscription records and the read-through directory facade that answers
//! which subscribers a route's egress authority has.

use vstd::prelude::*;
use crate::uri::{Uri, UriView, authority_admits};

verus! {

/// Ghost image of a [`SubscriptionRecord`].
pub ghost struct SubscriptionRecordView {
    pub topic: UriView,
    pub subscriber: UriView,
}

/// One entry of the subscription directory: a subscriber URI subscribed to a
/// topic URI.
#[derive(Debug)]
pub struct SubscriptionRecord {
    pub topic: Uri,
    pub subscriber: Uri,
}

impl Clone for SubscriptionRecord {
    /// A clone is the same record.
    fn clone(&self) -> (r: SubscriptionRecord)
        ensures
            r@ == self@,
    {
        SubscriptionRecord { topic: self.topic.clone(), subscriber: self.subscriber.clone() }
    }
}

impl View for SubscriptionRecord {
    type V = SubscriptionRecordView;

    open spec fn view(&self) -> SubscriptionRecordView {
        SubscriptionRecordView { topic: self.topic@, subscriber: self.subscriber@ }
    }
}

/// The ghost images of a sequence of records.
pub open spec fn record_views(s: Seq<SubscriptionRecord>) -> Seq<SubscriptionRecordView> {
    s.map_values(|r: SubscriptionRecord| r@)
}

/// Whether a record answers a lookup for `egress_authority`: its subscriber's
/// authority is that authority, or the wildcard `*`.
pub open spec fn record_matches_egress(r: SubscriptionRecordView, egress_authority: Seq<char>) -> bool {
    authority_admits(r.subscriber.authority_name, egress_authority)
}

/// The records among `subs` whose subscriber matches `egress_authority`, in
/// order.
pub open spec fn matching_subscribers(
    subs: Seq<SubscriptionRecordView>,
    egress_authority: Seq<char>,
) -> Seq<SubscriptionRecordView>
    decreases subs.len(),
{
    if subs.len() == 0 {
        Seq::empty()
    } else {
        let rest = matching_subscribers(subs.drop_last(), egress_authority);
        if record_matches_egress(subs.last(), egress_authority) {
            rest.push(subs.last())
        } else {
            rest
        }
    }
}

/// Route-subscriber directory facade over a snapshot of the subscription
/// directory, taken once at streamer construction.
pub struct SubscriptionDirectory {
    records: Vec<SubscriptionRecord>,
}

impl SubscriptionDirectory {
    /// The directory's snapshot, as ghost record images.
    pub closed spec fn view_records(&self) -> Seq<SubscriptionRecordView> {
        record_views(self.records@)
    }

    /// Creates a directory facade over a subscription snapshot.
    pub fn new(records: Vec<SubscriptionRecord>) -> (r: SubscriptionDirectory)
        ensures
            r.view_records() == record_views(records@),
    {
        SubscriptionDirectory { records }
    }

    /// Looks up the subscribers for one egress authority, wildcard-aware: a
    /// subscriber whose authority is `*` matches any egress authority. An
    /// empty result is a valid outcome, not an error.
    pub fn lookup_route_subscribers(&self, out_authority: &str) -> (r: Vec<SubscriptionRecord>)
        ensures
            record_views(r@) == matching_subscribers(self.view_records(), out_authority@),
    {
        let mut result: Vec<SubscriptionRecord> = Vec::new();
        let n = self.records.len();
        for i in 0..n
            invariant
                n == self.records.len(),
                record_views(result@) == matching_subscribers(
                    record_views(self.records@.take(i as int)),
                    out_authority@,
                ),
        {
            proof {
                assert(record_views(self.records@.take(i + 1 as int)).drop_last() =~= record_views(
                    self.records@.take(i as int),
                ));
                assert(record_views(self.records@.take(i + 1 as int)).last() == self.records@[
                    i as int]@);
            }
            let record = &self.records[i];
            if crate::uri::authority_matches(record.subscriber.authority_name.as_str(), out_authority) {
                result.push(record.clone());
                proof {
                    assert(record_views(result@) =~= matching_subscribers(
                        record_views(self.records@.take(i + 1 as int)),
                        out_authority@,
                    ));
                }
            } else {
                proof {
                    assert(record_views(result@) =~= matching_subscribers(
                        record_views(self.records@.take(i + 1 as int)),
                        out_authority@,
                    ));
                }
            }
        }
        proof {
            assert(self.records@.take(n as int) =~= self.records@);
        }
        result
    }
}

} // verus!
