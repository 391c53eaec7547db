//! Egress forwarder pool: one broadcast queue and one worker per egress
//! transport, refcounted so that routes sharing a transport share the queue.

use vstd::prelude::*;
use crate::ComparableTransport;
use crate::transport::Message;
use crate::queue::new_message_queue;
use crate::refcounts::{rc_bump, rc_contains, rc_distinct, rc_drop_ref, rc_index_of, rc_positive, rc_refcount};

verus! {

/// One pool entry: the egress transport's identity key, how many routes use
/// it, and the sending side of its broadcast queue.
pub struct TransportForwarderEntry {
    pub transport: ComparableTransport,
    pub active: usize,
    pub sender: tokio::sync::broadcast::Sender<Message>,
}

/// The ghost image of a pool: for each egress transport identity, the number
/// of routes that use it.
pub open spec fn pool_views(s: Seq<TransportForwarderEntry>) -> Seq<(u64, nat)> {
    s.map_values(|e: TransportForwarderEntry| (e.transport.id, e.active as nat))
}

/// No transport has two entries.
pub open spec fn pool_distinct(s: Seq<(u64, nat)>) -> bool {
    rc_distinct(s)
}

/// Every entry is referenced at least once.
pub open spec fn pool_positive(s: Seq<(u64, nat)>) -> bool {
    rc_positive(s)
}

/// Whether the pool holds an entry for transport `t`.
pub open spec fn pool_contains(s: Seq<(u64, nat)>, t: u64) -> bool {
    rc_contains(s, t)
}

/// The index of transport `t`'s entry.
pub open spec fn pool_index_of(s: Seq<(u64, nat)>, t: u64) -> int {
    rc_index_of(s, t)
}

/// How many routes reference transport `t`: its entry's refcount, or zero.
pub open spec fn pool_refcount(s: Seq<(u64, nat)>, t: u64) -> nat {
    rc_refcount(s, t)
}

/// The pool after one more reference to `t`'s existing entry.
pub open spec fn pool_bump(s: Seq<(u64, nat)>, t: u64) -> Seq<(u64, nat)> {
    rc_bump(s, t)
}

/// The pool after one reference to `t` is given up: the entry's refcount drops
/// by one, and the entry leaves the pool when it reaches zero.
pub open spec fn pool_drop_ref(s: Seq<(u64, nat)>, t: u64) -> Seq<(u64, nat)> {
    rc_drop_ref(s, t)
}

/// The egress pool: a refcounted map from egress transport identity to that
/// transport's broadcast queue.
pub struct TransportForwarders {
    message_queue_size: usize,
    forwarders: Vec<TransportForwarderEntry>,
}

impl TransportForwarders {
    /// The pool's ghost image.
    pub closed spec fn view_pool(&self) -> Seq<(u64, nat)> {
        pool_views(self.forwarders@)
    }

    /// The configured capacity of each broadcast queue.
    pub closed spec fn queue_size(&self) -> nat {
        self.message_queue_size as nat
    }

    /// Well-formed: one entry per transport, every entry referenced, and a
    /// queue capacity the broadcast channel accepts.
    pub open spec fn wf(&self) -> bool {
        &&& pool_distinct(self.view_pool())
        &&& pool_positive(self.view_pool())
        &&& 1 <= self.queue_size() <= usize::MAX / 2
    }

    /// An empty pool whose queues will be bounded at `message_queue_size`.
    pub fn new(message_queue_size: usize) -> (r: TransportForwarders)
        requires
            1 <= message_queue_size <= usize::MAX / 2,
        ensures
            r.wf(),
            r.view_pool() == Seq::<(u64, nat)>::empty(),
            r.queue_size() == message_queue_size,
    {
        let r = TransportForwarders { message_queue_size, forwarders: Vec::new() };
        proof {
            assert(r.view_pool() =~= Seq::<(u64, nat)>::empty());
        }
        r
    }

    /// How many egress transports have an entry.
    pub fn len(&self) -> (n: usize)
        ensures
            n == self.view_pool().len(),
    {
        self.forwarders.len()
    }

    /// How many routes reference `transport`'s queue; zero without an entry.
    pub fn refcount_of(&self, transport: ComparableTransport) -> (r: usize)
        requires
            self.wf(),
        ensures
            r == pool_refcount(self.view_pool(), transport.id),
    {
        match self.position_of(transport.id) {
            Some(i) => {
                proof {
                    crate::refcounts::lemma_rc_at_index(self.view_pool(), transport.id, i as int);
                }
                self.forwarders[i].active
            },
            None => 0,
        }
    }

    /// The index of `t`'s entry, when present.
    fn position_of(&self, t: u64) -> (r: Option<usize>)
        ensures
            match r {
                Some(i) => i < self.view_pool().len() && self.view_pool()[i as int].0 == t,
                None => !pool_contains(self.view_pool(), t),
            },
    {
        let n = self.forwarders.len();
        for i in 0..n
            invariant
                n == self.forwarders.len(),
                forall|k: int| 0 <= k < i ==> self.view_pool()[k].0 != t,
        {
            if self.forwarders[i].transport.id == t {
                return Some(i);
            }
        }
        None
    }

    /// Takes one reference to `out_transport`'s queue. An existing entry gains
    /// a reference and hands out another sender onto the same queue; otherwise
    /// a new bounded queue is created with a single reference, and the
    /// receiving side is returned so the caller can start the transport's
    /// dispatch worker.
    pub fn insert(&mut self, out_transport: ComparableTransport) -> (r: (
        tokio::sync::broadcast::Sender<Message>,
        Option<tokio::sync::broadcast::Receiver<Message>>,
    ))
        requires
            old(self).wf(),
            pool_refcount(old(self).view_pool(), out_transport.id) < usize::MAX,
        ensures
            final(self).wf(),
            final(self).queue_size() == old(self).queue_size(),
            pool_contains(old(self).view_pool(), out_transport.id) ==> {
                &&& final(self).view_pool() == pool_bump(old(self).view_pool(), out_transport.id)
                &&& r.1 is None
            },
            !pool_contains(old(self).view_pool(), out_transport.id) ==> {
                &&& final(self).view_pool() == old(self).view_pool().push((out_transport.id, 1nat))
                &&& r.1 is Some
            },
    {
        let ghost old_pool = self.view_pool();
        let t = out_transport.id;
        match self.position_of(t) {
            Some(i) => {
                proof {
                    let j = pool_index_of(old_pool, t);
                    assert(0 <= j < old_pool.len() && old_pool[j].0 == t);
                    assert(j == i);
                }
                let current = self.forwarders[i].active;
                let stored = self.forwarders[i].sender.clone();
                let handed_out = stored.clone();
                self.forwarders[i] = TransportForwarderEntry {
                    transport: out_transport,
                    active: current + 1,
                    sender: stored,
                };
                proof {
                    assert(self.view_pool() =~= pool_bump(old_pool, t));
                }
                (handed_out, None)
            },
            None => {
                let (sender, receiver) = new_message_queue(self.message_queue_size);
                let handed_out = sender.clone();
                self.forwarders.push(
                    TransportForwarderEntry { transport: out_transport, active: 1, sender },
                );
                proof {
                    assert(self.view_pool() =~= old_pool.push((t, 1nat)));
                }
                (handed_out, Some(receiver))
            },
        }
    }

    /// Gives up one reference to `out_transport`'s queue. When the last
    /// reference goes, the entry is dropped, which closes the queue's sender
    /// and lets the worker observe a closed queue and exit. Removing a
    /// transport without an entry changes nothing.
    pub fn remove(&mut self, out_transport: ComparableTransport)
        requires
            old(self).wf(),
        ensures
            final(self).wf(),
            final(self).queue_size() == old(self).queue_size(),
            pool_contains(old(self).view_pool(), out_transport.id) ==> final(self).view_pool()
                == pool_drop_ref(old(self).view_pool(), out_transport.id),
            !pool_contains(old(self).view_pool(), out_transport.id) ==> final(self).view_pool()
                == old(self).view_pool(),
    {
        let ghost old_pool = self.view_pool();
        let t = out_transport.id;
        match self.position_of(t) {
            Some(i) => {
                proof {
                    let j = pool_index_of(old_pool, t);
                    assert(0 <= j < old_pool.len() && old_pool[j].0 == t);
                    assert(j == i);
                }
                let current = self.forwarders[i].active;
                if current <= 1 {
                    self.forwarders.remove(i);
                    proof {
                        assert(self.view_pool() =~= old_pool.remove(i as int));
                        assert forall|a: int, b: int|
                            0 <= a < b < self.view_pool().len() implies self.view_pool()[a].0
                            != self.view_pool()[b].0 by {
                            let a0 = if a < i { a } else { a + 1 };
                            let b0 = if b < i { b } else { b + 1 };
                            assert(old_pool.remove(i as int)[a] == old_pool[a0]);
                            assert(old_pool.remove(i as int)[b] == old_pool[b0]);
                        }
                    }
                } else {
                    let sender = self.forwarders[i].sender.clone();
                    self.forwarders[i] = TransportForwarderEntry {
                        transport: out_transport,
                        active: current - 1,
                        sender,
                    };
                    proof {
                        assert(self.view_pool() =~= pool_drop_ref(old_pool, t));
                    }
                }
            },
            None => {},
        }
    }
}

} // verus!
