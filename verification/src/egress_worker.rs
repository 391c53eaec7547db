//! Egress worker: the per-transport dispatch policy that forwards queued
//! messages on an output transport, and the naming of its runtime thread.
//!
//! The dispatch loop itself blocks on the broadcast queue, so the embedding
//! program drives it: it waits for the next queue event and hands each event
//! to [`route_dispatch_step`] until the step says to stop.

use vstd::prelude::*;
use vstd::string::StringExecFns;
use crate::transport::{Message, Transport};
use crate::worker_runtime::DEFAULT_EGRESS_ROUTE_RUNTIME_THREAD_NAME;

verus! {

/// Prefix of every route-derived worker thread name.
pub const EGRESS_ROUTE_RUNTIME_THREAD_NAME_PREFIX: &'static str = "up-egress-";

/// Longest worker thread name the OS accepts, in bytes.
pub const EGRESS_ROUTE_RUNTIME_THREAD_NAME_MAX_LEN: usize = 15;

/// Number of route-identifier characters a thread name has room for.
pub const EGRESS_ROUTE_THREAD_NAME_SUFFIX_LEN: usize = 5;

/// One observation taken from an egress route's broadcast queue.
pub enum QueueEvent {
    /// The next queued message.
    Received(Message),
    /// The receiver lagged and the queue dropped this many messages for it.
    Lagged(u64),
    /// Every sender is gone; nothing more will arrive.
    Closed,
}

/// What one dispatch step did.
#[derive(Clone, Copy, PartialEq, Eq, Structural, Debug)]
pub enum DispatchOutcome {
    /// The message was sent on the output transport.
    Sent,
    /// The output transport failed the send; the failure is logged and the
    /// loop goes on.
    SendFailed,
    /// The queue reported this many dropped messages; the loop goes on
    /// without re-fetching them.
    LaggedSkipped(u64),
    /// The queue is closed: the dispatch loop terminates cleanly.
    Stopped,
}

/// Handles one queue event of an egress route's dispatch loop: a received
/// message is sent on the output transport (a send failure never terminates
/// the loop), lag is tolerated and skipped, and a closed queue stops the loop.
pub fn route_dispatch_step<T: Transport>(out_transport: &T, event: QueueEvent) -> (r:
    DispatchOutcome)
    ensures
        (r is Stopped) <==> (event is Closed),
        event matches QueueEvent::Lagged(skipped) ==> r == DispatchOutcome::LaggedSkipped(
            skipped,
        ),
        (event is Received) ==> (r is Sent || r is SendFailed),
{
    match event {
        QueueEvent::Received(msg) => match out_transport.send(&msg) {
            Ok(_) => DispatchOutcome::Sent,
            Err(_send_error) => DispatchOutcome::SendFailed,
        },
        QueueEvent::Lagged(skipped) => DispatchOutcome::LaggedSkipped(skipped),
        QueueEvent::Closed => DispatchOutcome::Stopped,
    }
}

/// Whether `c` is an ASCII hexadecimal digit.
pub open spec fn hex_char(c: char) -> bool {
    (48 <= c as u32 && c as u32 <= 57) || (65 <= c as u32 && c as u32 <= 70) || (97 <= c as u32
        && c as u32 <= 102)
}

/// The ASCII hexadecimal digits of `s`, in order.
pub open spec fn hex_filtered(s: Seq<char>) -> Seq<char>
    decreases s.len(),
{
    if s.len() == 0 {
        Seq::empty()
    } else {
        let rest = hex_filtered(s.drop_last());
        if hex_char(s.last()) {
            rest.push(s.last())
        } else {
            rest
        }
    }
}

/// Whether `c` is an ASCII hexadecimal digit.
fn is_hex_char(c: char) -> (r: bool)
    ensures
        r == hex_char(c),
{
    let u = c as u32;
    (48 <= u && u <= 57) || (65 <= u && u <= 70) || (97 <= u && u <= 102)
}

/// Derives a worker thread name from a route identifier: the fixed prefix
/// followed by the identifier's first hexadecimal characters, filling the OS
/// limit exactly; when the identifier has too few of them, the fixed fallback
/// name is used instead.
pub fn build_runtime_thread_name(route_id: &str) -> (r: String)
    ensures
        hex_filtered(route_id@).len() >= EGRESS_ROUTE_THREAD_NAME_SUFFIX_LEN ==> r@
            == EGRESS_ROUTE_RUNTIME_THREAD_NAME_PREFIX@ + hex_filtered(route_id@).take(
            EGRESS_ROUTE_THREAD_NAME_SUFFIX_LEN as int,
        ),
        hex_filtered(route_id@).len() < EGRESS_ROUTE_THREAD_NAME_SUFFIX_LEN ==> r@
            == DEFAULT_EGRESS_ROUTE_RUNTIME_THREAD_NAME@,
{
    let len = route_id.unicode_len();
    let mut suffix: Vec<char> = Vec::new();
    for i in 0..len
        invariant
            len == route_id@.len(),
            suffix@.len() <= EGRESS_ROUTE_THREAD_NAME_SUFFIX_LEN,
            suffix@ == hex_filtered(route_id@.take(i as int)).take(suffix@.len() as int),
            suffix@.len() < EGRESS_ROUTE_THREAD_NAME_SUFFIX_LEN ==> suffix@ == hex_filtered(
                route_id@.take(i as int),
            ),
            suffix@.len() <= hex_filtered(route_id@.take(i as int)).len(),
    {
        proof {
            assert(route_id@.take(i + 1 as int).drop_last() =~= route_id@.take(i as int));
            assert(route_id@.take(i + 1 as int).last() == route_id@[i as int]);
        }
        let c = route_id.get_char(i);
        if is_hex_char(c) && suffix.len() < EGRESS_ROUTE_THREAD_NAME_SUFFIX_LEN {
            let ghost before = suffix@;
            suffix.push(c);
            proof {
                let filtered = hex_filtered(route_id@.take(i + 1 as int));
                assert(filtered == hex_filtered(route_id@.take(i as int)).push(c));
                assert(suffix@ =~= filtered.take(suffix@.len() as int));
            }
        } else {
            proof {
                let filtered = hex_filtered(route_id@.take(i + 1 as int));
                assert(suffix@ =~= filtered.take(suffix@.len() as int));
            }
        }
    }
    proof {
        assert(route_id@.take(len as int) =~= route_id@);
    }
    if suffix.len() == EGRESS_ROUTE_THREAD_NAME_SUFFIX_LEN {
        let suffix_string = chars_to_string(suffix);
        let mut name = EGRESS_ROUTE_RUNTIME_THREAD_NAME_PREFIX.to_owned();
        name.append(suffix_string.as_str());
        name
    } else {
        DEFAULT_EGRESS_ROUTE_RUNTIME_THREAD_NAME.to_owned()
    }
}

/// Relies on `std::iter::Iterator::collect` for `String`: collecting
/// characters yields the string of exactly those characters.
#[verifier::external_body]
fn chars_to_string(chars: Vec<char>) -> (r: String)
    ensures
        r@ == chars@,
{
    chars.into_iter().collect()
}

} // verus!
