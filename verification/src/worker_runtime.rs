//! Naming rules for egress worker threads: the OS limits a thread name's
//! length, so names are checked and fall back to a fixed default.

use vstd::prelude::*;
use vstd::string::StringSliceAdditionalSpecFns;

verus! {

/// Longest thread name the OS accepts, in bytes.
pub const LINUX_THREAD_NAME_MAX_LEN: usize = 15;

/// Thread name used when a route-derived name is unusable.
pub const DEFAULT_EGRESS_ROUTE_RUNTIME_THREAD_NAME: &'static str = "up-egress-route";

/// Whether a thread name can be used as it is: non-empty and within the OS
/// limit, counted in bytes.
pub open spec fn thread_name_usable(name: Seq<char>) -> bool {
    0 < vstd::utf8::encode_utf8(name).len() <= LINUX_THREAD_NAME_MAX_LEN
}

/// Returns the given thread name when it is non-empty and within the OS
/// limit, and the fixed fallback name otherwise.
pub fn sanitize_runtime_thread_name(thread_name: String) -> (r: String)
    ensures
        thread_name_usable(thread_name@) ==> r@ == thread_name@,
        !thread_name_usable(thread_name@) ==> r@ == DEFAULT_EGRESS_ROUTE_RUNTIME_THREAD_NAME@,
{
    let byte_len: usize = thread_name.as_str().as_bytes().len();
    if byte_len == 0 || byte_len > LINUX_THREAD_NAME_MAX_LEN {
        DEFAULT_EGRESS_ROUTE_RUNTIME_THREAD_NAME.to_owned()
    } else {
        thread_name
    }
}

} // verus!
