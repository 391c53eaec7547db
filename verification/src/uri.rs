//! uProtocol URI model: authority, entity, version and resource identifiers,
//! together with the validity rules and the sentinel values the streamer uses.

use vstd::prelude::*;

verus! {

/// Entity identifier of the all-ones sentinel URI.
pub const SENTINEL_UE_ID: u32 = 0xFFFF_FFFF;

/// Major version of the all-ones sentinel URI.
pub const SENTINEL_VERSION: u32 = 0xFF;

/// Resource identifier of the all-ones sentinel URI.
pub const SENTINEL_RESOURCE_ID: u32 = 0xFFFF;

/// Ghost image of a [`Uri`]: the four fields as mathematical values.
pub ghost struct UriView {
    pub authority_name: Seq<char>,
    pub ue_id: u32,
    pub ue_version_major: u32,
    pub resource_id: u32,
}

/// A uProtocol URI, held as plain values: the authority (an administrative
/// domain name, where the literal `*` is the wildcard), the entity identifier,
/// the entity major version and the resource identifier.
#[derive(Debug)]
pub struct Uri {
    pub authority_name: String,
    pub ue_id: u32,
    pub ue_version_major: u32,
    pub resource_id: u32,
}

impl View for Uri {
    type V = UriView;

    open spec fn view(&self) -> UriView {
        UriView {
            authority_name: self.authority_name@,
            ue_id: self.ue_id,
            ue_version_major: self.ue_version_major,
            resource_id: self.resource_id,
        }
    }
}

/// The wildcard authority: matches any authority.
pub open spec fn wildcard_authority() -> Seq<char> {
    seq!['*']
}

/// Whether `pattern` admits `value`: either the two are the same authority, or
/// `pattern` is the wildcard `*`.
pub open spec fn authority_admits(pattern: Seq<char>, value: Seq<char>) -> bool {
    pattern == wildcard_authority() || pattern == value
}

/// Compares two strings; true iff their character sequences are equal.
pub fn str_eq(a: &str, b: &str) -> (r: bool)
    ensures
        r == (a@ == b@),
{
    let owned_a = a.to_owned();
    let owned_b = b.to_owned();
    owned_a == owned_b
}

/// Whether `s` is the wildcard authority `*`.
pub fn is_wildcard_authority(s: &str) -> (r: bool)
    ensures
        r == (s@ == wildcard_authority()),
{
    proof {
        reveal_strlit("*");
        assert("*"@ =~= wildcard_authority());
    }
    str_eq(s, "*")
}

/// Whether the authority `pattern` admits the authority `value` (wildcard-aware).
pub fn authority_matches(pattern: &str, value: &str) -> (r: bool)
    ensures
        r == authority_admits(pattern@, value@),
{
    if is_wildcard_authority(pattern) {
        true
    } else {
        str_eq(pattern, value)
    }
}

impl Clone for Uri {
    /// A clone is the same URI.
    fn clone(&self) -> (r: Uri)
        ensures
            r@ == self@,
    {
        Uri {
            authority_name: self.authority_name.clone(),
            ue_id: self.ue_id,
            ue_version_major: self.ue_version_major,
            resource_id: self.resource_id,
        }
    }
}

impl Uri {
    /// Builds a URI from its four fields.
    pub fn new(authority_name: String, ue_id: u32, ue_version_major: u32, resource_id: u32) -> (r:
        Uri)
        ensures
            r@ == (UriView { authority_name: authority_name@, ue_id, ue_version_major, resource_id }),
    {
        Uri { authority_name, ue_id, ue_version_major, resource_id }
    }

    /// Structural equality of two URIs.
    pub fn matches(&self, other: &Uri) -> (r: bool)
        ensures
            r == (self@ == other@),
    {
        let r = str_eq(self.authority_name.as_str(), other.authority_name.as_str())
            && self.ue_id == other.ue_id && self.ue_version_major == other.ue_version_major
            && self.resource_id == other.resource_id;
        proof {
            if r {
                assert(self@ =~= other@);
            }
        }
        r
    }
}

/// The view of the URI that stands for every message of one authority: the
/// given authority with every other field at its all-ones sentinel.
pub open spec fn wildcard_uri_view(authority: Seq<char>) -> UriView {
    UriView {
        authority_name: authority,
        ue_id: SENTINEL_UE_ID,
        ue_version_major: SENTINEL_VERSION,
        resource_id: SENTINEL_RESOURCE_ID,
    }
}

/// Returns the URI with the given authority and every other field set to its
/// all-ones sentinel: the filter that matches every message for that authority.
pub fn uauthority_to_uuri(authority_name: &str) -> (r: Uri)
    ensures
        r@ == wildcard_uri_view(authority_name@),
{
    Uri {
        authority_name: authority_name.to_owned(),
        ue_id: SENTINEL_UE_ID,
        ue_version_major: SENTINEL_VERSION,
        resource_id: SENTINEL_RESOURCE_ID,
    }
}

} // verus!
