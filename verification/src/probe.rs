//! Confirming that a canonical link names a live resource. The lookup itself
//! is a network request and is made by the caller; this module says what to
//! ask for and how to read the answer.

use crate::canonical::{canonical_url_of, CanonicalLink};
use vstd::prelude::*;
use vstd::string::StringExecFns;

verus! {

/// How the metadata lookup ended.
#[derive(Debug, Clone, Copy, PartialEq, Eq, Structural)]
pub enum ProbeResult {
    /// The endpoint answered with this HTTP status code.
    Responded { status: u16 },
    /// No answer came: the request failed on the way.
    Failed,
}

/// What the lookup says of the resource.
#[derive(Debug, Clone, Copy, PartialEq, Eq, Structural)]
pub enum Verification {
    /// The resource is live.
    Verified,
    /// The lookup did not confirm it.
    Rejected,
}

/// The one status that confirms a resource.
pub const STATUS_OK: u16 = 200;

/// The address of the metadata lookup for the resource with this
/// identifier: the endpoint, asked about the canonical URL.
pub open spec fn probe_url_of(resource_id: Seq<char>) -> Seq<char> {
    "https://www.youtube.com/oembed?format=json&url="@ + canonical_url_of(resource_id)
}

/// Reading of a lookup: only an answer with status 200 verifies.
pub open spec fn verification_of(result: ProbeResult) -> Verification {
    match result {
        ProbeResult::Responded { status } => if status == STATUS_OK {
            Verification::Verified
        } else {
            Verification::Rejected
        },
        ProbeResult::Failed => Verification::Rejected,
    }
}

/// The address to request, once and without retry, to verify `link`.
pub fn probe_url(link: &CanonicalLink) -> (url: String)
    ensures
        url@ == probe_url_of(link@.resource_id),
{
    let mut url = "https://www.youtube.com/oembed?format=json&url=".to_owned();
    let canonical = link.canonical_url();
    url.append(canonical.as_str());
    url
}

/// Classifies the outcome of the lookup. Any status but 200 rejects, and so
/// does a request that failed on the way: a transport error is not told
/// apart from a missing resource.
pub fn classify_probe(result: ProbeResult) -> (v: Verification)
    ensures
        v == verification_of(result),
        v == Verification::Verified <==> result == (ProbeResult::Responded { status: 200 }),
{
    match result {
        ProbeResult::Responded { status } => {
            if status == STATUS_OK {
                Verification::Verified
            } else {
                Verification::Rejected
            }
        },
        ProbeResult::Failed => Verification::Rejected,
    }
}

} // verus!
