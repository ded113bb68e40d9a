//! Turning a link that a user typed into the canonical link of the video it
//! names, or into the reason why it is refused.

use crate::text::{from_chars, optional_view, str_eq, to_chars};
use url::Url;
use vstd::prelude::*;
use vstd::string::StringExecFns;

verus! {

/// Why a submitted link did not end up in storage.
#[derive(Debug, Clone, Copy, PartialEq, Eq, Structural)]
pub enum RejectionReason {
    /// The command came without a link.
    MissingArgument,
    /// The text is not an absolute URL.
    Malformed,
    /// The scheme is neither `http` nor `https`.
    InvalidScheme,
    /// The host is not one of the allowed hosts.
    DisallowedHost,
    /// An allowed long-form host, but the path is not the watch path.
    InvalidPath,
    /// No query string, or none that holds the identifier's marker.
    MissingIdentifier,
    /// The metadata lookup did not confirm the resource.
    NotFound,
    /// Storage already holds the canonical URL.
    Duplicate,
    /// Storage failed for another reason.
    StorageError,
}

/// Which form of host a link came in by.
#[derive(Debug, Clone, Copy, PartialEq, Eq, Structural)]
pub enum SourceDomain {
    /// The primary host or one of its aliases.
    PrimaryHost,
    /// The short-link host.
    ShortHost,
}

/// The components of a parsed absolute URL that canonicalisation reads.
#[derive(Debug, Clone, PartialEq, Eq)]
pub struct UrlParts {
    pub scheme: String,
    pub host: Option<String>,
    pub path: String,
    pub query: Option<String>,
}

/// What a `UrlParts` holds, as character sequences.
pub struct UrlPartsView {
    pub scheme: Seq<char>,
    pub host: Option<Seq<char>>,
    pub path: Seq<char>,
    pub query: Option<Seq<char>>,
}

impl View for UrlParts {
    type V = UrlPartsView;

    open spec fn view(&self) -> UrlPartsView {
        UrlPartsView {
            scheme: self.scheme@,
            host: optional_view(self.host),
            path: self.path@,
            query: optional_view(self.query),
        }
    }
}

/// A link reduced to where it came from and the identifier of its resource.
#[derive(Debug, Clone, PartialEq, Eq)]
pub struct CanonicalLink {
    pub source_domain: SourceDomain,
    pub resource_id: String,
}

/// What a `CanonicalLink` holds, with the identifier as a character sequence.
pub struct LinkView {
    pub source_domain: SourceDomain,
    pub resource_id: Seq<char>,
}

impl View for CanonicalLink {
    type V = LinkView;

    open spec fn view(&self) -> LinkView {
        LinkView { source_domain: self.source_domain, resource_id: self.resource_id@ }
    }
}

/// The outcome of canonicalisation with the link taken by its view.
pub open spec fn outcome_view(r: Result<CanonicalLink, RejectionReason>) -> Result<
    LinkView,
    RejectionReason,
> {
    match r {
        Ok(link) => Ok(link@),
        Err(reason) => Err(reason),
    }
}

/// An ASCII letter or digit.
pub open spec fn is_ascii_alnum(c: char) -> bool {
    ('a' <= c && c <= 'z') || ('A' <= c && c <= 'Z') || ('0' <= c && c <= '9')
}

/// Whether every character is an ASCII letter or digit.
pub open spec fn all_ascii_alnum(s: Seq<char>) -> bool {
    forall|i: int| 0 <= i < s.len() ==> is_ascii_alnum(#[trigger] s[i])
}

/// The longest prefix of `s` made of ASCII letters and digits.
pub open spec fn leading_alnum(s: Seq<char>) -> Seq<char>
    decreases s.len(),
{
    if s.len() == 0 || !is_ascii_alnum(s[0]) {
        Seq::<char>::empty()
    } else {
        seq![s[0]] + leading_alnum(s.drop_first())
    }
}

/// Whether the identifier's marker, `v=`, stands at index `i` of `s`.
pub open spec fn marker_at(s: Seq<char>, i: int) -> bool {
    0 <= i && i + 1 < s.len() && s[i] == 'v' && s[i + 1] == '='
}

/// Whether the marker occurs anywhere in `s`.
pub open spec fn has_marker(s: Seq<char>) -> bool {
    exists|i: int| marker_at(s, i)
}

/// Whether `i` is where the marker occurs first in `s`.
pub open spec fn is_first_marker(s: Seq<char>, i: int) -> bool {
    marker_at(s, i) && forall|j: int| 0 <= j < i ==> !marker_at(s, j)
}

/// Where the marker occurs first in `s`; meaningful when `has_marker(s)`.
pub open spec fn first_marker(s: Seq<char>) -> int {
    choose|i: int| is_first_marker(s, i)
}

/// The identifier that a query string gives: the letters and digits that
/// follow the first marker, up to the first other character.
pub open spec fn query_identifier(query: Seq<char>) -> Seq<char> {
    leading_alnum(query.skip(first_marker(query) + 2))
}

/// The identifier that a short link gives: its path without the leading
/// separator, taken as it is.
pub open spec fn path_identifier(path: Seq<char>) -> Seq<char> {
    if path.len() > 0 {
        path.skip(1)
    } else {
        path
    }
}

/// The schemes that a link may have.
pub open spec fn is_web_scheme(scheme: Seq<char>) -> bool {
    scheme == "http"@ || scheme == "https"@
}

/// The primary host and its `www` and mobile aliases, matched exactly.
pub open spec fn is_primary_host(host: Seq<char>) -> bool {
    host == "youtube.com"@ || host == "www.youtube.com"@ || host == "m.youtube.com"@
}

/// The short-link host, matched exactly.
pub open spec fn is_short_host(host: Seq<char>) -> bool {
    host == "youtu.be"@
}

/// The allow-list of hosts.
pub open spec fn is_allowed_host(host: Seq<char>) -> bool {
    is_primary_host(host) || is_short_host(host)
}

/// Whether the URL has a host and the allow-list holds it.
pub open spec fn has_allowed_host(parts: UrlPartsView) -> bool {
    parts.host matches Some(h) && is_allowed_host(h)
}

/// The path that a long-form link must have.
pub open spec fn watch_path() -> Seq<char> {
    "/watch"@
}

/// What canonicalisation makes of the parts of a parsed URL.
pub open spec fn canonical_of_parts(parts: UrlPartsView) -> Result<LinkView, RejectionReason> {
    if !is_web_scheme(parts.scheme) {
        Err(RejectionReason::InvalidScheme)
    } else if !has_allowed_host(parts) {
        Err(RejectionReason::DisallowedHost)
    } else if is_primary_host(parts.host->0) {
        if parts.path != watch_path() {
            Err(RejectionReason::InvalidPath)
        } else if parts.query is None || !has_marker(parts.query->0) {
            Err(RejectionReason::MissingIdentifier)
        } else {
            Ok(
                LinkView {
                    source_domain: SourceDomain::PrimaryHost,
                    resource_id: query_identifier(parts.query->0),
                },
            )
        }
    } else {
        Ok(
            LinkView {
                source_domain: SourceDomain::ShortHost,
                resource_id: path_identifier(parts.path),
            },
        )
    }
}

/// What canonicalisation makes of a parse: text that is no absolute URL is
/// malformed, and a URL goes by its parts.
pub open spec fn canonical_of(parsed: Option<UrlPartsView>) -> Result<LinkView, RejectionReason> {
    match parsed {
        None => Err(RejectionReason::Malformed),
        Some(parts) => canonical_of_parts(parts),
    }
}

/// The canonical URL of the resource with this identifier.
pub open spec fn canonical_url_of(resource_id: Seq<char>) -> Seq<char> {
    "https://youtube.com/watch?v="@ + resource_id
}

impl CanonicalLink {
    /// A link that came by a long-form host holds only ASCII letters and
    /// digits in its identifier. The identifier of a short link is not
    /// looked at, and either kind may be empty.
    pub open spec fn wf(&self) -> bool {
        self.source_domain == SourceDomain::PrimaryHost ==> all_ascii_alnum(self.resource_id@)
    }

    /// The canonical URL: the primary host, the watch path and the
    /// identifier, whatever host the link came by.
    pub fn canonical_url(&self) -> (url: String)
        ensures
            url@ == canonical_url_of(self.resource_id@),
    {
        let mut url = "https://youtube.com/watch?v=".to_owned();
        url.append(self.resource_id.as_str());
        url
    }
}

/// Whether `c` is an ASCII letter or digit.
pub fn is_alnum(c: char) -> (r: bool)
    ensures
        r == is_ascii_alnum(c),
{
    ('a' <= c && c <= 'z') || ('A' <= c && c <= 'Z') || ('0' <= c && c <= '9')
}

/// The first marker of a text is the only index that holds the marker with
/// none before it.
pub proof fn lemma_first_marker_unique(s: Seq<char>, i: int)
    requires
        is_first_marker(s, i),
    ensures
        has_marker(s),
        first_marker(s) == i,
{
    let k = first_marker(s);
    assert(is_first_marker(s, k));
    if k < i {
        assert(!marker_at(s, k));
    }
    if i < k {
        assert(!marker_at(s, i));
    }
}

/// A prefix of letters and digits that ends at the end of the text, or just
/// before a character that is neither, is the leading run.
pub proof fn lemma_leading_alnum_is_prefix(s: Seq<char>, n: int)
    requires
        0 <= n <= s.len(),
        all_ascii_alnum(s.take(n)),
        n < s.len() ==> !is_ascii_alnum(s[n]),
    ensures
        leading_alnum(s) == s.take(n),
    decreases n,
{
    if n == 0 {
        assert(leading_alnum(s) =~= s.take(0));
    } else {
        assert(s.take(n)[0] == s[0]);
        let rest = s.drop_first();
        assert forall|i: int| 0 <= i < rest.take(n - 1).len() implies is_ascii_alnum(
            #[trigger] rest.take(n - 1)[i],
        ) by {
            assert(rest.take(n - 1)[i] == s.take(n)[i + 1]);
        }
        lemma_leading_alnum_is_prefix(rest, n - 1);
        assert(seq![s[0]] + rest.take(n - 1) =~= s.take(n));
    }
}

/// The leading run is a prefix of the text, holds only letters and digits,
/// and cannot be made longer.
pub proof fn lemma_leading_alnum(s: Seq<char>)
    ensures
        leading_alnum(s).is_prefix_of(s),
        all_ascii_alnum(leading_alnum(s)),
        leading_alnum(s).len() < s.len() ==> !is_ascii_alnum(s[leading_alnum(s).len() as int]),
    decreases s.len(),
{
    if s.len() > 0 && is_ascii_alnum(s[0]) {
        let rest = s.drop_first();
        lemma_leading_alnum(rest);
        let run = leading_alnum(s);
        let inner = leading_alnum(rest);
        assert(run =~= seq![s[0]] + inner);
        assert forall|i: int| 0 <= i < run.len() implies is_ascii_alnum(#[trigger] run[i]) && run[i]
            == s[i] by {
            if i > 0 {
                assert(run[i] == inner[i - 1]);
                assert(inner[i - 1] == rest[i - 1]);
            }
        }
        assert(run =~= s.subrange(0, run.len() as int));
        if run.len() < s.len() {
            assert(s[run.len() as int] == rest[inner.len() as int]);
        }
    } else {
        assert(leading_alnum(s) =~= s.subrange(0, 0));
    }
}

/// Where the marker `v=` occurs first in `text`, if it occurs.
pub fn find_marker(text: &Vec<char>) -> (r: Option<usize>)
    ensures
        r is Some <==> has_marker(text@),
        r matches Some(i) ==> i == first_marker(text@) && is_first_marker(text@, i as int),
{
    let n = text.len();
    let mut i: usize = 0;
    while n >= 2 && i <= n - 2
        invariant
            n == text@.len(),
            i <= n,
            forall|j: int| 0 <= j < i ==> !marker_at(text@, j),
        decreases n - i,
    {
        if text[i] == 'v' && text[i + 1] == '=' {
            proof {
                assert(marker_at(text@, i as int));
                lemma_first_marker_unique(text@, i as int);
            }
            return Some(i);
        }
        i += 1;
    }
    assert forall|j: int| !marker_at(text@, j) by {
        if 0 <= j < i {
            assert(!marker_at(text@, j));
        }
    }
    None
}

/// The end of the run of ASCII letters and digits that starts at `from`.
pub fn scan_alnum(text: &Vec<char>, from: usize) -> (end: usize)
    requires
        from <= text@.len(),
    ensures
        from <= end <= text@.len(),
        text@.subrange(from as int, end as int) == leading_alnum(text@.skip(from as int)),
{
    let n = text.len();
    let ghost tail = text@.skip(from as int);
    let mut end: usize = from;
    while end < n && is_alnum(text[end])
        invariant
            n == text@.len(),
            from <= end <= n,
            tail == text@.skip(from as int),
            all_ascii_alnum(tail.take(end - from)),
        decreases n - end,
    {
        end += 1;
        assert forall|i: int| 0 <= i < tail.take(end - from).len() implies is_ascii_alnum(
            #[trigger] tail.take(end - from)[i],
        ) by {
            if i < end - from - 1 {
                assert(tail.take(end - from)[i] == tail.take(end - from - 1)[i]);
            }
        }
    }
    proof {
        lemma_leading_alnum_is_prefix(tail, end - from);
        assert(tail.take(end - from) =~= text@.subrange(from as int, end as int));
    }
    end
}

/// The identifier in a query string that holds the marker.
fn identifier_in_query(query: &str) -> (r: Option<String>)
    ensures
        r is Some <==> has_marker(query@),
        r matches Some(id) ==> id@ == query_identifier(query@),
{
    let chars = to_chars(query);
    match find_marker(&chars) {
        Some(at) => {
            assert(marker_at(chars@, at as int));
            let end = scan_alnum(&chars, at + 2);
            Some(from_chars(&chars, at + 2, end))
        },
        None => None,
    }
}

/// The identifier in the path of a short link.
fn identifier_in_path(path: &str) -> (id: String)
    ensures
        id@ == path_identifier(path@),
{
    let chars = to_chars(path);
    let n = chars.len();
    if n > 0 {
        let id = from_chars(&chars, 1, n);
        assert(chars@.subrange(1, n as int) =~= chars@.skip(1));
        id
    } else {
        let id = String::new();
        assert(id@ =~= path@);
        id
    }
}

/// Whether the allow-list holds `host` as a long-form host.
fn primary_host(host: &str) -> (r: bool)
    ensures
        r == is_primary_host(host@),
{
    str_eq(host, "youtube.com") || str_eq(host, "www.youtube.com") || str_eq(host, "m.youtube.com")
}

/// Canonicalises the parts of a parsed URL. The checks run in a fixed order
/// and the first that fails gives the reason: the scheme, the host, and for
/// a long-form host the path and then the identifier in the query string.
/// A short link gives its path without the leading separator, unvalidated.
/// An empty identifier is accepted.
pub fn canonicalize_parts(parts: &UrlParts) -> (r: Result<CanonicalLink, RejectionReason>)
    ensures
        outcome_view(r) == canonical_of_parts(parts@),
        r matches Ok(link) ==> link.wf(),
        is_web_scheme(parts@.scheme) && !has_allowed_host(parts@) ==> r == Err::<
            CanonicalLink,
            RejectionReason,
        >(RejectionReason::DisallowedHost),
{
    if !(str_eq(parts.scheme.as_str(), "http") || str_eq(parts.scheme.as_str(), "https")) {
        return Err(RejectionReason::InvalidScheme);
    }
    let host = match &parts.host {
        Some(h) => h.as_str(),
        None => {
            return Err(RejectionReason::DisallowedHost);
        },
    };
    if primary_host(host) {
        if !str_eq(parts.path.as_str(), "/watch") {
            return Err(RejectionReason::InvalidPath);
        }
        let query = match &parts.query {
            Some(q) => q.as_str(),
            None => {
                return Err(RejectionReason::MissingIdentifier);
            },
        };
        match identifier_in_query(query) {
            Some(id) => {
                proof {
                    lemma_leading_alnum(query@.skip(first_marker(query@) + 2));
                }
                Ok(CanonicalLink { source_domain: SourceDomain::PrimaryHost, resource_id: id })
            },
            None => Err(RejectionReason::MissingIdentifier),
        }
    } else if str_eq(host, "youtu.be") {
        Ok(
            CanonicalLink {
                source_domain: SourceDomain::ShortHost,
                resource_id: identifier_in_path(parts.path.as_str()),
            },
        )
    } else {
        Err(RejectionReason::DisallowedHost)
    }
}

/// Canonicalises the outcome of a parse: no URL at all is `Malformed`.
pub fn canonicalize_parsed(parsed: &Option<UrlParts>) -> (r: Result<
    CanonicalLink,
    RejectionReason,
>)
    ensures
        outcome_view(r) == canonical_of(parsed_view(*parsed)),
        r matches Ok(link) ==> link.wf(),
{
    match parsed {
        Some(parts) => canonicalize_parts(parts),
        None => Err(RejectionReason::Malformed),
    }
}

/// The parts of an optional parse, as character sequences.
pub open spec fn parsed_view(parsed: Option<UrlParts>) -> Option<UrlPartsView> {
    match parsed {
        Some(parts) => Some(parts@),
        None => None,
    }
}

/// What `url::Url::parse` makes of a text: `None` where it returns an error,
/// else the scheme, host, path and query of the URL it returns.
pub uninterp spec fn url_parse(input: Seq<char>) -> Option<UrlPartsView>;

/// Parses `input` with `url::Url::parse` and copies out what `scheme`,
/// `host_str`, `path` and `query` return for the URL. Nothing is proved of
/// the parser: the contract only gives its result the name `url_parse`, a
/// function of the input text alone.
#[verifier::external_body]
pub(crate) fn parse_url(input: &str) -> (r: Option<UrlParts>)
    ensures
        parsed_view(r) == url_parse(input@),
{
    match Url::parse(input) {
        Ok(url) => Some(
            UrlParts {
                scheme: url.scheme().to_string(),
                host: url.host_str().map(str::to_string),
                path: url.path().to_string(),
                query: url.query().map(str::to_string),
            },
        ),
        Err(_) => None,
    }
}

/// Canonicalises a link as a user typed it. The text is parsed as an
/// absolute URL and the outcome goes through `canonicalize_parsed`; no input
/// makes this function fail in any other way than by its `Err`.
pub fn canonicalize(input: &str) -> (r: Result<CanonicalLink, RejectionReason>)
    ensures
        outcome_view(r) == canonical_of(url_parse(input@)),
        r matches Ok(link) ==> link.wf(),
{
    let parsed = parse_url(input);
    canonicalize_parsed(&parsed)
}

/// A URL with a web scheme whose host the allow-list does not hold is
/// refused as `DisallowedHost`, whatever its path and query are.
pub proof fn lemma_disallowed_host_is_rejected(parts: UrlPartsView)
    requires
        is_web_scheme(parts.scheme),
        !has_allowed_host(parts),
    ensures
        canonical_of(Some(parts)) == Err::<LinkView, RejectionReason>(
            RejectionReason::DisallowedHost,
        ),
{
}

} // verus!
