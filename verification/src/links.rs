//! Web addresses, as far as a download depends on what they name.

use vstd::prelude::*;

use crate::text::{same_text, starts_with, str_view, string_view};

verus! {

/// What the parts of an address read.
pub struct UrlView {
    pub scheme: Seq<char>,
    pub host: Option<Seq<char>>,
    pub port: Option<u16>,
    pub path: Seq<char>,
    /// The parts of the path between its slashes; `None` where the path does
    /// not start with one.
    pub segments: Option<Seq<Seq<char>>>,
}

/// The parts of a parsed address.
#[derive(Debug, Clone)]
pub struct UrlParts {
    pub scheme: String,
    pub host: Option<String>,
    pub port: Option<u16>,
    pub path: String,
    pub segments: Option<Vec<String>>,
}

impl View for UrlParts {
    type V = UrlView;

    open spec fn view(&self) -> UrlView {
        UrlView {
            scheme: self.scheme@,
            host: string_view(self.host),
            port: self.port,
            path: self.path@,
            segments: match self.segments {
                Some(parts) => Some(parts@.map_values(|part: String| part@)),
                None => None,
            },
        }
    }
}

/// What `url::Url::parse` makes of a text, or `None` where it refuses it.
pub uninterp spec fn parsed_url(text: Seq<char>) -> Option<UrlView>;

/// `url::Url::parse`, with the parts that its `scheme`, `host_str`, `port`,
/// `path` and `path_segments` read off the address. Which texts are addresses,
/// and how they are normalised, is the parser's own and stays unstated; the
/// parts depend on the text alone.
#[verifier::external_body]
pub(crate) fn parse_url(text: &str) -> (parts: Option<UrlParts>)
    ensures
        (match parts {
            Some(p) => Some(p@),
            None => None,
        }) == parsed_url(text@),
{
    let url = url::Url::parse(text).ok()?;
    Some(UrlParts {
        scheme: url.scheme().to_string(),
        host: url.host_str().map(str::to_string),
        port: url.port(),
        path: url.path().to_string(),
        segments: url.path_segments().map(|parts| parts.map(str::to_string).collect()),
    })
}

/// Two addresses name the same resource: all but the query, the fragment and
/// the credentials agree.
pub open spec fn same_resource(a: UrlView, b: UrlView) -> bool {
    &&& a.scheme == b.scheme
    &&& a.host == b.host
    &&& a.port == b.port
    &&& a.path == b.path
}

fn same_option(a: &Option<String>, b: &Option<String>) -> (r: bool)
    ensures
        r == (string_view(*a) == string_view(*b)),
{
    match (a, b) {
        (Some(x), Some(y)) => same_text(x.as_str(), y.as_str()),
        (None, None) => true,
        _ => false,
    }
}

/// Whether two parsed addresses name the same resource.
pub fn parts_match(a: &UrlParts, b: &UrlParts) -> (r: bool)
    ensures
        r == same_resource(a@, b@),
{
    same_text(a.scheme.as_str(), b.scheme.as_str()) && same_option(&a.host, &b.host) && (match (
        a.port,
        b.port,
    ) {
        (Some(x), Some(y)) => x == y,
        (None, None) => true,
        _ => false,
    }) && same_text(a.path.as_str(), b.path.as_str())
}

pub open spec fn is_web_address(s: Seq<char>) -> bool {
    "http://"@.is_prefix_of(s) || "https://"@.is_prefix_of(s)
}

/// Whether the text starts as a web address does.
pub fn is_http_or_keys_and_tokens_stripped(u: &str) -> (r: bool)
    ensures
        r == is_web_address(u@),
{
    starts_with(u, "http://") || starts_with(u, "https://")
}

/// Two sources are the same download: the same text, or two web addresses that
/// differ at most in what follows the path.
pub open spec fn sources_agree(a: Seq<char>, b: Seq<char>) -> bool {
    a == b || {
        &&& is_web_address(a)
        &&& is_web_address(b)
        &&& parsed_url(a) matches Some(x)
        &&& parsed_url(b) matches Some(y)
        &&& same_resource(x, y)
    }
}

/// Whether two sources are the same download.
pub fn urls_are_compatible(url1: &str, url2: &str) -> (r: bool)
    ensures
        r == sources_agree(url1@, url2@),
{
    if same_text(url1, url2) {
        return true;
    }
    if is_http_or_keys_and_tokens_stripped(url1) && is_http_or_keys_and_tokens_stripped(url2) {
        if let (Some(a), Some(b)) = (parse_url(url1), parse_url(url2)) {
            return parts_match(&a, &b);
        }
    }
    false
}

/// Every source is the same download as itself, being the same download does
/// not depend on the order, and two sources that are the same download as a
/// third are the same download.
pub proof fn sources_fall_into_classes(a: Seq<char>, b: Seq<char>, c: Seq<char>)
    ensures
        sources_agree(a, a),
        sources_agree(a, b) == sources_agree(b, a),
        sources_agree(a, b) && sources_agree(b, c) ==> sources_agree(a, c),
{
}

/// Two validators of a resource agree unless both are there and they differ.
pub open spec fn validators_agree(stored: Option<Seq<char>>, remote: Option<Seq<char>>) -> bool {
    match (stored, remote) {
        (Some(a), Some(b)) => a == b,
        _ => true,
    }
}

/// Whether the validator on record and the one that the server sends agree.
pub fn weak_validator_matches(stored: Option<&str>, remote: Option<&str>) -> (r: bool)
    ensures
        r == validators_agree(str_view(stored), str_view(remote)),
{
    match (stored, remote) {
        (Some(a), Some(b)) => same_text(a, b),
        _ => true,
    }
}

/// Two different texts are the same download exactly where both start as web
/// addresses do, both can be parsed, and scheme, host, port and path agree.
pub proof fn sources_agree_by_their_parts(a: Seq<char>, b: Seq<char>)
    requires
        a != b,
    ensures
        sources_agree(a, b) ==> ("http://"@.is_prefix_of(a) || "https://"@.is_prefix_of(a)) && (
        "http://"@.is_prefix_of(b) || "https://"@.is_prefix_of(b)),
        sources_agree(a, b) ==> parsed_url(a) is Some && parsed_url(b) is Some,
        sources_agree(a, b) ==> parsed_url(a)->0.scheme == parsed_url(b)->0.scheme,
        sources_agree(a, b) ==> parsed_url(a)->0.host == parsed_url(b)->0.host,
        sources_agree(a, b) ==> parsed_url(a)->0.port == parsed_url(b)->0.port,
        sources_agree(a, b) ==> parsed_url(a)->0.path == parsed_url(b)->0.path,
        "https://"@.is_prefix_of(a) && ("http://"@.is_prefix_of(b) || "https://"@.is_prefix_of(b))
            && (parsed_url(a) matches Some(x) && parsed_url(b) matches Some(y) && x.scheme
            == y.scheme && x.host == y.host && x.port == y.port && x.path == y.path)
            ==> sources_agree(a, b),
        "http://"@.is_prefix_of(a) && ("http://"@.is_prefix_of(b) || "https://"@.is_prefix_of(b))
            && (parsed_url(a) matches Some(x) && parsed_url(b) matches Some(y) && x.scheme
            == y.scheme && x.host == y.host && x.port == y.port && x.path == y.path)
            ==> sources_agree(a, b),
{
}

/// A validator that one side does not name decides nothing; two that are named
/// decide by being equal.
pub proof fn validators_decide_where_both_are_named(a: Seq<char>, b: Seq<char>)
    ensures
        validators_agree(Some(a), Some(b)) == (a == b),
        validators_agree(None, Some(b)),
        validators_agree(Some(a), None),
        validators_agree(None, None),
{
}

} // verus!
