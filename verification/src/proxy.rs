use vstd::prelude::*;
use vstd::string::StringExecFns;
use crate::blocker::NetworkMatch;
use crate::textutil::{str_eq, str_starts_with};

verus! {

/// What the session handler does with one request before any engine query.
#[derive(Debug, Clone, Copy, PartialEq, Eq, Structural)]
pub enum RequestPlan {
    /// The host is excluded: forward the request untouched; neither a
    /// network nor a cosmetic query is issued.
    PassThrough,
    /// Consult the filter engine before forwarding.
    Query,
}

/// The plan for a request, from the host's exclusion status.
pub open spec fn spec_request_plan(host_excluded: bool) -> RequestPlan {
    if host_excluded {
        RequestPlan::PassThrough
    } else {
        RequestPlan::Query
    }
}

/// Decides what to do with one request: an excluded host is passed through
/// with no engine query at all; every other request is checked.
pub fn request_plan(host_excluded: bool) -> (r: RequestPlan)
    ensures
        r == spec_request_plan(host_excluded),
{
    if host_excluded {
        RequestPlan::PassThrough
    } else {
        RequestPlan::Query
    }
}

/// Exclusion short-circuit: for an excluded host the plan is to pass the
/// request through, so no engine query is ever issued for it; queries
/// happen only under the `Query` plan.
pub proof fn lemma_exclusion_short_circuit(host_excluded: bool)
    ensures
        host_excluded ==> spec_request_plan(host_excluded) is PassThrough,
        spec_request_plan(host_excluded) is Query ==> !host_excluded,
{
}

/// Whether the engine's answer blocks the request.
pub fn is_blocked(m: &NetworkMatch) -> (r: bool)
    ensures
        r == m.matched,
{
    m.matched
}

/// A response the proxy writes itself.
pub struct SyntheticResponse {
    /// The HTTP status code.
    pub status: u16,
    /// The content-type header value.
    pub content_type: String,
    /// The body.
    pub body: String,
}

/// The page served for a blocked request.
pub fn blocked_response() -> (r: SyntheticResponse)
    ensures
        r.status == 403,
        r.content_type@ == "text/html"@,
        r.body@ == "Blocked by Privaxy"@,
{
    SyntheticResponse {
        status: 403,
        content_type: String::from_str("text/html"),
        body: String::from_str("Blocked by Privaxy"),
    }
}

/// The response mapped onto any origin-side failure; never retried.
pub fn bad_gateway_response() -> (r: SyntheticResponse)
    ensures
        r.status == 502,
        r.content_type@ == "text/html"@,
        r.body@ == "Bad Gateway"@,
{
    SyntheticResponse {
        status: 502,
        content_type: String::from_str("text/html"),
        body: String::from_str("Bad Gateway"),
    }
}

/// The exact wire reply that accepts a CONNECT tunnel.
pub fn connect_established() -> (r: String)
    ensures
        r@ == "HTTP/1.1 200 Connection Established\r\n\r\n"@,
{
    String::from_str("HTTP/1.1 200 Connection Established\r\n\r\n")
}

/// Whether a response body goes through the HTML rewriter: only bodies
/// declared text/html, and only when no content encoding other than
/// identity applies.
pub open spec fn spec_should_rewrite(content_type: Seq<char>, content_encoding: Option<Seq<char>>) -> bool {
    "text/html"@.is_prefix_of(content_type) && (content_encoding is None || content_encoding
        == Some("identity"@))
}

/// Decides whether to attach the rewriter to a response.
pub fn should_rewrite(content_type: &str, content_encoding: Option<&str>) -> (r: bool)
    ensures
        r == spec_should_rewrite(
            content_type@,
            match content_encoding {
                Some(e) => Some(e@),
                None => None,
            },
        ),
{
    if !str_starts_with(content_type, "text/html") {
        return false;
    }
    match content_encoding {
        None => true,
        Some(e) => str_eq(e, "identity"),
    }
}

/// The URL of a request seen inside a CONNECT tunnel, rebuilt from the
/// tunnel's host and the request's path.
pub fn https_url(host: &str, path: &str) -> (r: String)
    ensures
        r@ == "https://"@ + host@ + path@,
{
    let mut s = String::from_str("https://");
    s.append(host);
    s.append(path);
    s
}

/// Length of the leading run free of authority-ending characters.
pub open spec fn authority_len(s: Seq<char>) -> int
    decreases s.len(),
{
    if s.len() == 0 || s[0] == '/' || s[0] == '?' || s[0] == '#' {
        0
    } else {
        1 + authority_len(s.drop_first())
    }
}

/// The authority of an absolute http or https request URI: the characters
/// after the scheme up to the path, query or fragment. A request target
/// that is not an absolute URI has none.
pub open spec fn spec_absolute_uri_host(s: Seq<char>) -> Option<Seq<char>> {
    if "http://"@.is_prefix_of(s) {
        Some(s.skip(7).take(authority_len(s.skip(7))))
    } else if "https://"@.is_prefix_of(s) {
        Some(s.skip(8).take(authority_len(s.skip(8))))
    } else {
        None
    }
}

/// The authority run ends exactly where the spec says.
proof fn lemma_authority_len_is(s: Seq<char>, n: int)
    requires
        0 <= n <= s.len(),
        forall|k: int| 0 <= k < n ==> s[k] != '/' && s[k] != '?' && s[k] != '#',
        n < s.len() ==> s[n] == '/' || s[n] == '?' || s[n] == '#',
    ensures
        authority_len(s) == n,
    decreases s.len(),
{
    if s.len() == 0 || s[0] == '/' || s[0] == '?' || s[0] == '#' {
    } else {
        assert(n > 0);
        lemma_authority_len_is(s.drop_first(), n - 1);
    }
}

/// Extracts the host (with any port) from an absolute request URI, as used
/// to rewrite the host header of a plain proxied request.
pub fn absolute_uri_host(uri: &str) -> (r: Option<String>)
    ensures
        match spec_absolute_uri_host(uri@) {
            Some(h) => r matches Some(s) && s@ == h,
            None => r is None,
        },
{
    let chars = crate::textutil::to_char_vec(uri);
    proof {
        reveal_strlit("http://");
        reveal_strlit("https://");
        assert("http://"@.len() == 7);
        assert("https://"@.len() == 8);
    }
    let skip: usize = if str_starts_with(uri, "http://") {
        7
    } else if str_starts_with(uri, "https://") {
        8
    } else {
        return None;
    };
    let n = chars.len();
    let mut j = skip;
    let mut host: Vec<char> = Vec::new();
    while j < n && chars[j] != '/' && chars[j] != '?' && chars[j] != '#'
        invariant
            n == chars.len(),
            chars@ == uri@,
            skip <= j <= n,
            skip <= n,
            host@ =~= uri@.subrange(skip as int, j as int),
            forall|k: int| skip <= k < j ==> uri@[k] != '/' && uri@[k] != '?' && uri@[k] != '#',
        decreases n - j,
    {
        host.push(chars[j]);
        j = j + 1;
        assert(host@ =~= uri@.subrange(skip as int, j as int));
    }
    proof {
        let rest = uri@.skip(skip as int);
        lemma_authority_len_is(rest, j - skip);
        assert(rest.take(j - skip) =~= uri@.subrange(skip as int, j as int));
    }
    let mut s = String::new();
    let m = host.len();
    for i in 0..m
        invariant
            m == host.len(),
            s@ =~= host@.take(i as int),
    {
        crate::digest::push_char(&mut s, host[i]);
        assert(s@ =~= host@.take(i + 1));
    }
    assert(host@.take(m as int) =~= host@);
    Some(s)
}

/// The referer used for a network match: the header verbatim, or empty when
/// absent.
pub fn referer_or_empty(referer: Option<&str>) -> (r: String)
    ensures
        r@ == match referer {
            Some(s) => s@,
            None => Seq::<char>::empty(),
        },
{
    match referer {
        Some(s) => s.to_owned(),
        None => String::new(),
    }
}


/// Whether a header is managed by the proxy itself and must not be copied
/// between the client leg and the origin leg: the hop-by-hop headers, plus
/// host and content-length, which each leg derives anew.
pub open spec fn spec_proxy_managed_header(name: Seq<char>) -> bool {
    ||| name == "connection"@
    ||| name == "proxy-connection"@
    ||| name == "keep-alive"@
    ||| name == "proxy-authenticate"@
    ||| name == "proxy-authorization"@
    ||| name == "te"@
    ||| name == "trailer"@
    ||| name == "transfer-encoding"@
    ||| name == "upgrade"@
    ||| name == "host"@
    ||| name == "content-length"@
}

/// Tests a lower-cased header name against the proxy-managed list.
pub fn is_proxy_managed_header(name: &str) -> (r: bool)
    ensures
        r == spec_proxy_managed_header(name@),
{
    str_eq(name, "connection") || str_eq(name, "proxy-connection") || str_eq(name, "keep-alive")
        || str_eq(name, "proxy-authenticate") || str_eq(name, "proxy-authorization") || str_eq(
        name,
        "te",
    ) || str_eq(name, "trailer") || str_eq(name, "transfer-encoding") || str_eq(name, "upgrade")
        || str_eq(name, "host") || str_eq(name, "content-length")
}

} // verus!
