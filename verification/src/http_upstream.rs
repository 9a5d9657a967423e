//! The HTTP upstream dispatcher: the proxied request (path template, query,
//! forwarded headers) and what the upstream's answer or failure becomes.

use vstd::prelude::*;
use crate::ai_proxy::dispatch::is_hop_by_hop;
use crate::headers::{HeaderMap, distinct_keys, entries_map, map_get};
use crate::http::{HttpRequest, Request, Response, body_view};
use crate::sdk::{problem_details, problem_details_json};
use crate::json::{JsonV, json_bytes};
use crate::text::{concat, concat3, ends_with, is_prefix, is_suffix, owned, replace_seq, replace_str, starts_with, str_eq,
    to_lowercase, trim_end_char, trim_end_matches_char, unicode_lower};

verus! {

/// HTTP upstream dispatcher configuration. The timeout, given in seconds
/// as a float, is turned into milliseconds by the caller.
pub struct HttpUpstreamDispatcher {
    /// Base URL of the upstream.
    pub url: String,
    /// Path template with `{param}` placeholders; the request path when absent.
    pub path: Option<String>,
}

/// The template with each `{key}` replaced by its value, pair by pair.
pub open spec fn substitute(template: Seq<char>, params: Seq<(Seq<char>, Seq<char>)>) -> Seq<char>
    decreases params.len(),
{
    if params.len() == 0 {
        template
    } else {
        let prev = substitute(template, params.drop_last());
        replace_seq(prev, seq!['{'] + params.last().0 + seq!['}'], params.last().1)
    }
}

/// The upstream URL: base and path joined with the base's trailing
/// slashes dropped when either side has a slash; then `?query` when the
/// query is non-empty.
pub open spec fn upstream_url(base: Seq<char>, path: Seq<char>, query: Option<Seq<char>>) -> Seq<char> {
    let joined = if is_suffix("/"@, base) || is_prefix("/"@, path) { trim_end_char(base, '/') + path } else { base + path };
    match query {
        Some(q) => if q.len() > 0 { joined + seq!['?'] + q } else { joined },
        None => joined,
    }
}

/// The forwarded headers: the request's without hop-by-hop ones, the
/// `host` as `x-forwarded-host`, and the scheme as `x-forwarded-proto`.
pub open spec fn forwarded_headers(h: Map<Seq<char>, Seq<char>>, base: Seq<char>) -> Map<Seq<char>, Seq<char>> {
    let kept = kept_headers_spec(h, false);
    let with_host = match map_get(h, "host"@) {
        Some(v) => kept.insert("x-forwarded-host"@, v),
        None => kept,
    };
    with_host.insert("x-forwarded-proto"@, if is_prefix("https://"@, base) { "https"@ } else { "http"@ })
}

impl HttpUpstreamDispatcher {
    /// Replaces each `{key}` of the template by its value, in the pairs'
    /// order.
    pub fn substitute_path_params(&self, template: &str, params: &Vec<(String, String)>) -> (r: String)
        ensures
            r@ == substitute(template@, params@.map_values(|e: (String, String)| (e.0@, e.1@))),
    {
        let ghost pv = params@.map_values(|e: (String, String)| (e.0@, e.1@));
        let mut result = owned(template);
        let mut i: usize = 0;
        assert(pv.subrange(0, 0) =~= Seq::<(Seq<char>, Seq<char>)>::empty());
        while i < params.len()
            invariant
                i <= params@.len(),
                pv == params@.map_values(|e: (String, String)| (e.0@, e.1@)),
                result@ == substitute(template@, pv.subrange(0, i as int)),
            decreases params@.len() - i,
        {
            assert(pv.subrange(0, i + 1).drop_last() =~= pv.subrange(0, i as int));
            let mut placeholder = String::new();
            crate::text::push_char(&mut placeholder, '{');
            crate::text::push_str(&mut placeholder, params[i].0.as_str());
            crate::text::push_char(&mut placeholder, '}');
            assert(placeholder@ =~= seq!['{'] + params@[i as int].0@ + seq!['}']);
            result = replace_str(result.as_str(), placeholder.as_str(), params[i].1.as_str());
            i = i + 1;
        }
        assert(pv.subrange(0, params@.len() as int) =~= pv);
        result
    }

    /// The request sent upstream.
    pub fn upstream_request(&self, req: &Request, timeout_ms: u64) -> (r: HttpRequest)
        ensures
            r.method == req.method,
            r.url@ == upstream_url(self.url@, match self.path {
                Some(t) => substitute(t@, req.path_params.entry_seq()),
                None => req.path@,
            }, match req.query { Some(q) => Some(q@), None => None }),
            r.headers@ == forwarded_headers(req.headers@, self.url@),
            r.timeout_ms == Some(timeout_ms),
    {
        let path: String = match &self.path {
            Some(t) => self.substitute_path_params(t.as_str(), &req.path_params.pairs()),
            None => req.path.clone(),
        };
        let joined = if ends_with(self.url.as_str(), "/") || starts_with(path.as_str(), "/") {
            concat(trim_end_matches_char(self.url.as_str(), '/').as_str(), path.as_str())
        } else {
            concat(self.url.as_str(), path.as_str())
        };
        let url = match &req.query {
            Some(q) => if !q.as_str().is_empty() {
                let mut u = joined;
                crate::text::push_char(&mut u, '?');
                crate::text::push_str(&mut u, q.as_str());
                u
            } else {
                joined
            },
            None => joined,
        };
        let headers = forward_headers(&req.headers, self.url.as_str());
        HttpRequest { method: req.method.clone(), url, headers, timeout_ms: Some(timeout_ms) }
    }

    /// An RFC 9457 error answer: the type follows the status; the detail
    /// is `<detail>: <debug>`.
    pub fn error_response(&self, status: u16, title: &str, detail: &str, debug: &str) -> (r: Response)
        ensures
            r.status == status,
            r.headers@ == crate::http::one_header("content-type"@, "application/problem+json"@),
            body_view(r.body) == Some(json_bytes(problem_details_json(status, error_type(status), title@,
                Some(detail@ + ": "@ + debug@), Seq::empty()))),
    {
        let t = if status == 502 {
            "urn:barbacane:error:upstream-unavailable"
        } else if status == 503 {
            "urn:barbacane:error:circuit-open"
        } else if status == 504 {
            "urn:barbacane:error:upstream-timeout"
        } else {
            "urn:barbacane:error:internal"
        };
        let full = concat3(detail, ": ", debug);
        let ext: Vec<(String, crate::json::Json)> = Vec::new();
        assert(crate::json::json_members_view(ext@) =~= Seq::<(Seq<char>, JsonV)>::empty());
        problem_details(status, t, title, Some(full.as_str()), &ext)
    }

    /// The answer for a failed upstream call.
    pub fn call_failed_response(&self, e: CallError) -> (r: Response)
        ensures
            r.status == 502,
            r.headers@ == crate::http::one_header("content-type"@, "application/problem+json"@),
            body_view(r.body) == Some(json_bytes(problem_details_json(502, error_type(502), "Bad Gateway"@,
                Some(call_error_detail(e)), Seq::empty()))),
    {
        match e {
            CallError::Unreachable | CallError::Unsupported =>
                self.error_response(502, "Bad Gateway", "upstream connection failed", "host_http_call returned error"),
            CallError::Empty | CallError::ReadFailed =>
                self.error_response(502, "Bad Gateway", "upstream connection failed", "failed to read response"),
            CallError::InvalidResponse =>
                self.error_response(502, "Bad Gateway", "invalid upstream response", "failed to parse upstream response"),
        }
    }

    /// The upstream's answer as returned to the client: its status and
    /// body, and its headers without the hop-by-hop ones.
    pub fn upstream_answer(&self, status: u16, headers: &HeaderMap, body: Option<Vec<u8>>) -> (r: Response)
        ensures
            r.status == status,
            r.headers@ == kept_headers_spec(headers@, false),
            r.body == body,
    {
        Response { status, headers: kept_headers(headers, false), body }
    }
}

/// The problem type of an error status.
pub open spec fn error_type(status: u16) -> Seq<char> {
    if status == 502 {
        "urn:barbacane:error:upstream-unavailable"@
    } else if status == 503 {
        "urn:barbacane:error:circuit-open"@
    } else if status == 504 {
        "urn:barbacane:error:upstream-timeout"@
    } else {
        "urn:barbacane:error:internal"@
    }
}

/// Why a host HTTP call failed.
pub enum CallError {
    Unreachable,
    Unsupported,
    Empty,
    ReadFailed,
    InvalidResponse,
}

/// The detail of the 502 for a failed call.
pub open spec fn call_error_detail(e: CallError) -> Seq<char> {
    match e {
        CallError::Unreachable | CallError::Unsupported => "upstream connection failed"@ + ": "@ + "host_http_call returned error"@,
        CallError::Empty | CallError::ReadFailed => "upstream connection failed"@ + ": "@ + "failed to read response"@,
        CallError::InvalidResponse => "invalid upstream response"@ + ": "@ + "failed to parse upstream response"@,
    }
}

/// A header the proxy does not forward: a hop-by-hop header, and `host`
/// too when asked.
pub open spec fn dropped_header(k: Seq<char>, drop_host: bool) -> bool {
    is_hop_by_hop(k) || (drop_host && unicode_lower(k) == "host"@)
}

/// The headers without the dropped ones.
pub open spec fn kept_headers_spec(h: Map<Seq<char>, Seq<char>>, drop_host: bool) -> Map<Seq<char>, Seq<char>> {
    h.restrict(h.dom().filter(|k: Seq<char>| !dropped_header(k, drop_host)))
}

/// Copies the headers that are forwarded (names compared lowercased).
pub fn kept_headers(h: &HeaderMap, drop_host: bool) -> (r: HeaderMap)
    ensures
        r@ == kept_headers_spec(h@, drop_host),
{
    let pairs = h.pairs();
    let mut out = HeaderMap::new();
    let mut i: usize = 0;
    while i < pairs.len()
        invariant
            i <= pairs@.len(),
            distinct_keys(pairs@),
            entries_map(pairs@) == h@,
            forall|k: Seq<char>| #[trigger] out@.contains_key(k) <==> (exists|j: int| 0 <= j < i && pairs@[j].0@ == k) && !dropped_header(k, drop_host),
            forall|j: int| 0 <= j < i && !dropped_header(pairs@[j].0@, drop_host) ==> #[trigger] out@[pairs@[j].0@] == pairs@[j].1@,
        decreases pairs@.len() - i,
    {
        let k = &pairs[i].0;
        let l = to_lowercase(k.as_str());
        let hop = str_eq(l.as_str(), "connection") || str_eq(l.as_str(), "keep-alive") || str_eq(l.as_str(), "transfer-encoding")
            || str_eq(l.as_str(), "te") || str_eq(l.as_str(), "trailer") || str_eq(l.as_str(), "upgrade")
            || (drop_host && str_eq(l.as_str(), "host"));
        let ghost old_out = out@;
        if !hop {
            out.insert(k.clone(), pairs[i].1.clone());
        }
        proof {
            assert forall|kk: Seq<char>| #[trigger] out@.contains_key(kk) <==> (exists|j: int| 0 <= j < i + 1 && pairs@[j].0@ == kk) && !dropped_header(kk, drop_host) by {
                if exists|j: int| 0 <= j < i + 1 && pairs@[j].0@ == kk {
                    let j = choose|j: int| 0 <= j < i + 1 && pairs@[j].0@ == kk;
                    if j < i {
                        assert(exists|j2: int| 0 <= j2 < i && pairs@[j2].0@ == kk);
                    }
                }
                if old_out.contains_key(kk) {
                    let j = choose|j: int| 0 <= j < i && pairs@[j].0@ == kk;
                    assert(0 <= j < i + 1 && pairs@[j].0@ == kk);
                }
            }
            assert forall|j: int| 0 <= j < i + 1 && !dropped_header(pairs@[j].0@, drop_host) implies #[trigger] out@[pairs@[j].0@] == pairs@[j].1@ by {
                if j < i && !hop {
                    assert(pairs@[j].0@ != pairs@[i as int].0@);
                }
            }
        }
        i = i + 1;
    }
    proof {
        assert forall|k: Seq<char>| out@.contains_key(k) implies #[trigger] out@[k] == h@[k] by {
            let j = choose|j: int| 0 <= j < pairs@.len() && pairs@[j].0@ == k;
            crate::headers::lemma_entries_map_at(pairs@, j);
        }
        assert forall|k: Seq<char>| #[trigger] out@.contains_key(k) <==> (h@.contains_key(k) && !dropped_header(k, drop_host)) by {
            if exists|j: int| 0 <= j < pairs@.len() && pairs@[j].0@ == k {
                let j = choose|j: int| 0 <= j < pairs@.len() && pairs@[j].0@ == k;
                assert(crate::headers::key_at(pairs@, k, j));
            }
            if h@.contains_key(k) {
                let j = choose|j: int| crate::headers::key_at(pairs@, k, j);
                assert(0 <= j < pairs@.len() && pairs@[j].0@ == k);
            }
        }
        assert(out@ =~= kept_headers_spec(h@, drop_host));
    }
    out
}

/// A hop-by-hop header of the client is never passed on, whatever else
/// the request carries.
pub proof fn law_hop_by_hop_never_kept(h: Map<Seq<char>, Seq<char>>, drop_host: bool, k: Seq<char>)
    requires
        is_hop_by_hop(k),
    ensures
        !kept_headers_spec(h, drop_host).contains_key(k),
{
}

/// Builds the forwarded headers.
pub fn forward_headers(h: &HeaderMap, base: &str) -> (r: HeaderMap)
    ensures
        r@ == forwarded_headers(h@, base@),
{
    let mut out = kept_headers(h, false);
    match h.get("host") {
        Some(v) => out.insert(owned("x-forwarded-host"), v),
        None => {},
    }
    let proto = if starts_with(base, "https://") { "https" } else { "http" };
    out.insert(owned("x-forwarded-proto"), owned(proto));
    out
}

/// How the upstream URL is composed: the base's trailing slashes are
/// dropped when the base ends or the path starts with `/`, otherwise base
/// and path are concatenated; a non-empty query follows after `?`, and an
/// empty or absent one adds nothing.
pub proof fn law_upstream_url(base: Seq<char>, path: Seq<char>, query: Option<Seq<char>>)
    ensures
        (is_suffix("/"@, base) || is_prefix("/"@, path)) ==> upstream_url(base, path, None) == trim_end_char(base, '/') + path,
        !(is_suffix("/"@, base) || is_prefix("/"@, path)) ==> upstream_url(base, path, None) == base + path,
        query matches Some(q) && q.len() > 0 ==> upstream_url(base, path, query) == upstream_url(base, path, None) + seq!['?'] + query->0,
        !(query matches Some(q) && q.len() > 0) ==> upstream_url(base, path, query) == upstream_url(base, path, None),
{
}

} // verus!
