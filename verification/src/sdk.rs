//! Calls into the plugin SDK, converted to this library's types.

use vstd::prelude::*;
use barbacane_plugin_sdk::errors::ProblemDetails;
use crate::headers::HeaderMap;
use crate::headers::map_get;
use crate::http::{Request, Response, body_view, one_header};
use crate::text::{split_char, trimmed};
use crate::json::{Json, JsonV, json_bytes, json_members_view};

verus! {

/// The problem object `ProblemDetails::to_json` builds: `type`, `title`,
/// `status`, the `detail` when set, then the extension members.
pub open spec fn problem_details_json(
    status: u16,
    type_uri: Seq<char>,
    title: Seq<char>,
    detail: Option<Seq<char>>,
    extensions: Seq<(Seq<char>, JsonV)>,
) -> JsonV {
    let base = seq![
        ("type"@, JsonV::Str(type_uri)),
        ("title"@, JsonV::Str(title)),
        ("status"@, JsonV::Number(crate::json::NumV::PosInt(status as u64))),
    ];
    let with_detail = match detail { Some(d) => base.push(("detail"@, JsonV::Str(d))), None => base };
    JsonV::Object(with_detail + extensions)
}

/// `ProblemDetails::new(..).detail(..).with(..).into_response()` of the SDK:
/// the given status, `content-type: application/problem+json`, and the
/// problem object serialized by serde_json.
#[verifier::external_body]
pub(crate) fn problem_details(
    status: u16,
    type_uri: &str,
    title: &str,
    detail: Option<&str>,
    extensions: &Vec<(String, Json)>,
) -> (r: Response)
    ensures
        r.status == status,
        r.headers@ == one_header("content-type"@, "application/problem+json"@),
        body_view(r.body) == Some(json_bytes(problem_details_json(
            status, type_uri@, title@, match detail { Some(d) => Some(d@), None => None }, json_members_view(extensions@)))),
{
    let mut p = ProblemDetails::new(status, type_uri, title);
    if let Some(d) = detail { p = p.detail(d); }
    for (k, v) in extensions { p = p.with(k.clone(), crate::json::to_value(v)); }
    let r = p.into_response();
    let mut headers = HeaderMap::new();
    for (k, v) in r.headers { headers.insert(k, v); }
    Response { status: r.status, headers, body: r.body }
}

/// `ip` is one of the trusted proxies (compared trimmed).
pub open spec fn is_trusted(trusted: Seq<String>, ip: Seq<char>) -> bool {
    exists|i: int| 0 <= i < trusted.len() && trimmed(#[trigger] trusted[i]@) == ip
}

/// The right-most hop among the first `n` hops that is non-empty and not a
/// trusted proxy.
pub open spec fn last_untrusted(hops: Seq<Seq<char>>, n: int, trusted: Seq<String>) -> Option<Seq<char>>
    decreases n,
{
    if n <= 0 {
        None
    } else {
        let h = trimmed(hops[n - 1]);
        if h.len() > 0 && !is_trusted(trusted, h) { Some(h) } else { last_untrusted(hops, n - 1, trusted) }
    }
}

/// The effective client address (the SDK's `resolve_client_ip`): the
/// observed peer, unless it is a trusted proxy, in which case the right-most
/// untrusted `X-Forwarded-For` hop, else `X-Real-IP`, else the peer.
pub open spec fn resolved_ip(peer: Seq<char>, h: Map<Seq<char>, Seq<char>>, trusted: Seq<String>) -> Seq<char> {
    let p = trimmed(peer);
    if !is_trusted(trusted, p) {
        p
    } else {
        let from_xff = match map_get(h, "x-forwarded-for"@) {
            Some(x) => last_untrusted(split_char(x, ','), split_char(x, ',').len() as int, trusted),
            None => None,
        };
        match from_xff {
            Some(hop) => hop,
            None => match map_get(h, "x-real-ip"@) {
                Some(r) => if trimmed(r).len() > 0 { trimmed(r) } else { p },
                None => p,
            },
        }
    }
}


/// `barbacane_plugin_sdk::types::resolve_client_ip`: the SDK documents that the
/// forwarded headers are consulted only when the observed peer is a trusted
/// proxy, that the right-most forwarded address that is not itself trusted is
/// then returned, and (in its source) that `X-Real-IP` is the fallback before
/// the peer. The contract states that resolution as `resolved_ip`.
#[verifier::external_body]
pub(crate) fn resolve_client_ip(req: &Request, trusted_proxies: &Vec<String>) -> (r: String)
    ensures
        r@ == resolved_ip(req.client_ip@, req.headers@, trusted_proxies@),
{
    let sdk_req = barbacane_plugin_sdk::types::Request {
        method: req.method.clone(),
        path: req.path.clone(),
        query: req.query.clone(),
        headers: req.headers.pairs().into_iter().collect(),
        body: req.body.clone(),
        client_ip: req.client_ip.clone(),
        path_params: req.path_params.pairs().into_iter().collect(),
    };
    barbacane_plugin_sdk::types::resolve_client_ip(&sdk_req, trusted_proxies)
}

} // verus!
