//! The request, response and middleware action that the plugins compute on.

use vstd::prelude::*;
use crate::headers::HeaderMap;
use crate::json::{
    Json, JsonNumber, JsonV, NumV, json_bytes, json_members_view, obj_push, jstr, to_json_bytes,
};
use crate::text::owned;

verus! {

/// An HTTP request as a plugin sees it.
pub struct Request {
    pub method: String,
    pub path: String,
    pub query: Option<String>,
    pub headers: HeaderMap,
    pub body: Option<Vec<u8>>,
    pub client_ip: String,
    pub path_params: HeaderMap,
}

/// An HTTP response as a plugin produces it. Status 0 marks a response whose
/// body was already streamed to the client.
pub struct Response {
    pub status: u16,
    pub headers: HeaderMap,
    pub body: Option<Vec<u8>>,
}

/// An outbound HTTP call made through the host; the body travels
/// separately.
pub struct HttpRequest {
    pub method: String,
    pub url: String,
    pub headers: HeaderMap,
    pub timeout_ms: Option<u64>,
}

/// What a middleware decides for a request.
pub enum Action {
    /// Pass the (possibly modified) request on.
    Continue(Request),
    /// Stop the chain and answer with this response.
    ShortCircuit(Response),
}

/// The optional byte body as a sequence.
pub open spec fn body_view(b: Option<Vec<u8>>) -> Option<Seq<u8>> {
    match b {
        Some(v) => Some(v@),
        None => None,
    }
}

/// The map holding the one entry `k: v`.
pub open spec fn one_header(k: Seq<char>, v: Seq<char>) -> Map<Seq<char>, Seq<char>> {
    Map::<Seq<char>, Seq<char>>::empty().insert(k, v)
}

/// A header map holding `k: v` only.
pub fn single_header(k: &str, v: &str) -> (r: HeaderMap)
    ensures
        r@ == one_header(k@, v@),
{
    let mut h = HeaderMap::new();
    h.insert(owned(k), owned(v));
    h
}

/// A JSON number for an unsigned integer.
pub fn jnum(n: u64) -> (r: Json)
    ensures
        r@ == JsonV::Number(NumV::PosInt(n)),
{
    Json::Number(JsonNumber::PosInt(n))
}

/// The members of an RFC 9457 problem object: `type`, `title`, `status`
/// and `detail`.
pub open spec fn problem_members(type_uri: Seq<char>, title: Seq<char>, status: u16, detail: Seq<char>) -> Seq<(Seq<char>, JsonV)> {
    seq![
        ("type"@, JsonV::Str(type_uri)),
        ("title"@, JsonV::Str(title)),
        ("status"@, JsonV::Number(NumV::PosInt(status as u64))),
        ("detail"@, JsonV::Str(detail)),
    ]
}

/// The members of a problem object, as a builder to extend.
pub fn problem_object(type_uri: &str, title: &str, status: u16, detail: &str) -> (r: Vec<(String, Json)>)
    ensures
        json_members_view(r@) == problem_members(type_uri@, title@, status, detail@),
{
    let mut m: Vec<(String, Json)> = Vec::new();
    assert(json_members_view(m@) =~= Seq::<(Seq<char>, JsonV)>::empty());
    obj_push(&mut m, "type", jstr(type_uri));
    obj_push(&mut m, "title", jstr(title));
    obj_push(&mut m, "status", jnum(status as u64));
    obj_push(&mut m, "detail", jstr(detail));
    assert(json_members_view(m@) =~= problem_members(type_uri@, title@, status, detail@));
    m
}

/// A response with the given status, one header and a JSON body.
pub fn json_response(status: u16, content_type: &str, body: &Json) -> (r: Response)
    ensures
        r.status == status,
        r.headers@ == one_header("content-type"@, content_type@),
        body_view(r.body) == Some(json_bytes(body@)),
{
    Response { status, headers: single_header("content-type", content_type), body: Some(to_json_bytes(body)) }
}

/// A response with a JSON body written by `Value::to_string`.
pub fn json_text_response(status: u16, content_type: &str, body: &Json) -> (r: Response)
    ensures
        r.status == status,
        r.headers@ == one_header("content-type"@, content_type@),
        body_view(r.body) == Some(vstd::utf8::encode_utf8(crate::json::json_text(body@))),
{
    let text = crate::json::to_json_text(body);
    Response { status, headers: single_header("content-type", content_type), body: Some(crate::text::string_bytes(text)) }
}

/// `out` is `req` with its body replaced by `b`.
pub open spec fn with_body(out: Request, req: Request, b: Option<Seq<u8>>) -> bool {
    &&& out.method == req.method
    &&& out.path == req.path
    &&& out.query == req.query
    &&& out.headers@ == req.headers@
    &&& out.client_ip == req.client_ip
    &&& out.path_params@ == req.path_params@
    &&& body_view(out.body) == b
}

/// `out` is `req` with its headers replaced by `h`.
pub open spec fn with_headers(out: Request, req: Request, h: Map<Seq<char>, Seq<char>>) -> bool {
    &&& out.method == req.method
    &&& out.path == req.path
    &&& out.query == req.query
    &&& out.body == req.body
    &&& out.client_ip == req.client_ip
    &&& out.path_params == req.path_params
    &&& out.headers@ == h
}

/// `out` is `resp` with its headers replaced by `h`.
pub open spec fn resp_with_headers(out: Response, resp: Response, h: Map<Seq<char>, Seq<char>>) -> bool {
    &&& out.status == resp.status
    &&& out.body == resp.body
    &&& out.headers@ == h
}

} // verus!
