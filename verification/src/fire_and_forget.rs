//! The fire-and-forget dispatcher: the upstream copy of a request, and the
//! static answer the client gets.

use vstd::prelude::*;
use crate::headers::HeaderMap;
use crate::http::{HttpRequest, Request, Response, body_view};
use crate::text::owned;
use vstd::utf8::encode_utf8;

verus! {

/// The static answer.
pub struct ResponseConfig {
    pub status: u16,
    pub headers: HeaderMap,
    pub content_type: String,
    /// The body; none is sent when empty.
    pub body: String,
}

/// Fire-and-forget dispatcher configuration.
pub struct FireAndForgetDispatcher {
    /// Where requests are forwarded.
    pub url: String,
    pub timeout_ms: u64,
    pub response: ResponseConfig,
}

pub fn default_timeout_ms() -> (r: u64)
    ensures r == 5000,
{
    5000
}

pub fn default_response_status() -> (r: u16)
    ensures r == 202,
{
    202
}

pub fn default_content_type() -> (r: String)
    ensures r@ == "application/json"@,
{
    owned("application/json")
}

impl ResponseConfig {
    /// 202, no headers, JSON, empty body.
    pub fn default_config() -> (r: ResponseConfig)
        ensures
            r.status == 202,
            r.headers@ == Map::<Seq<char>, Seq<char>>::empty(),
            r.content_type@ == "application/json"@,
            r.body@ == Seq::<char>::empty(),
    {
        ResponseConfig { status: 202, headers: HeaderMap::new(), content_type: owned("application/json"), body: String::new() }
    }
}

impl FireAndForgetDispatcher {
    /// The copy of the request sent upstream: its method and headers, the
    /// configured URL and timeout.
    pub fn upstream_request(&self, req: &Request) -> (r: HttpRequest)
        ensures
            r.method == req.method,
            r.url == self.url,
            r.headers@ == req.headers@,
            r.timeout_ms == Some(self.timeout_ms),
    {
        HttpRequest { method: req.method.clone(), url: self.url.clone(), headers: req.headers.copy(), timeout_ms: Some(self.timeout_ms) }
    }

    /// The static answer: the configured headers with the content type,
    /// and the body when it is not empty.
    pub fn build_response(&self) -> (r: Response)
        ensures
            r.status == self.response.status,
            r.headers@ == self.response.headers@.insert("content-type"@, self.response.content_type@),
            body_view(r.body) == (if self.response.body@.len() == 0 { None } else { Some(encode_utf8(self.response.body@)) }),
    {
        let mut headers = self.response.headers.copy();
        headers.insert(owned("content-type"), self.response.content_type.clone());
        let body = if self.response.body.as_str().is_empty() {
            None
        } else {
            Some(crate::text::string_bytes(self.response.body.clone()))
        };
        Response { status: self.response.status, headers, body }
    }
}

} // verus!
