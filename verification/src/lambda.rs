//! The AWS Lambda dispatcher: the Function URL call and its answers.

use vstd::prelude::*;
use crate::headers::HeaderMap;
use crate::http::{HttpRequest, Request, Response, body_view, one_header};
use crate::http_upstream::{CallError, kept_headers, kept_headers_spec};
use crate::json::{JsonV, json_bytes};
use crate::sdk::{problem_details, problem_details_json};
use crate::text::owned;

verus! {

/// Lambda dispatcher configuration. The timeout, given in seconds as a
/// float, is turned into milliseconds by the caller.
pub struct LambdaDispatcher {
    /// The Lambda Function URL.
    pub url: String,
    /// Whether the request's headers go to Lambda.
    pub pass_through_headers: bool,
}

pub fn default_pass_through_headers() -> (r: bool)
    ensures r,
{
    true
}

/// The headers sent to Lambda: the request's (without hop-by-hop headers
/// and `host`) when passed through, and a JSON content type for a body
/// that has none.
pub open spec fn lambda_headers(h: Map<Seq<char>, Seq<char>>, pass: bool, has_body: bool) -> Map<Seq<char>, Seq<char>> {
    let base = if pass { kept_headers_spec(h, true) } else { Map::empty() };
    if has_body && !base.contains_key("content-type"@) {
        base.insert("content-type"@, "application/json"@)
    } else {
        base
    }
}

/// The problem type of an error status.
pub open spec fn lambda_error_type(status: u16) -> Seq<char> {
    if status == 502 {
        "urn:barbacane:error:lambda-invocation-failed"@
    } else if status == 503 {
        "urn:barbacane:error:lambda-unavailable"@
    } else if status == 504 {
        "urn:barbacane:error:lambda-timeout"@
    } else {
        "urn:barbacane:error:internal"@
    }
}

/// The title and detail of the 502 for a failed invocation.
pub open spec fn lambda_failure(e: CallError) -> (Seq<char>, Seq<char>) {
    match e {
        CallError::Unreachable | CallError::Unsupported => ("Lambda invocation failed"@, "host_http_call returned error"@),
        CallError::Empty | CallError::ReadFailed => ("Lambda invocation failed"@, "failed to read response"@),
        CallError::InvalidResponse => ("invalid Lambda response"@, "failed to parse response"@),
    }
}

impl LambdaDispatcher {
    /// The invocation request: the client's method, the Function URL and
    /// the headers.
    pub fn lambda_request(&self, req: &Request, timeout_ms: u64) -> (r: HttpRequest)
        ensures
            r.method == req.method,
            r.url == self.url,
            r.headers@ == lambda_headers(req.headers@, self.pass_through_headers, req.body is Some),
            r.timeout_ms == Some(timeout_ms),
    {
        let mut headers = if self.pass_through_headers { kept_headers(&req.headers, true) } else { HeaderMap::new() };
        if req.body.is_some() && !headers.contains_key("content-type") {
            headers.insert(owned("content-type"), owned("application/json"));
        }
        HttpRequest { method: req.method.clone(), url: self.url.clone(), headers, timeout_ms: Some(timeout_ms) }
    }

    /// An RFC 9457 error answer; the type follows the status.
    pub fn error_response(&self, status: u16, title: &str, detail: &str) -> (r: Response)
        ensures
            r.status == status,
            r.headers@ == one_header("content-type"@, "application/problem+json"@),
            body_view(r.body) == Some(json_bytes(problem_details_json(status, lambda_error_type(status), title@,
                Some(detail@), Seq::empty()))),
    {
        let t = if status == 502 {
            "urn:barbacane:error:lambda-invocation-failed"
        } else if status == 503 {
            "urn:barbacane:error:lambda-unavailable"
        } else if status == 504 {
            "urn:barbacane:error:lambda-timeout"
        } else {
            "urn:barbacane:error:internal"
        };
        let ext: Vec<(String, crate::json::Json)> = Vec::new();
        assert(crate::json::json_members_view(ext@) =~= Seq::<(Seq<char>, JsonV)>::empty());
        problem_details(status, t, title, Some(detail), &ext)
    }

    /// The 502 for a failed invocation.
    pub fn call_failed_response(&self, e: CallError) -> (r: Response)
        ensures
            r.status == 502,
            r.headers@ == one_header("content-type"@, "application/problem+json"@),
            body_view(r.body) == Some(json_bytes(problem_details_json(502, lambda_error_type(502), lambda_failure(e).0,
                Some(lambda_failure(e).1), Seq::empty()))),
    {
        match e {
            CallError::Unreachable | CallError::Unsupported =>
                self.error_response(502, "Lambda invocation failed", "host_http_call returned error"),
            CallError::Empty | CallError::ReadFailed =>
                self.error_response(502, "Lambda invocation failed", "failed to read response"),
            CallError::InvalidResponse =>
                self.error_response(502, "invalid Lambda response", "failed to parse response"),
        }
    }

    /// Lambda's answer, with a JSON content type when it set none.
    pub fn lambda_answer(&self, status: u16, headers: HeaderMap, body: Option<Vec<u8>>) -> (r: Response)
        ensures
            r.status == status,
            r.headers@ == (if headers@.contains_key("content-type"@) { headers@ } else {
                headers@.insert("content-type"@, "application/json"@)
            }),
            r.body == body,
    {
        let mut headers = headers;
        if !headers.contains_key("content-type") {
            headers.insert(owned("content-type"), owned("application/json"));
        }
        Response { status, headers, body }
    }
}

} // verus!
