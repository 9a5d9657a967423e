use barbacane_plugins::headers::HeaderMap;
use barbacane_plugins::http::{Request, Response};
use barbacane_plugins::http_upstream::{kept_headers, CallError, HttpUpstreamDispatcher};

fn up(url: &str, path: Option<&str>) -> HttpUpstreamDispatcher {
    HttpUpstreamDispatcher { url: url.to_string(), path: path.map(|p| p.to_string()) }
}

fn up_params(pairs: &[(&str, &str)]) -> Vec<(String, String)> {
    pairs.iter().map(|(k, v)| (k.to_string(), v.to_string())).collect()
}

fn up_request(method: &str, path: &str, headers: &[(&str, &str)], body: Option<&[u8]>, query: Option<&str>) -> Request {
    let mut h = HeaderMap::new();
    for (k, v) in headers {
        h.insert(k.to_string(), v.to_string());
    }
    Request {
        method: method.to_string(),
        path: path.to_string(),
        query: query.map(|q| q.to_string()),
        headers: h,
        body: body.map(|b| b.to_vec()),
        client_ip: "127.0.0.1".to_string(),
        path_params: HeaderMap::new(),
    }
}

fn up_body(r: &Response) -> serde_json::Value {
    serde_json::from_slice(r.body.as_ref().unwrap()).unwrap()
}

#[test]
fn test_substitute_path_params_single() {
    let d = up("http://example.com", None);
    assert_eq!(d.substitute_path_params("/users/{id}", &up_params(&[("id", "123")])), "/users/123");
}

#[test]
fn test_substitute_path_params_multiple() {
    let d = up("http://example.com", None);
    let params = up_params(&[("id", "456"), ("org", "acme"), ("repo", "myapp")]);
    assert_eq!(
        d.substitute_path_params("/orgs/{org}/repos/{repo}/issues/{id}", &params),
        "/orgs/acme/repos/myapp/issues/456"
    );
}

#[test]
fn test_substitute_path_params_unmatched() {
    let d = up("http://example.com", None);
    assert_eq!(
        d.substitute_path_params("/users/{id}/posts/{post_id}", &up_params(&[("id", "123")])),
        "/users/123/posts/{post_id}"
    );
}

#[test]
fn test_substitute_path_params_no_params() {
    let d = up("http://example.com", None);
    assert_eq!(d.substitute_path_params("/users", &Vec::new()), "/users");
}

#[test]
fn test_substitute_path_params_repeated_placeholder() {
    let d = up("http://example.com", None);
    assert_eq!(d.substitute_path_params("/{id}/{id}", &up_params(&[("id", "7")])), "/7/7");
}

#[test]
fn http_upstream_error_response_502() {
    let response = up("http://example.com", None).error_response(502, "Bad Gateway", "connection failed", "tcp error");
    assert_eq!(response.status, 502);
    assert_eq!(response.headers.get("content-type").unwrap(), "application/problem+json");
    let body = up_body(&response);
    assert_eq!(body["type"], "urn:barbacane:error:upstream-unavailable");
    assert_eq!(body["title"], "Bad Gateway");
    assert_eq!(body["status"], 502);
    assert_eq!(body["detail"], "connection failed: tcp error");
}

#[test]
fn http_upstream_error_response_503() {
    let response =
        up("http://example.com", None).error_response(503, "Service Unavailable", "circuit open", "too many failures");
    assert_eq!(response.status, 503);
    assert_eq!(up_body(&response)["type"], "urn:barbacane:error:circuit-open");
}

#[test]
fn http_upstream_error_response_504() {
    let response = up("http://example.com", None).error_response(504, "Gateway Timeout", "request timeout", "30s exceeded");
    assert_eq!(response.status, 504);
    assert_eq!(up_body(&response)["type"], "urn:barbacane:error:upstream-timeout");
}

#[test]
fn test_error_response_other_status() {
    let response =
        up("http://example.com", None).error_response(500, "Internal Error", "unknown error", "something went wrong");
    assert_eq!(response.status, 500);
    assert_eq!(up_body(&response)["type"], "urn:barbacane:error:internal");
}

#[test]
fn test_dispatch_returns_502_on_native() {
    let d = up("http://example.com", None);
    let call = d.upstream_request(&up_request("GET", "/test", &[], None, None), 30000);
    assert_eq!(call.url, "http://example.com/test");
    assert_eq!(call.timeout_ms, Some(30000));
    let response = d.call_failed_response(CallError::Unreachable);
    assert_eq!(response.status, 502);
    let body = up_body(&response);
    assert_eq!(body["title"], "Bad Gateway");
    assert_eq!(body["detail"], "upstream connection failed: host_http_call returned error");
}

#[test]
fn test_dispatch_with_body_returns_502_on_native() {
    let d = up("http://example.com", None);
    let call = d.upstream_request(&up_request("POST", "/users", &[], Some(br#"{"name":"test"}"#), None), 30000);
    assert_eq!(call.method, "POST");
    assert_eq!(call.url, "http://example.com/users");
    assert_eq!(d.call_failed_response(CallError::ReadFailed).status, 502);
}

#[test]
fn upstream_url_joins_template_and_query() {
    let d = up("https://api.example.com/", Some("/v1/users/{id}"));
    let mut req = up_request("GET", "/ignored", &[("host", "gw.example.com"), ("connection", "close")], None, Some("a=1"));
    req.path_params.insert("id".to_string(), "42".to_string());
    let call = d.upstream_request(&req, 5000);
    assert_eq!(call.url, "https://api.example.com/v1/users/42?a=1");
    assert_eq!(call.headers.get("x-forwarded-host").unwrap(), "gw.example.com");
    assert_eq!(call.headers.get("x-forwarded-proto").unwrap(), "https");
    assert!(!call.headers.contains_key("connection"));
    assert_eq!(call.headers.get("host").unwrap(), "gw.example.com");
}

#[test]
fn upstream_url_empty_query_and_no_slash() {
    let d = up("http://example.com", None);
    let call = d.upstream_request(&up_request("GET", "users", &[], None, Some("")), 1000);
    assert_eq!(call.url, "http://example.comusers");
    assert_eq!(call.headers.get("x-forwarded-proto").unwrap(), "http");
}

#[test]
fn http_upstream_hop_by_hop_headers_never_kept() {
    let mut h = HeaderMap::new();
    for (k, v) in [("connection", "close"), ("keep-alive", "5"), ("te", "trailers"), ("x-kept", "1"), ("host", "h")] {
        h.insert(k.to_string(), v.to_string());
    }
    let kept = kept_headers(&h, false);
    assert_eq!(kept.get("connection"), None);
    assert_eq!(kept.get("keep-alive"), None);
    assert_eq!(kept.get("te"), None);
    assert_eq!(kept.get("x-kept"), Some("1".to_string()));
    assert_eq!(kept.get("host"), Some("h".to_string()));
    assert_eq!(kept_headers(&h, true).get("host"), None);
}

#[test]
fn http_upstream_answer_drops_hop_by_hop_headers() {
    let mut h = HeaderMap::new();
    h.insert("transfer-encoding".to_string(), "chunked".to_string());
    h.insert("content-type".to_string(), "text/plain".to_string());
    let resp = up("http://backend", None).upstream_answer(201, &h, Some(b"ok".to_vec()));
    assert_eq!(resp.status, 201);
    assert_eq!(resp.headers.get("transfer-encoding"), None);
    assert_eq!(resp.headers.get("content-type"), Some("text/plain".to_string()));
    assert_eq!(resp.body, Some(b"ok".to_vec()));
}
