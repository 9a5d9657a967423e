use barbacane_plugins::headers::HeaderMap;
use barbacane_plugins::http::Request;
use barbacane_plugins::http_upstream::CallError;
use barbacane_plugins::lambda::{default_pass_through_headers, LambdaDispatcher};

const LAMBDA_URL: &str = "https://example.lambda-url.us-east-1.on.aws/";

fn lambda(pass: bool) -> LambdaDispatcher {
    LambdaDispatcher { url: LAMBDA_URL.to_string(), pass_through_headers: pass }
}

fn lambda_req(method: &str, headers: Vec<(&str, &str)>, body: Option<&[u8]>) -> Request {
    let mut h = HeaderMap::new();
    for (k, v) in headers {
        h.insert(k.to_string(), v.to_string());
    }
    Request {
        method: method.to_string(),
        path: "/test".to_string(),
        query: None,
        headers: h,
        body: body.map(|b| b.to_vec()),
        client_ip: "127.0.0.1".to_string(),
        path_params: HeaderMap::new(),
    }
}

fn lambda_body(r: &barbacane_plugins::http::Response) -> serde_json::Value {
    serde_json::from_slice(r.body.as_ref().unwrap()).unwrap()
}

#[test]
fn lib_test_error_response_502() {
    let response = lambda(true).error_response(502, "Lambda invocation failed", "host_http_call returned error");
    assert_eq!(response.status, 502);
    assert_eq!(response.headers.get("content-type").unwrap(), "application/problem+json");
    let body = lambda_body(&response);
    assert_eq!(body["type"], "urn:barbacane:error:lambda-invocation-failed");
    assert_eq!(body["title"], "Lambda invocation failed");
    assert_eq!(body["status"], 502);
    assert_eq!(body["detail"], "host_http_call returned error");
}

#[test]
fn lib_test_error_response_503() {
    let response = lambda(true).error_response(503, "Lambda unavailable", "service temporarily unavailable");
    assert_eq!(response.status, 503);
    assert_eq!(response.headers.get("content-type").unwrap(), "application/problem+json");
    let body = lambda_body(&response);
    assert_eq!(body["type"], "urn:barbacane:error:lambda-unavailable");
    assert_eq!(body["title"], "Lambda unavailable");
    assert_eq!(body["status"], 503);
    assert_eq!(body["detail"], "service temporarily unavailable");
}

#[test]
fn lib_test_error_response_504() {
    let response = lambda(true).error_response(504, "Lambda timeout", "function execution timed out");
    assert_eq!(response.status, 504);
    let body = lambda_body(&response);
    assert_eq!(body["type"], "urn:barbacane:error:lambda-timeout");
    assert_eq!(body["title"], "Lambda timeout");
    assert_eq!(body["status"], 504);
    assert_eq!(body["detail"], "function execution timed out");
}

#[test]
fn lambda_error_response_other_status_is_internal() {
    let body = lambda_body(&lambda(true).error_response(500, "x", "y"));
    assert_eq!(body["type"], "urn:barbacane:error:internal");
}

#[test]
fn lambda_default_pass_through_headers() {
    assert!(default_pass_through_headers());
}

#[test]
fn lambda_dispatch_with_native_stub_returns_502() {
    let d = lambda(true);
    let call = d.lambda_request(&lambda_req("GET", vec![], None), 30000);
    assert_eq!(call.method, "GET");
    assert_eq!(call.url, LAMBDA_URL);
    assert_eq!(call.timeout_ms, Some(30000));
    let response = d.call_failed_response(CallError::Unreachable);
    assert_eq!(response.status, 502);
    assert_eq!(response.headers.get("content-type").unwrap(), "application/problem+json");
    let body = lambda_body(&response);
    assert_eq!(body["type"], "urn:barbacane:error:lambda-invocation-failed");
    assert_eq!(body["title"], "Lambda invocation failed");
    assert_eq!(body["status"], 502);
    assert_eq!(body["detail"], "host_http_call returned error");
}

#[test]
fn lambda_call_failures_map_to_details() {
    let d = lambda(true);
    let read = lambda_body(&d.call_failed_response(CallError::ReadFailed));
    assert_eq!(read["detail"], "failed to read response");
    let invalid = lambda_body(&d.call_failed_response(CallError::InvalidResponse));
    assert_eq!(invalid["title"], "invalid Lambda response");
    assert_eq!(invalid["detail"], "failed to parse response");
}

#[test]
fn test_header_filtering_removes_hop_by_hop_headers() {
    let req = lambda_req(
        "POST",
        vec![
            ("connection", "keep-alive"),
            ("keep-alive", "timeout=5"),
            ("transfer-encoding", "chunked"),
            ("te", "trailers"),
            ("trailer", "X-Custom"),
            ("upgrade", "websocket"),
            ("host", "example.com"),
            ("x-custom-header", "custom-value"),
            ("authorization", "Bearer token"),
        ],
        Some(br#"{"key": "value"}"#),
    );
    let call = lambda(true).lambda_request(&req, 30000);
    for h in ["connection", "keep-alive", "transfer-encoding", "te", "trailer", "upgrade", "host"] {
        assert!(!call.headers.contains_key(h), "{h} should be filtered");
    }
    assert_eq!(call.headers.get("x-custom-header").unwrap(), "custom-value");
    assert_eq!(call.headers.get("authorization").unwrap(), "Bearer token");
}

#[test]
fn test_header_filtering_disabled() {
    let req = lambda_req("POST", vec![("x-custom-header", "custom-value"), ("authorization", "Bearer token")], Some(b"{}"));
    let call = lambda(false).lambda_request(&req, 30000);
    assert!(!call.headers.contains_key("x-custom-header"));
    assert!(!call.headers.contains_key("authorization"));
}

#[test]
fn test_content_type_auto_set_when_body_present() {
    let call = lambda(false).lambda_request(&lambda_req("POST", vec![], Some(br#"{"key": "value"}"#)), 30000);
    assert_eq!(call.headers.get("content-type").unwrap(), "application/json");
}

#[test]
fn test_content_type_not_overridden_when_present() {
    let req = lambda_req("POST", vec![("content-type", "text/plain")], Some(b"plain text body"));
    let call = lambda(true).lambda_request(&req, 30000);
    assert_eq!(call.headers.get("content-type").unwrap(), "text/plain");
}

#[test]
fn test_content_type_not_set_when_no_body() {
    let call = lambda(false).lambda_request(&lambda_req("GET", vec![], None), 30000);
    assert!(!call.headers.contains_key("content-type"));
}

#[test]
fn lambda_answer_defaults_content_type() {
    let d = lambda(true);
    let r = d.lambda_answer(201, HeaderMap::new(), Some(b"{}".to_vec()));
    assert_eq!(r.status, 201);
    assert_eq!(r.headers.get("content-type").unwrap(), "application/json");
    let mut h = HeaderMap::new();
    h.insert("content-type".to_string(), "text/html".to_string());
    let r2 = d.lambda_answer(200, h, None);
    assert_eq!(r2.headers.get("content-type").unwrap(), "text/html");
    assert_eq!(r2.body, None);
}
