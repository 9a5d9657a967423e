use barbacane_plugins::fire_and_forget::{
    default_content_type, default_response_status, default_timeout_ms, FireAndForgetDispatcher, ResponseConfig,
};
use barbacane_plugins::headers::HeaderMap;
use barbacane_plugins::http::Request;

fn ff_request() -> Request {
    let mut headers = HeaderMap::new();
    headers.insert("content-type".to_string(), "application/json".to_string());
    Request {
        method: "POST".to_string(),
        path: "/webhooks/ingest".to_string(),
        query: None,
        headers,
        body: Some(br#"{"event":"order.created"}"#.to_vec()),
        client_ip: "10.0.0.1".to_string(),
        path_params: HeaderMap::new(),
    }
}

fn ff_minimal() -> FireAndForgetDispatcher {
    FireAndForgetDispatcher {
        url: "http://backend:3000/ingest".to_string(),
        timeout_ms: default_timeout_ms(),
        response: ResponseConfig::default_config(),
    }
}

#[test]
fn lib_config_minimal() {
    let plugin = ff_minimal();
    assert_eq!(plugin.url, "http://backend:3000/ingest");
    assert_eq!(plugin.timeout_ms, 5000);
    assert_eq!(plugin.response.status, 202);
    assert_eq!(plugin.response.content_type, "application/json");
    assert!(plugin.response.body.is_empty());
    assert!(plugin.response.headers.is_empty());
}

#[test]
fn fire_and_forget_defaults() {
    assert_eq!(default_timeout_ms(), 5000);
    assert_eq!(default_response_status(), 202);
    assert_eq!(default_content_type(), "application/json");
}

#[test]
fn dispatch_returns_configured_response() {
    let mut plugin = ff_minimal();
    plugin.response.body = "{\"accepted\":true}".to_string();
    plugin.response.headers.insert("x-request-id".to_string(), "abc".to_string());
    let resp = plugin.build_response();
    assert_eq!(resp.status, 202);
    assert_eq!(resp.body, Some(b"{\"accepted\":true}".to_vec()));
    assert_eq!(resp.headers.get("content-type").unwrap(), "application/json");
    assert_eq!(resp.headers.get("x-request-id").unwrap(), "abc");
}

#[test]
fn dispatch_content_type_overrides_configured_header() {
    let mut plugin = ff_minimal();
    plugin.response.content_type = "text/plain".to_string();
    plugin.response.headers.insert("content-type".to_string(), "application/xml".to_string());
    assert_eq!(plugin.build_response().headers.get("content-type").unwrap(), "text/plain");
}

#[test]
fn dispatch_empty_body_returns_none() {
    let resp = ff_minimal().build_response();
    assert_eq!(resp.status, 202);
    assert!(resp.body.is_none());
}

#[test]
fn dispatch_forwards_request_to_upstream() {
    let call = ff_minimal().upstream_request(&ff_request());
    assert_eq!(call.method, "POST");
    assert_eq!(call.url, "http://backend:3000/ingest");
    assert_eq!(call.timeout_ms, Some(5000));
    assert_eq!(call.headers.get("content-type").unwrap(), "application/json");
}

#[test]
fn dispatch_forwards_request_without_body() {
    let mut req = ff_request();
    req.method = "GET".to_string();
    req.body = None;
    assert_eq!(ff_minimal().upstream_request(&req).method, "GET");
}

#[test]
fn dispatch_still_responds_on_upstream_failure() {
    let mut plugin = ff_minimal();
    plugin.url = "http://unreachable:9999".to_string();
    plugin.response.body = "{\"accepted\":true}".to_string();
    let call = plugin.upstream_request(&ff_request());
    assert_eq!(call.url, "http://unreachable:9999");
    let resp = plugin.build_response();
    assert_eq!(resp.status, 202);
    assert_eq!(resp.body, Some(b"{\"accepted\":true}".to_vec()));
}

#[test]
fn dispatch_preserves_all_request_headers() {
    let mut req = ff_request();
    req.headers.insert("authorization".to_string(), "Bearer tok".to_string());
    req.headers.insert("x-custom".to_string(), "value".to_string());
    let call = ff_minimal().upstream_request(&req);
    assert_eq!(call.headers.get("authorization").unwrap(), "Bearer tok");
    assert_eq!(call.headers.get("x-custom").unwrap(), "value");
    assert_eq!(call.headers.get("content-type").unwrap(), "application/json");
}

#[test]
fn dispatch_custom_timeout() {
    let plugin = FireAndForgetDispatcher {
        url: "http://backend:3000".to_string(),
        timeout_ms: 500,
        response: ResponseConfig::default_config(),
    };
    let http_req = plugin.upstream_request(&ff_request());
    assert_eq!(http_req.timeout_ms, Some(500));
}
