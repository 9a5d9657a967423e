use barbacane_plugins::correlation_id::{
    default_generate_if_missing, default_header_name, default_include_in_response, default_trust_incoming, CorrelationId,
};
use barbacane_plugins::headers::HeaderMap;
use barbacane_plugins::http::{Action, Request, Response};

fn cid_request() -> Request {
    Request {
        method: "GET".to_string(),
        path: "/test".to_string(),
        query: None,
        headers: HeaderMap::new(),
        body: None,
        client_ip: "127.0.0.1".to_string(),
        path_params: HeaderMap::new(),
    }
}

fn cid_response() -> Response {
    Response { status: 200, headers: HeaderMap::new(), body: None }
}

fn cid(header: &str, generate: bool, trust: bool, in_response: bool) -> CorrelationId {
    CorrelationId {
        header_name: header.to_string(),
        generate_if_missing: generate,
        trust_incoming: trust,
        include_in_response: in_response,
    }
}

const GENERATED: &str = "00000000-0000-7000-8000-000000000001";

#[test]
fn correlation_id_config_defaults() {
    assert_eq!(default_header_name(), "x-correlation-id");
    assert!(default_generate_if_missing());
    assert!(default_trust_incoming());
    assert!(default_include_in_response());
}

#[test]
fn test_on_request_with_existing_correlation_id() {
    let m = cid("x-correlation-id", true, true, true);
    let mut req = cid_request();
    req.headers.insert("x-correlation-id".to_string(), "existing-id-123".to_string());
    assert!(!m.needs_generated_id(&req));
    let out = m.on_request(req, None);
    match out.action {
        Action::Continue(r) => assert_eq!(r.headers.get("x-correlation-id"), Some("existing-id-123".to_string())),
        _ => panic!("Expected Action::Continue"),
    }
    assert_eq!(out.context_id, Some("existing-id-123".to_string()));
}

#[test]
fn test_on_request_without_correlation_id_generates_one() {
    let m = cid("x-correlation-id", true, true, true);
    let req = cid_request();
    assert!(m.needs_generated_id(&req));
    let out = m.on_request(req, Some(GENERATED.to_string()));
    match out.action {
        Action::Continue(r) => assert_eq!(r.headers.get("x-correlation-id").unwrap(), GENERATED),
        _ => panic!("Expected Action::Continue"),
    }
    assert_eq!(out.context_id, Some(GENERATED.to_string()));
}

#[test]
fn test_on_request_trust_incoming_false_ignores_existing() {
    let m = cid("x-correlation-id", true, false, true);
    let mut req = cid_request();
    req.headers.insert("x-correlation-id".to_string(), "untrusted-id".to_string());
    assert!(m.needs_generated_id(&req));
    let out = m.on_request(req, Some(GENERATED.to_string()));
    match out.action {
        Action::Continue(r) => {
            let id = r.headers.get("x-correlation-id").unwrap();
            assert_ne!(id, "untrusted-id");
            assert_eq!(id, GENERATED);
        }
        _ => panic!("Expected Action::Continue"),
    }
    assert_eq!(out.context_id, Some(GENERATED.to_string()));
}

#[test]
fn test_on_request_generate_if_missing_false_passes_through() {
    let m = cid("x-correlation-id", false, true, true);
    let req = cid_request();
    assert!(!m.needs_generated_id(&req));
    let out = m.on_request(req, None);
    match out.action {
        Action::Continue(r) => assert!(!r.headers.contains_key("x-correlation-id")),
        _ => panic!("Expected Action::Continue"),
    }
    assert!(out.context_id.is_none());
}

#[test]
fn test_on_request_generator_failure_passes_through() {
    let m = cid("x-correlation-id", true, true, true);
    let out = m.on_request(cid_request(), None);
    match out.action {
        Action::Continue(r) => assert!(!r.headers.contains_key("x-correlation-id")),
        _ => panic!("Expected Action::Continue"),
    }
    assert!(out.context_id.is_none());
}

#[test]
fn test_on_response_includes_correlation_id() {
    let m = cid("x-correlation-id", true, true, true);
    let resp = m.on_response(cid_response(), Some("test-id-456".to_string()));
    assert_eq!(resp.headers.get("x-correlation-id"), Some("test-id-456".to_string()));
}

#[test]
fn test_on_response_include_in_response_false() {
    let m = cid("x-correlation-id", true, true, false);
    let resp = m.on_response(cid_response(), Some("test-id-789".to_string()));
    assert!(!resp.headers.contains_key("x-correlation-id"));
}

#[test]
fn test_custom_header_name() {
    let m = cid("x-request-id", true, true, true);
    let mut req = cid_request();
    req.headers.insert("x-request-id".to_string(), "custom-id-abc".to_string());
    let out = m.on_request(req, None);
    match out.action {
        Action::Continue(r) => assert_eq!(r.headers.get("x-request-id"), Some("custom-id-abc".to_string())),
        _ => panic!("Expected Action::Continue"),
    }
    let resp = m.on_response(cid_response(), out.context_id);
    assert_eq!(resp.headers.get("x-request-id"), Some("custom-id-abc".to_string()));
}

#[test]
fn test_mixed_case_header_name_is_lowercased() {
    let m = cid("X-Request-ID", true, true, true);
    let mut req = cid_request();
    req.headers.insert("x-request-id".to_string(), "abc".to_string());
    let out = m.on_request(req, None);
    assert_eq!(out.context_id, Some("abc".to_string()));
    let resp = m.on_response(cid_response(), out.context_id);
    assert_eq!(resp.headers.get("x-request-id"), Some("abc".to_string()));
}

#[test]
fn test_on_response_without_context_value() {
    let m = cid("x-correlation-id", true, true, true);
    let resp = m.on_response(cid_response(), None);
    assert!(!resp.headers.contains_key("x-correlation-id"));
}
