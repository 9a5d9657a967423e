use barbacane_plugins::apikey_auth::{
    default_header_name, default_key_location, default_query_param, url_decode, ApiKeyAuth, ApiKeyEntry, ApiKeyError,
};
use barbacane_plugins::headers::HeaderMap;
use barbacane_plugins::http::{Action, Request, Response};

fn ak_entry(id: &str, name: Option<&str>, scopes: &[&str]) -> ApiKeyEntry {
    ApiKeyEntry {
        id: id.to_string(),
        name: name.map(|n| n.to_string()),
        scopes: scopes.iter().map(|s| s.to_string()).collect(),
    }
}

fn ak_empty() -> ApiKeyAuth {
    ApiKeyAuth {
        key_location: default_key_location(),
        header_name: default_header_name(),
        query_param: default_query_param(),
        keys: Vec::new(),
    }
}

fn ak_plugin() -> ApiKeyAuth {
    let mut p = ak_empty();
    p.keys.push(("sk-test-123".to_string(), ak_entry("key1", Some("Test Key"), &["read", "write"])));
    p.keys.push(("sk-readonly".to_string(), ak_entry("key2", None, &["read"])));
    p.keys.push(("sk-noname".to_string(), ak_entry("key3", None, &[])));
    p
}

fn ak_request(headers: Vec<(&str, &str)>, query: Option<&str>) -> Request {
    let mut h = HeaderMap::new();
    for (k, v) in headers {
        h.insert(k.to_string(), v.to_string());
    }
    Request {
        method: "GET".to_string(),
        path: "/test".to_string(),
        query: query.map(|q| q.to_string()),
        headers: h,
        body: None,
        client_ip: "127.0.0.1".to_string(),
        path_params: HeaderMap::new(),
    }
}

#[test]
fn test_extract_from_header_exact_match() {
    let req = ak_request(vec![("X-API-Key", "sk-test-123")], None);
    assert_eq!(ak_plugin().extract_from_header(&req).ok().unwrap(), "sk-test-123");
}

#[test]
fn test_extract_from_header_lowercase() {
    let req = ak_request(vec![("x-api-key", "sk-test-123")], None);
    assert_eq!(ak_plugin().extract_from_header(&req).ok().unwrap(), "sk-test-123");
}

#[test]
fn test_extract_from_header_trims_whitespace() {
    let req = ak_request(vec![("X-API-Key", "  sk-test-123  ")], None);
    assert_eq!(ak_plugin().extract_from_header(&req).ok().unwrap(), "sk-test-123");
}

#[test]
fn test_extract_from_header_missing() {
    let req = ak_request(vec![], None);
    assert!(matches!(ak_plugin().extract_from_header(&req), Err(ApiKeyError::MissingKey)));
}

#[test]
fn test_extract_from_header_empty_value() {
    let req = ak_request(vec![("X-API-Key", "  ")], None);
    assert!(matches!(ak_plugin().extract_from_header(&req), Err(ApiKeyError::MissingKey)));
}

#[test]
fn test_extract_from_query_found() {
    let req = ak_request(vec![], Some("api_key=sk-test-123&other=val"));
    assert_eq!(ak_plugin().extract_from_query(&req).ok().unwrap(), "sk-test-123");
}

#[test]
fn test_extract_from_query_url_encoded() {
    let req = ak_request(vec![], Some("api_key=sk%2Dtest%2D123"));
    assert_eq!(ak_plugin().extract_from_query(&req).ok().unwrap(), "sk-test-123");
}

#[test]
fn test_extract_from_query_missing_param() {
    let req = ak_request(vec![], Some("other=val"));
    assert!(matches!(ak_plugin().extract_from_query(&req), Err(ApiKeyError::MissingKey)));
}

#[test]
fn test_extract_from_query_no_query_string() {
    let req = ak_request(vec![], None);
    assert!(matches!(ak_plugin().extract_from_query(&req), Err(ApiKeyError::MissingKey)));
}

#[test]
fn test_extract_from_query_empty_value() {
    let req = ak_request(vec![], Some("api_key="));
    assert!(matches!(ak_plugin().extract_from_query(&req), Err(ApiKeyError::MissingKey)));
}

#[test]
fn test_lookup_key_valid() {
    let plugin = ak_plugin();
    let entry = plugin.lookup_key("sk-test-123").ok().unwrap();
    assert_eq!(entry.id, "key1");
    assert_eq!(entry.name.as_deref(), Some("Test Key"));
}

#[test]
fn test_lookup_key_invalid() {
    assert!(matches!(ak_plugin().lookup_key("sk-nonexistent"), Err(ApiKeyError::InvalidKey)));
}

#[test]
fn test_on_request_valid_key_injects_headers() {
    let req = ak_request(vec![("X-API-Key", "sk-test-123")], None);
    match ak_plugin().on_request(req) {
        Action::Continue(r) => {
            assert_eq!(r.headers.get("x-auth-key-id").unwrap(), "key1");
            assert_eq!(r.headers.get("x-auth-key-name").unwrap(), "Test Key");
            assert_eq!(r.headers.get("x-auth-key-scopes").unwrap(), "read,write");
            assert_eq!(r.headers.get("x-auth-consumer").unwrap(), "key1");
            assert_eq!(r.headers.get("x-auth-consumer-groups").unwrap(), "read,write");
        }
        _ => panic!("expected Continue"),
    }
}

#[test]
fn test_on_request_key_without_name_or_scopes() {
    let req = ak_request(vec![("X-API-Key", "sk-noname")], None);
    match ak_plugin().on_request(req) {
        Action::Continue(r) => {
            assert_eq!(r.headers.get("x-auth-key-id").unwrap(), "key3");
            assert!(r.headers.get("x-auth-key-name").is_none());
            assert!(r.headers.get("x-auth-key-scopes").is_none());
            assert_eq!(r.headers.get("x-auth-consumer").unwrap(), "key3");
            assert!(!r.headers.contains_key("x-auth-consumer-groups"));
        }
        _ => panic!("expected Continue"),
    }
}

#[test]
fn test_on_request_missing_key_returns_401() {
    match ak_plugin().on_request(ak_request(vec![], None)) {
        Action::ShortCircuit(r) => {
            assert_eq!(r.status, 401);
            assert!(r.headers.get("www-authenticate").unwrap().contains("missing_key"));
        }
        _ => panic!("expected ShortCircuit"),
    }
}

#[test]
fn test_on_request_invalid_key_returns_401() {
    match ak_plugin().on_request(ak_request(vec![("X-API-Key", "wrong-key")], None)) {
        Action::ShortCircuit(r) => {
            assert_eq!(r.status, 401);
            assert!(r.headers.get("www-authenticate").unwrap().contains("invalid_key"));
        }
        _ => panic!("expected ShortCircuit"),
    }
}

#[test]
fn test_on_request_query_location() {
    let mut plugin = ak_empty();
    plugin.key_location = "query".to_string();
    plugin.keys.push(("mykey".to_string(), ak_entry("q1", None, &[])));
    match plugin.on_request(ak_request(vec![], Some("api_key=mykey"))) {
        Action::Continue(r) => assert_eq!(r.headers.get("x-auth-key-id").unwrap(), "q1"),
        _ => panic!("expected Continue"),
    }
}

#[test]
fn lib_test_unauthorized_response_format() {
    let resp = ak_plugin().unauthorized_response(&ApiKeyError::MissingKey);
    assert_eq!(resp.status, 401);
    assert_eq!(resp.headers.get("content-type").unwrap(), "application/json");
    let body: serde_json::Value = serde_json::from_slice(resp.body.as_ref().unwrap()).unwrap();
    assert_eq!(body["type"], "urn:barbacane:error:authentication-failed");
    assert_eq!(body["status"], 401);
}

#[test]
fn test_url_decode_percent_encoding() {
    assert_eq!(url_decode("hello%20world"), "hello world");
    assert_eq!(url_decode("a%2Fb"), "a/b");
}

#[test]
fn test_url_decode_plus_as_space() {
    assert_eq!(url_decode("hello+world"), "hello world");
}

#[test]
fn test_url_decode_no_encoding() {
    assert_eq!(url_decode("plain-text"), "plain-text");
}

#[test]
fn test_url_decode_invalid_escape() {
    assert_eq!(url_decode("a%ZZb"), "a%ZZb");
}

#[test]
fn test_url_decode_truncated_escape_kept() {
    assert_eq!(url_decode("abc%2"), "abc%2");
}

#[test]
fn apikey_config_defaults() {
    let plugin = ak_empty();
    assert_eq!(plugin.key_location, "header");
    assert_eq!(plugin.header_name, "X-API-Key");
    assert_eq!(plugin.query_param, "api_key");
    assert!(plugin.keys.is_empty());
}

#[test]
fn test_custom_header_name_is_read() {
    let mut plugin = ak_empty();
    plugin.header_name = "Authorization".to_string();
    plugin.keys.push(("Bearer tok".to_string(), ak_entry("t1", None, &[])));
    match plugin.on_request(ak_request(vec![("Authorization", "Bearer tok")], None)) {
        Action::Continue(r) => assert_eq!(r.headers.get("x-auth-consumer").unwrap(), "t1"),
        _ => panic!("expected Continue"),
    }
}

#[test]
fn lib_test_on_response_passthrough() {
    let resp = Response { status: 200, headers: HeaderMap::new(), body: Some(b"ok".to_vec()) };
    let result = ak_plugin().on_response(resp);
    assert_eq!(result.status, 200);
    assert_eq!(result.body.as_deref(), Some(&b"ok"[..]));
}
