use barbacane_plugins::headers::HeaderMap;
use barbacane_plugins::http::{Request, Response};
use barbacane_plugins::http_log::{default_content_type, default_method, default_timeout_ms, HttpLog, LogContext};

fn hl_plugin() -> HttpLog {
    HttpLog {
        endpoint: "http://localhost:9999/logs".to_string(),
        method: default_method(),
        timeout_ms: default_timeout_ms(),
        content_type: default_content_type(),
        include_headers: false,
        include_body: false,
        custom_fields: HeaderMap::new(),
    }
}

fn hl_request() -> Request {
    let mut headers = HeaderMap::new();
    headers.insert("content-type".to_string(), "application/json".to_string());
    Request {
        method: "POST".to_string(),
        path: "/users".to_string(),
        query: Some("page=1".to_string()),
        headers,
        body: Some(br#"{"name":"alice"}"#.to_vec()),
        client_ip: "10.0.0.1".to_string(),
        path_params: HeaderMap::new(),
    }
}

fn hl_response() -> Response {
    let mut headers = HeaderMap::new();
    headers.insert("content-type".to_string(), "application/json".to_string());
    Response { status: 201, headers, body: Some(br#"{"id":42}"#.to_vec()) }
}

fn hl_lookup(entries: &[(String, String)], key: &str) -> Option<String> {
    entries.iter().find(|(k, _)| k == key).map(|(_, v)| v.clone())
}

fn hl_context(entries: &[(String, String)]) -> LogContext {
    LogContext {
        start_ms: hl_lookup(entries, "http_log_start_ms"),
        correlation_id: None,
        method: hl_lookup(entries, "http_log_method"),
        path: hl_lookup(entries, "http_log_path"),
        query: hl_lookup(entries, "http_log_query"),
        client_ip: hl_lookup(entries, "http_log_client_ip"),
        req_headers: hl_lookup(entries, "http_log_req_headers"),
        req_body_size: hl_lookup(entries, "http_log_req_body_size"),
    }
}

fn hl_call(plugin: &HttpLog, start: u64, now: u64) -> (serde_json::Value, serde_json::Value) {
    let ctx = hl_context(&plugin.request_context(&hl_request(), start));
    let call: serde_json::Value = serde_json::from_slice(&plugin.log_call(&hl_response(), &ctx, now)).unwrap();
    let payload: serde_json::Value = serde_json::from_str(call["body"].as_str().unwrap()).unwrap();
    (call, payload)
}

#[test]
fn http_log_config_defaults() {
    let config = hl_plugin();
    assert_eq!(config.method, "POST");
    assert_eq!(config.timeout_ms, 2000);
    assert_eq!(config.content_type, "application/json");
    assert!(!config.include_headers);
    assert!(!config.include_body);
    assert!(config.custom_fields.is_empty());
}

#[test]
fn log_entry_minimal_serialization() {
    let plugin = hl_plugin();
    let ctx = LogContext {
        start_ms: Some("1000".to_string()),
        correlation_id: None,
        method: Some("GET".to_string()),
        path: Some("/health".to_string()),
        query: None,
        client_ip: Some("127.0.0.1".to_string()),
        req_headers: None,
        req_body_size: None,
    };
    let resp = Response { status: 200, headers: HeaderMap::new(), body: None };
    let call: serde_json::Value = serde_json::from_slice(&plugin.log_call(&resp, &ctx, 1050)).unwrap();
    let json: serde_json::Value = serde_json::from_str(call["body"].as_str().unwrap()).unwrap();
    assert_eq!(json["timestamp_ms"], 1000);
    assert_eq!(json["duration_ms"], 50);
    assert!(json.get("correlation_id").is_none());
    assert_eq!(json["request"]["method"], "GET");
    assert_eq!(json["response"]["status"], 200);
    assert!(json["request"].get("headers").is_none());
    assert!(json["request"].get("body_size").is_none());
}

#[test]
fn log_entry_with_optional_fields() {
    let mut plugin = hl_plugin();
    plugin.include_headers = true;
    plugin.include_body = true;
    plugin.custom_fields.insert("env".to_string(), "staging".to_string());
    let ctx = LogContext {
        start_ms: Some("2000".to_string()),
        correlation_id: Some("abc-123".to_string()),
        method: Some("POST".to_string()),
        path: Some("/users".to_string()),
        query: Some("verbose=true".to_string()),
        client_ip: Some("10.0.0.1".to_string()),
        req_headers: Some(r#"{"accept":"application/json"}"#.to_string()),
        req_body_size: Some("256".to_string()),
    };
    let resp = Response { status: 201, headers: HeaderMap::new(), body: Some(vec![0u8; 64]) };
    let call: serde_json::Value = serde_json::from_slice(&plugin.log_call(&resp, &ctx, 2120)).unwrap();
    let json: serde_json::Value = serde_json::from_str(call["body"].as_str().unwrap()).unwrap();
    assert_eq!(json["duration_ms"], 120);
    assert_eq!(json["correlation_id"], "abc-123");
    assert_eq!(json["request"]["query"], "verbose=true");
    assert_eq!(json["request"]["headers"]["accept"], "application/json");
    assert_eq!(json["request"]["body_size"], 256);
    assert_eq!(json["response"]["body_size"], 64);
    assert_eq!(json["env"], "staging");
}

#[test]
fn on_request_captures_metadata_in_context() {
    let entries = hl_plugin().request_context(&hl_request(), 5000);
    assert_eq!(hl_lookup(&entries, "http_log_start_ms").unwrap(), "5000");
    assert_eq!(hl_lookup(&entries, "http_log_method").unwrap(), "POST");
    assert_eq!(hl_lookup(&entries, "http_log_path").unwrap(), "/users");
    assert_eq!(hl_lookup(&entries, "http_log_client_ip").unwrap(), "10.0.0.1");
    assert_eq!(hl_lookup(&entries, "http_log_query").unwrap(), "page=1");
}

#[test]
fn on_request_skips_headers_when_disabled() {
    let entries = hl_plugin().request_context(&hl_request(), 0);
    assert!(hl_lookup(&entries, "http_log_req_headers").is_none());
    assert!(hl_lookup(&entries, "http_log_req_body_size").is_none());
}

#[test]
fn on_request_captures_headers_when_enabled() {
    let mut plugin = hl_plugin();
    plugin.include_headers = true;
    let entries = plugin.request_context(&hl_request(), 0);
    let headers: serde_json::Value = serde_json::from_str(&hl_lookup(&entries, "http_log_req_headers").unwrap()).unwrap();
    assert_eq!(headers["content-type"], "application/json");
}

#[test]
fn on_request_captures_body_size_when_enabled() {
    let mut plugin = hl_plugin();
    plugin.include_body = true;
    let entries = plugin.request_context(&hl_request(), 0);
    assert_eq!(hl_lookup(&entries, "http_log_req_body_size").unwrap(), "16");
}

#[test]
fn on_response_sends_log_entry() {
    let (call, payload) = hl_call(&hl_plugin(), 1000, 1050);
    assert_eq!(call["method"], "POST");
    assert_eq!(call["url"], "http://localhost:9999/logs");
    assert_eq!(call["timeout_ms"], 2000);
    assert_eq!(payload["timestamp_ms"], 1000);
    assert_eq!(payload["duration_ms"], 50);
    assert_eq!(payload["request"]["method"], "POST");
    assert_eq!(payload["request"]["path"], "/users");
    assert_eq!(payload["response"]["status"], 201);
}

#[test]
fn on_response_duration_never_negative() {
    let (_, payload) = hl_call(&hl_plugin(), 1000, 900);
    assert_eq!(payload["duration_ms"], 0);
}

#[test]
fn on_response_includes_custom_fields() {
    let mut plugin = hl_plugin();
    plugin.custom_fields.insert("service".to_string(), "my-api".to_string());
    let (_, payload) = hl_call(&plugin, 0, 0);
    assert_eq!(payload["service"], "my-api");
}

#[test]
fn http_request_uses_configured_method_and_content_type() {
    let mut plugin = hl_plugin();
    plugin.method = "PUT".to_string();
    plugin.content_type = "application/x-ndjson".to_string();
    let (call, _) = hl_call(&plugin, 0, 0);
    assert_eq!(call["method"], "PUT");
    assert_eq!(call["headers"]["content-type"], "application/x-ndjson");
}

#[test]
fn log_entry_text_keeps_field_order() {
    let mut plugin = hl_plugin();
    plugin.custom_fields.insert("zone".to_string(), "eu".to_string());
    plugin.custom_fields.insert("app".to_string(), "api".to_string());
    let ctx = hl_context(&plugin.request_context(&hl_request(), 1000));
    let call: serde_json::Value = serde_json::from_slice(&plugin.log_call(&hl_response(), &ctx, 1250)).unwrap();
    assert_eq!(
        call["body"].as_str().unwrap(),
        r#"{"timestamp_ms":1000,"duration_ms":250,"request":{"method":"POST","path":"/users","query":"page=1","client_ip":"10.0.0.1"},"response":{"status":201},"app":"api","zone":"eu"}"#
    );
    let (_, payload) = hl_call(&hl_plugin(), 5, 5);
    assert_eq!(payload["duration_ms"], 0);
}
