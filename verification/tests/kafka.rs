use barbacane_plugins::headers::HeaderMap;
use barbacane_plugins::http::{Request, Response};
use barbacane_plugins::json::parse_json;
use barbacane_plugins::kafka::{AckResponse, KafkaDispatcher, PublishOutcome, PublishResult};

fn kafka(key: Option<&str>, include_metadata: bool, headers_from_request: &[&str]) -> KafkaDispatcher {
    KafkaDispatcher {
        brokers: "kafka:9092".to_string(),
        topic: "test-topic".to_string(),
        key: key.map(|k| k.to_string()),
        ack_response: None,
        include_metadata,
        headers_from_request: headers_from_request.iter().map(|h| h.to_string()).collect(),
    }
}

fn kafka_request() -> Request {
    let mut headers = HeaderMap::new();
    headers.insert("content-type".to_string(), "application/json".to_string());
    headers.insert("x-request-id".to_string(), "req-123".to_string());
    headers.insert("x-trace-id".to_string(), "trace-456".to_string());
    headers.insert("x-custom-header".to_string(), "custom-value".to_string());
    let mut path_params = HeaderMap::new();
    path_params.insert("id".to_string(), "user-789".to_string());
    Request {
        method: "POST".to_string(),
        path: "/api/users".to_string(),
        query: None,
        headers,
        body: Some(br#"{"name":"test"}"#.to_vec()),
        client_ip: "127.0.0.1".to_string(),
        path_params,
    }
}

fn kafka_result(success: bool) -> PublishResult {
    PublishResult {
        success,
        error: if success { None } else { Some("publish error".to_string()) },
        topic: "test-topic".to_string(),
        partition: Some(0),
        offset: Some(12345),
    }
}

fn kafka_body(r: &Response) -> serde_json::Value {
    serde_json::from_slice(r.body.as_ref().unwrap()).unwrap()
}

#[test]
fn test_resolve_key_from_header() {
    let d = kafka(Some("$request.header.x-custom-header"), false, &[]);
    assert_eq!(d.resolve_key(&kafka_request()), Some("custom-value".to_string()));
}

#[test]
fn test_resolve_key_from_path_param() {
    let d = kafka(Some("$request.path.id"), false, &[]);
    assert_eq!(d.resolve_key(&kafka_request()), Some("user-789".to_string()));
}

#[test]
fn test_resolve_key_literal_value() {
    let d = kafka(Some("static-key"), false, &[]);
    assert_eq!(d.resolve_key(&kafka_request()), Some("static-key".to_string()));
}

#[test]
fn test_resolve_key_none_when_no_key_configured() {
    assert_eq!(kafka(None, false, &[]).resolve_key(&kafka_request()), None);
}

#[test]
fn test_resolve_key_none_when_header_not_found() {
    let d = kafka(Some("$request.header.nonexistent"), false, &[]);
    assert_eq!(d.resolve_key(&kafka_request()), None);
}

#[test]
fn test_accepted_response_without_metadata() {
    let response = kafka(None, false, &[]).accepted_response(&kafka_result(true));
    assert_eq!(response.status, 202);
    assert_eq!(response.headers.get("content-type"), Some("application/json".to_string()));
    let body = kafka_body(&response);
    assert_eq!(body["status"], "accepted");
    assert!(body.get("topic").is_none());
    assert!(body.get("partition").is_none());
    assert!(body.get("offset").is_none());
}

#[test]
fn test_accepted_response_with_metadata() {
    let response = kafka(None, true, &[]).accepted_response(&kafka_result(true));
    assert_eq!(response.status, 202);
    let body = kafka_body(&response);
    assert_eq!(body["status"], "accepted");
    assert_eq!(body["topic"], "test-topic");
    assert_eq!(body["partition"], 0);
    assert_eq!(body["offset"], 12345);
}

#[test]
fn test_default_ack_body_without_metadata() {
    let text = kafka(None, false, &[]).default_ack_body(&kafka_result(true));
    let body: serde_json::Value = serde_json::from_str(&text).unwrap();
    assert_eq!(body["status"], "accepted");
    assert!(body.get("topic").is_none());
}

#[test]
fn test_default_ack_body_with_metadata() {
    let text = kafka(None, true, &[]).default_ack_body(&kafka_result(true));
    let body: serde_json::Value = serde_json::from_str(&text).unwrap();
    assert_eq!(body["status"], "accepted");
    assert_eq!(body["topic"], "test-topic");
    assert_eq!(body["partition"], 0);
    assert_eq!(body["offset"], 12345);
}

#[test]
fn test_default_ack_body_metadata_nulls() {
    let mut res = kafka_result(true);
    res.partition = None;
    res.offset = Some(-1);
    let text = kafka(None, true, &[]).default_ack_body(&res);
    let body: serde_json::Value = serde_json::from_str(&text).unwrap();
    assert!(body["partition"].is_null());
    assert_eq!(body["offset"], -1);
}

#[test]
fn kafka_test_error_response_502() {
    let response = kafka(None, false, &[]).error_response(502, "Kafka publish failed", "connection timeout");
    assert_eq!(response.status, 502);
    assert_eq!(response.headers.get("content-type"), Some("application/problem+json".to_string()));
    let body = kafka_body(&response);
    assert_eq!(body["type"], "urn:barbacane:error:kafka-publish-failed");
    assert_eq!(body["title"], "Kafka publish failed");
    assert_eq!(body["status"], 502);
    assert_eq!(body["detail"], "connection timeout");
}

#[test]
fn test_custom_ack_response_body() {
    let mut d = kafka(None, false, &[]);
    d.ack_response = Some(AckResponse { body: parse_json(br#"{"message": "queued", "id": 123}"#), headers: None });
    let response = d.accepted_response(&kafka_result(true));
    assert_eq!(response.status, 202);
    let body = kafka_body(&response);
    assert_eq!(body["message"], "queued");
    assert_eq!(body["id"], 123);
}

#[test]
fn test_custom_ack_response_headers() {
    let mut d = kafka(None, false, &[]);
    let mut h = HeaderMap::new();
    h.insert("x-custom-response".to_string(), "custom-value".to_string());
    h.insert("x-tracking-id".to_string(), "track-123".to_string());
    d.ack_response = Some(AckResponse { body: None, headers: Some(h) });
    let response = d.accepted_response(&kafka_result(true));
    assert_eq!(response.headers.get("x-custom-response"), Some("custom-value".to_string()));
    assert_eq!(response.headers.get("x-tracking-id"), Some("track-123".to_string()));
    assert_eq!(response.headers.get("content-type"), Some("application/json".to_string()));
}

#[test]
fn lib_test_dispatch_with_native_stub_returns_502() {
    let response = kafka(None, false, &[]).publish_response(PublishOutcome::PublishFailed);
    assert_eq!(response.status, 502);
    assert_eq!(response.headers.get("content-type"), Some("application/problem+json".to_string()));
    let body = kafka_body(&response);
    assert_eq!(body["type"], "urn:barbacane:error:kafka-publish-failed");
    assert_eq!(body["title"], "Kafka publish failed");
    assert_eq!(body["detail"], "host_kafka_publish returned error");
}

#[test]
fn kafka_publish_outcomes_map_to_answers() {
    let d = kafka(None, false, &[]);
    assert_eq!(kafka_body(&d.publish_response(PublishOutcome::ReadFailed))["detail"], "failed to read publish result");
    let invalid = kafka_body(&d.publish_response(PublishOutcome::Invalid("bad json".to_string())));
    assert_eq!(invalid["title"], "invalid publish result");
    assert_eq!(invalid["detail"], "bad json");
    let failed = d.publish_response(PublishOutcome::Reported(kafka_result(false)));
    assert_eq!(failed.status, 502);
    assert_eq!(kafka_body(&failed)["detail"], "publish error");
    assert_eq!(d.publish_response(PublishOutcome::Reported(kafka_result(true))).status, 202);
}

#[test]
fn test_message_header_propagation_specified_headers() {
    let h = kafka(None, false, &["x-custom-header"]).message_headers(&kafka_request());
    assert_eq!(h.get("x-custom-header"), Some("custom-value".to_string()));
    assert_eq!(h.get("x-request-id"), Some("req-123".to_string()));
    assert!(!h.contains_key("content-type"));
}

#[test]
fn test_message_header_propagation_auto_includes_request_id_and_trace_id() {
    let mut req = kafka_request();
    req.headers.insert("x-request-id".to_string(), "req-abc".to_string());
    req.headers.insert("x-trace-id".to_string(), "trace-xyz".to_string());
    let h = kafka(None, false, &[]).message_headers(&req);
    assert_eq!(h.get("x-request-id"), Some("req-abc".to_string()));
    assert_eq!(h.get("x-trace-id"), Some("trace-xyz".to_string()));
    assert!(!h.contains_key("x-custom-header"));
}

#[test]
fn test_message_header_propagation_missing_header() {
    let h = kafka(None, false, &["x-nonexistent-header"]).message_headers(&kafka_request());
    assert!(!h.contains_key("x-nonexistent-header"));
}

#[test]
fn kafka_publish_message_fields() {
    let bytes = kafka(Some("static-key"), false, &["x-custom-header"]).publish_message(&kafka_request());
    let msg: serde_json::Value = serde_json::from_slice(&bytes).unwrap();
    assert_eq!(msg["url"], "kafka:9092");
    assert_eq!(msg["topic"], "test-topic");
    assert_eq!(msg["key"], "static-key");
    assert_eq!(msg["headers"]["x-custom-header"], "custom-value");
    assert_eq!(msg["headers"]["x-trace-id"], "trace-456");
}

#[test]
fn kafka_publish_message_keeps_field_order() {
    let bytes = kafka(Some("static-key"), false, &["x-custom-header"]).publish_message(&kafka_request());
    let text = String::from_utf8(bytes).unwrap();
    let url = text.find("\"url\"").unwrap();
    let topic = text.find("\"topic\"").unwrap();
    let key = text.find("\"key\"").unwrap();
    let payload = text.find("\"payload\"").unwrap();
    let headers = text.find("\"headers\"").unwrap();
    assert!(text.starts_with("{\"url\":\"kafka:9092\",\"topic\":\"test-topic\",\"key\":\"static-key\","));
    assert!(url < topic && topic < key && key < payload && payload < headers);
}
