use barbacane_plugins::ai_proxy::config::Provider;
use barbacane_plugins::ai_proxy::responses::{
    translate_anthropic_response, unknown_input_item_types, attach_warnings, flush_message, make_uuid_v7, next_counter, response_id,
    responses_not_supported_for_provider_response, rewrite_response_id_if_2xx, ResponsesPreflight, ResponsesToAnthropic,
};
use barbacane_plugins::headers::HeaderMap;
use barbacane_plugins::http::Response;
use barbacane_plugins::json::{parse_json, Json};

const RS_MODEL: &str = "sonnet-4-6";

fn rs_body(s: &str) -> Option<Vec<u8>> {
    Some(s.as_bytes().to_vec())
}

fn rs_store_downgrade(s: &str) -> bool {
    match ResponsesPreflight::from_body(&rs_body(s)) {
        Ok(p) => p.store_downgrade,
        Err(_) => panic!("expected the preflight to pass"),
    }
}

fn rs_in(json: &str) -> ResponsesToAnthropic {
    let v = parse_json(json.as_bytes()).unwrap();
    ResponsesToAnthropic::translate(&v, RS_MODEL, false, Some(1024)).ok().expect("translate")
}

fn rs_in_body(json: &str) -> serde_json::Value {
    serde_json::from_str(&rs_in(json).body).unwrap()
}

fn rs_out(body: &str) -> serde_json::Value {
    serde_json::from_str(&translate_anthropic_response(body, RS_MODEL, 1_700_000_000_000, 0).ok().unwrap()).unwrap()
}

#[test]
fn preflight_passes_when_previous_response_id_absent() {
    assert!(rs_store_downgrade(r#"{"input":[]}"#));
}

#[test]
fn preflight_rejects_previous_response_id_with_400() {
    let resp = match ResponsesPreflight::from_body(&rs_body(r#"{"input":[],"previous_response_id":"resp_abc"}"#)) {
        Ok(_) => panic!("must reject"),
        Err(r) => r,
    };
    assert_eq!(resp.status, 400);
    let body: serde_json::Value = serde_json::from_slice(resp.body.as_ref().unwrap()).unwrap();
    assert_eq!(body["code"], "previous_response_id_not_supported");
    assert_eq!(body["type"], "urn:barbacane:error:previous_response_id_not_supported");
}

#[test]
fn preflight_treats_explicit_null_previous_response_id_as_absent() {
    assert!(ResponsesPreflight::from_body(&rs_body(r#"{"input":[],"previous_response_id":null}"#)).is_ok());
}

#[test]
fn preflight_store_true_triggers_downgrade() {
    assert!(rs_store_downgrade(r#"{"input":[],"store":true}"#));
}

#[test]
fn preflight_store_false_skips_downgrade() {
    assert!(!rs_store_downgrade(r#"{"input":[],"store":false}"#));
}

#[test]
fn preflight_store_omitted_treated_as_default_true() {
    assert!(rs_store_downgrade(r#"{"input":[]}"#));
}

#[test]
fn translate_in_input_text_becomes_text_block() {
    let body = rs_in_body(r#"{"input":[{"type":"input_text","role":"user","content":"Hello"}]}"#);
    let messages = body["messages"].as_array().unwrap();
    assert_eq!(messages.len(), 1);
    assert_eq!(messages[0]["role"], "user");
    let blocks = messages[0]["content"].as_array().unwrap();
    assert_eq!(blocks[0]["type"], "text");
    assert_eq!(blocks[0]["text"], "Hello");
}

#[test]
fn translate_in_instructions_hoist_to_system() {
    let body = rs_in_body(r#"{"instructions":"Be concise.","input":[{"type":"input_text","role":"user","content":"hi"}]}"#);
    assert_eq!(body["system"], "Be concise.");
}

#[test]
fn translate_in_function_call_becomes_tool_use() {
    let body = rs_in_body(
        r#"{"input":[{"type":"function_call","role":"assistant","call_id":"call_1","name":"get_time","arguments":"{\"tz\":\"UTC\"}"}]}"#,
    );
    let block = &body["messages"][0]["content"][0];
    assert_eq!(block["type"], "tool_use");
    assert_eq!(block["id"], "call_1");
    assert_eq!(block["name"], "get_time");
    assert_eq!(block["input"]["tz"], "UTC");
}

#[test]
fn translate_in_function_call_output_becomes_tool_result() {
    let body = rs_in_body(r#"{"input":[{"type":"function_call_output","call_id":"call_1","output":"2026-04-30T12:00:00Z"}]}"#);
    let block = &body["messages"][0]["content"][0];
    assert_eq!(block["type"], "tool_result");
    assert_eq!(block["tool_use_id"], "call_1");
    assert_eq!(block["content"], "2026-04-30T12:00:00Z");
}

#[test]
fn translate_in_reasoning_items_dropped_and_counted() {
    let res = rs_in(
        r#"{"input":[{"type":"reasoning","summary":"thinking..."},{"type":"input_text","role":"user","content":"hi"},
            {"type":"reasoning","summary":"more thinking"}]}"#,
    );
    assert_eq!(res.dropped_reasoning_count, 2);
    let body: serde_json::Value = serde_json::from_str(&res.body).unwrap();
    let blocks = body["messages"][0]["content"].as_array().unwrap();
    assert_eq!(blocks.len(), 1);
    assert_eq!(blocks[0]["type"], "text");
}

#[test]
fn translate_in_max_output_tokens_used_or_default() {
    let v = rs_in_body(r#"{"max_output_tokens":42,"input":[{"type":"input_text","role":"user","content":"hi"}]}"#);
    assert_eq!(v["max_tokens"], 42);
    let v = rs_in_body(r#"{"input":[{"type":"input_text","role":"user","content":"hi"}]}"#);
    assert_eq!(v["max_tokens"], 1024);
}

#[test]
fn translate_in_uses_client_model_not_request_field() {
    let v = rs_in_body(r#"{"model":"some-other-model","input":[{"type":"input_text","role":"user","content":"hi"}]}"#);
    assert_eq!(v["model"], RS_MODEL);
}

#[test]
fn translate_in_interleaved_roles_preserve_order() {
    let body = rs_in_body(
        r#"{"input":[{"type":"input_text","role":"user","content":"first user"},
            {"type":"input_text","role":"assistant","content":"first assistant"},
            {"type":"input_text","role":"user","content":"second user"}]}"#,
    );
    let messages = body["messages"].as_array().unwrap();
    assert_eq!(messages.len(), 3);
    assert_eq!(messages[0]["role"], "user");
    assert_eq!(messages[0]["content"][0]["text"], "first user");
    assert_eq!(messages[1]["role"], "assistant");
    assert_eq!(messages[1]["content"][0]["text"], "first assistant");
    assert_eq!(messages[2]["role"], "user");
    assert_eq!(messages[2]["content"][0]["text"], "second user");
}

#[test]
fn translate_in_consecutive_same_role_items_coalesce() {
    let body = rs_in_body(
        r#"{"input":[{"type":"input_text","role":"user","content":"part one"},{"type":"input_text","role":"user","content":"part two"}]}"#,
    );
    let messages = body["messages"].as_array().unwrap();
    assert_eq!(messages.len(), 1);
    let blocks = messages[0]["content"].as_array().unwrap();
    assert_eq!(blocks.len(), 2);
    assert_eq!(blocks[0]["text"], "part one");
    assert_eq!(blocks[1]["text"], "part two");
}

#[test]
fn translate_in_missing_input_is_an_error() {
    let v = parse_json(br#"{"model":"x"}"#).unwrap();
    match ResponsesToAnthropic::translate(&v, RS_MODEL, false, None) {
        Err(e) => assert_eq!(e, "Responses request must include `input` array"),
        Ok(_) => panic!("expected an error"),
    }
}

#[test]
fn flush_message_helper_is_a_no_op_with_empty_buffer() {
    let mut blocks: Vec<Json> = Vec::new();
    let mut messages: Vec<Json> = Vec::new();
    flush_message(&Some("user".to_string()), &mut blocks, &mut messages);
    assert!(messages.is_empty());
}

#[test]
fn flush_message_helper_is_a_no_op_with_no_role() {
    let mut blocks = vec![parse_json(br#"{"type":"text","text":"orphaned"}"#).unwrap()];
    let mut messages: Vec<Json> = Vec::new();
    flush_message(&None, &mut blocks, &mut messages);
    assert!(messages.is_empty());
}

#[test]
fn flush_message_moves_blocks_into_a_message() {
    let mut blocks = vec![parse_json(br#"{"type":"text","text":"a"}"#).unwrap()];
    let mut messages: Vec<Json> = Vec::new();
    flush_message(&Some("user".to_string()), &mut blocks, &mut messages);
    assert_eq!(messages.len(), 1);
    assert!(blocks.is_empty());
}

#[test]
fn rewrite_response_id_replaces_2xx_id_with_synthetic() {
    let upstream = Response {
        status: 200,
        headers: HeaderMap::new(),
        body: Some(br#"{"id":"resp_real_openai","object":"response"}"#.to_vec()),
    };
    let out = rewrite_response_id_if_2xx(upstream, 1_700_000_000_000, 7);
    let body: serde_json::Value = serde_json::from_slice(out.body.as_ref().unwrap()).unwrap();
    let id = body["id"].as_str().unwrap();
    assert!(id.starts_with("resp_"), "{}", id);
    assert_ne!(id, "resp_real_openai");
    assert_eq!(body["object"], "response");
}

#[test]
fn rewrite_response_id_passes_4xx_through_unchanged() {
    let upstream = Response {
        status: 400,
        headers: HeaderMap::new(),
        body: Some(br#"{"error":{"code":"invalid_request","message":"bad"}}"#.to_vec()),
    };
    let out = rewrite_response_id_if_2xx(upstream, 0, 0);
    let body: serde_json::Value = serde_json::from_slice(out.body.as_ref().unwrap()).unwrap();
    assert_eq!(body["error"]["code"], "invalid_request");
    assert!(body.get("id").is_none());
}

#[test]
fn rewrite_response_id_passes_unparseable_body_through_unchanged() {
    let upstream = Response { status: 200, headers: HeaderMap::new(), body: Some(b"not even json".to_vec()) };
    let out = rewrite_response_id_if_2xx(upstream, 0, 0);
    assert_eq!(out.body.as_ref().unwrap(), b"not even json");
}

#[test]
fn translate_out_text_block_becomes_output_text() {
    let v = rs_out(
        r#"{"id":"msg_1","type":"message","role":"assistant","model":"m","content":[{"type":"text","text":"Hello"}],
            "stop_reason":"end_turn","usage":{"input_tokens":3,"output_tokens":1}}"#,
    );
    assert_eq!(v["object"], "response");
    assert_eq!(v["status"], "completed");
    let item = &v["output"][0];
    assert_eq!(item["type"], "output_text");
    assert_eq!(item["text"], "Hello");
    assert!(item["annotations"].is_array());
}

#[test]
fn translate_out_tool_use_block_becomes_function_call() {
    let v = rs_out(
        r#"{"id":"msg_2","model":"m","content":[{"type":"tool_use","id":"call_42","name":"get_time","input":{"tz":"UTC"}}],
            "usage":{"input_tokens":1,"output_tokens":1}}"#,
    );
    let item = &v["output"][0];
    assert_eq!(item["type"], "function_call");
    assert_eq!(item["call_id"], "call_42");
    assert_eq!(item["name"], "get_time");
    assert!(item["arguments"].as_str().unwrap().contains("UTC"));
}

#[test]
fn translate_out_synthetic_id_is_resp_uuid_v7() {
    let v = rs_out(r#"{"id":"msg","model":"x","content":[],"usage":{"input_tokens":0,"output_tokens":0}}"#);
    let id = v["id"].as_str().unwrap();
    assert!(id.starts_with("resp_"), "id should start with resp_, got {}", id);
    let uuid_part = id.trim_start_matches("resp_");
    assert_eq!(uuid_part.len(), 36, "{}", uuid_part);
    assert_eq!(uuid_part.as_bytes()[14], b'7', "expected v7 nibble, got {}", uuid_part);
}

#[test]
fn translate_out_uses_caller_supplied_model_not_anthropic_model() {
    let v = rs_out(r#"{"id":"msg","model":"anything-anthropic-says","content":[],"usage":{"input_tokens":0,"output_tokens":0}}"#);
    assert_eq!(v["model"], RS_MODEL);
}

#[test]
fn translate_out_usage_maps_directly() {
    let v = rs_out(r#"{"id":"msg","model":"x","content":[],"usage":{"input_tokens":42,"output_tokens":10}}"#);
    assert_eq!(v["usage"]["input_tokens"], 42);
    assert_eq!(v["usage"]["output_tokens"], 10);
    assert_eq!(v["usage"]["total_tokens"], 52);
}

#[test]
fn responses_not_supported_for_provider_shape() {
    let resp = responses_not_supported_for_provider_response(&Provider::Ollama);
    assert_eq!(resp.status, 400);
    let body: serde_json::Value = serde_json::from_slice(resp.body.as_ref().unwrap()).unwrap();
    assert_eq!(body["code"], "responses_not_supported_for_provider");
    assert_eq!(body["type"], "urn:barbacane:error:responses_not_supported_for_provider");
    assert!(body["detail"].as_str().unwrap().contains("ollama"));
}

#[test]
fn warnings_attached_for_store_only() {
    let mut headers = HeaderMap::new();
    attach_warnings(&mut headers, true, false);
    let warning = headers.get("warning").expect("warning set");
    assert!(warning.contains("store ignored"));
    assert!(!warning.contains("reasoning items dropped"));
}

#[test]
fn warnings_attached_for_reasoning_only() {
    let mut headers = HeaderMap::new();
    attach_warnings(&mut headers, false, true);
    let warning = headers.get("warning").expect("warning set");
    assert!(warning.contains("reasoning items dropped"));
    assert!(!warning.contains("store ignored"));
}

#[test]
fn warnings_merged_when_both_fire() {
    let mut headers = HeaderMap::new();
    attach_warnings(&mut headers, true, true);
    let warning = headers.get("warning").expect("warning set");
    assert!(warning.contains("store ignored"));
    assert!(warning.contains("reasoning items dropped"));
}

#[test]
fn warnings_skipped_when_neither_fires() {
    let mut headers = HeaderMap::new();
    attach_warnings(&mut headers, false, false);
    assert!(headers.get("warning").is_none());
}

#[test]
fn uuid_v7_layout_and_ordering() {
    let a = make_uuid_v7(0x0123_4567_89ab, 5);
    assert_eq!(&a[0..6], &[0x01, 0x23, 0x45, 0x67, 0x89, 0xab]);
    assert_eq!(a[6] >> 4, 7);
    assert_eq!(a[8] >> 6, 0b10);
    let earlier = response_id(1000, 0);
    let later = response_id(2000, 0);
    assert!(earlier < later);
    assert_eq!(next_counter(u64::MAX), 0);
    assert_eq!(next_counter(41), 42);
}

#[test]
fn response_ids_sort_by_millisecond() {
    let earlier = response_id(1_700_000_000_000, 41);
    let later = response_id(1_700_000_000_001, 3);
    assert!(earlier < later, "{} should sort before {}", earlier, later);
    let a = make_uuid_v7(0x0102_0304_0506, 9);
    assert_eq!(&a[0..6], &[1u8, 2, 3, 4, 5, 6]);
}

#[test]
fn response_ids_in_one_millisecond_differ() {
    let first = response_id(1_700_000_000_000, u64::MAX);
    let second = response_id(1_700_000_000_000, next_counter(u64::MAX));
    assert_ne!(first, second);
    assert_ne!(response_id(5, 7), response_id(5, 8));
}
