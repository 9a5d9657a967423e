use barbacane_plugins::ai_prompt_guard::{default_context_key, resolve_profile_name};
use barbacane_plugins::ai_response_guard::{
    apply_redactions, compile_redactions, default_replacement, AiResponseGuard, GuardProfile, RedactRule,
};
use barbacane_plugins::headers::HeaderMap;
use barbacane_plugins::http::{Action, Request, Response};

fn rg_profile(redact: Vec<(&str, &str)>, blocked: Vec<&str>) -> GuardProfile {
    GuardProfile {
        redact: redact
            .into_iter()
            .map(|(p, r)| RedactRule { pattern: p.to_string(), replacement: r.to_string() })
            .collect(),
        blocked_patterns: blocked.into_iter().map(String::from).collect(),
    }
}

fn rg_profiles(ps: Vec<(&str, GuardProfile)>) -> Vec<(String, GuardProfile)> {
    ps.into_iter().map(|(k, v)| (k.to_string(), v)).collect()
}

fn rg_plugin(default_profile: &str, ps: Vec<(&str, GuardProfile)>) -> AiResponseGuard {
    AiResponseGuard::new(default_context_key(), default_profile.to_string(), rg_profiles(ps))
}

fn rg_single(p: GuardProfile) -> AiResponseGuard {
    rg_plugin("default", vec![("default", p)])
}

fn rg_response(body: &str) -> Response {
    let mut headers = HeaderMap::new();
    headers.insert("content-type".into(), "application/json".into());
    Response { status: 200, headers, body: Some(body.as_bytes().to_vec()) }
}

fn rg_streamed() -> Response {
    Response { status: 0, headers: HeaderMap::new(), body: None }
}

fn rg_json(r: Response) -> serde_json::Value {
    serde_json::from_slice(&r.body.expect("body")).expect("json")
}

#[test]
fn response_guard_default_replacement() {
    assert_eq!(default_replacement(), "[REDACTED]");
}

#[test]
fn response_guard_falls_back_to_default_when_context_key_absent() {
    let ps = rg_profiles(vec![("default", rg_profile(vec![("x", "y")], vec![]))]);
    assert_eq!(resolve_profile_name(&ps, "default", None), "default");
}

#[test]
fn response_guard_uses_profile_named_by_context_key() {
    let ps = rg_profiles(vec![("default", rg_profile(vec![], vec![])), ("strict", rg_profile(vec![], vec![]))]);
    assert_eq!(resolve_profile_name(&ps, "default", Some("strict")), "strict");
}

#[test]
fn response_guard_falls_back_to_default_when_context_names_unknown_profile() {
    let ps = rg_profiles(vec![("default", rg_profile(vec![], vec![]))]);
    assert_eq!(resolve_profile_name(&ps, "default", Some("nonexistent")), "default");
}

#[test]
fn response_guard_honors_custom_context_key() {
    let p = AiResponseGuard::new(
        "tier".into(),
        "default".into(),
        rg_profiles(vec![("default", rg_profile(vec![], vec![])), ("premium", rg_profile(vec![], vec![]))]),
    );
    assert_eq!(p.context_key(), "tier");
}

#[test]
fn selected_profile_applies_redaction() {
    let mut p = rg_plugin("loose", vec![("loose", rg_profile(vec![], vec![])), ("strict", rg_profile(vec![(r"\d+", "[N]")], vec![]))]);
    let out = p.on_response(rg_response(r#"{"choices":[{"message":{"content":"call 911"}}]}"#), Some("strict"));
    assert!(!out.redaction_skipped);
    assert_eq!(rg_json(out.response)["choices"][0]["message"]["content"].as_str(), Some("call [N]"));
}

#[test]
fn response_guard_default_profile_applies_when_context_unset() {
    let mut p = rg_plugin("strict", vec![("strict", rg_profile(vec![(r"secret", "[HIDDEN]")], vec![])), ("lax", rg_profile(vec![], vec![]))]);
    let out = p.on_response(rg_response(r#"{"choices":[{"message":{"content":"top secret"}}]}"#), None);
    assert_eq!(rg_json(out.response)["choices"][0]["message"]["content"].as_str(), Some("top [HIDDEN]"));
}

#[test]
fn different_profiles_have_independent_block_lists() {
    let mut p = rg_plugin("permissive", vec![("permissive", rg_profile(vec![], vec![])), ("strict", rg_profile(vec![], vec!["(?i)confidential"]))]);
    let body = r#"{"choices":[{"message":{"content":"CONFIDENTIAL data"}}]}"#;
    assert_eq!(p.on_response(rg_response(body), None).response.status, 200);
    assert_eq!(p.on_response(rg_response(body), Some("strict")).response.status, 502);
}

#[test]
fn empty_profile_passes_through_without_body_roundtrip() {
    let raw = r#"{ "choices":[{"message":{"content":"x"}}] , "extra" : true }"#;
    let mut p = rg_single(rg_profile(vec![], vec![]));
    assert_eq!(p.on_response(rg_response(raw), None).response.body.expect("body"), raw.as_bytes());
}

#[test]
fn blocked_scan_runs_after_redaction_per_profile() {
    let mut p = rg_single(rg_profile(vec![(r"sk-[a-z0-9]+", "[KEY]")], vec!["sk-[a-z0-9]+"]));
    let out = p.on_response(rg_response(r#"{"choices":[{"message":{"content":"key: sk-abc123"}}]}"#), None);
    assert_eq!(out.response.status, 200);
    assert_eq!(rg_json(out.response)["choices"][0]["message"]["content"].as_str(), Some("key: [KEY]"));
}

#[test]
fn blocked_response_is_502_problem() {
    let mut p = rg_single(rg_profile(vec![], vec!["forbidden"]));
    let out = p.on_response(rg_response(r#"{"choices":[{"message":{"content":"forbidden words"}}]}"#), None);
    assert_eq!(out.response.status, 502);
    assert_eq!(out.response.headers.get("content-type"), Some("application/problem+json".to_string()));
}

#[test]
fn response_guard_misconfigured_default_profile_fails_closed_with_500() {
    let mut p = rg_plugin("missing", vec![("other", rg_profile(vec![(r"\d+", "[N]")], vec![]))]);
    let out = p.on_response(rg_response(r#"{"choices":[{"message":{"content":"1234"}}]}"#), None);
    assert_eq!(out.response.status, 500);
    let body = rg_json(out.response);
    assert_eq!(body["type"].as_str(), Some("urn:barbacane:error:ai-response-guard-misconfigured"));
    assert!(body["detail"].as_str().unwrap_or_default().contains("'missing'"));
}

#[test]
fn misconfigured_default_profile_on_streamed_response_returns_sentinel() {
    let mut p = rg_plugin("missing", vec![("other", rg_profile(vec![], vec![]))]);
    let out = p.on_response(rg_streamed(), None);
    assert_eq!(out.response.status, 0);
    assert!(!out.redaction_skipped);
}

#[test]
fn streamed_response_records_counter_when_selected_profile_has_redact() {
    let mut p = rg_single(rg_profile(vec![(r"\d+", "[N]")], vec![]));
    let out = p.on_response(rg_streamed(), None);
    assert_eq!(out.response.status, 0);
    assert!(out.redaction_skipped);
}

#[test]
fn streamed_response_no_counter_when_selected_profile_has_no_redact() {
    let mut p = rg_single(rg_profile(vec![], vec!["anything"]));
    assert!(!p.on_response(rg_streamed(), None).redaction_skipped);
}

#[test]
fn non_json_body_passes_through() {
    let mut p = rg_single(rg_profile(vec![(r"\d+", "[N]")], vec![]));
    assert_eq!(p.on_response(rg_response("not json"), None).response.body.expect("body"), b"not json");
}

#[test]
fn missing_choices_array_passes_through() {
    let mut p = rg_single(rg_profile(vec![(r"\d+", "[N]")], vec![]));
    let out = p.on_response(rg_response(r#"{"error":"oops 123"}"#), None);
    assert_eq!(rg_json(out.response)["error"].as_str(), Some("oops 123"));
}

#[test]
fn redact_applies_to_delta_content() {
    let mut p = rg_single(rg_profile(vec![("secret", "[HIDDEN]")], vec![]));
    let out = p.on_response(rg_response(r#"{"choices":[{"delta":{"content":"top secret"}}]}"#), None);
    assert_eq!(rg_json(out.response)["choices"][0]["delta"]["content"].as_str(), Some("top [HIDDEN]"));
}

#[test]
fn invalid_redact_regex_fails_closed_with_500() {
    let mut p = rg_single(rg_profile(vec![("[invalid", "x")], vec![]));
    let out = p.on_response(rg_response(r#"{"choices":[{"message":{"content":"hi"}}]}"#), None);
    assert_eq!(out.response.status, 500);
    let body = rg_json(out.response);
    assert_eq!(body["type"].as_str(), Some("urn:barbacane:error:ai-response-guard-misconfigured"));
    assert!(body["detail"].as_str().unwrap_or_default().contains("invalid redact regex"));
}

#[test]
fn invalid_blocked_pattern_fails_closed_with_500() {
    let mut p = rg_single(rg_profile(vec![], vec!["[also-invalid"]));
    let out = p.on_response(rg_response(r#"{"choices":[{"message":{"content":"hi"}}]}"#), None);
    assert_eq!(out.response.status, 500);
    assert!(rg_json(out.response)["detail"].as_str().unwrap_or_default().contains("invalid blocked regex"));
}

#[test]
fn response_guard_compilation_cached_per_profile() {
    let mut p = rg_plugin("a", vec![("a", rg_profile(vec![(r"aaa", "x")], vec![])), ("b", rg_profile(vec![(r"bbb", "y")], vec![]))]);
    let _ = p.on_response(rg_response(r#"{"choices":[]}"#), None);
    assert!(p.is_compiled("a"));
    assert!(!p.is_compiled("b"));
    let _ = p.on_response(rg_response(r#"{"choices":[]}"#), Some("b"));
    assert!(p.is_compiled("a"));
    assert!(p.is_compiled("b"));
}

#[test]
fn lib_on_request_is_passthrough() {
    let mut p = rg_single(rg_profile(vec![], vec![]));
    let req = Request {
        method: "POST".into(),
        path: "/".into(),
        query: None,
        headers: HeaderMap::new(),
        body: None,
        client_ip: "127.0.0.1".into(),
        path_params: HeaderMap::new(),
    };
    let Action::Continue(_) = p.on_request(req) else {
        panic!("expected continue");
    };
}

#[test]
fn apply_redactions_in_order() {
    let rules = vec![
        RedactRule { pattern: "a+".to_string(), replacement: "b".to_string() },
        RedactRule { pattern: "b+".to_string(), replacement: "c".to_string() },
    ];
    let (compiled, err) = compile_redactions(&rules);
    assert!(err.is_none());
    assert_eq!(apply_redactions("aab xb", &compiled), "c xc");
}
