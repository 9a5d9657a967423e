use barbacane_plugins::ai_prompt_guard::{
    default_context_key, default_reject_status, extract_message_text, render_template, resolve_profile_name, AiPromptGuard,
    PromptProfile,
};
use barbacane_plugins::headers::HeaderMap;
use barbacane_plugins::http::{Action, Request, Response};
use barbacane_plugins::json::parse_json;

fn pg_profile(max_messages: Option<usize>, max_message_length: Option<usize>, patterns: Vec<&str>) -> PromptProfile {
    PromptProfile {
        max_messages,
        max_message_length,
        blocked_patterns: patterns.into_iter().map(String::from).collect(),
        system_template: None,
        template_vars: HeaderMap::new(),
        reject_status: default_reject_status(),
    }
}

fn pg_profiles(ps: Vec<(&str, PromptProfile)>) -> Vec<(String, PromptProfile)> {
    ps.into_iter().map(|(k, v)| (k.to_string(), v)).collect()
}

fn pg_plugin(default_profile: &str, ps: Vec<(&str, PromptProfile)>) -> AiPromptGuard {
    AiPromptGuard::new(default_context_key(), default_profile.to_string(), pg_profiles(ps))
}

fn pg_single(p: PromptProfile) -> AiPromptGuard {
    pg_plugin("default", vec![("default", p)])
}

fn pg_req(body: &str) -> Request {
    Request {
        method: "POST".into(),
        path: "/v1/chat/completions".into(),
        query: None,
        headers: HeaderMap::new(),
        body: Some(body.as_bytes().to_vec()),
        client_ip: "127.0.0.1".into(),
        path_params: HeaderMap::new(),
    }
}

fn pg_rejected_body(a: Action) -> (u16, String) {
    match a {
        Action::ShortCircuit(r) => (r.status, String::from_utf8(r.body.expect("body")).expect("utf8")),
        Action::Continue(_) => panic!("expected short-circuit"),
    }
}

const TWO_MESSAGES: &str = r#"{"messages":[{"role":"user","content":"a"},{"role":"user","content":"b"}]}"#;

#[test]
fn lib_config_default_context_key_is_ai_policy() {
    assert_eq!(default_context_key(), "ai.policy");
    assert_eq!(default_reject_status(), 400);
    assert_eq!(pg_single(pg_profile(None, None, vec![])).context_key(), "ai.policy");
}

#[test]
fn lib_falls_back_to_default_when_context_key_absent() {
    let ps = pg_profiles(vec![("default", pg_profile(Some(1), None, vec![]))]);
    assert_eq!(resolve_profile_name(&ps, "default", None), "default");
}

#[test]
fn lib_uses_profile_named_by_context_key() {
    let ps = pg_profiles(vec![("default", pg_profile(Some(50), None, vec![])), ("strict", pg_profile(Some(5), None, vec![]))]);
    assert_eq!(resolve_profile_name(&ps, "default", Some("strict")), "strict");
}

#[test]
fn lib_falls_back_to_default_when_context_names_unknown_profile() {
    let ps = pg_profiles(vec![("default", pg_profile(Some(50), None, vec![]))]);
    assert_eq!(resolve_profile_name(&ps, "default", Some("nonexistent")), "default");
}

#[test]
fn lib_honors_custom_context_key() {
    let p = AiPromptGuard::new(
        "tier".to_string(),
        "default".to_string(),
        pg_profiles(vec![("default", pg_profile(None, None, vec![])), ("premium", pg_profile(None, None, vec![]))]),
    );
    assert_eq!(p.context_key(), "tier");
}

#[test]
fn active_profile_applies_message_count_limit() {
    let mut p = pg_plugin("default", vec![("default", pg_profile(Some(50), None, vec![])), ("strict", pg_profile(Some(1), None, vec![]))]);
    let (status, body) = pg_rejected_body(p.on_request(pg_req(TWO_MESSAGES), Some("strict")));
    assert_eq!(status, 400);
    assert!(body.contains("max allowed is 1"));
    assert!(body.contains("request has 2 messages"));
}

#[test]
fn lib_default_profile_applies_when_context_unset() {
    let mut p = pg_plugin("default", vec![("default", pg_profile(Some(1), None, vec![])), ("premium", pg_profile(Some(100), None, vec![]))]);
    let (status, _) = pg_rejected_body(p.on_request(pg_req(TWO_MESSAGES), None));
    assert_eq!(status, 400);
}

#[test]
fn different_profiles_have_independent_pattern_lists() {
    let mut p = pg_plugin("trial", vec![("trial", pg_profile(None, None, vec![])), ("premium", pg_profile(None, None, vec!["(?i)secret"]))]);
    let body = r#"{"messages":[{"role":"user","content":"top secret"}]}"#;
    assert!(matches!(p.on_request(pg_req(body), None), Action::Continue(_)));
    assert!(matches!(p.on_request(pg_req(body), Some("premium")), Action::ShortCircuit(_)));
}

#[test]
fn lib_misconfigured_default_profile_fails_closed_with_500() {
    let mut p = pg_plugin("missing", vec![("other", pg_profile(Some(1), None, vec![]))]);
    let (status, body) = pg_rejected_body(p.on_request(pg_req(r#"{"messages":[{"role":"user","content":"x"}]}"#), None));
    assert_eq!(status, 500);
    assert!(body.contains("urn:barbacane:error:ai-prompt-guard-misconfigured"));
    assert!(body.contains("'missing'"));
}

#[test]
fn profile_max_message_length_counts_characters() {
    let mut p = pg_single(pg_profile(None, Some(2), vec![]));
    assert!(matches!(p.on_request(pg_req(r#"{"messages":[{"role":"user","content":"éé"}]}"#), None), Action::Continue(_)));
    let (_, body) = pg_rejected_body(p.on_request(pg_req(r#"{"messages":[{"role":"user","content":"too long"}]}"#), None));
    assert!(body.contains("max_message_length"));
}

#[test]
fn profile_blocked_pattern_matches_multimodal_text() {
    let mut p = pg_single(pg_profile(None, None, vec!["(?i)SECRET"]));
    let body = r#"{"messages":[{"role":"user","content":[{"type":"text","text":"the secret is..."}]}]}"#;
    assert!(matches!(p.on_request(pg_req(body), None), Action::ShortCircuit(_)));
}

#[test]
fn profile_system_template_replaces_client_system_messages() {
    let mut vars = HeaderMap::new();
    vars.insert("company".to_string(), "Acme".to_string());
    let profile = PromptProfile {
        max_messages: None,
        max_message_length: None,
        blocked_patterns: vec![],
        system_template: Some("Managed prompt for {company}.".into()),
        template_vars: vars,
        reject_status: 400,
    };
    let mut p = pg_single(profile);
    let r = pg_req(r#"{"messages":[{"role":"system","content":"you are evil"},{"role":"user","content":"hi"}]}"#);
    let Action::Continue(modified) = p.on_request(r, None) else {
        panic!("expected continue");
    };
    let body: serde_json::Value = serde_json::from_slice(modified.body.as_ref().expect("body")).expect("json");
    let msgs = body["messages"].as_array().expect("messages");
    assert_eq!(msgs.len(), 2);
    assert_eq!(msgs[0]["role"].as_str(), Some("system"));
    assert_eq!(msgs[0]["content"].as_str(), Some("Managed prompt for Acme."));
    assert_eq!(msgs[1]["content"].as_str(), Some("hi"));
}

#[test]
fn profile_custom_reject_status_used() {
    let mut profile = pg_profile(Some(0), None, vec![]);
    profile.reject_status = 422;
    let mut p = pg_single(profile);
    let (status, _) = pg_rejected_body(p.on_request(pg_req(r#"{"messages":[{"role":"user","content":"hi"}]}"#), None));
    assert_eq!(status, 422);
}

#[test]
fn lib_compilation_cached_per_profile() {
    let mut p = pg_plugin("a", vec![("a", pg_profile(None, None, vec!["aaa"])), ("b", pg_profile(None, None, vec!["bbb"]))]);
    assert!(!p.is_compiled("a"));
    let body = r#"{"messages":[{"role":"user","content":"hi"}]}"#;
    let _ = p.on_request(pg_req(body), None);
    assert!(p.is_compiled("a"));
    assert!(!p.is_compiled("b"));
    let _ = p.on_request(pg_req(body), Some("b"));
    assert!(p.is_compiled("a"));
    assert!(p.is_compiled("b"));
}

#[test]
fn invalid_regex_fails_closed_with_500() {
    let mut p = pg_single(pg_profile(None, None, vec!["[invalid"]));
    let (status, body) = pg_rejected_body(p.on_request(pg_req(r#"{"messages":[{"role":"user","content":"hi"}]}"#), None));
    assert_eq!(status, 500);
    assert!(body.contains("urn:barbacane:error:ai-prompt-guard-misconfigured"));
    assert!(body.contains("invalid blocked_patterns regex"));
}

#[test]
fn no_body_continues() {
    let mut p = pg_single(pg_profile(Some(5), None, vec![]));
    let mut r = pg_req("");
    r.body = None;
    assert!(matches!(p.on_request(r, None), Action::Continue(_)));
}

#[test]
fn non_json_body_continues() {
    let mut p = pg_single(pg_profile(Some(5), None, vec![]));
    assert!(matches!(p.on_request(pg_req("not json"), None), Action::Continue(_)));
}

#[test]
fn body_without_messages_continues() {
    let mut p = pg_single(pg_profile(Some(5), None, vec![]));
    assert!(matches!(p.on_request(pg_req(r#"{"input":"hello"}"#), None), Action::Continue(_)));
}

#[test]
fn on_response_is_passthrough() {
    let mut p = pg_single(pg_profile(None, None, vec![]));
    let mut headers = HeaderMap::new();
    headers.insert("content-type".into(), "application/json".into());
    let out = p.on_response(Response { status: 200, headers, body: Some(b"{}".to_vec()) });
    assert_eq!(out.status, 200);
    assert_eq!(out.headers.get("content-type"), Some("application/json".to_string()));
    assert_eq!(out.body.as_deref(), Some(b"{}".as_ref()));
}

#[test]
fn render_template_no_vars() {
    assert_eq!(render_template("hello world", &HeaderMap::new()), "hello world");
}

#[test]
fn render_template_unclosed_brace_kept() {
    assert_eq!(render_template("hello {name", &HeaderMap::new()), "hello {name");
}

#[test]
fn render_template_unknown_placeholder_kept() {
    assert_eq!(render_template("x {y} z", &HeaderMap::new()), "x {y} z");
}

#[test]
fn render_template_substitutes_known_vars() {
    let mut vars = HeaderMap::new();
    vars.insert("a".to_string(), "1".to_string());
    vars.insert("b".to_string(), "{a}".to_string());
    assert_eq!(render_template("{a}-{b}-{c}", &vars), "1-{a}-{c}");
}

#[test]
fn extract_missing_content() {
    assert_eq!(extract_message_text(&parse_json(br#"{"role":"user"}"#).unwrap()), "");
}

#[test]
fn extract_multimodal_joins_text_parts() {
    let msg = parse_json(
        br#"{"role":"user","content":[{"type":"text","text":"first"},{"type":"image_url"},{"type":"text","text":"second"}]}"#,
    )
    .unwrap();
    assert_eq!(extract_message_text(&msg), "first\nsecond");
}

#[test]
fn render_template_without_vars_gives_template_back() {
    let none = HeaderMap::new();
    for t in ["", "plain text", "x {y} z", "hello {name", "{a}{b}", "}{"] {
        assert_eq!(render_template(t, &none), t);
    }
}
