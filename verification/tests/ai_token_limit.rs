use barbacane_plugins::ai_token_limit::{
    default_context_key, default_partition_key, default_policy_name, extra_charges, extract_partition,
    partition_context_source, partition_from_context_only, charges_left, AiTokenLimit, CountMode, RateLimitResult, TokenProfile,
};
use barbacane_plugins::headers::HeaderMap;
use barbacane_plugins::http::{Action, Request};

fn tl_plugin(default_profile: &str, profiles: Vec<(&str, u32, u32)>, partition_key: &str, count: CountMode) -> AiTokenLimit {
    AiTokenLimit {
        context_key: default_context_key(),
        default_profile: default_profile.into(),
        profiles: profiles.into_iter().map(|(n, quota, window)| (n.to_string(), TokenProfile { quota, window })).collect(),
        policy_name: default_policy_name(),
        partition_key: partition_key.into(),
        count,
    }
}

fn tl_simple(quota: u32, window: u32) -> AiTokenLimit {
    tl_plugin("default", vec![("default", quota, window)], "context:auth.sub", CountMode::Total)
}

fn tl_request() -> Request {
    Request {
        method: "POST".into(),
        path: "/v1/chat/completions".into(),
        query: None,
        headers: HeaderMap::new(),
        body: None,
        client_ip: "127.0.0.1".into(),
        path_params: HeaderMap::new(),
    }
}

/// The bucket a request is charged to, with the context lookup done by hand.
fn tl_bucket(p: &AiTokenLimit, policy: Option<&str>, req: &Request, ctx_value: Option<&str>) -> String {
    let (name, _) = p.resolve_profile(policy).expect("resolved");
    let partition = extract_partition(req, &p.partition_key, ctx_value);
    p.bucket_key(&name, &partition)
}

fn denied(limit: u32) -> RateLimitResult {
    RateLimitResult { allowed: false, reset: 60, limit, retry_after: Some(60) }
}

#[test]
fn token_limit_defaults() {
    assert_eq!(default_context_key(), "ai.policy");
    assert_eq!(default_partition_key(), "client_ip");
    assert_eq!(default_policy_name(), "ai-tokens");
}

#[test]
fn token_limit_falls_back_to_default_when_context_key_absent() {
    let p = tl_simple(100, 60);
    let (name, _) = p.resolve_profile(None).expect("resolved");
    assert_eq!(name, "default");
}

#[test]
fn token_limit_uses_profile_named_by_context_key() {
    let p = tl_plugin("default", vec![("default", 10, 60), ("premium", 1000, 60)], "context:auth.sub", CountMode::Total);
    let (name, profile) = p.resolve_profile(Some("premium")).expect("resolved");
    assert_eq!(name, "premium");
    assert_eq!(profile.quota, 1000);
}

#[test]
fn token_limit_falls_back_to_default_when_context_names_unknown_profile() {
    let p = tl_plugin("default", vec![("default", 10, 60)], "context:auth.sub", CountMode::Total);
    let (name, _) = p.resolve_profile(Some("ghost")).expect("resolved");
    assert_eq!(name, "default");
}

#[test]
fn on_request_continues_within_budget() {
    let p = tl_simple(100, 60);
    let allowed = RateLimitResult { allowed: true, reset: 60, limit: 100, retry_after: None };
    let profile = TokenProfile { quota: 100, window: 60 };
    assert!(matches!(p.request_verdict(tl_request(), "default", &profile, Some(allowed)), Action::Continue(_)));
}

#[test]
fn on_request_fails_open_when_limiter_unavailable() {
    let p = tl_simple(100, 60);
    let profile = TokenProfile { quota: 100, window: 60 };
    assert!(matches!(p.request_verdict(tl_request(), "default", &profile, None), Action::Continue(_)));
}

#[test]
fn on_request_blocks_when_budget_exhausted() {
    let p = tl_simple(1, 60);
    let profile = TokenProfile { quota: 1, window: 60 };
    match p.request_verdict(tl_request(), "default", &profile, Some(denied(1))) {
        Action::ShortCircuit(resp) => {
            assert_eq!(resp.status, 429);
            let body = String::from_utf8(resp.body.expect("body")).expect("utf8");
            assert!(body.contains("urn:barbacane:error:ai-token-limit-exceeded"));
            assert!(body.contains("\"profile\":\"default\""));
            assert!(body.contains("(quota: 1 tokens per 60 seconds)"));
            assert_eq!(resp.headers.get("ratelimit-policy"), Some("ai-tokens-default;q=1;w=60".to_string()));
            assert_eq!(resp.headers.get("ratelimit"), Some("limit=1, remaining=0, reset=60".to_string()));
            assert_eq!(resp.headers.get("retry-after"), Some("60".to_string()));
        }
        _ => panic!("expected 429"),
    }
}

#[test]
fn token_limit_misconfigured_default_profile_fails_closed_with_500() {
    let p = tl_plugin("missing", vec![("other", 10, 60)], "context:auth.sub", CountMode::Total);
    assert!(p.resolve_profile(None).is_none());
    let resp = p.misconfig_response();
    assert_eq!(resp.status, 500);
    let body = String::from_utf8(resp.body.expect("body")).expect("utf8");
    assert!(body.contains("urn:barbacane:error:ai-token-limit-misconfigured"));
    assert!(body.contains("'missing'"));
}

#[test]
fn different_profiles_use_distinct_buckets() {
    let p = tl_plugin("default", vec![("default", 5, 60), ("premium", 1000, 60)], "context:auth.sub", CountMode::Total);
    let req = tl_request();
    assert_eq!(tl_bucket(&p, None, &req, Some("alice")), "ai-tokens:default:alice");
    assert_eq!(tl_bucket(&p, Some("premium"), &req, Some("alice")), "ai-tokens:premium:alice");
}

#[test]
fn per_consumer_buckets_within_same_profile() {
    let p = tl_simple(5, 60);
    let req = tl_request();
    assert_eq!(tl_bucket(&p, None, &req, Some("alice")), "ai-tokens:default:alice");
    assert_eq!(tl_bucket(&p, None, &req, Some("bob")), "ai-tokens:default:bob");
}

#[test]
fn on_response_charges_tokens_against_selected_profile() {
    let p = tl_plugin("default", vec![("default", 100, 60), ("premium", 10000, 60)], "context:auth.sub", CountMode::Total);
    let tokens = p.tokens_from_context(Some("20"), Some("80"));
    assert_eq!(tokens, 100);
    assert_eq!(1 + extra_charges(tokens), 100);
    assert_eq!(tl_bucket(&p, Some("premium"), &tl_request(), Some("alice")), "ai-tokens:premium:alice");
}

#[test]
fn on_response_count_prompt_only() {
    let p = tl_plugin("default", vec![("default", 1000, 60)], "context:auth.sub", CountMode::Prompt);
    assert_eq!(p.tokens_from_context(Some("30"), Some("70")), 30);
}

#[test]
fn on_response_count_completion_only() {
    let p = tl_plugin("default", vec![("default", 1000, 60)], "context:auth.sub", CountMode::Completion);
    assert_eq!(p.tokens_from_context(Some("30"), Some("70")), 70);
}

#[test]
fn on_response_total_saturates() {
    let p = tl_simple(5, 60);
    assert_eq!(p.tokens_from_context(Some("4294967295"), Some("10")), u32::MAX);
    assert_eq!(p.tokens_from_context(Some("x"), Some("10")), 10);
}

#[test]
fn on_response_without_token_context_is_noop() {
    let p = tl_simple(100, 60);
    assert_eq!(p.tokens_from_context(None, None), 0);
    assert_eq!(extra_charges(0), 0);
    assert_eq!(extra_charges(1), 0);
}

#[test]
fn on_response_stops_charging_once_saturated() {
    let p = tl_simple(5, 60);
    let tokens = p.tokens_from_context(Some("500"), Some("500"));
    assert_eq!(extra_charges(tokens), 999);
}

#[test]
fn on_response_noop_when_default_profile_missing() {
    let p = tl_plugin("missing", vec![("other", 100, 60)], "context:auth.sub", CountMode::Total);
    assert!(p.resolve_profile(None).is_none());
}

#[test]
fn partition_persists_from_on_request_to_on_response_for_client_ip() {
    let p = tl_plugin("default", vec![("default", 1000, 60)], "client_ip", CountMode::Total);
    let mut req = tl_request();
    req.client_ip = "203.0.113.9".into();
    let partition = extract_partition(&req, &p.partition_key, None);
    assert_eq!(partition, "203.0.113.9");
    assert_eq!(p.bucket_key("default", &partition), "ai-tokens:default:203.0.113.9");
    assert_eq!(p.partition_context_key(), "__ai_token_limit.ai-tokens.partition");
}

#[test]
fn partition_persists_for_header_source() {
    let p = tl_plugin("default", vec![("default", 1000, 60)], "header:x-api-key", CountMode::Total);
    let mut req = tl_request();
    req.headers.insert("x-api-key".into(), "abc123".into());
    assert_eq!(tl_bucket(&p, None, &req, None), "ai-tokens:default:abc123");
}

#[test]
fn partition_context_key_scoped_by_policy_name() {
    let mut p1 = tl_plugin("default", vec![("default", 10, 60)], "client_ip", CountMode::Total);
    p1.policy_name = "minute".into();
    let mut p2 = tl_plugin("default", vec![("default", 10, 3600)], "client_ip", CountMode::Total);
    p2.policy_name = "hour".into();
    assert_ne!(p1.partition_context_key(), p2.partition_context_key());
}

#[test]
fn partition_from_client_ip_forwarded_for() {
    let mut req = tl_request();
    req.headers.insert("x-forwarded-for".into(), "1.2.3.4, 5.6.7.8".into());
    assert_eq!(extract_partition(&req, "client_ip", None), "1.2.3.4");
}

#[test]
fn partition_from_client_ip_real_ip() {
    let mut req = tl_request();
    req.headers.insert("x-real-ip".into(), "9.9.9.9".into());
    assert_eq!(extract_partition(&req, "client_ip", None), "9.9.9.9");
}

#[test]
fn partition_from_client_ip_fallback_field() {
    assert_eq!(extract_partition(&tl_request(), "client_ip", None), "127.0.0.1");
}

#[test]
fn partition_from_client_ip_unknown_when_empty() {
    let mut req = tl_request();
    req.client_ip = String::new();
    assert_eq!(extract_partition(&req, "client_ip", None), "unknown");
}

#[test]
fn partition_from_header() {
    let mut req = tl_request();
    req.headers.insert("x-api-key".into(), "abc123".into());
    assert_eq!(extract_partition(&req, "header:x-api-key", None), "abc123");
}

#[test]
fn partition_from_header_lowercased_fallback() {
    let mut req = tl_request();
    req.headers.insert("x-api-key".into(), "k".into());
    assert_eq!(extract_partition(&req, "header:X-Api-Key", None), "k");
    assert_eq!(extract_partition(&req, "header:x-other", None), "unknown");
}

#[test]
fn partition_from_context() {
    assert_eq!(partition_context_source("context:auth.sub"), Some("auth.sub".to_string()));
    assert_eq!(extract_partition(&tl_request(), "context:auth.sub", Some("bob")), "bob");
}

#[test]
fn partition_literal() {
    assert_eq!(partition_context_source("global"), None);
    assert_eq!(extract_partition(&tl_request(), "global", None), "global");
}

#[test]
fn partition_context_missing_defaults_to_unknown() {
    assert_eq!(extract_partition(&tl_request(), "context:missing", None), "unknown");
}

#[test]
fn partition_from_context_only_handles_all_sources() {
    assert_eq!(partition_from_context_only("context:auth.sub", Some("bob")), "bob");
    assert_eq!(partition_from_context_only("client_ip", None), "unknown");
    assert_eq!(partition_from_context_only("header:x-api-key", None), "unknown");
    assert_eq!(partition_from_context_only("literal", None), "literal");
}

#[test]
fn charging_stops_at_first_refusal() {
    let ok = || Some(RateLimitResult { allowed: true, reset: 60, limit: 100, retry_after: None });
    assert_eq!(charges_left(5, &ok()), 4);
    assert_eq!(charges_left(1, &ok()), 0);
    assert_eq!(charges_left(5, &Some(denied(100))), 0);
    assert_eq!(charges_left(5, &None), 0);
    let answers = [ok(), ok(), Some(denied(100)), ok()];
    let mut left = 9;
    let mut made = 0;
    while left > 0 {
        left = charges_left(left, &answers[made]);
        made += 1;
    }
    assert_eq!(made, 3);
}
