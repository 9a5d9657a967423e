use barbacane_plugins::ai_proxy::providers::{apply_auth, Auth};
use barbacane_plugins::headers::HeaderMap;

fn apply(auth: Auth, url: &str) -> (HeaderMap, String) {
    let mut headers = HeaderMap::new();
    let mut u = url.to_string();
    apply_auth(&auth, "SECRET", &mut headers, &mut u);
    (headers, u)
}

#[test]
fn bearer_sets_authorization_header() {
    let (h, u) = apply(Auth::Bearer, "https://x/v1/chat/completions");
    assert_eq!(h.get("authorization").as_deref(), Some("Bearer SECRET"));
    assert_eq!(u, "https://x/v1/chat/completions");
}

#[test]
fn api_key_sets_x_api_key_header() {
    let (h, _) = apply(Auth::ApiKey, "https://x");
    assert_eq!(h.get("x-api-key").as_deref(), Some("SECRET"));
}

#[test]
fn header_variant_lowercases_name() {
    let (h, _) = apply(Auth::Header("X-Subscription-Token".to_string()), "https://x");
    assert_eq!(h.get("x-subscription-token").as_deref(), Some("SECRET"));
    assert!(h.get("authorization").is_none());
}

#[test]
fn query_appends_to_url_preserving_existing_query() {
    let (h, u) = apply(Auth::Query("key".to_string()), "https://x/models?alt=json");
    assert!(h.is_empty());
    assert_eq!(u, "https://x/models?alt=json&key=SECRET");
}

#[test]
fn query_adds_question_mark_when_no_existing_query() {
    let (_, u) = apply(Auth::Query("key".to_string()), "https://x/models");
    assert_eq!(u, "https://x/models?key=SECRET");
}
