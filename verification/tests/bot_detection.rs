use barbacane_plugins::bot_detection::{default_message, default_status, matches_any_exec, BotDetection};
use barbacane_plugins::headers::HeaderMap;
use barbacane_plugins::http::{Action, Request, Response};

fn bot_plugin(deny: &[&str], allow: &[&str]) -> BotDetection {
    BotDetection {
        deny: deny.iter().map(|s| s.to_string()).collect(),
        allow: allow.iter().map(|s| s.to_string()).collect(),
        block_empty_ua: false,
        message: default_message(),
        status: default_status(),
    }
}

fn bot_request(ua: Option<&str>) -> Request {
    let mut headers = HeaderMap::new();
    if let Some(ua) = ua {
        headers.insert("user-agent".to_string(), ua.to_string());
    }
    Request {
        method: "GET".to_string(),
        path: "/test".to_string(),
        query: None,
        headers,
        body: None,
        client_ip: "1.2.3.4".to_string(),
        path_params: HeaderMap::new(),
    }
}

fn bot_status(a: Action) -> Option<u16> {
    match a {
        Action::ShortCircuit(r) => Some(r.status),
        Action::Continue(_) => None,
    }
}

#[test]
fn bot_detection_config_defaults() {
    let plugin = bot_plugin(&[], &[]);
    assert!(plugin.deny.is_empty());
    assert!(plugin.allow.is_empty());
    assert!(!plugin.block_empty_ua);
    assert_eq!(plugin.message, "Access denied");
    assert_eq!(plugin.status, 403);
}

#[test]
fn test_no_config_allows_all() {
    let plugin = bot_plugin(&[], &[]);
    assert!(matches!(plugin.on_request(bot_request(Some("Mozilla/5.0"))), Action::Continue(_)));
}

#[test]
fn test_no_config_allows_empty_ua() {
    let plugin = bot_plugin(&[], &[]);
    assert!(matches!(plugin.on_request(bot_request(None)), Action::Continue(_)));
}

#[test]
fn test_block_empty_ua_enabled() {
    let mut plugin = bot_plugin(&[], &[]);
    plugin.block_empty_ua = true;
    assert_eq!(bot_status(plugin.on_request(bot_request(None))), Some(403));
}

#[test]
fn test_block_empty_ua_lets_present_empty_header_through() {
    let mut plugin = bot_plugin(&[], &[]);
    plugin.block_empty_ua = true;
    assert_eq!(bot_status(plugin.on_request(bot_request(Some("")))), None);
}

#[test]
fn test_block_empty_ua_disabled_allows_no_ua() {
    let plugin = bot_plugin(&[], &[]);
    assert!(matches!(plugin.on_request(bot_request(None)), Action::Continue(_)));
}

#[test]
fn test_deny_blocks_matching_ua() {
    let plugin = bot_plugin(&["scrapy", "ahrefsbot"], &[]);
    assert_eq!(bot_status(plugin.on_request(bot_request(Some("Scrapy/2.11")))), Some(403));
}

#[test]
fn test_deny_allows_non_matching_ua() {
    let plugin = bot_plugin(&["scrapy"], &[]);
    assert!(matches!(plugin.on_request(bot_request(Some("Mozilla/5.0 Chrome"))), Action::Continue(_)));
}

#[test]
fn test_deny_case_insensitive() {
    let plugin = bot_plugin(&["SemrushBot"], &[]);
    assert_eq!(bot_status(plugin.on_request(bot_request(Some("semrushbot/2.1")))), Some(403));
}

#[test]
fn test_deny_substring_match() {
    let plugin = bot_plugin(&["bot"], &[]);
    assert!(bot_status(plugin.on_request(bot_request(Some("AhrefsBot/7.0")))).is_some());
    assert!(bot_status(plugin.on_request(bot_request(Some("DotBot/1.1")))).is_some());
}

#[test]
fn test_allow_overrides_deny() {
    let plugin = bot_plugin(&["bot"], &["Googlebot"]);
    assert!(matches!(plugin.on_request(bot_request(Some("Googlebot/2.1"))), Action::Continue(_)));
}

#[test]
fn test_allow_does_not_protect_non_matching() {
    let plugin = bot_plugin(&["bot"], &["Googlebot"]);
    assert_eq!(bot_status(plugin.on_request(bot_request(Some("AhrefsBot/7.0")))), Some(403));
}

#[test]
fn test_custom_status_and_message() {
    let mut plugin = bot_plugin(&["curl"], &[]);
    plugin.status = 429;
    plugin.message = "Rate limited".to_string();
    match plugin.on_request(bot_request(Some("curl/8.5.0"))) {
        Action::ShortCircuit(r) => {
            assert_eq!(r.status, 429);
            let body: serde_json::Value = serde_json::from_slice(r.body.as_ref().unwrap()).unwrap();
            assert_eq!(body["detail"], "Rate limited");
            assert_eq!(body["status"], 429);
        }
        _ => panic!("expected ShortCircuit"),
    }
}

#[test]
fn test_blocked_response_with_ua() {
    let plugin = bot_plugin(&[], &[]);
    let resp = plugin.blocked_response(Some("scrapy/2.11"));
    assert_eq!(resp.status, 403);
    assert_eq!(resp.headers.get("content-type"), Some("application/problem+json".to_string()));
    let body: serde_json::Value = serde_json::from_slice(resp.body.as_ref().unwrap()).unwrap();
    assert_eq!(body["type"], "urn:barbacane:error:bot-detected");
    assert_eq!(body["user_agent"], "scrapy/2.11");
}

#[test]
fn test_blocked_response_without_ua() {
    let plugin = bot_plugin(&[], &[]);
    let resp = plugin.blocked_response(None);
    let body: serde_json::Value = serde_json::from_slice(resp.body.as_ref().unwrap()).unwrap();
    assert!(body.get("user_agent").is_none());
}

#[test]
fn bot_detection_on_response_passthrough() {
    let plugin = bot_plugin(&[], &[]);
    let resp = Response { status: 200, headers: HeaderMap::new(), body: None };
    assert_eq!(plugin.on_response(resp).status, 200);
}

#[test]
fn test_matches_any_empty_list() {
    assert!(!matches_any_exec("scrapy/2.11", &Vec::new()));
}

#[test]
fn test_matches_any_multiple_patterns() {
    let plugin = bot_plugin(&["wget", "curl", "scrapy"], &[]);
    assert!(matches_any_exec("wget/1.21", &plugin.deny));
    assert!(matches_any_exec("curl/8.0", &plugin.deny));
    assert!(matches_any_exec("Scrapy/2.11", &plugin.deny));
    assert!(!matches_any_exec("Mozilla/5.0", &plugin.deny));
}
