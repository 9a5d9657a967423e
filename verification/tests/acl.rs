use barbacane_plugins::acl::Acl;
use barbacane_plugins::headers::HeaderMap;
use barbacane_plugins::http::{Action, Request, Response};

fn acl_default() -> Acl {
    Acl {
        allow: Vec::new(),
        deny: Vec::new(),
        allow_consumers: Vec::new(),
        deny_consumers: Vec::new(),
        consumer_groups: Vec::new(),
        message: "Access denied by ACL policy".to_string(),
        hide_consumer_in_errors: false,
    }
}

fn acl_request(consumer: Option<&str>, groups: Option<&str>) -> Request {
    let mut headers = HeaderMap::new();
    if let Some(c) = consumer {
        headers.insert("x-auth-consumer".to_string(), c.to_string());
    }
    if let Some(g) = groups {
        headers.insert("x-auth-consumer-groups".to_string(), g.to_string());
    }
    Request {
        method: "GET".to_string(),
        path: "/test".to_string(),
        query: None,
        headers,
        body: None,
        client_ip: "127.0.0.1".to_string(),
        path_params: HeaderMap::new(),
    }
}

fn acl_status(a: Action) -> Option<u16> {
    match a {
        Action::ShortCircuit(r) => Some(r.status),
        Action::Continue(_) => None,
    }
}

fn acl_body(r: &Response) -> serde_json::Value {
    serde_json::from_slice(r.body.as_ref().unwrap()).unwrap()
}

#[test]
fn resolve_groups_from_header() {
    let acl = acl_default();
    let req = acl_request(Some("alice"), Some("admin,editor"));
    assert_eq!(acl.resolve_groups("alice", &req), vec!["admin", "editor"]);
}

#[test]
fn resolve_groups_from_static_config() {
    let mut acl = acl_default();
    acl.consumer_groups.push(("bob".to_string(), vec!["premium".to_string()]));
    let req = acl_request(Some("bob"), None);
    assert_eq!(acl.resolve_groups("bob", &req), vec!["premium"]);
}

#[test]
fn resolve_groups_merged_no_duplicates() {
    let mut acl = acl_default();
    acl.consumer_groups.push(("alice".to_string(), vec!["admin".to_string(), "premium".to_string()]));
    let req = acl_request(Some("alice"), Some("admin,editor"));
    assert_eq!(acl.resolve_groups("alice", &req), vec!["admin", "editor", "premium"]);
}

#[test]
fn resolve_groups_trims_and_skips_empty_entries() {
    let acl = acl_default();
    let req = acl_request(Some("alice"), Some(" admin , ,editor,admin"));
    assert_eq!(acl.resolve_groups("alice", &req), vec!["admin", "editor"]);
}

#[test]
fn missing_consumer_header_returns_403() {
    let acl = acl_default();
    assert_eq!(acl_status(acl.on_request(acl_request(None, None))), Some(403));
}

#[test]
fn empty_consumer_header_returns_403() {
    let acl = acl_default();
    assert_eq!(acl_status(acl.on_request(acl_request(Some(""), None))), Some(403));
}

#[test]
fn deny_consumers_takes_highest_precedence() {
    let mut acl = acl_default();
    acl.allow.push("admin".to_string());
    acl.allow_consumers.push("attacker".to_string());
    acl.deny_consumers.push("attacker".to_string());
    assert_eq!(acl_status(acl.on_request(acl_request(Some("attacker"), Some("admin")))), Some(403));
}

#[test]
fn allow_consumers_bypasses_groups() {
    let mut acl = acl_default();
    acl.allow.push("admin".to_string());
    acl.allow_consumers.push("superadmin".to_string());
    assert_eq!(acl_status(acl.on_request(acl_request(Some("superadmin"), None))), None);
}

#[test]
fn allow_group_match_passes() {
    let mut acl = acl_default();
    acl.allow.push("editor".to_string());
    assert_eq!(acl_status(acl.on_request(acl_request(Some("alice"), Some("editor,viewer")))), None);
}

#[test]
fn allow_group_no_match_denies() {
    let mut acl = acl_default();
    acl.allow.push("admin".to_string());
    assert_eq!(acl_status(acl.on_request(acl_request(Some("alice"), Some("editor,viewer")))), Some(403));
}

#[test]
fn deny_group_takes_precedence_over_allow() {
    let mut acl = acl_default();
    acl.allow.push("editor".to_string());
    acl.deny.push("banned".to_string());
    assert_eq!(acl_status(acl.on_request(acl_request(Some("alice"), Some("editor,banned")))), Some(403));
}

#[test]
fn deny_only_allows_non_matching() {
    let mut acl = acl_default();
    acl.deny.push("banned".to_string());
    assert_eq!(acl_status(acl.on_request(acl_request(Some("alice"), Some("editor")))), None);
}

#[test]
fn deny_only_blocks_matching() {
    let mut acl = acl_default();
    acl.deny.push("banned".to_string());
    assert_eq!(acl_status(acl.on_request(acl_request(Some("alice"), Some("banned")))), Some(403));
}

#[test]
fn no_rules_allows_all() {
    let acl = acl_default();
    assert_eq!(acl_status(acl.on_request(acl_request(Some("anyone"), Some("whatever")))), None);
}

#[test]
fn static_groups_grant_allow() {
    let mut acl = acl_default();
    acl.allow.push("premium".to_string());
    acl.consumer_groups.push(("carol".to_string(), vec!["premium".to_string()]));
    assert_eq!(acl_status(acl.on_request(acl_request(Some("carol"), None))), None);
}

#[test]
fn error_response_problem_json() {
    let acl = acl_default();
    let resp = acl.forbidden_response(Some("alice"));
    assert_eq!(resp.status, 403);
    assert_eq!(resp.headers.get("content-type").unwrap(), "application/problem+json");
    let body = acl_body(&resp);
    assert_eq!(body["type"], "urn:barbacane:error:acl-denied");
    assert_eq!(body["title"], "Forbidden");
    assert_eq!(body["status"], 403);
    assert_eq!(body["detail"], "Access denied by ACL policy");
    assert_eq!(body["consumer"], "alice");
}

#[test]
fn error_response_hides_consumer() {
    let mut acl = acl_default();
    acl.hide_consumer_in_errors = true;
    let resp = acl.forbidden_response(Some("alice"));
    assert!(acl_body(&resp).get("consumer").is_none());
}

#[test]
fn error_response_without_consumer_has_no_consumer_member() {
    let mut acl = acl_default();
    acl.message = "Not allowed".to_string();
    let resp = acl.forbidden_response(None);
    let body = acl_body(&resp);
    assert_eq!(body["detail"], "Not allowed");
    assert!(body.get("consumer").is_none());
}

#[test]
fn lib_on_response_passthrough() {
    let acl = acl_default();
    let response = Response { status: 200, headers: HeaderMap::new(), body: Some(b"ok".to_vec()) };
    let result = acl.on_response(response);
    assert_eq!(result.status, 200);
    assert_eq!(result.body, Some(b"ok".to_vec()));
}
