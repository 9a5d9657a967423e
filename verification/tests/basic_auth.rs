use barbacane_plugins::basic_auth::{default_realm, default_strip_credentials, BasicAuth, BasicAuthError, CredentialEntry};
use barbacane_plugins::headers::HeaderMap;
use barbacane_plugins::http::{Action, Request, Response};
use base64::engine::general_purpose::STANDARD;
use base64::Engine;

fn ba_plugin() -> BasicAuth {
    BasicAuth {
        realm: "test-api".to_string(),
        strip_credentials: true,
        credentials: vec![
            (
                "admin".to_string(),
                CredentialEntry { password: "secret123".to_string(), roles: vec!["admin".to_string(), "editor".to_string()] },
            ),
            ("reader".to_string(), CredentialEntry { password: "readonly456".to_string(), roles: vec![] }),
        ],
    }
}

fn ba_request(header: Option<(&str, String)>) -> Request {
    let mut headers = HeaderMap::new();
    if let Some((k, v)) = header {
        headers.insert(k.to_string(), v);
    }
    Request {
        method: "GET".to_string(),
        path: "/test".to_string(),
        query: None,
        headers,
        body: None,
        client_ip: "127.0.0.1".to_string(),
        path_params: HeaderMap::new(),
    }
}

fn ba_header(user: &str, pass: &str) -> String {
    format!("Basic {}", STANDARD.encode(format!("{}:{}", user, pass)))
}

fn ba_err<T>(r: Result<T, BasicAuthError>) -> &'static str {
    match r {
        Err(e) => e.as_str(),
        Ok(_) => panic!("expected an error"),
    }
}

#[test]
fn extract_valid_credentials() {
    let req = ba_request(Some(("authorization", ba_header("admin", "secret123"))));
    let (user, pass) = ba_plugin().extract_credentials(&req).ok().unwrap();
    assert_eq!(user, "admin");
    assert_eq!(pass, "secret123");
}

#[test]
fn extract_credentials_case_insensitive_header() {
    let req = ba_request(Some(("Authorization", ba_header("admin", "secret123"))));
    let (user, _) = ba_plugin().extract_credentials(&req).ok().unwrap();
    assert_eq!(user, "admin");
}

#[test]
fn extract_credentials_password_with_colons() {
    let req = ba_request(Some(("authorization", format!("Basic {}", STANDARD.encode("user:pass:with:colons")))));
    let (user, pass) = ba_plugin().extract_credentials(&req).ok().unwrap();
    assert_eq!(user, "user");
    assert_eq!(pass, "pass:with:colons");
}

#[test]
fn extract_credentials_empty_password_accepted() {
    let req = ba_request(Some(("authorization", format!("Basic {}", STANDARD.encode("user:")))));
    let (user, pass) = ba_plugin().extract_credentials(&req).ok().unwrap();
    assert_eq!(user, "user");
    assert_eq!(pass, "");
}

#[test]
fn extract_credentials_missing_header() {
    assert_eq!(ba_err(ba_plugin().extract_credentials(&ba_request(None))), "missing_credentials");
}

#[test]
fn extract_credentials_bearer_token_rejected() {
    let req = ba_request(Some(("authorization", "Bearer some-jwt-token".to_string())));
    assert_eq!(ba_err(ba_plugin().extract_credentials(&req)), "invalid_request");
}

#[test]
fn extract_credentials_invalid_base64() {
    let req = ba_request(Some(("authorization", "Basic !!!not-base64!!!".to_string())));
    assert_eq!(ba_err(ba_plugin().extract_credentials(&req)), "invalid_request");
}

#[test]
fn extract_credentials_no_colon_separator() {
    let req = ba_request(Some(("authorization", format!("Basic {}", STANDARD.encode("usernameonly")))));
    assert_eq!(ba_err(ba_plugin().extract_credentials(&req)), "invalid_request");
}

#[test]
fn extract_credentials_empty_username() {
    let req = ba_request(Some(("authorization", format!("Basic {}", STANDARD.encode(":password")))));
    assert_eq!(ba_err(ba_plugin().extract_credentials(&req)), "invalid_request");
}

#[test]
fn validate_valid_credentials() {
    let plugin = ba_plugin();
    let req = ba_request(Some(("authorization", ba_header("admin", "secret123"))));
    let (user, entry) = plugin.validate_request(&req).ok().unwrap();
    assert_eq!(user, "admin");
    assert_eq!(entry.roles, vec!["admin", "editor"]);
}

#[test]
fn validate_wrong_password() {
    let req = ba_request(Some(("authorization", ba_header("admin", "wrong"))));
    assert_eq!(ba_err(ba_plugin().validate_request(&req)), "invalid_credentials");
}

#[test]
fn validate_unknown_user() {
    let req = ba_request(Some(("authorization", ba_header("unknown", "pass"))));
    assert_eq!(ba_err(ba_plugin().validate_request(&req)), "invalid_credentials");
}

#[test]
fn on_request_success_strips_auth_header() {
    let req = ba_request(Some(("authorization", ba_header("admin", "secret123"))));
    match ba_plugin().on_request(req) {
        Action::Continue(modified) => {
            assert!(!modified.headers.contains_key("authorization"));
            assert!(!modified.headers.contains_key("Authorization"));
            assert_eq!(modified.headers.get("x-auth-user").unwrap(), "admin");
            assert_eq!(modified.headers.get("x-auth-roles").unwrap(), "admin,editor");
            assert_eq!(modified.headers.get("x-auth-consumer").unwrap(), "admin");
            assert_eq!(modified.headers.get("x-auth-consumer-groups").unwrap(), "admin,editor");
        }
        Action::ShortCircuit(_) => panic!("expected Continue"),
    }
}

#[test]
fn on_request_success_no_roles_for_reader() {
    let req = ba_request(Some(("authorization", ba_header("reader", "readonly456"))));
    match ba_plugin().on_request(req) {
        Action::Continue(modified) => {
            assert_eq!(modified.headers.get("x-auth-user").unwrap(), "reader");
            assert!(!modified.headers.contains_key("x-auth-roles"));
            assert_eq!(modified.headers.get("x-auth-consumer").unwrap(), "reader");
            assert!(!modified.headers.contains_key("x-auth-consumer-groups"));
        }
        Action::ShortCircuit(_) => panic!("expected Continue"),
    }
}

#[test]
fn on_request_preserves_auth_header_when_strip_disabled() {
    let mut plugin = ba_plugin();
    plugin.strip_credentials = false;
    let req = ba_request(Some(("authorization", ba_header("admin", "secret123"))));
    match plugin.on_request(req) {
        Action::Continue(modified) => assert!(modified.headers.contains_key("authorization")),
        Action::ShortCircuit(_) => panic!("expected Continue"),
    }
}

#[test]
fn on_request_missing_header_returns_401() {
    match ba_plugin().on_request(ba_request(None)) {
        Action::ShortCircuit(resp) => {
            assert_eq!(resp.status, 401);
            assert!(resp.headers.get("www-authenticate").unwrap().contains("test-api"));
        }
        Action::Continue(_) => panic!("expected ShortCircuit"),
    }
}

#[test]
fn unauthorized_response_format() {
    let resp = ba_plugin().unauthorized_response(&BasicAuthError::InvalidCredentials);
    assert_eq!(resp.status, 401);
    assert_eq!(resp.headers.get("content-type").unwrap(), "application/json");
    let www_auth = resp.headers.get("www-authenticate").unwrap();
    assert!(www_auth.contains("Basic realm=\"test-api\""));
    assert!(www_auth.contains("invalid_credentials"));
    let body: serde_json::Value = serde_json::from_slice(resp.body.as_ref().unwrap()).unwrap();
    assert_eq!(body["status"], 401);
    assert_eq!(body["type"], "urn:barbacane:error:authentication-failed");
}

#[test]
fn lib_config_defaults() {
    assert_eq!(default_realm(), "api");
    assert!(default_strip_credentials());
}

#[test]
fn basic_auth_on_response_passthrough() {
    let resp = Response { status: 204, headers: HeaderMap::new(), body: None };
    assert_eq!(ba_plugin().on_response(resp).status, 204);
}
