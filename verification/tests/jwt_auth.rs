use barbacane_plugins::headers::HeaderMap;
use barbacane_plugins::http::{Action, Request, Response};
use barbacane_plugins::json::parse_json;
use barbacane_plugins::jwt_auth::{default_clock_skew, groups_of, split_whitespace, Audience, Jwk, JwtAuth, JwtClaims, JwtError, JwtHeader};
use base64::engine::general_purpose::URL_SAFE_NO_PAD;
use base64::Engine;

fn jwt_token(header: &str, claims: &str) -> String {
    format!("{}.{}.sig", URL_SAFE_NO_PAD.encode(header.as_bytes()), URL_SAFE_NO_PAD.encode(claims.as_bytes()))
}

fn jwt_config() -> JwtAuth {
    JwtAuth {
        issuer: None,
        audience: None,
        clock_skew_seconds: 60,
        groups_claim: None,
        skip_signature_validation: true,
        jwks_url: None,
        public_key_pem: None,
        public_key_jwk: None,
    }
}

fn rsa_jwk() -> Jwk {
    Jwk {
        kty: "RSA".to_string(),
        kid: None,
        alg: None,
        use_: None,
        n: Some("modulus".to_string()),
        e: Some("AQAB".to_string()),
        x: None,
        y: None,
        crv: None,
    }
}

fn keyed_config() -> JwtAuth {
    let mut c = jwt_config();
    c.public_key_jwk = Some(rsa_jwk());
    c
}

fn jwt_request(auth_value: Option<&str>) -> Request {
    let mut headers = HeaderMap::new();
    if let Some(v) = auth_value {
        headers.insert("authorization".to_string(), v.to_string());
    }
    Request {
        method: "GET".to_string(),
        path: "/test".to_string(),
        query: None,
        headers,
        body: None,
        client_ip: "127.0.0.1".to_string(),
        path_params: HeaderMap::new(),
    }
}

/// Runs the whole flow with the host reporting a valid signature.
fn jwt_run(config: &JwtAuth, req: Request, now: u64) -> Action {
    match config.begin(&req) {
        Ok(pending) => config.complete(req, pending, 1, now),
        Err(e) => Action::ShortCircuit(config.unauthorized_response(&e)),
    }
}

fn empty_claims() -> JwtClaims {
    JwtClaims { sub: None, iss: None, aud: None, exp: None, nbf: None, iat: None, jti: None, extra: Vec::new() }
}

fn header(alg: &str) -> JwtHeader {
    JwtHeader { alg: alg.to_string(), typ: Some("JWT".to_string()), kid: None }
}

const RS256: &str = r#"{"alg":"RS256","typ":"JWT"}"#;

#[test]
fn test_extract_token_valid_bearer() {
    assert_eq!(jwt_config().extract_token(&jwt_request(Some("Bearer my.jwt.token"))).ok().unwrap(), "my.jwt.token");
}

#[test]
fn test_extract_token_case_insensitive() {
    assert_eq!(jwt_config().extract_token(&jwt_request(Some("bearer my.jwt.token"))).ok().unwrap(), "my.jwt.token");
}

#[test]
fn test_extract_token_with_whitespace() {
    assert_eq!(jwt_config().extract_token(&jwt_request(Some("Bearer  my.jwt.token  "))).ok().unwrap(), "my.jwt.token");
}

#[test]
fn test_extract_token_missing_header() {
    assert!(matches!(jwt_config().extract_token(&jwt_request(None)), Err(JwtError::MissingAuthHeader)));
}

#[test]
fn test_extract_token_non_bearer_scheme() {
    let r = jwt_config().extract_token(&jwt_request(Some("Basic dXNlcjpwYXNz")));
    assert!(matches!(r, Err(JwtError::InvalidAuthHeader)));
}

#[test]
fn test_extract_token_authorization_header_capitalized() {
    let mut req = jwt_request(None);
    req.headers.insert("Authorization".to_string(), "Bearer my.jwt.token".to_string());
    assert_eq!(jwt_config().extract_token(&req).ok().unwrap(), "my.jwt.token");
}

#[test]
fn test_parse_jwt_valid() {
    let token = jwt_token(RS256, r#"{"sub":"user123","iss":"test-issuer"}"#);
    let parsed = jwt_config().parse_jwt(&token).ok().unwrap();
    assert_eq!(parsed.header.alg, "RS256");
    assert_eq!(parsed.claims.sub, Some("user123".to_string()));
    assert_eq!(parsed.claims.iss, Some("test-issuer".to_string()));
}

#[test]
fn test_parse_jwt_keeps_extra_claims() {
    let token = jwt_token(RS256, r#"{"sub":"u","roles":["a"],"tenant":"t1"}"#);
    let parsed = jwt_config().parse_jwt(&token).ok().unwrap();
    let names: Vec<&str> = parsed.claims.extra.iter().map(|(k, _)| k.as_str()).collect();
    assert!(names.contains(&"roles"));
    assert!(names.contains(&"tenant"));
    assert!(!names.contains(&"sub"));
}

#[test]
fn test_parse_jwt_wrong_number_of_parts() {
    assert!(matches!(jwt_config().parse_jwt("header.payload"), Err(JwtError::MalformedToken)));
}

#[test]
fn test_parse_jwt_invalid_base64() {
    assert!(matches!(jwt_config().parse_jwt("invalid!!!.payload.sig"), Err(JwtError::InvalidBase64)));
}

#[test]
fn test_parse_jwt_invalid_json() {
    let token = format!("{}.{}.sig", URL_SAFE_NO_PAD.encode(b"not json"), URL_SAFE_NO_PAD.encode(b"{}"));
    assert!(matches!(jwt_config().parse_jwt(&token), Err(JwtError::InvalidJson)));
}

#[test]
fn test_validate_algorithm_rs256_allowed() {
    assert!(jwt_config().validate_algorithm(&header("RS256")).is_ok());
}

#[test]
fn test_validate_algorithm_es256_allowed() {
    assert!(jwt_config().validate_algorithm(&header("ES256")).is_ok());
}

#[test]
fn test_validate_algorithm_none_rejected() {
    assert!(matches!(jwt_config().validate_algorithm(&header("none")), Err(JwtError::UnsupportedAlgorithm(_))));
}

#[test]
fn test_validate_algorithm_hs256_rejected() {
    assert!(matches!(jwt_config().validate_algorithm(&header("HS256")), Err(JwtError::UnsupportedAlgorithm(_))));
}

#[test]
fn test_validate_claims_valid() {
    let mut config = jwt_config();
    config.issuer = Some("test-issuer".to_string());
    config.audience = Some("test-audience".to_string());
    let claims = JwtClaims {
        sub: Some("user123".to_string()),
        iss: Some("test-issuer".to_string()),
        aud: Some(Audience::Single("test-audience".to_string())),
        exp: Some(2000),
        nbf: Some(500),
        iat: Some(500),
        jti: None,
        extra: Vec::new(),
    };
    assert!(config.validate_claims(&claims, 1000).is_ok());
}

#[test]
fn test_validate_claims_expired_token() {
    let mut claims = empty_claims();
    claims.exp = Some(2000);
    assert!(matches!(jwt_config().validate_claims(&claims, 2100), Err(JwtError::TokenExpired)));
}

#[test]
fn test_validate_claims_not_yet_valid() {
    let mut claims = empty_claims();
    claims.nbf = Some(500);
    assert!(matches!(jwt_config().validate_claims(&claims, 400), Err(JwtError::TokenNotYetValid)));
}

#[test]
fn test_validate_claims_wrong_issuer() {
    let mut config = jwt_config();
    config.issuer = Some("expected-issuer".to_string());
    let mut claims = empty_claims();
    claims.iss = Some("wrong-issuer".to_string());
    assert!(matches!(config.validate_claims(&claims, 1000), Err(JwtError::InvalidIssuer)));
}

#[test]
fn test_validate_claims_missing_issuer_rejected() {
    let mut config = jwt_config();
    config.issuer = Some("expected-issuer".to_string());
    assert!(matches!(config.validate_claims(&empty_claims(), 1000), Err(JwtError::InvalidIssuer)));
}

#[test]
fn test_validate_claims_wrong_audience() {
    let mut config = jwt_config();
    config.audience = Some("expected-audience".to_string());
    let mut claims = empty_claims();
    claims.aud = Some(Audience::Single("wrong-audience".to_string()));
    assert!(matches!(config.validate_claims(&claims, 1000), Err(JwtError::InvalidAudience)));
}

#[test]
fn test_validate_claims_with_clock_skew() {
    let mut claims = empty_claims();
    claims.exp = Some(2000);
    assert!(jwt_config().validate_claims(&claims, 2050).is_ok());
}

#[test]
fn test_audience_contains_single() {
    let aud = Audience::Single("api.example.com".to_string());
    assert!(aud.contains("api.example.com"));
    assert!(!aud.contains("other.example.com"));
}

#[test]
fn test_audience_contains_multiple() {
    let aud = Audience::Multiple(vec!["api.example.com".to_string(), "admin.example.com".to_string()]);
    assert!(aud.contains("api.example.com"));
    assert!(aud.contains("admin.example.com"));
    assert!(!aud.contains("other.example.com"));
}

#[test]
fn jwt_unauthorized_response_format() {
    let response = jwt_config().unauthorized_response(&JwtError::MissingAuthHeader);
    assert_eq!(response.status, 401);
    assert_eq!(response.headers.get("content-type"), Some("application/json".to_string()));
    let www_auth = response.headers.get("www-authenticate").unwrap();
    assert!(www_auth.starts_with("Bearer realm=\"api\""));
    assert!(www_auth.contains("error=\"missing_token\""));
    assert!(www_auth.contains("error_description=\"Bearer token required\""));
    let json: serde_json::Value = serde_json::from_slice(&response.body.unwrap()).unwrap();
    assert_eq!(json["status"], 401);
    assert_eq!(json["title"], "Authentication failed");
    assert_eq!(json["type"], "urn:barbacane:error:authentication-failed");
    assert_eq!(json["detail"], "Bearer token required");
}

#[test]
fn jwt_error_descriptions() {
    assert_eq!(JwtError::UnsupportedAlgorithm("HS256".to_string()).description(), "Unsupported algorithm: HS256");
    assert_eq!(JwtError::TokenExpired.as_str(), "invalid_token");
    assert_eq!(JwtError::InvalidAuthHeader.as_str(), "invalid_request");
}

#[test]
fn jwt_config_defaults() {
    assert_eq!(default_clock_skew(), 60);
}

#[test]
fn test_on_request_with_skip_signature_validation() {
    let mut config = keyed_config();
    config.issuer = Some("test-issuer".to_string());
    let token = jwt_token(RS256, r#"{"sub":"user123","iss":"test-issuer","exp":2000}"#);
    match jwt_run(&config, jwt_request(Some(&format!("Bearer {}", token))), 1000) {
        Action::Continue(r) => {
            assert_eq!(r.headers.get("x-auth-sub"), Some("user123".to_string()));
            assert_eq!(r.headers.get("x-auth-consumer"), Some("user123".to_string()));
            assert!(r.headers.contains_key("x-auth-claims"));
            assert!(!r.headers.contains_key("x-auth-consumer-groups"));
        }
        Action::ShortCircuit(_) => panic!("Expected request to be allowed"),
    }
}

#[test]
fn test_on_request_rejects_when_no_key_and_not_skipped() {
    let mut config = jwt_config();
    config.skip_signature_validation = false;
    let token = jwt_token(RS256, r#"{"sub":"attacker","exp":2000}"#);
    match jwt_run(&config, jwt_request(Some(&format!("Bearer {}", token))), 1000) {
        Action::ShortCircuit(response) => assert_eq!(response.status, 401),
        Action::Continue(_) => panic!("forged/unsigned token must be rejected"),
    }
}

#[test]
fn test_on_request_bad_signature_rejected() {
    let config = keyed_config();
    let req = jwt_request(Some(&format!("Bearer {}", jwt_token(RS256, r#"{"sub":"a","exp":2000}"#))));
    let pending = config.begin(&req).ok().unwrap();
    match config.complete(req, pending, 0, 1000) {
        Action::ShortCircuit(r) => {
            assert_eq!(r.status, 401);
            assert!(String::from_utf8(r.body.unwrap()).unwrap().contains("Token signature verification failed"));
        }
        Action::Continue(_) => panic!("bad signature must be rejected"),
    }
}

#[test]
fn test_signature_request_binds_key() {
    let config = keyed_config();
    let parsed = config.parse_jwt(&jwt_token(RS256, r#"{"sub":"a"}"#)).ok().unwrap();
    let body: serde_json::Value = serde_json::from_slice(&config.signature_request(&parsed).ok().unwrap()).unwrap();
    assert_eq!(body["algorithm"], "RS256");
    assert_eq!(body["jwk"]["kty"], "RSA");
    let mut ec = keyed_config();
    ec.public_key_jwk.as_mut().unwrap().kty = "EC".to_string();
    assert!(matches!(ec.signature_request(&parsed), Err(JwtError::SignatureInvalid)));
    let mut tagged = keyed_config();
    tagged.public_key_jwk.as_mut().unwrap().alg = Some("RS512".to_string());
    assert!(matches!(tagged.signature_request(&parsed), Err(JwtError::SignatureInvalid)));
}

#[test]
fn test_on_request_missing_token() {
    match jwt_run(&keyed_config(), jwt_request(None), 1000) {
        Action::ShortCircuit(response) => assert_eq!(response.status, 401),
        Action::Continue(_) => panic!("Expected request to be rejected"),
    }
}

#[test]
fn test_on_request_expired_token() {
    let token = jwt_token(RS256, r#"{"sub":"user123","exp":2000}"#);
    match jwt_run(&keyed_config(), jwt_request(Some(&format!("Bearer {}", token))), 2100) {
        Action::ShortCircuit(response) => {
            assert_eq!(response.status, 401);
            assert!(String::from_utf8(response.body.unwrap()).unwrap().contains("Token has expired"));
        }
        Action::Continue(_) => panic!("Expected expired token to be rejected"),
    }
}

#[test]
fn jwt_on_response_passthrough() {
    let response = Response { status: 200, headers: HeaderMap::new(), body: Some(b"test body".to_vec()) };
    let result = jwt_config().on_response(response);
    assert_eq!(result.status, 200);
    assert_eq!(result.body, Some(b"test body".to_vec()));
}

#[test]
fn test_on_request_sets_consumer_from_sub() {
    let token = jwt_token(RS256, r#"{"sub":"alice","exp":2000}"#);
    match jwt_run(&keyed_config(), jwt_request(Some(&format!("Bearer {}", token))), 1000) {
        Action::Continue(r) => {
            assert_eq!(r.headers.get("x-auth-consumer").unwrap(), "alice");
            assert_eq!(r.headers.get("x-auth-sub").unwrap(), "alice");
        }
        Action::ShortCircuit(_) => panic!("Expected request to be allowed"),
    }
}

#[test]
fn test_on_request_groups_claim_array() {
    let mut config = keyed_config();
    config.groups_claim = Some("roles".to_string());
    let token = jwt_token(RS256, r#"{"sub":"alice","exp":2000,"roles":["admin","editor"]}"#);
    match jwt_run(&config, jwt_request(Some(&format!("Bearer {}", token))), 1000) {
        Action::Continue(r) => {
            assert_eq!(r.headers.get("x-auth-consumer").unwrap(), "alice");
            assert_eq!(r.headers.get("x-auth-consumer-groups").unwrap(), "admin,editor");
        }
        Action::ShortCircuit(_) => panic!("Expected request to be allowed"),
    }
}

#[test]
fn test_on_request_groups_claim_space_separated_string() {
    let mut config = keyed_config();
    config.groups_claim = Some("permissions".to_string());
    let token = jwt_token(RS256, r#"{"sub":"bob","exp":2000,"permissions":"read write execute"}"#);
    match jwt_run(&config, jwt_request(Some(&format!("Bearer {}", token))), 1000) {
        Action::Continue(r) => {
            assert_eq!(r.headers.get("x-auth-consumer").unwrap(), "bob");
            assert_eq!(r.headers.get("x-auth-consumer-groups").unwrap(), "read,write,execute");
        }
        Action::ShortCircuit(_) => panic!("Expected request to be allowed"),
    }
}

#[test]
fn test_on_request_groups_claim_missing_claim() {
    let mut config = keyed_config();
    config.groups_claim = Some("roles".to_string());
    let token = jwt_token(RS256, r#"{"sub":"alice","exp":2000}"#);
    match jwt_run(&config, jwt_request(Some(&format!("Bearer {}", token))), 1000) {
        Action::Continue(r) => {
            assert_eq!(r.headers.get("x-auth-consumer").unwrap(), "alice");
            assert!(!r.headers.contains_key("x-auth-consumer-groups"));
        }
        Action::ShortCircuit(_) => panic!("Expected request to be allowed"),
    }
}

#[test]
fn test_groups_of_shapes() {
    assert_eq!(groups_of(&parse_json(br#"["a",1,"b"]"#).unwrap()), "a,b");
    assert_eq!(groups_of(&parse_json(br#""x,y z""#).unwrap()), "x,y z");
    assert_eq!(groups_of(&parse_json(br#"" p  q ""#).unwrap()), "p,q");
    assert_eq!(groups_of(&parse_json(b"42").unwrap()), "");
    assert_eq!(split_whitespace("  a \t b\n"), vec!["a", "b"]);
}
