use barbacane_plugins::ip_restriction::{split_rule, RuleText};
use barbacane_plugins::headers::HeaderMap;
use barbacane_plugins::http::{Action, Request, Response};
use barbacane_plugins::ip_restriction::{
    bits_match, default_message, default_status, ip_matches, IpAddress, IpRestriction, IpRule,
};

fn v4(a: u8, b: u8, c: u8, d: u8) -> IpAddress {
    IpAddress::V4([a, b, c, d])
}

fn v6(segments: [u16; 8]) -> IpAddress {
    let mut bytes = [0u8; 16];
    for (i, s) in segments.iter().enumerate() {
        bytes[2 * i] = (s >> 8) as u8;
        bytes[2 * i + 1] = (s & 0xff) as u8;
    }
    IpAddress::V6(bytes)
}

fn db8(last: u16) -> IpAddress {
    v6([0x2001, 0x0db8, 0, 0, 0, 0, 0, last])
}

fn ipr_empty() -> IpRestriction {
    IpRestriction {
        allow: Vec::new(),
        deny: Vec::new(),
        trusted_proxies: Vec::new(),
        message: default_message(),
        status: default_status(),
    }
}

fn ipr_plugin() -> IpRestriction {
    let mut p = ipr_empty();
    p.allow = vec![IpRule::Cidr(v4(10, 0, 0, 0), 8), IpRule::Single(v4(192, 168, 1, 100)), IpRule::Cidr(db8(0), 32)];
    p.deny = vec![IpRule::Single(v4(10, 0, 0, 5))];
    p
}

fn ipr_request(ip: &str) -> Request {
    Request {
        method: "GET".to_string(),
        path: "/test".to_string(),
        query: None,
        headers: HeaderMap::new(),
        body: None,
        client_ip: ip.to_string(),
        path_params: HeaderMap::new(),
    }
}

fn ipr_status(a: Action) -> Option<u16> {
    match a {
        Action::ShortCircuit(r) => Some(r.status),
        Action::Continue(_) => None,
    }
}

#[test]
fn matches_exact_ipv4_and_ipv6() {
    assert!(ip_matches(&v4(192, 168, 1, 100), &IpRule::Single(v4(192, 168, 1, 100))));
    assert!(!ip_matches(&v4(192, 168, 1, 101), &IpRule::Single(v4(192, 168, 1, 100))));
    assert!(ip_matches(&db8(1), &IpRule::Single(db8(1))));
    assert!(!ip_matches(&db8(2), &IpRule::Single(db8(1))));
}

#[test]
fn matches_cidr_ipv4_and_ipv6() {
    assert!(ip_matches(&v4(10, 1, 2, 3), &IpRule::Cidr(v4(10, 0, 0, 0), 8)));
    assert!(!ip_matches(&v4(11, 0, 0, 1), &IpRule::Cidr(v4(10, 0, 0, 0), 8)));
    assert!(ip_matches(&v4(192, 168, 1, 50), &IpRule::Cidr(v4(192, 168, 1, 0), 24)));
    assert!(!ip_matches(&v4(192, 168, 2, 50), &IpRule::Cidr(v4(192, 168, 1, 0), 24)));
    assert!(ip_matches(&db8(0xabcd), &IpRule::Cidr(db8(0), 32)));
    assert!(!ip_matches(&v6([0x2001, 0x0db9, 0, 0, 0, 0, 0, 1]), &IpRule::Cidr(db8(0), 32)));
}

#[test]
fn cidr_prefix_zero_matches_all() {
    assert!(ip_matches(&v4(1, 2, 3, 4), &IpRule::Cidr(v4(0, 0, 0, 0), 0)));
}

#[test]
fn cidr_partial_byte_prefix() {
    assert!(ip_matches(&v4(172, 31, 255, 255), &IpRule::Cidr(v4(172, 16, 0, 0), 12)));
    assert!(!ip_matches(&v4(172, 32, 0, 0), &IpRule::Cidr(v4(172, 16, 0, 0), 12)));
    assert!(bits_match(&[0b1010_0000], &[0b1011_1111], 3, 8));
    assert!(!bits_match(&[0b1010_0000], &[0b1011_1111], 4, 8));
}

#[test]
fn family_mismatch_never_matches() {
    assert!(!ip_matches(&v4(10, 0, 0, 1), &IpRule::Cidr(db8(0), 32)));
    assert!(!ip_matches(&db8(1), &IpRule::Cidr(v4(10, 0, 0, 0), 8)));
}

#[test]
fn invalid_entry_never_matches() {
    assert!(!ip_matches(&v4(10, 0, 0, 1), &IpRule::Invalid));
}

#[test]
fn allowed_ip_continues() {
    assert!(matches!(ipr_plugin().on_request(ipr_request("10.0.0.1"), Some(v4(10, 0, 0, 1))), Action::Continue(_)));
}

#[test]
fn denied_ip_takes_precedence() {
    assert_eq!(ipr_status(ipr_plugin().on_request(ipr_request("10.0.0.5"), Some(v4(10, 0, 0, 5)))), Some(403));
}

#[test]
fn not_in_allowlist_denied() {
    assert_eq!(ipr_status(ipr_plugin().on_request(ipr_request("172.16.0.1"), Some(v4(172, 16, 0, 1)))), Some(403));
}

#[test]
fn ipv6_client_in_allowlist_continues() {
    assert!(matches!(ipr_plugin().on_request(ipr_request("2001:db8::5"), Some(db8(5))), Action::Continue(_)));
}

#[test]
fn ipv6_client_denylist_does_not_fail_open() {
    let mut p = ipr_empty();
    p.deny = vec![IpRule::Cidr(db8(0), 32)];
    assert_eq!(ipr_status(p.on_request(ipr_request("2001:db8::99"), Some(db8(0x99)))), Some(403));
}

#[test]
fn empty_allow_deny_continues() {
    assert!(matches!(ipr_empty().on_request(ipr_request("1.2.3.4"), Some(v4(1, 2, 3, 4))), Action::Continue(_)));
}

#[test]
fn spoofed_xff_does_not_bypass_denylist() {
    let mut p = ipr_empty();
    p.deny = vec![IpRule::Single(v4(203, 0, 113, 7))];
    let mut req = ipr_request("203.0.113.7");
    req.headers.insert("x-forwarded-for".to_string(), "10.0.0.1".to_string());
    let resolved = p.client_ip(&req);
    assert_eq!(resolved, "203.0.113.7");
    assert_eq!(ipr_status(p.on_request(req, Some(v4(203, 0, 113, 7)))), Some(403));
}

#[test]
fn xff_honored_behind_trusted_proxy() {
    let mut p = ipr_empty();
    p.allow = vec![IpRule::Cidr(v4(198, 51, 100, 0), 24)];
    p.trusted_proxies = vec!["203.0.113.7".to_string()];
    let mut req = ipr_request("203.0.113.7");
    req.headers.insert("x-forwarded-for".to_string(), "198.51.100.42".to_string());
    assert_eq!(p.client_ip(&req), "198.51.100.42");
    assert!(matches!(p.on_request(req, Some(v4(198, 51, 100, 42))), Action::Continue(_)));
}

#[test]
fn xff_rightmost_untrusted_hop_is_used() {
    let mut p = ipr_empty();
    p.trusted_proxies = vec!["203.0.113.7".to_string(), "10.0.0.2".to_string()];
    let mut req = ipr_request("203.0.113.7");
    req.headers.insert("x-forwarded-for".to_string(), "1.1.1.1, 198.51.100.42, 10.0.0.2".to_string());
    assert_eq!(p.client_ip(&req), "198.51.100.42");
}

#[test]
fn x_real_ip_used_behind_trusted_proxy_without_xff() {
    let mut p = ipr_empty();
    p.trusted_proxies = vec!["203.0.113.7".to_string()];
    let mut req = ipr_request("203.0.113.7");
    req.headers.insert("x-real-ip".to_string(), " 198.51.100.9 ".to_string());
    assert_eq!(p.client_ip(&req), "198.51.100.9");
}

#[test]
fn unparseable_client_ip_fails_closed_when_restricted() {
    let mut p = ipr_empty();
    p.deny = vec![IpRule::Single(v4(10, 0, 0, 5))];
    assert_eq!(ipr_status(p.on_request(ipr_request("garbage"), None)), Some(403));
}

#[test]
fn unparseable_client_ip_passes_without_rules() {
    assert!(matches!(ipr_empty().on_request(ipr_request("garbage"), None), Action::Continue(_)));
}

#[test]
fn forbidden_response_format() {
    let resp = ipr_plugin().forbidden_response("10.0.0.5");
    assert_eq!(resp.status, 403);
    let body: serde_json::Value = serde_json::from_slice(resp.body.as_ref().unwrap()).unwrap();
    assert_eq!(body["type"], "urn:barbacane:error:ip-restricted");
    assert_eq!(body["client_ip"], "10.0.0.5");
}

#[test]
fn custom_status_code() {
    let mut p = ipr_empty();
    p.deny = vec![IpRule::Single(v4(1, 2, 3, 4))];
    p.status = 451;
    p.message = "Blocked by policy".to_string();
    match p.on_request(ipr_request("1.2.3.4"), Some(v4(1, 2, 3, 4))) {
        Action::ShortCircuit(r) => {
            assert_eq!(r.status, 451);
            let body: serde_json::Value = serde_json::from_slice(r.body.as_ref().unwrap()).unwrap();
            assert_eq!(body["detail"], "Blocked by policy");
        }
        _ => panic!("expected ShortCircuit"),
    }
}

#[test]
fn ip_restriction_config_defaults() {
    let p = ipr_empty();
    assert!(p.allow.is_empty());
    assert!(p.deny.is_empty());
    assert!(p.trusted_proxies.is_empty());
    assert_eq!(p.message, "Access denied");
    assert_eq!(p.status, 403);
}

#[test]
fn ip_restriction_on_response_passthrough() {
    let resp = Response { status: 200, headers: HeaderMap::new(), body: None };
    assert_eq!(ipr_plugin().on_response(resp).status, 200);
}

#[test]
fn ip_split_rule_trims_and_reads_prefix() {
    match split_rule(" 10.0.0.0 / 8 ") {
        RuleText::Cidr(n, p) => {
            assert_eq!(n, "10.0.0.0");
            assert_eq!(p, Some(8));
        }
        _ => panic!("expected a network"),
    }
    assert!(matches!(split_rule("10.0.0.0/300"), RuleText::Cidr(_, None)));
    assert!(matches!(split_rule("10.0.0.0/99"), RuleText::Cidr(_, Some(99))));
    match split_rule(" 2001:db8::1 ") {
        RuleText::Single(a) => assert_eq!(a, "2001:db8::1"),
        _ => panic!("expected a single address"),
    }
}
