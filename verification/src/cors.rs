//! Cross-Origin Resource Sharing: preflight answers and response headers.

use vstd::prelude::*;
use crate::headers::{HeaderMap, map_get};
use crate::http::{
    Action, Request, Response, body_view, problem_members, problem_object, with_headers, resp_with_headers,
};
use crate::json::{Json, JsonV, json_bytes, to_json_bytes};
use crate::text::{
    ascii_lower, concat3, decimal, eq_ignore_ascii_case, ends_with, has_str, is_prefix, is_suffix, joined, join_strings,
    owned, skip_chars, split, split_char, starts_with, str_eq, to_lowercase, trim, trimmed, u64_to_string, unicode_lower,
    vec_contains, views,
};

verus! {

/// CORS middleware configuration.
pub struct Cors {
    /// Allowed origins; `"*"` allows any, `"*.example.com"` any subdomain.
    pub allowed_origins: Vec<String>,
    /// Allowed methods (compared ignoring ASCII case).
    pub allowed_methods: Vec<String>,
    /// Allowed request headers; `"*"` allows any.
    pub allowed_headers: Vec<String>,
    /// Headers exposed to the client.
    pub expose_headers: Vec<String>,
    /// Preflight cache lifetime in seconds.
    pub max_age: u32,
    /// Allow credentials.
    pub allow_credentials: bool,
}

pub fn default_methods() -> (r: Vec<String>)
    ensures views(r@) == seq!["GET"@, "POST"@],
{
    let mut v = Vec::new();
    v.push(owned("GET"));
    v.push(owned("POST"));
    assert(views(v@) =~= seq!["GET"@, "POST"@]);
    v
}

pub fn default_max_age() -> (r: u32)
    ensures r == 3600,
{
    3600
}

/// `origin` is `pattern`'s subdomain: `*.example.com` matches
/// `https://api.example.com` and `http://api.example.com`, not the bare
/// domain.
pub open spec fn wildcard_match(pattern: Seq<char>, origin: Seq<char>) -> bool {
    if is_prefix("*."@, pattern) {
        let suffix = pattern.skip(2);
        if is_prefix("https://"@, origin) {
            let host = origin.skip(8);
            is_suffix(suffix, host) && host != suffix
        } else if is_prefix("http://"@, origin) {
            let host = origin.skip(7);
            is_suffix(suffix, host) && host != suffix
        } else {
            false
        }
    } else {
        false
    }
}

/// A simple header that CORS always allows.
pub open spec fn is_simple(h: Seq<char>) -> bool {
    h == "accept"@ || h == "accept-language"@ || h == "content-language"@ || h == "content-type"@
}

impl Cors {
    pub open spec fn origin_allowed(&self, origin: Seq<char>) -> bool {
        &&& self.allowed_origins@.len() > 0
        &&& (has_str(self.allowed_origins@, "*"@) || exists|i: int| 0 <= i < self.allowed_origins@.len()
            && (#[trigger] self.allowed_origins@[i]@ == origin || wildcard_match(self.allowed_origins@[i]@, origin)))
    }

    pub open spec fn method_allowed(&self, m: Seq<char>) -> bool {
        exists|i: int| 0 <= i < self.allowed_methods@.len() && ascii_lower(#[trigger] self.allowed_methods@[i]@) == ascii_lower(m)
    }

    /// One requested header (already trimmed and lowercased) is allowed.
    pub open spec fn header_ok(&self, h: Seq<char>) -> bool {
        h.len() == 0 || is_simple(h) || exists|i: int| 0 <= i < self.allowed_headers@.len()
            && (ascii_lower(#[trigger] self.allowed_headers@[i]@) == ascii_lower(h) || self.allowed_headers@[i]@ == "*"@)
    }

    pub open spec fn headers_allowed(&self, requested: Seq<char>) -> bool {
        if self.allowed_headers@.len() == 0 {
            requested.len() == 0
        } else {
            forall|i: int| 0 <= i < split_char(requested, ',').len()
                ==> self.header_ok(#[trigger] unicode_lower(trimmed(split_char(requested, ',')[i])))
        }
    }

    /// The `access-control-allow-origin` value of a preflight answer.
    pub open spec fn allow_origin_value(&self, origin: Seq<char>) -> Seq<char> {
        if has_str(self.allowed_origins@, "*"@) && !self.allow_credentials { "*"@ } else { origin }
    }

    /// The headers of a successful preflight answer.
    pub open spec fn preflight_headers(&self, origin: Seq<char>) -> Map<Seq<char>, Seq<char>> {
        let h1 = Map::<Seq<char>, Seq<char>>::empty()
            .insert("access-control-allow-origin"@, self.allow_origin_value(origin))
            .insert("access-control-allow-methods"@, joined(views(self.allowed_methods@), ", "@));
        let h2 = if self.allowed_headers@.len() > 0 {
            h1.insert("access-control-allow-headers"@, joined(views(self.allowed_headers@), ", "@))
        } else {
            h1
        };
        let h3 = h2.insert("access-control-max-age"@, decimal(self.max_age as nat));
        let h4 = if self.allow_credentials { h3.insert("access-control-allow-credentials"@, "true"@) } else { h3 };
        h4.insert("vary"@, "Origin, Access-Control-Request-Method, Access-Control-Request-Headers"@)
    }

    /// The 403 answer for a request from `origin`.
    pub open spec fn is_forbidden(resp: Response, origin: Seq<char>) -> bool {
        &&& resp.status == 403
        &&& resp.headers@ == Map::<Seq<char>, Seq<char>>::empty()
            .insert("content-type"@, "application/problem+json"@).insert("vary"@, "Origin"@)
        &&& body_view(resp.body) == Some(json_bytes(JsonV::Object(problem_members(
            "urn:barbacane:error:cors-not-allowed"@, "CORS Not Allowed"@, 403,
            "Origin '"@ + origin + "' is not allowed by CORS policy"@))))
    }

    /// The preflight answer for `origin`, the requested method and the
    /// requested headers.
    pub open spec fn is_preflight_answer(&self, resp: Response, origin: Seq<char>, method: Seq<char>, requested: Seq<char>) -> bool {
        if !self.method_allowed(method) || !self.headers_allowed(requested) {
            Self::is_forbidden(resp, origin)
        } else {
            resp.status == 204 && resp.body is None && resp.headers@ == self.preflight_headers(origin)
        }
    }

    /// The headers `on_response` adds.
    pub open spec fn response_headers(&self, h: Map<Seq<char>, Seq<char>>) -> Map<Seq<char>, Seq<char>> {
        let h1 = if has_str(self.allowed_origins@, "*"@) && !self.allow_credentials {
            h.insert("access-control-allow-origin"@, "*"@)
        } else {
            h
        };
        let h2 = if self.expose_headers@.len() > 0 {
            h1.insert("access-control-expose-headers"@, joined(views(self.expose_headers@), ", "@))
        } else {
            h1
        };
        if self.allow_credentials { h2.insert("access-control-allow-credentials"@, "true"@) } else { h2 }
    }

    /// Validates the origin, answers preflight requests, and marks other
    /// CORS requests with `x-cors-origin`.
    pub fn on_request(&self, req: Request) -> (r: Action)
        ensures
            match map_get(req.headers@, "origin"@) {
                None => r == Action::Continue(req),
                Some(origin) => if !self.origin_allowed(origin) {
                    r matches Action::ShortCircuit(resp) && Self::is_forbidden(resp, origin)
                } else if ascii_lower(req.method@) == ascii_lower("OPTIONS"@)
                    && map_get(req.headers@, "access-control-request-method"@) is Some {
                    r matches Action::ShortCircuit(resp) && self.is_preflight_answer(
                        resp, origin, map_get(req.headers@, "access-control-request-method"@).unwrap(),
                        match map_get(req.headers@, "access-control-request-headers"@) { Some(h) => h, None => Seq::empty() })
                } else {
                    r matches Action::Continue(out) && with_headers(out, req, req.headers@.insert("x-cors-origin"@, origin))
                },
            },
    {
        let origin = match req.headers.get("origin") {
            Some(o) => o,
            None => return Action::Continue(req),
        };
        if !self.is_origin_allowed(origin.as_str()) {
            return Action::ShortCircuit(self.forbidden_response(origin.as_str()));
        }
        if eq_ignore_ascii_case(req.method.as_str(), "OPTIONS") {
            if let Some(rm) = req.headers.get("access-control-request-method") {
                return Action::ShortCircuit(self.preflight_response(origin.as_str(), rm.as_str(), &req));
            }
        }
        let mut req = req;
        req.headers.insert(owned("x-cors-origin"), origin);
        Action::Continue(req)
    }

    /// Adds the CORS headers to a response.
    pub fn on_response(&self, resp: Response) -> (r: Response)
        ensures
            resp_with_headers(r, resp, self.response_headers(resp.headers@)),
    {
        let mut resp = resp;
        if vec_contains(&self.allowed_origins, "*") && !self.allow_credentials {
            resp.headers.insert(owned("access-control-allow-origin"), owned("*"));
        }
        if self.expose_headers.len() > 0 {
            resp.headers.insert(owned("access-control-expose-headers"), join_strings(&self.expose_headers, ", "));
        }
        if self.allow_credentials {
            resp.headers.insert(owned("access-control-allow-credentials"), owned("true"));
        }
        resp
    }

    pub fn is_origin_allowed(&self, origin: &str) -> (r: bool)
        ensures
            r == self.origin_allowed(origin@),
    {
        if self.allowed_origins.len() == 0 {
            return false;
        }
        if vec_contains(&self.allowed_origins, "*") {
            return true;
        }
        let mut i: usize = 0;
        while i < self.allowed_origins.len()
            invariant
                i <= self.allowed_origins@.len(),
                forall|j: int| 0 <= j < i ==> !(#[trigger] self.allowed_origins@[j]@ == origin@ || wildcard_match(self.allowed_origins@[j]@, origin@)),
            decreases self.allowed_origins@.len() - i,
        {
            let a = self.allowed_origins[i].as_str();
            if str_eq(a, origin) || matches_wildcard_origin(a, origin) {
                return true;
            }
            i = i + 1;
        }
        false
    }

    pub fn is_method_allowed(&self, method: &str) -> (r: bool)
        ensures
            r == self.method_allowed(method@),
    {
        let mut i: usize = 0;
        while i < self.allowed_methods.len()
            invariant
                i <= self.allowed_methods@.len(),
                forall|j: int| 0 <= j < i ==> ascii_lower(#[trigger] self.allowed_methods@[j]@) != ascii_lower(method@),
            decreases self.allowed_methods@.len() - i,
        {
            if eq_ignore_ascii_case(self.allowed_methods[i].as_str(), method) {
                return true;
            }
            i = i + 1;
        }
        false
    }

    /// Whether one trimmed, lowercased requested header is allowed.
    fn is_header_ok(&self, h: &str) -> (r: bool)
        ensures
            r == self.header_ok(h@),
    {
        if h.is_empty() || is_simple_header(h) {
            return true;
        }
        let mut i: usize = 0;
        while i < self.allowed_headers.len()
            invariant
                i <= self.allowed_headers@.len(),
                forall|j: int| 0 <= j < i ==> !(ascii_lower(#[trigger] self.allowed_headers@[j]@) == ascii_lower(h@) || self.allowed_headers@[j]@ == "*"@),
            decreases self.allowed_headers@.len() - i,
        {
            if eq_ignore_ascii_case(self.allowed_headers[i].as_str(), h) || str_eq(self.allowed_headers[i].as_str(), "*") {
                return true;
            }
            i = i + 1;
        }
        false
    }

    pub fn are_headers_allowed(&self, requested: &str) -> (r: bool)
        ensures
            r == self.headers_allowed(requested@),
    {
        if self.allowed_headers.len() == 0 {
            return requested.is_empty();
        }
        let parts = split(requested, ',');
        let ghost ps = split_char(requested@, ',');
        let mut i: usize = 0;
        while i < parts.len()
            invariant
                i <= parts@.len(),
                self.allowed_headers@.len() > 0,
                ps == split_char(requested@, ','),
                parts@.len() == ps.len(),
                forall|k: int| 0 <= k < ps.len() ==> #[trigger] parts@[k]@ == ps[k],
                forall|k: int| 0 <= k < i ==> self.header_ok(#[trigger] unicode_lower(trimmed(ps[k]))),
            decreases parts@.len() - i,
        {
            let t = trim(parts[i].as_str());
            let h = to_lowercase(t.as_str());
            if !self.is_header_ok(h.as_str()) {
                return false;
            }
            i = i + 1;
        }
        true
    }

    /// The preflight answer.
    pub fn preflight_response(&self, origin: &str, requested_method: &str, req: &Request) -> (r: Response)
        ensures
            self.is_preflight_answer(r, origin@, requested_method@,
                match map_get(req.headers@, "access-control-request-headers"@) { Some(h) => h, None => Seq::empty() }),
    {
        if !self.is_method_allowed(requested_method) {
            return self.forbidden_response(origin);
        }
        let requested = match req.headers.get("access-control-request-headers") {
            Some(h) => h,
            None => {
                let e = String::new();
                e
            },
        };
        if !self.are_headers_allowed(requested.as_str()) {
            return self.forbidden_response(origin);
        }
        let mut headers = HeaderMap::new();
        if vec_contains(&self.allowed_origins, "*") && !self.allow_credentials {
            headers.insert(owned("access-control-allow-origin"), owned("*"));
        } else {
            headers.insert(owned("access-control-allow-origin"), owned(origin));
        }
        headers.insert(owned("access-control-allow-methods"), join_strings(&self.allowed_methods, ", "));
        if self.allowed_headers.len() > 0 {
            headers.insert(owned("access-control-allow-headers"), join_strings(&self.allowed_headers, ", "));
        }
        headers.insert(owned("access-control-max-age"), u64_to_string(self.max_age as u64));
        if self.allow_credentials {
            headers.insert(owned("access-control-allow-credentials"), owned("true"));
        }
        headers.insert(owned("vary"), owned("Origin, Access-Control-Request-Method, Access-Control-Request-Headers"));
        Response { status: 204, headers, body: None }
    }

    /// The 403 answer for a CORS request that is not allowed.
    pub fn forbidden_response(&self, origin: &str) -> (r: Response)
        ensures
            Self::is_forbidden(r, origin@),
    {
        let mut headers = HeaderMap::new();
        headers.insert(owned("content-type"), owned("application/problem+json"));
        headers.insert(owned("vary"), owned("Origin"));
        let detail = concat3("Origin '", origin, "' is not allowed by CORS policy");
        let body = Json::Object(problem_object("urn:barbacane:error:cors-not-allowed", "CORS Not Allowed", 403, detail.as_str()));
        Response { status: 403, headers, body: Some(to_json_bytes(&body)) }
    }
}

/// Whether `origin` is a subdomain origin of the `*.domain` pattern.
pub fn matches_wildcard_origin(pattern: &str, origin: &str) -> (r: bool)
    ensures
        r == wildcard_match(pattern@, origin@),
{
    if !starts_with(pattern, "*.") {
        return false;
    }
    proof { reveal_strlit("*."); reveal_strlit("https://"); reveal_strlit("http://"); }
    let suffix = skip_chars(pattern, 2);
    if starts_with(origin, "https://") {
        let host = skip_chars(origin, 8);
        return ends_with(host.as_str(), suffix.as_str()) && !str_eq(host.as_str(), suffix.as_str());
    }
    if starts_with(origin, "http://") {
        let host = skip_chars(origin, 7);
        return ends_with(host.as_str(), suffix.as_str()) && !str_eq(host.as_str(), suffix.as_str());
    }
    false
}

/// A CORS simple header.
pub fn is_simple_header(h: &str) -> (r: bool)
    ensures
        r == is_simple(h@),
{
    str_eq(h, "accept") || str_eq(h, "accept-language") || str_eq(h, "content-language") || str_eq(h, "content-type")
}

/// With credentials allowed, a preflight answer names the requesting
/// origin, never the wildcard.
pub proof fn law_credentials_preflight_names_origin(c: Cors, origin: Seq<char>)
    requires
        c.allow_credentials,
    ensures
        c.preflight_headers(origin)["access-control-allow-origin"@] == origin,
        c.preflight_headers(origin)["access-control-allow-credentials"@] == "true"@,
{
    reveal_strlit("access-control-allow-origin");
    reveal_strlit("access-control-allow-methods");
    reveal_strlit("access-control-allow-headers");
    reveal_strlit("access-control-max-age");
    reveal_strlit("access-control-allow-credentials");
    reveal_strlit("vary");
    let o = "access-control-allow-origin"@;
    let cr = "access-control-allow-credentials"@;
    assert(o.len() == 27 && cr.len() == 32);
    assert("access-control-allow-methods"@.len() == 28);
    assert("access-control-allow-headers"@.len() == 28);
    assert("access-control-max-age"@.len() == 22);
    assert("vary"@.len() == 4);
    let h1 = Map::<Seq<char>, Seq<char>>::empty()
        .insert(o, c.allow_origin_value(origin))
        .insert("access-control-allow-methods"@, joined(views(c.allowed_methods@), ", "@));
    assert(h1[o] == origin);
    let h2 = if c.allowed_headers@.len() > 0 {
        h1.insert("access-control-allow-headers"@, joined(views(c.allowed_headers@), ", "@))
    } else {
        h1
    };
    assert(h2[o] == origin);
    let h3 = h2.insert("access-control-max-age"@, decimal(c.max_age as nat));
    assert(h3[o] == origin);
    let h4 = h3.insert(cr, "true"@);
    assert(h4[o] == origin && h4[cr] == "true"@);
    assert(c.preflight_headers(origin) == h4.insert("vary"@, "Origin, Access-Control-Request-Method, Access-Control-Request-Headers"@));
}

/// With credentials allowed, `on_response` never adds an
/// `access-control-allow-origin` header.
pub proof fn law_credentials_response_adds_no_wildcard(c: Cors, h: Map<Seq<char>, Seq<char>>)
    requires
        c.allow_credentials,
        !h.contains_key("access-control-allow-origin"@),
    ensures
        !c.response_headers(h).contains_key("access-control-allow-origin"@),
{
    reveal_strlit("access-control-allow-origin");
    reveal_strlit("access-control-expose-headers");
    reveal_strlit("access-control-allow-credentials");
    let o = "access-control-allow-origin"@;
    assert(o.len() == 27);
    assert("access-control-expose-headers"@.len() == 29);
    assert("access-control-allow-credentials"@.len() == 32);
    let h2 = if c.expose_headers@.len() > 0 {
        h.insert("access-control-expose-headers"@, joined(views(c.expose_headers@), ", "@))
    } else {
        h
    };
    assert(!h2.contains_key(o));
    assert(c.response_headers(h) == h2.insert("access-control-allow-credentials"@, "true"@));
}

/// With no allowed origin configured, every origin is rejected.
pub proof fn law_no_allowed_origins_rejects_all(c: Cors, origin: Seq<char>)
    requires
        c.allowed_origins@.len() == 0,
    ensures
        !c.origin_allowed(origin),
{
}

/// A subdomain pattern never matches the bare domain.
pub proof fn law_subdomain_pattern_excludes_bare_domain(domain: Seq<char>)
    ensures
        !wildcard_match("*."@ + domain, "https://"@ + domain),
        !wildcard_match("*."@ + domain, "http://"@ + domain),
{
    reveal_strlit("*.");
    reveal_strlit("https://");
    reveal_strlit("http://");
    let p = "*."@ + domain;
    assert(p.skip(2) =~= domain);
    assert(is_prefix("*."@, p)) by { assert(p.subrange(0, 2) =~= "*."@); }
    let o1 = "https://"@ + domain;
    assert(o1.skip(8) =~= domain);
    let o2 = "http://"@ + domain;
    assert(o2.skip(7) =~= domain);
    assert(is_prefix("https://"@, o1)) by { assert(o1.subrange(0, 8) =~= "https://"@); }
    assert(is_prefix("http://"@, o2)) by { assert(o2.subrange(0, 7) =~= "http://"@); }
    assert(!is_prefix("https://"@, o2)) by {
        if is_prefix("https://"@, o2) {
            assert(o2.subrange(0, 8)[4] == "https://"@[4]);
            assert(o2[4] == ':');
        }
    }
}

} // verus!
