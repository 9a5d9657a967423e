//! API key authentication from a header or a query parameter.

use vstd::prelude::*;
use crate::headers::{HeaderMap, map_get};
use crate::http::{
    Action, Request, Response, body_view, one_header, problem_members, problem_object, with_headers,
};
use crate::json::{Json, JsonV, json_bytes};
use crate::text::{
    joined, join_strings, owned, push_char, push_str, split, split_char, split_once, str_eq, to_lowercase,
    trim, trimmed, unicode_lower, chars_of, split_once_char,
};

verus! {

/// Metadata of one API key.
pub struct ApiKeyEntry {
    /// Identifier of the key (becomes the consumer).
    pub id: String,
    /// Human-readable name.
    pub name: Option<String>,
    /// Scopes granted to the key.
    pub scopes: Vec<String>,
}

/// API key authentication middleware configuration.
pub struct ApiKeyAuth {
    /// `"header"` (default) or `"query"`; anything else reads the header.
    pub key_location: String,
    /// Header carrying the key.
    pub header_name: String,
    /// Query parameter carrying the key.
    pub query_param: String,
    /// Valid keys and their metadata, each key once.
    pub keys: Vec<(String, ApiKeyEntry)>,
}

/// Why a request was not authenticated.
pub enum ApiKeyError {
    MissingKey,
    InvalidKey,
}

pub fn default_key_location() -> (r: String)
    ensures r@ == "header"@,
{
    owned("header")
}

pub fn default_header_name() -> (r: String)
    ensures r@ == "X-API-Key"@,
{
    owned("X-API-Key")
}

pub fn default_query_param() -> (r: String)
    ensures r@ == "api_key"@,
{
    owned("api_key")
}

impl ApiKeyError {
    /// The OAuth-style error code.
    pub open spec fn code(&self) -> Seq<char> {
        match self {
            ApiKeyError::MissingKey => "missing_key"@,
            ApiKeyError::InvalidKey => "invalid_key"@,
        }
    }

    /// The human-readable description.
    pub open spec fn text(&self) -> Seq<char> {
        match self {
            ApiKeyError::MissingKey => "API key required"@,
            ApiKeyError::InvalidKey => "Invalid API key"@,
        }
    }

    pub fn as_str(&self) -> (r: &'static str)
        ensures r@ == self.code(),
    {
        match self {
            ApiKeyError::MissingKey => "missing_key",
            ApiKeyError::InvalidKey => "invalid_key",
        }
    }

    pub fn description(&self) -> (r: &'static str)
        ensures r@ == self.text(),
    {
        match self {
            ApiKeyError::MissingKey => "API key required",
            ApiKeyError::InvalidKey => "Invalid API key",
        }
    }
}

// ---------------------------------------------------------------------------
// URL decoding
// ---------------------------------------------------------------------------

/// The value of a hexadecimal digit.
pub open spec fn hex_digit(c: char) -> Option<nat> {
    if '0' <= c && c <= '9' {
        Some(((c as u32) - ('0' as u32)) as nat)
    } else if 'a' <= c && c <= 'f' {
        Some(((c as u32) - ('a' as u32) + 10) as nat)
    } else if 'A' <= c && c <= 'F' {
        Some(((c as u32) - ('A' as u32) + 10) as nat)
    } else {
        None
    }
}

/// What `u8::from_str_radix(_, 16)` gives for two characters: two hex
/// digits, or `+` and one hex digit.
pub open spec fn hex_pair(a: char, b: char) -> Option<u8> {
    if a == '+' {
        match hex_digit(b) { Some(d) => Some(d as u8), None => None }
    } else {
        match (hex_digit(a), hex_digit(b)) {
            (Some(x), Some(y)) => Some((x * 16 + y) as u8),
            _ => None,
        }
    }
}

/// Query-string decoding: `%XX` becomes the character with that code
/// (an invalid escape is kept as written) and `+` becomes a space.
pub open spec fn url_decoded(s: Seq<char>) -> Seq<char>
    decreases s.len(),
{
    if s.len() == 0 {
        Seq::empty()
    } else if s[0] == '%' {
        if s.len() >= 3 && hex_pair(s[1], s[2]) is Some {
            seq![(hex_pair(s[1], s[2]).unwrap() as u32) as char] + url_decoded(s.skip(3))
        } else {
            let n = if s.len() >= 3 { 3 } else { s.len() as int };
            s.subrange(0, n) + url_decoded(s.skip(n))
        }
    } else if s[0] == '+' {
        seq![' '] + url_decoded(s.skip(1))
    } else {
        seq![s[0]] + url_decoded(s.skip(1))
    }
}

fn hex_digit_exec(c: char) -> (r: Option<u8>)
    ensures
        match r { Some(d) => hex_digit(c) == Some(d as nat) && d < 16, None => hex_digit(c) is None },
{
    if '0' <= c && c <= '9' {
        Some(((c as u32) - ('0' as u32)) as u8)
    } else if 'a' <= c && c <= 'f' {
        Some(((c as u32) - ('a' as u32) + 10) as u8)
    } else if 'A' <= c && c <= 'F' {
        Some(((c as u32) - ('A' as u32) + 10) as u8)
    } else {
        None
    }
}

fn hex_pair_exec(a: char, b: char) -> (r: Option<u8>)
    ensures
        r == hex_pair(a, b),
{
    if a == '+' {
        hex_digit_exec(b)
    } else {
        match (hex_digit_exec(a), hex_digit_exec(b)) {
            (Some(x), Some(y)) => Some(x * 16 + y),
            _ => None,
        }
    }
}

/// Decodes a query-string value.
pub fn url_decode(s: &str) -> (r: String)
    ensures
        r@ == url_decoded(s@),
{
    let cs = chars_of(s);
    let n = cs.len();
    let mut out = String::new();
    let mut i: usize = 0;
    assert(s@.skip(0) =~= s@);
    while i < n
        invariant
            n == cs@.len(),
            cs@ == s@,
            i <= n,
            out@ + url_decoded(s@.skip(i as int)) == url_decoded(s@),
        decreases n - i,
    {
        let ghost rest = s@.skip(i as int);
        let c = cs[i];
        assert(rest[0] == c);
        if c == '%' {
            if n - i >= 3 {
                match hex_pair_exec(cs[i + 1], cs[i + 2]) {
                    Some(b) => {
                        assert(rest[1] == cs@[i + 1] && rest[2] == cs@[i + 2]);
                        assert(rest.skip(3) =~= s@.skip(i + 3));
                        push_char(&mut out, b as char);
                        assert(out@ + url_decoded(s@.skip(i + 3)) =~= url_decoded(s@));
                        i = i + 3;
                        continue;
                    },
                    None => {},
                }
                assert(rest[1] == cs@[i + 1] && rest[2] == cs@[i + 2]);
                assert(rest.skip(3) =~= s@.skip(i + 3));
                assert(rest.subrange(0, 3) =~= seq![cs@[i as int], cs@[i + 1], cs@[i + 2]]);
                push_char(&mut out, '%');
                push_char(&mut out, cs[i + 1]);
                push_char(&mut out, cs[i + 2]);
                assert(out@ + url_decoded(s@.skip(i + 3)) =~= url_decoded(s@));
                i = i + 3;
            } else {
                assert(rest.subrange(0, rest.len() as int) =~= rest);
                assert(rest.skip(rest.len() as int) =~= Seq::<char>::empty());
                assert(rest.len() == n - i && rest.len() < 3);
                assert(url_decoded(Seq::<char>::empty()) == Seq::<char>::empty());
                assert(url_decoded(rest) == rest.subrange(0, rest.len() as int) + url_decoded(rest.skip(rest.len() as int)));
                assert(url_decoded(rest) =~= rest);
                let ghost o0 = out@;
                let mut j = i;
                while j < n
                    invariant
                        i <= j <= n,
                        n == cs@.len(),
                        cs@ == s@,
                        out@ == o0 + s@.subrange(i as int, j as int),
                    decreases n - j,
                {
                    push_char(&mut out, cs[j]);
                    j = j + 1;
                    assert(out@ =~= o0 + s@.subrange(i as int, j as int));
                }
                assert(s@.subrange(i as int, n as int) =~= rest);
                assert(s@.skip(n as int) =~= Seq::<char>::empty());
                i = n;
            }
        } else if c == '+' {
            push_char(&mut out, ' ');
            assert(rest.skip(1) =~= s@.skip(i + 1));
            assert(out@ + url_decoded(s@.skip(i + 1)) =~= url_decoded(s@));
            i = i + 1;
        } else {
            push_char(&mut out, c);
            assert(rest.skip(1) =~= s@.skip(i + 1));
            assert(out@ + url_decoded(s@.skip(i + 1)) =~= url_decoded(s@));
            i = i + 1;
        }
    }
    out
}

// ---------------------------------------------------------------------------
// Key extraction and lookup
// ---------------------------------------------------------------------------

/// The value of the first `name=value` pair whose name is `param`.
pub open spec fn query_value(pairs: Seq<Seq<char>>, param: Seq<char>) -> Option<Seq<char>>
    decreases pairs.len(),
{
    if pairs.len() == 0 {
        None
    } else {
        match split_once(pairs[0], '=') {
            Some(kv) => if kv.0 == param { Some(kv.1) } else { query_value(pairs.drop_first(), param) },
            None => query_value(pairs.drop_first(), param),
        }
    }
}

/// The key carried by the query string.
pub open spec fn key_from_query(query: Option<Seq<char>>, param: Seq<char>) -> Result<Seq<char>, ApiKeyError> {
    match query {
        None => Err(ApiKeyError::MissingKey),
        Some(q) => match query_value(split_char(q, '&'), param) {
            None => Err(ApiKeyError::MissingKey),
            Some(v) => if url_decoded(v).len() == 0 { Err(ApiKeyError::MissingKey) } else { Ok(url_decoded(v)) },
        },
    }
}

/// The key carried by header `name` (tried as written, then lowercased).
pub open spec fn key_from_header(h: Map<Seq<char>, Seq<char>>, name: Seq<char>) -> Result<Seq<char>, ApiKeyError> {
    let v = match map_get(h, name) { Some(v) => Some(v), None => map_get(h, unicode_lower(name)) };
    match v {
        None => Err(ApiKeyError::MissingKey),
        Some(v) => if trimmed(v).len() == 0 { Err(ApiKeyError::MissingKey) } else { Ok(trimmed(v)) },
    }
}

/// The entry of key `k` in the table (first matching row).
pub open spec fn lookup(t: Seq<(String, ApiKeyEntry)>, k: Seq<char>) -> Option<ApiKeyEntry>
    decreases t.len(),
{
    if t.len() == 0 {
        None
    } else if t[0].0@ == k {
        Some(t[0].1)
    } else {
        lookup(t.drop_first(), k)
    }
}

/// The headers added for an authenticated key.
pub open spec fn auth_headers(h: Map<Seq<char>, Seq<char>>, e: ApiKeyEntry) -> Map<Seq<char>, Seq<char>> {
    let h1 = h.insert("x-auth-key-id"@, e.id@);
    let h2 = match e.name { Some(n) => h1.insert("x-auth-key-name"@, n@), None => h1 };
    let csv = joined(e.scopes@.map_values(|s: String| s@), ","@);
    let h3 = if e.scopes@.len() > 0 {
        h2.insert("x-auth-key-scopes"@, csv).insert("x-auth-consumer-groups"@, csv)
    } else {
        h2
    };
    h3.insert("x-auth-consumer"@, e.id@)
}

impl ApiKeyAuth {
    /// The key the request carries, per the configured location.
    pub open spec fn extracted(&self, req: Request) -> Result<Seq<char>, ApiKeyError> {
        if self.key_location@ == "query"@ {
            key_from_query(match req.query { Some(q) => Some(q@), None => None }, self.query_param@)
        } else {
            key_from_header(req.headers@, self.header_name@)
        }
    }

    /// The entry that authenticates the request, or why none does.
    pub open spec fn validated(&self, req: Request) -> Result<ApiKeyEntry, ApiKeyError> {
        match self.extracted(req) {
            Err(e) => Err(e),
            Ok(k) => match lookup(self.keys@, k) {
                Some(e) => Ok(e),
                None => Err(ApiKeyError::InvalidKey),
            },
        }
    }

    /// The 401 response for `e`.
    pub open spec fn is_unauthorized(resp: Response, e: ApiKeyError) -> bool {
        &&& resp.status == 401
        &&& resp.headers@ == one_header("content-type"@, "application/json"@).insert(
            "www-authenticate"@,
            "ApiKey realm=\"api\", error=\""@ + e.code() + "\", error_description=\""@ + e.text() + "\""@,
        )
        &&& body_view(resp.body) == Some(json_bytes(JsonV::Object(problem_members(
            "urn:barbacane:error:authentication-failed"@, "Authentication failed"@, 401, e.text()))))
    }

    /// Validates the API key and adds the consumer headers.
    pub fn on_request(&self, req: Request) -> (r: Action)
        ensures
            match r {
                Action::Continue(out) => self.validated(req) matches Ok(e) && with_headers(out, req, auth_headers(req.headers@, e)),
                Action::ShortCircuit(resp) => self.validated(req) matches Err(e) && Self::is_unauthorized(resp, e),
            },
    {
        match self.validate_request(&req) {
            Ok(entry) => {
                let mut req = req;
                req.headers.insert(owned("x-auth-key-id"), entry.id.clone());
                if let Some(name) = &entry.name {
                    req.headers.insert(owned("x-auth-key-name"), name.clone());
                }
                if entry.scopes.len() > 0 {
                    let csv = join_strings(&entry.scopes, ",");
                    req.headers.insert(owned("x-auth-key-scopes"), csv.clone());
                    req.headers.insert(owned("x-auth-consumer-groups"), csv);
                }
                req.headers.insert(owned("x-auth-consumer"), entry.id.clone());
                Action::Continue(req)
            },
            Err(e) => Action::ShortCircuit(self.unauthorized_response(&e)),
        }
    }

    /// Passes responses through unchanged.
    pub fn on_response(&self, resp: Response) -> (r: Response)
        ensures
            r == resp,
    {
        resp
    }

    /// The entry that authenticates the request, or why none does.
    pub fn validate_request(&self, req: &Request) -> (r: Result<&ApiKeyEntry, ApiKeyError>)
        ensures
            match r {
                Ok(e) => self.validated(*req) == Ok::<ApiKeyEntry, ApiKeyError>(*e),
                Err(e) => self.validated(*req) == Err::<ApiKeyEntry, ApiKeyError>(e),
            },
    {
        let key = match self.extract_key(req) {
            Ok(k) => k,
            Err(e) => return Err(e),
        };
        self.lookup_key(key.as_str())
    }

    /// The key the request carries, per the configured location.
    pub fn extract_key(&self, req: &Request) -> (r: Result<String, ApiKeyError>)
        ensures
            match r {
                Ok(k) => self.extracted(*req) == Ok::<Seq<char>, ApiKeyError>(k@),
                Err(e) => self.extracted(*req) == Err::<Seq<char>, ApiKeyError>(e),
            },
    {
        if str_eq(self.key_location.as_str(), "query") {
            self.extract_from_query(req)
        } else {
            self.extract_from_header(req)
        }
    }

    /// The key carried by the configured header.
    pub fn extract_from_header(&self, req: &Request) -> (r: Result<String, ApiKeyError>)
        ensures
            match r {
                Ok(k) => key_from_header(req.headers@, self.header_name@) == Ok::<Seq<char>, ApiKeyError>(k@),
                Err(e) => key_from_header(req.headers@, self.header_name@) == Err::<Seq<char>, ApiKeyError>(e),
            },
    {
        let v = match req.headers.get(self.header_name.as_str()) {
            Some(v) => v,
            None => {
                let lower = to_lowercase(self.header_name.as_str());
                match req.headers.get(lower.as_str()) {
                    Some(v) => v,
                    None => return Err(ApiKeyError::MissingKey),
                }
            },
        };
        let t = trim(v.as_str());
        if t.as_str().is_empty() {
            return Err(ApiKeyError::MissingKey);
        }
        Ok(t)
    }

    /// The key carried by the configured query parameter.
    pub fn extract_from_query(&self, req: &Request) -> (r: Result<String, ApiKeyError>)
        ensures
            match r {
                Ok(k) => key_from_query(match req.query { Some(q) => Some(q@), None => None }, self.query_param@) == Ok::<Seq<char>, ApiKeyError>(k@),
                Err(e) => key_from_query(match req.query { Some(q) => Some(q@), None => None }, self.query_param@) == Err::<Seq<char>, ApiKeyError>(e),
            },
    {
        let query = match &req.query {
            Some(q) => q,
            None => return Err(ApiKeyError::MissingKey),
        };
        let pairs = split(query.as_str(), '&');
        let ghost ps = split_char(query@, '&');
        let mut i: usize = 0;
        assert(ps.skip(0) =~= ps);
        while i < pairs.len()
            invariant
                i <= pairs@.len(),
                ps == split_char(query@, '&'),
                req.query matches Some(q) && q@ == query@,
                pairs@.len() == ps.len(),
                forall|k: int| 0 <= k < ps.len() ==> #[trigger] pairs@[k]@ == ps[k],
                query_value(ps, self.query_param@) == query_value(ps.skip(i as int), self.query_param@),
            decreases pairs@.len() - i,
        {
            let ghost rest = ps.skip(i as int);
            assert(rest[0] == ps[i as int]);
            assert(rest.drop_first() =~= ps.skip(i + 1));
            match split_once_char(pairs[i].as_str(), '=') {
                Some((k, v)) => {
                    if str_eq(k.as_str(), self.query_param.as_str()) {
                        let decoded = url_decode(v.as_str());
                        if decoded.as_str().is_empty() {
                            return Err(ApiKeyError::MissingKey);
                        }
                        return Ok(decoded);
                    }
                },
                None => {},
            }
            i = i + 1;
        }
        Err(ApiKeyError::MissingKey)
    }

    /// The entry of key `key`, or `InvalidKey`.
    pub fn lookup_key(&self, key: &str) -> (r: Result<&ApiKeyEntry, ApiKeyError>)
        ensures
            match r {
                Ok(e) => lookup(self.keys@, key@) == Some(*e),
                Err(e) => lookup(self.keys@, key@) is None && e is InvalidKey,
            },
    {
        let ghost t = self.keys@;
        assert(t.skip(0) =~= t);
        let mut i: usize = 0;
        while i < self.keys.len()
            invariant
                t == self.keys@,
                i <= t.len(),
                lookup(t, key@) == lookup(t.skip(i as int), key@),
            decreases t.len() - i,
        {
            let ghost rest = t.skip(i as int);
            assert(rest[0] == t[i as int]);
            if str_eq(self.keys[i].0.as_str(), key) {
                return Ok(&self.keys[i].1);
            }
            assert(rest.drop_first() =~= t.skip(i + 1));
            i = i + 1;
        }
        Err(ApiKeyError::InvalidKey)
    }

    /// The 401 response with a `WWW-Authenticate` challenge.
    pub fn unauthorized_response(&self, error: &ApiKeyError) -> (r: Response)
        ensures
            Self::is_unauthorized(r, *error),
    {
        let mut headers = HeaderMap::new();
        headers.insert(owned("content-type"), owned("application/json"));
        let mut www = owned("ApiKey realm=\"api\", error=\"");
        push_str(&mut www, error.as_str());
        push_str(&mut www, "\", error_description=\"");
        push_str(&mut www, error.description());
        push_str(&mut www, "\"");
        headers.insert(owned("www-authenticate"), www);
        let body = Json::Object(problem_object(
            "urn:barbacane:error:authentication-failed", "Authentication failed", 401, error.description()));
        Response { status: 401, headers, body: Some(crate::json::to_json_bytes(&body)) }
    }
}

/// Whether a query pair `name=value` is named `param`.
pub open spec fn pair_named(p: Seq<char>, param: Seq<char>) -> bool {
    split_once(p, '=') matches Some(kv) && kv.0 == param
}

/// The key is the value of the first pair named `param`, wherever it
/// stands among the pairs: pairs before it with other names (or no `=`)
/// do not hide it.
pub proof fn law_query_value_is_first_named_pair(pairs: Seq<Seq<char>>, param: Seq<char>, k: int, v: Seq<char>)
    requires
        0 <= k < pairs.len(),
        split_once(pairs[k], '=') == Some((param, v)),
        forall|j: int| 0 <= j < k ==> !pair_named(#[trigger] pairs[j], param),
    ensures
        query_value(pairs, param) == Some(v),
    decreases k,
{
    if k > 0 {
        let rest = pairs.drop_first();
        assert(!pair_named(pairs[0], param));
        assert forall|j: int| 0 <= j < k - 1 implies !pair_named(#[trigger] rest[j], param) by {
            assert(rest[j] == pairs[j + 1]);
        }
        assert(rest[k - 1] == pairs[k]);
        law_query_value_is_first_named_pair(rest, param, k - 1, v);
    }
}

/// A query without a pair named `param` carries no key.
pub proof fn law_query_without_param_has_no_key(pairs: Seq<Seq<char>>, param: Seq<char>)
    requires
        forall|j: int| 0 <= j < pairs.len() ==> !pair_named(#[trigger] pairs[j], param),
    ensures
        query_value(pairs, param) is None,
    decreases pairs.len(),
{
    if pairs.len() > 0 {
        let rest = pairs.drop_first();
        assert(!pair_named(pairs[0], param));
        assert forall|j: int| 0 <= j < rest.len() implies !pair_named(#[trigger] rest[j], param) by {
            assert(rest[j] == pairs[j + 1]);
        }
        law_query_without_param_has_no_key(rest, param);
    }
}

/// The key extracted from a query is the decoded value of the first pair
/// named `param`, when that is not empty.
pub proof fn law_key_from_query_first_named_pair(q: Seq<char>, param: Seq<char>, k: int, v: Seq<char>)
    requires
        0 <= k < split_char(q, '&').len(),
        split_once(split_char(q, '&')[k], '=') == Some((param, v)),
        forall|j: int| 0 <= j < k ==> !pair_named(#[trigger] split_char(q, '&')[j], param),
        url_decoded(v).len() > 0,
    ensures
        key_from_query(Some(q), param) == Ok::<Seq<char>, ApiKeyError>(url_decoded(v)),
{
    law_query_value_is_first_named_pair(split_char(q, '&'), param, k, v);
}

/// A value without `%` or `+` decodes to itself.
pub proof fn law_plain_value_decodes_to_itself(s: Seq<char>)
    requires
        forall|i: int| 0 <= i < s.len() ==> s[i] != '%' && s[i] != '+',
    ensures
        url_decoded(s) == s,
    decreases s.len(),
{
    if s.len() > 0 {
        assert forall|i: int| 0 <= i < s.skip(1).len() implies s.skip(1)[i] != '%' && s.skip(1)[i] != '+' by {
            assert(s.skip(1)[i] == s[i + 1]);
        }
        law_plain_value_decodes_to_itself(s.skip(1));
        assert(seq![s[0]] + s.skip(1) =~= s);
    }
}

} // verus!
