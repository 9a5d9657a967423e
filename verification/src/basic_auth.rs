//! HTTP Basic authentication (RFC 7617).

use vstd::prelude::*;
use vstd::utf8::{decode_utf8, valid_utf8};
use crate::codec::{base64_standard, decode_standard};
use crate::headers::{HeaderMap, map_get};
use crate::http::{
    Action, Request, Response, body_view, one_header, problem_members, problem_object, with_headers,
};
use crate::json::{Json, JsonV, json_bytes, to_json_bytes};
use crate::text::{
    is_prefix, joined, join_strings, owned, push_str, skip_chars, split_once, split_once_char, starts_with,
    str_eq, string_from_utf8, trim, trimmed,
};

verus! {

/// Credentials of one user.
pub struct CredentialEntry {
    pub password: String,
    pub roles: Vec<String>,
}

/// HTTP Basic authentication middleware configuration.
pub struct BasicAuth {
    /// Realm of the `WWW-Authenticate` challenge.
    pub realm: String,
    /// Remove the `Authorization` header before forwarding.
    pub strip_credentials: bool,
    /// Users and their credentials, each user once.
    pub credentials: Vec<(String, CredentialEntry)>,
}

/// Why a request was not authenticated.
pub enum BasicAuthError {
    MissingAuthHeader,
    InvalidAuthHeader,
    InvalidBase64,
    InvalidCredentialFormat,
    InvalidCredentials,
}

pub fn default_realm() -> (r: String)
    ensures r@ == "api"@,
{
    owned("api")
}

pub fn default_strip_credentials() -> (r: bool)
    ensures r,
{
    true
}

impl BasicAuthError {
    pub open spec fn code(&self) -> Seq<char> {
        match self {
            BasicAuthError::MissingAuthHeader => "missing_credentials"@,
            BasicAuthError::InvalidAuthHeader => "invalid_request"@,
            BasicAuthError::InvalidBase64 => "invalid_request"@,
            BasicAuthError::InvalidCredentialFormat => "invalid_request"@,
            BasicAuthError::InvalidCredentials => "invalid_credentials"@,
        }
    }

    pub open spec fn text(&self) -> Seq<char> {
        match self {
            BasicAuthError::MissingAuthHeader => "Basic credentials required"@,
            BasicAuthError::InvalidAuthHeader => "Invalid Authorization header format"@,
            BasicAuthError::InvalidBase64 => "Invalid base64 encoding in credentials"@,
            BasicAuthError::InvalidCredentialFormat => "Invalid credentials format (expected user:password)"@,
            BasicAuthError::InvalidCredentials => "Invalid username or password"@,
        }
    }

    pub fn as_str(&self) -> (r: &'static str)
        ensures r@ == self.code(),
    {
        match self {
            BasicAuthError::MissingAuthHeader => "missing_credentials",
            BasicAuthError::InvalidAuthHeader => "invalid_request",
            BasicAuthError::InvalidBase64 => "invalid_request",
            BasicAuthError::InvalidCredentialFormat => "invalid_request",
            BasicAuthError::InvalidCredentials => "invalid_credentials",
        }
    }

    pub fn description(&self) -> (r: &'static str)
        ensures r@ == self.text(),
    {
        match self {
            BasicAuthError::MissingAuthHeader => "Basic credentials required",
            BasicAuthError::InvalidAuthHeader => "Invalid Authorization header format",
            BasicAuthError::InvalidBase64 => "Invalid base64 encoding in credentials",
            BasicAuthError::InvalidCredentialFormat => "Invalid credentials format (expected user:password)",
            BasicAuthError::InvalidCredentials => "Invalid username or password",
        }
    }
}

/// The `Authorization` header value (lowercase name first).
pub open spec fn auth_header(h: Map<Seq<char>, Seq<char>>) -> Option<Seq<char>> {
    match map_get(h, "authorization"@) {
        Some(v) => Some(v),
        None => map_get(h, "Authorization"@),
    }
}

/// The user name and password the header carries, or why it carries none.
pub open spec fn credentials_of(h: Map<Seq<char>, Seq<char>>) -> Result<(Seq<char>, Seq<char>), BasicAuthError> {
    match auth_header(h) {
        None => Err(BasicAuthError::MissingAuthHeader),
        Some(v) => if !is_prefix("Basic "@, v) && !is_prefix("basic "@, v) {
            Err(BasicAuthError::InvalidAuthHeader)
        } else {
            match base64_standard(trimmed(v.skip(6))) {
                None => Err(BasicAuthError::InvalidBase64),
                Some(bytes) => if !valid_utf8(bytes) {
                    Err(BasicAuthError::InvalidBase64)
                } else {
                    match split_once(decode_utf8(bytes), ':') {
                        None => Err(BasicAuthError::InvalidCredentialFormat),
                        Some(up) => if up.0.len() == 0 {
                            Err(BasicAuthError::InvalidCredentialFormat)
                        } else {
                            Ok(up)
                        },
                    }
                },
            }
        },
    }
}

/// The entry of `user` in the table (first matching row).
pub open spec fn lookup(t: Seq<(String, CredentialEntry)>, user: Seq<char>) -> Option<CredentialEntry>
    decreases t.len(),
{
    if t.len() == 0 {
        None
    } else if t[0].0@ == user {
        Some(t[0].1)
    } else {
        lookup(t.drop_first(), user)
    }
}

/// The headers forwarded for an authenticated user.
pub open spec fn user_headers(h: Map<Seq<char>, Seq<char>>, strip: bool, user: Seq<char>, e: CredentialEntry) -> Map<Seq<char>, Seq<char>> {
    let h0 = if strip { h.remove("authorization"@).remove("Authorization"@) } else { h };
    let h1 = h0.insert("x-auth-user"@, user);
    let csv = joined(e.roles@.map_values(|s: String| s@), ","@);
    let h2 = if e.roles@.len() > 0 { h1.insert("x-auth-roles"@, csv).insert("x-auth-consumer-groups"@, csv) } else { h1 };
    h2.insert("x-auth-consumer"@, user)
}

impl BasicAuth {
    /// The authenticated user and entry, or why authentication failed.
    pub open spec fn validated(&self, h: Map<Seq<char>, Seq<char>>) -> Result<(Seq<char>, CredentialEntry), BasicAuthError> {
        match credentials_of(h) {
            Err(e) => Err(e),
            Ok(up) => match lookup(self.credentials@, up.0) {
                None => Err(BasicAuthError::InvalidCredentials),
                Some(e) => if e.password@ != up.1 { Err(BasicAuthError::InvalidCredentials) } else { Ok((up.0, e)) },
            },
        }
    }

    /// The 401 response for `e`.
    pub open spec fn is_unauthorized(&self, resp: Response, e: BasicAuthError) -> bool {
        &&& resp.status == 401
        &&& resp.headers@ == one_header("content-type"@, "application/json"@).insert(
            "www-authenticate"@,
            "Basic realm=\""@ + self.realm@ + "\", error=\""@ + e.code() + "\", error_description=\""@ + e.text() + "\""@,
        )
        &&& body_view(resp.body) == Some(json_bytes(JsonV::Object(problem_members(
            "urn:barbacane:error:authentication-failed"@, "Authentication failed"@, 401, e.text()))))
    }

    /// Validates Basic credentials and adds the consumer headers.
    pub fn on_request(&self, req: Request) -> (r: Action)
        ensures
            match r {
                Action::Continue(out) => self.validated(req.headers@) matches Ok(ue)
                    && with_headers(out, req, user_headers(req.headers@, self.strip_credentials, ue.0, ue.1)),
                Action::ShortCircuit(resp) => self.validated(req.headers@) matches Err(e) && self.is_unauthorized(resp, e),
            },
    {
        match self.validate_request(&req) {
            Ok((username, entry)) => {
                let mut req = req;
                if self.strip_credentials {
                    req.headers.remove("authorization");
                    req.headers.remove("Authorization");
                }
                req.headers.insert(owned("x-auth-user"), username.clone());
                if entry.roles.len() > 0 {
                    let csv = join_strings(&entry.roles, ",");
                    req.headers.insert(owned("x-auth-roles"), csv.clone());
                    req.headers.insert(owned("x-auth-consumer-groups"), csv);
                }
                req.headers.insert(owned("x-auth-consumer"), username);
                Action::Continue(req)
            },
            Err(e) => Action::ShortCircuit(self.unauthorized_response(&e)),
        }
    }

    /// Passes responses through unchanged.
    pub fn on_response(&self, resp: Response) -> (r: Response)
        ensures
            r == resp,
    {
        resp
    }

    /// The authenticated user and entry, or why authentication failed.
    pub fn validate_request(&self, req: &Request) -> (r: Result<(String, &CredentialEntry), BasicAuthError>)
        ensures
            match r {
                Ok((u, e)) => self.validated(req.headers@) == Ok::<(Seq<char>, CredentialEntry), BasicAuthError>((u@, *e)),
                Err(e) => self.validated(req.headers@) == Err::<(Seq<char>, CredentialEntry), BasicAuthError>(e),
            },
    {
        let (username, password) = match self.extract_credentials(req) {
            Ok(up) => up,
            Err(e) => return Err(e),
        };
        let ghost t = self.credentials@;
        assert(t.skip(0) =~= t);
        let mut i: usize = 0;
        while i < self.credentials.len()
            invariant
                t == self.credentials@,
                i <= t.len(),
                credentials_of(req.headers@) == Ok::<(Seq<char>, Seq<char>), BasicAuthError>((username@, password@)),
                lookup(t, username@) == lookup(t.skip(i as int), username@),
            decreases t.len() - i,
        {
            let ghost rest = t.skip(i as int);
            assert(rest[0] == t[i as int]);
            if str_eq(self.credentials[i].0.as_str(), username.as_str()) {
                let entry = &self.credentials[i].1;
                if !str_eq(entry.password.as_str(), password.as_str()) {
                    return Err(BasicAuthError::InvalidCredentials);
                }
                return Ok((username, entry));
            }
            assert(rest.drop_first() =~= t.skip(i + 1));
            i = i + 1;
        }
        Err(BasicAuthError::InvalidCredentials)
    }

    /// The user name and password of the `Authorization` header.
    pub fn extract_credentials(&self, req: &Request) -> (r: Result<(String, String), BasicAuthError>)
        ensures
            match r {
                Ok((u, p)) => credentials_of(req.headers@) == Ok::<(Seq<char>, Seq<char>), BasicAuthError>((u@, p@)),
                Err(e) => credentials_of(req.headers@) == Err::<(Seq<char>, Seq<char>), BasicAuthError>(e),
            },
    {
        let header = match req.headers.get("authorization") {
            Some(v) => v,
            None => match req.headers.get("Authorization") {
                Some(v) => v,
                None => return Err(BasicAuthError::MissingAuthHeader),
            },
        };
        if !starts_with(header.as_str(), "Basic ") && !starts_with(header.as_str(), "basic ") {
            return Err(BasicAuthError::InvalidAuthHeader);
        }
        proof {
            assert(header@.len() >= 6) by {
                reveal_strlit("Basic ");
                reveal_strlit("basic ");
            }
        }
        let rest = skip_chars(header.as_str(), 6);
        let encoded = trim(rest.as_str());
        let bytes = match decode_standard(encoded.as_str()) {
            Some(b) => b,
            None => return Err(BasicAuthError::InvalidBase64),
        };
        let decoded = match string_from_utf8(bytes) {
            Some(s) => s,
            None => return Err(BasicAuthError::InvalidBase64),
        };
        match split_once_char(decoded.as_str(), ':') {
            None => Err(BasicAuthError::InvalidCredentialFormat),
            Some((u, p)) => {
                if u.as_str().is_empty() {
                    Err(BasicAuthError::InvalidCredentialFormat)
                } else {
                    Ok((u, p))
                }
            },
        }
    }

    /// The 401 response with a `WWW-Authenticate` challenge.
    pub fn unauthorized_response(&self, error: &BasicAuthError) -> (r: Response)
        ensures
            self.is_unauthorized(r, *error),
    {
        let mut headers = HeaderMap::new();
        headers.insert(owned("content-type"), owned("application/json"));
        let mut www = owned("Basic realm=\"");
        push_str(&mut www, self.realm.as_str());
        push_str(&mut www, "\", error=\"");
        push_str(&mut www, error.as_str());
        push_str(&mut www, "\", error_description=\"");
        push_str(&mut www, error.description());
        push_str(&mut www, "\"");
        headers.insert(owned("www-authenticate"), www);
        let body = Json::Object(problem_object(
            "urn:barbacane:error:authentication-failed", "Authentication failed", 401, error.description()));
        Response { status: 401, headers, body: Some(to_json_bytes(&body)) }
    }
}

} // verus!
