//! JWT bearer authentication: token extraction and parsing, algorithm and
//! key binding, claim validation, and the headers set for downstream.

use vstd::prelude::*;
use crate::codec::{base64_url_no_pad, decode_url_no_pad};
use crate::headers::{map_get, opt_view};
use crate::http::{Action, Request, Response, body_view, json_text_response};
use crate::json::{
    Json, JsonNumber, JsonV, NumV, get, json_bytes, json_members_view, json_seq_view, json_text,
    lemma_members_view, lemma_seq_view, members_new, members_push, arr_new, arr_push, obj_push, parse_json,
    parsed, to_json_bytes, to_json_text,
};
use crate::text::{char_is_whitespace, concat, contains, contains_seq, is_prefix, is_whitespace, owned, push_char, push_str,
    skip_chars, split, split_char, starts_with, str_eq, trim, trimmed, views, chars_of, joined, join_strings};
use vstd::utf8::encode_utf8;

verus! {

// ---------------------------------------------------------------------------
// Errors
// ---------------------------------------------------------------------------

/// Why a request is not authenticated.
pub enum JwtError {
    MissingAuthHeader,
    InvalidAuthHeader,
    MalformedToken,
    InvalidBase64,
    InvalidJson,
    TokenExpired,
    TokenNotYetValid,
    InvalidIssuer,
    InvalidAudience,
    UnsupportedAlgorithm(String),
    SignatureInvalid,
}

/// A failure as plain values.
pub enum JwtFailure {
    MissingAuthHeader,
    InvalidAuthHeader,
    MalformedToken,
    InvalidBase64,
    InvalidJson,
    TokenExpired,
    TokenNotYetValid,
    InvalidIssuer,
    InvalidAudience,
    UnsupportedAlgorithm(Seq<char>),
    SignatureInvalid,
}

pub open spec fn failure(e: JwtError) -> JwtFailure {
    match e {
        JwtError::MissingAuthHeader => JwtFailure::MissingAuthHeader,
        JwtError::InvalidAuthHeader => JwtFailure::InvalidAuthHeader,
        JwtError::MalformedToken => JwtFailure::MalformedToken,
        JwtError::InvalidBase64 => JwtFailure::InvalidBase64,
        JwtError::InvalidJson => JwtFailure::InvalidJson,
        JwtError::TokenExpired => JwtFailure::TokenExpired,
        JwtError::TokenNotYetValid => JwtFailure::TokenNotYetValid,
        JwtError::InvalidIssuer => JwtFailure::InvalidIssuer,
        JwtError::InvalidAudience => JwtFailure::InvalidAudience,
        JwtError::UnsupportedAlgorithm(a) => JwtFailure::UnsupportedAlgorithm(a@),
        JwtError::SignatureInvalid => JwtFailure::SignatureInvalid,
    }
}

impl JwtError {
    pub open spec fn code_spec(&self) -> Seq<char> {
        match self {
            JwtError::MissingAuthHeader => "missing_token"@,
            JwtError::InvalidAuthHeader => "invalid_request"@,
            _ => "invalid_token"@,
        }
    }

    pub open spec fn description_spec(&self) -> Seq<char> {
        match self {
            JwtError::MissingAuthHeader => "Bearer token required"@,
            JwtError::InvalidAuthHeader => "Invalid Authorization header format"@,
            JwtError::MalformedToken => "Malformed JWT token"@,
            JwtError::InvalidBase64 => "Invalid base64 encoding in token"@,
            JwtError::InvalidJson => "Invalid JSON in token"@,
            JwtError::TokenExpired => "Token has expired"@,
            JwtError::TokenNotYetValid => "Token is not yet valid"@,
            JwtError::InvalidIssuer => "Token issuer mismatch"@,
            JwtError::InvalidAudience => "Token audience mismatch"@,
            JwtError::UnsupportedAlgorithm(alg) => "Unsupported algorithm: "@ + alg@,
            JwtError::SignatureInvalid => "Token signature verification failed"@,
        }
    }

    /// The RFC 6750 error code.
    pub fn as_str(&self) -> (r: &'static str)
        ensures
            r@ == self.code_spec(),
    {
        match self {
            JwtError::MissingAuthHeader => "missing_token",
            JwtError::InvalidAuthHeader => "invalid_request",
            _ => "invalid_token",
        }
    }

    /// The human-readable description.
    pub fn description(&self) -> (r: String)
        ensures
            r@ == self.description_spec(),
    {
        match self {
            JwtError::MissingAuthHeader => owned("Bearer token required"),
            JwtError::InvalidAuthHeader => owned("Invalid Authorization header format"),
            JwtError::MalformedToken => owned("Malformed JWT token"),
            JwtError::InvalidBase64 => owned("Invalid base64 encoding in token"),
            JwtError::InvalidJson => owned("Invalid JSON in token"),
            JwtError::TokenExpired => owned("Token has expired"),
            JwtError::TokenNotYetValid => owned("Token is not yet valid"),
            JwtError::InvalidIssuer => owned("Token issuer mismatch"),
            JwtError::InvalidAudience => owned("Token audience mismatch"),
            JwtError::UnsupportedAlgorithm(alg) => concat("Unsupported algorithm: ", alg.as_str()),
            JwtError::SignatureInvalid => owned("Token signature verification failed"),
        }
    }
}

// ---------------------------------------------------------------------------
// Token extraction
// ---------------------------------------------------------------------------

/// The bearer token of a request: the `authorization` header (or
/// `Authorization`), which must start with `Bearer ` or `bearer `; the rest,
/// trimmed.
pub open spec fn bearer_token(h: Map<Seq<char>, Seq<char>>) -> Result<Seq<char>, JwtFailure> {
    let v = match map_get(h, "authorization"@) {
        Some(v) => Some(v),
        None => map_get(h, "Authorization"@),
    };
    match v {
        None => Err(JwtFailure::MissingAuthHeader),
        Some(a) => if is_prefix("Bearer "@, a) || is_prefix("bearer "@, a) {
            Ok(trimmed(a.skip(7)))
        } else {
            Err(JwtFailure::InvalidAuthHeader)
        },
    }
}

// ---------------------------------------------------------------------------
// Typed fields of a JSON object, as serde's derive reads them
// ---------------------------------------------------------------------------

/// An optional string field: absent or null is `None`; another non-string
/// value is an error.
pub open spec fn opt_str_field(v: JsonV, k: Seq<char>) -> Result<Option<Seq<char>>, ()> {
    match get(v, k) {
        None => Ok(None),
        Some(JsonV::Null) => Ok(None),
        Some(JsonV::Str(s)) => Ok(Some(s)),
        _ => Err(()),
    }
}

/// An optional unsigned field: absent or null is `None`; a value that is
/// not a non-negative integer is an error.
pub open spec fn opt_u64_field(v: JsonV, k: Seq<char>) -> Result<Option<u64>, ()> {
    match get(v, k) {
        None => Ok(None),
        Some(JsonV::Null) => Ok(None),
        Some(JsonV::Number(NumV::PosInt(u))) => Ok(Some(u)),
        _ => Err(()),
    }
}

/// The strings of an array, if all items are strings.
pub open spec fn all_strs(items: Seq<JsonV>) -> Option<Seq<Seq<char>>>
    decreases items.len(),
{
    if items.len() == 0 {
        Some(Seq::empty())
    } else {
        match (all_strs(items.drop_last()), items.last()) {
            (Some(prev), JsonV::Str(s)) => Some(prev.push(s)),
            _ => None,
        }
    }
}

/// The audience as plain values.
pub enum AudienceV {
    Single(Seq<char>),
    Multiple(Seq<Seq<char>>),
}

/// The `aud` claim: a string, or an array of strings.
pub open spec fn aud_field(v: JsonV) -> Result<Option<AudienceV>, ()> {
    match get(v, "aud"@) {
        None => Ok(None),
        Some(JsonV::Null) => Ok(None),
        Some(JsonV::Str(s)) => Ok(Some(AudienceV::Single(s))),
        Some(JsonV::Array(items)) => match all_strs(items) {
            Some(ss) => Ok(Some(AudienceV::Multiple(ss))),
            None => Err(()),
        },
        _ => Err(()),
    }
}

fn opt_str_exec(v: &Json, k: &str) -> (r: Result<Option<String>, ()>)
    ensures
        match r {
            Ok(o) => opt_str_field(v@, k@) == Ok::<Option<Seq<char>>, ()>(opt_view(o)),
            Err(_) => opt_str_field(v@, k@) is Err,
        },
{
    match v.get(k) {
        None => Ok(None),
        Some(Json::Null) => Ok(None),
        Some(Json::Str(s)) => Ok(Some(s.clone())),
        _ => Err(()),
    }
}

fn opt_u64_exec(v: &Json, k: &str) -> (r: Result<Option<u64>, ()>)
    ensures
        match r {
            Ok(o) => opt_u64_field(v@, k@) == Ok::<Option<u64>, ()>(o),
            Err(_) => opt_u64_field(v@, k@) is Err,
        },
{
    match v.get(k) {
        None => Ok(None),
        Some(Json::Null) => Ok(None),
        Some(Json::Number(JsonNumber::PosInt(u))) => Ok(Some(*u)),
        _ => Err(()),
    }
}

// ---------------------------------------------------------------------------
// Header and claims
// ---------------------------------------------------------------------------

/// The audience of a token: one string or several.
pub enum Audience {
    Single(String),
    Multiple(Vec<String>),
}

pub open spec fn audience_view(a: Audience) -> AudienceV {
    match a {
        Audience::Single(s) => AudienceV::Single(s@),
        Audience::Multiple(v) => AudienceV::Multiple(views(v@)),
    }
}

/// Whether the audience holds `value`.
pub open spec fn aud_contains(a: AudienceV, value: Seq<char>) -> bool {
    match a {
        AudienceV::Single(s) => s == value,
        AudienceV::Multiple(v) => v.contains(value),
    }
}

impl Audience {
    /// Whether the audience holds `value`.
    pub fn contains(&self, value: &str) -> (r: bool)
        ensures
            r == aud_contains(audience_view(*self), value@),
    {
        match self {
            Audience::Single(s) => str_eq(s.as_str(), value),
            Audience::Multiple(v) => {
                let ghost vv = views(v@);
                let mut i: usize = 0;
                while i < v.len()
                    invariant
                        i <= v@.len(),
                        vv == views(v@),
                        audience_view(*self) == AudienceV::Multiple(vv),
                        forall|j: int| 0 <= j < i ==> vv[j] != value@,
                    decreases v@.len() - i,
                {
                    if str_eq(v[i].as_str(), value) {
                        assert(vv[i as int] == value@);
                        assert(vv.contains(value@));
                        return true;
                    }
                    i = i + 1;
                }
                false
            },
        }
    }
}

/// The JOSE header.
pub struct JwtHeader {
    pub alg: String,
    pub typ: Option<String>,
    pub kid: Option<String>,
}

/// The header as plain values.
pub struct HeaderV {
    pub alg: Seq<char>,
    pub typ: Option<Seq<char>>,
    pub kid: Option<Seq<char>>,
}

pub open spec fn header_view(h: JwtHeader) -> HeaderV {
    HeaderV { alg: h.alg@, typ: opt_view(h.typ), kid: opt_view(h.kid) }
}

/// The header read from a JSON value: `alg` is a required string.
pub open spec fn header_of(v: JsonV) -> Result<HeaderV, ()> {
    match v {
        JsonV::Object(_) => match (get(v, "alg"@), opt_str_field(v, "typ"@), opt_str_field(v, "kid"@)) {
            (Some(JsonV::Str(alg)), Ok(typ), Ok(kid)) => Ok(HeaderV { alg, typ, kid }),
            _ => Err(()),
        },
        _ => Err(()),
    }
}

/// The registered claims, and all the others.
pub struct JwtClaims {
    pub sub: Option<String>,
    pub iss: Option<String>,
    pub aud: Option<Audience>,
    pub exp: Option<u64>,
    pub nbf: Option<u64>,
    pub iat: Option<u64>,
    pub jti: Option<String>,
    pub extra: Vec<(String, Json)>,
}

/// The claims as plain values.
pub struct ClaimsV {
    pub sub: Option<Seq<char>>,
    pub iss: Option<Seq<char>>,
    pub aud: Option<AudienceV>,
    pub exp: Option<u64>,
    pub nbf: Option<u64>,
    pub iat: Option<u64>,
    pub jti: Option<Seq<char>>,
    pub extra: Seq<(Seq<char>, JsonV)>,
}

pub open spec fn claims_view(c: JwtClaims) -> ClaimsV {
    ClaimsV {
        sub: opt_view(c.sub),
        iss: opt_view(c.iss),
        aud: match c.aud { Some(a) => Some(audience_view(a)), None => None },
        exp: c.exp,
        nbf: c.nbf,
        iat: c.iat,
        jti: opt_view(c.jti),
        extra: json_members_view(c.extra@),
    }
}

/// A registered claim name.
pub open spec fn known_claim(k: Seq<char>) -> bool {
    k == "sub"@ || k == "iss"@ || k == "aud"@ || k == "exp"@ || k == "nbf"@ || k == "iat"@ || k == "jti"@
}

/// The members that are not registered claims, in order.
pub open spec fn extra_members(m: Seq<(Seq<char>, JsonV)>) -> Seq<(Seq<char>, JsonV)>
    decreases m.len(),
{
    if m.len() == 0 {
        Seq::empty()
    } else {
        let prev = extra_members(m.drop_last());
        if known_claim(m.last().0) { prev } else { prev.push(m.last()) }
    }
}

/// The claims read from a JSON value.
pub open spec fn claims_of(v: JsonV) -> Result<ClaimsV, ()> {
    match v {
        JsonV::Object(m) => match (opt_str_field(v, "sub"@), opt_str_field(v, "iss"@), aud_field(v),
            opt_u64_field(v, "exp"@), opt_u64_field(v, "nbf"@), opt_u64_field(v, "iat"@), opt_str_field(v, "jti"@)) {
            (Ok(sub), Ok(iss), Ok(aud), Ok(exp), Ok(nbf), Ok(iat), Ok(jti)) =>
                Ok(ClaimsV { sub, iss, aud, exp, nbf, iat, jti, extra: extra_members(m) }),
            _ => Err(()),
        },
        _ => Err(()),
    }
}

fn is_known_claim(k: &str) -> (r: bool)
    ensures
        r == known_claim(k@),
{
    str_eq(k, "sub") || str_eq(k, "iss") || str_eq(k, "aud") || str_eq(k, "exp") || str_eq(k, "nbf")
        || str_eq(k, "iat") || str_eq(k, "jti")
}

fn aud_exec(v: &Json) -> (r: Result<Option<Audience>, ()>)
    ensures
        match r {
            Ok(o) => aud_field(v@) == Ok::<Option<AudienceV>, ()>(match o { Some(a) => Some(audience_view(a)), None => None }),
            Err(_) => aud_field(v@) is Err,
        },
{
    match v.get("aud") {
        None => Ok(None),
        Some(Json::Null) => Ok(None),
        Some(Json::Str(s)) => Ok(Some(Audience::Single(s.clone()))),
        Some(Json::Array(items)) => {
            proof { lemma_seq_view(items@); }
            let ghost iv = json_seq_view(items@);
            let mut out: Vec<String> = Vec::new();
            let mut i: usize = 0;
            assert(iv.subrange(0, 0) =~= Seq::<JsonV>::empty());
            assert(views(out@) =~= Seq::<Seq<char>>::empty());
            while i < items.len()
                invariant
                    i <= items@.len(),
                    iv.len() == items@.len(),
                    iv == json_seq_view(items@),
                    get(v@, "aud"@) == Some(JsonV::Array(iv)),
                    forall|k: int| 0 <= k < items@.len() ==> #[trigger] iv[k] == items@[k]@,
                    all_strs(iv.subrange(0, i as int)) == Some(views(out@)),
                decreases items@.len() - i,
            {
                assert(iv.subrange(0, i + 1).drop_last() =~= iv.subrange(0, i as int));
                assert(iv.subrange(0, i + 1).last() == items@[i as int]@);
                match &items[i] {
                    Json::Str(s) => {
                        let ghost before = views(out@);
                        out.push(s.clone());
                        assert(views(out@) =~= before.push(s@));
                    },
                    _ => {
                        proof { lemma_all_strs_prefix_none(iv, i as int + 1); }
                        assert(iv.subrange(0, items@.len() as int) =~= iv);
                        return Err(());
                    },
                }
                i = i + 1;
            }
            assert(iv.subrange(0, items@.len() as int) =~= iv);
            Ok(Some(Audience::Multiple(out)))
        },
        _ => Err(()),
    }
}

proof fn lemma_all_strs_prefix_none(s: Seq<JsonV>, n: int)
    requires
        0 <= n <= s.len(),
        all_strs(s.subrange(0, n)) is None,
    ensures
        all_strs(s) is None,
    decreases s.len() - n,
{
    if n < s.len() {
        assert(s.subrange(0, n + 1).drop_last() =~= s.subrange(0, n));
        lemma_all_strs_prefix_none(s, n + 1);
    } else {
        assert(s.subrange(0, n) =~= s);
    }
}

/// Reads the header from a JSON value.
pub fn header_from(v: &Json) -> (r: Result<JwtHeader, ()>)
    ensures
        match r {
            Ok(h) => header_of(v@) == Ok::<HeaderV, ()>(header_view(h)),
            Err(_) => header_of(v@) is Err,
        },
{
    match v {
        Json::Object(_) => {},
        _ => return Err(()),
    }
    let alg = match v.get("alg") {
        Some(Json::Str(a)) => a.clone(),
        _ => return Err(()),
    };
    let typ = match opt_str_exec(v, "typ") {
        Ok(t) => t,
        Err(_) => return Err(()),
    };
    let kid = match opt_str_exec(v, "kid") {
        Ok(k) => k,
        Err(_) => return Err(()),
    };
    Ok(JwtHeader { alg, typ, kid })
}

/// Reads the claims from a JSON value.
pub fn claims_from(v: &Json) -> (r: Result<JwtClaims, ()>)
    ensures
        match r {
            Ok(c) => claims_of(v@) == Ok::<ClaimsV, ()>(claims_view(c)),
            Err(_) => claims_of(v@) is Err,
        },
{
    let m = match v {
        Json::Object(m) => m,
        _ => return Err(()),
    };
    let sub = match opt_str_exec(v, "sub") { Ok(x) => x, Err(_) => return Err(()) };
    let iss = match opt_str_exec(v, "iss") { Ok(x) => x, Err(_) => return Err(()) };
    let aud = match aud_exec(v) { Ok(x) => x, Err(_) => return Err(()) };
    let exp = match opt_u64_exec(v, "exp") { Ok(x) => x, Err(_) => return Err(()) };
    let nbf = match opt_u64_exec(v, "nbf") { Ok(x) => x, Err(_) => return Err(()) };
    let iat = match opt_u64_exec(v, "iat") { Ok(x) => x, Err(_) => return Err(()) };
    let jti = match opt_str_exec(v, "jti") { Ok(x) => x, Err(_) => return Err(()) };
    proof { lemma_members_view(m@); }
    let ghost mv = json_members_view(m@);
    let mut extra = members_new();
    let mut i: usize = 0;
    assert(mv.subrange(0, 0) =~= Seq::<(Seq<char>, JsonV)>::empty());
    while i < m.len()
        invariant
            i <= m@.len(),
            mv == json_members_view(m@),
            mv.len() == m@.len(),
            forall|k: int| 0 <= k < m@.len() ==> #[trigger] mv[k] == (m@[k].0@, m@[k].1@),
            json_members_view(extra@) == extra_members(mv.subrange(0, i as int)),
        decreases m@.len() - i,
    {
        assert(mv.subrange(0, i + 1).drop_last() =~= mv.subrange(0, i as int));
        assert(mv.subrange(0, i + 1).last() == mv[i as int]);
        if !is_known_claim(m[i].0.as_str()) {
            members_push(&mut extra, m[i].0.clone(), m[i].1.copy());
        }
        i = i + 1;
    }
    assert(mv.subrange(0, m@.len() as int) =~= mv);
    Ok(JwtClaims { sub, iss, aud, exp, nbf, iat, jti, extra })
}

// ---------------------------------------------------------------------------
// The parsed token
// ---------------------------------------------------------------------------

/// A token split and decoded.
pub struct ParsedJwt {
    pub header: JwtHeader,
    pub claims: JwtClaims,
    /// `<header>.<payload>`, as signed.
    pub signing_input: String,
    pub signature: Vec<u8>,
}

/// The parsed token as plain values.
pub struct ParsedV {
    pub header: HeaderV,
    pub claims: ClaimsV,
    pub signing_input: Seq<char>,
    pub signature: Seq<u8>,
}

pub open spec fn parsed_view(p: ParsedJwt) -> ParsedV {
    ParsedV { header: header_view(p.header), claims: claims_view(p.claims), signing_input: p.signing_input@, signature: p.signature@ }
}

/// The header of decoded bytes.
pub open spec fn json_header(b: Seq<u8>) -> Result<HeaderV, ()> {
    match parsed(b) {
        Some(v) => header_of(v),
        None => Err(()),
    }
}

/// The claims of decoded bytes.
pub open spec fn json_claims(b: Seq<u8>) -> Result<ClaimsV, ()> {
    match parsed(b) {
        Some(v) => claims_of(v),
        None => Err(()),
    }
}

/// A token parsed: three dot-separated parts, each URL-safe base64, the
/// first two JSON.
pub open spec fn parse_spec(token: Seq<char>) -> Result<ParsedV, JwtFailure> {
    let parts = split_char(token, '.');
    if parts.len() != 3 {
        Err(JwtFailure::MalformedToken)
    } else {
        match (base64_url_no_pad(parts[0]), base64_url_no_pad(parts[1]), base64_url_no_pad(parts[2])) {
            (Some(h), Some(c), Some(sig)) => match (json_header(h), json_claims(c)) {
                (Ok(hv), Ok(cv)) => Ok(ParsedV { header: hv, claims: cv, signing_input: parts[0] + seq!['.'] + parts[1], signature: sig }),
                _ => Err(JwtFailure::InvalidJson),
            },
            _ => Err(JwtFailure::InvalidBase64),
        }
    }
}

/// Whether the algorithm is an accepted asymmetric one.
pub open spec fn accepted_alg(alg: Seq<char>) -> bool {
    alg == "RS256"@ || alg == "RS384"@ || alg == "RS512"@ || alg == "ES256"@ || alg == "ES384"@ || alg == "ES512"@
}

// ---------------------------------------------------------------------------
// Keys
// ---------------------------------------------------------------------------

/// The public part of a JSON Web Key.
pub struct Jwk {
    pub kty: String,
    pub kid: Option<String>,
    pub alg: Option<String>,
    pub use_: Option<String>,
    pub n: Option<String>,
    pub e: Option<String>,
    pub x: Option<String>,
    pub y: Option<String>,
    pub crv: Option<String>,
}

/// The key type an algorithm needs.
pub open spec fn expected_kty(alg: Seq<char>) -> Option<Seq<char>> {
    if alg == "RS256"@ || alg == "RS384"@ || alg == "RS512"@ {
        Some("RSA"@)
    } else if alg == "ES256"@ || alg == "ES384"@ || alg == "ES512"@ {
        Some("EC"@)
    } else {
        None
    }
}

/// The key binding of RFC 8725: a configured key whose `alg` (if any)
/// is the token's, whose `use` (if any) is `sig`, and whose type fits the
/// algorithm.
pub open spec fn key_check(jwk: Option<Jwk>, alg: Seq<char>) -> Result<(), JwtFailure> {
    match jwk {
        None => Err(JwtFailure::SignatureInvalid),
        Some(k) => if k.alg is Some && k.alg->0@ != alg {
            Err(JwtFailure::SignatureInvalid)
        } else if k.use_ is Some && k.use_->0@ != "sig"@ {
            Err(JwtFailure::SignatureInvalid)
        } else {
            match expected_kty(alg) {
                None => Err(JwtFailure::UnsupportedAlgorithm(alg)),
                Some(t) => if k.kty@ != t { Err(JwtFailure::SignatureInvalid) } else { Ok(()) },
            }
        },
    }
}

pub open spec fn opt_str_json(o: Option<Seq<char>>) -> JsonV {
    match o {
        Some(s) => JsonV::Str(s),
        None => JsonV::Null,
    }
}

/// The key as JSON (absent members as null).
pub open spec fn jwk_json(k: Jwk) -> JsonV {
    JsonV::Object(seq![
        ("kty"@, JsonV::Str(k.kty@)),
        ("kid"@, opt_str_json(opt_view(k.kid))),
        ("alg"@, opt_str_json(opt_view(k.alg))),
        ("use"@, opt_str_json(opt_view(k.use_))),
        ("n"@, opt_str_json(opt_view(k.n))),
        ("e"@, opt_str_json(opt_view(k.e))),
        ("x"@, opt_str_json(opt_view(k.x))),
        ("y"@, opt_str_json(opt_view(k.y))),
        ("crv"@, opt_str_json(opt_view(k.crv))),
    ])
}

pub open spec fn byte_array(b: Seq<u8>) -> JsonV {
    JsonV::Array(b.map_values(|x: u8| JsonV::Number(NumV::PosInt(x as u64))))
}

/// The request of the host's signature check.
pub open spec fn verify_request_json(alg: Seq<char>, k: Jwk, message: Seq<char>, signature: Seq<u8>) -> JsonV {
    JsonV::Object(seq![
        ("algorithm"@, JsonV::Str(alg)),
        ("jwk"@, jwk_json(k)),
        ("message"@, JsonV::Str(message)),
        ("signature"@, byte_array(signature)),
    ])
}

fn opt_json_exec(o: &Option<String>) -> (r: Json)
    ensures
        r@ == opt_str_json(opt_view(*o)),
{
    match o {
        Some(s) => Json::Str(s.clone()),
        None => Json::Null,
    }
}

fn jwk_to_json(k: &Jwk) -> (r: Json)
    ensures
        r@ == jwk_json(*k),
{
    let mut m = members_new();
    obj_push(&mut m, "kty", Json::Str(k.kty.clone()));
    obj_push(&mut m, "kid", opt_json_exec(&k.kid));
    obj_push(&mut m, "alg", opt_json_exec(&k.alg));
    obj_push(&mut m, "use", opt_json_exec(&k.use_));
    obj_push(&mut m, "n", opt_json_exec(&k.n));
    obj_push(&mut m, "e", opt_json_exec(&k.e));
    obj_push(&mut m, "x", opt_json_exec(&k.x));
    obj_push(&mut m, "y", opt_json_exec(&k.y));
    obj_push(&mut m, "crv", opt_json_exec(&k.crv));
    assert(json_members_view(m@) =~= jwk_json(*k)->Object_0);
    Json::Object(m)
}

fn bytes_json(b: &Vec<u8>) -> (r: Json)
    ensures
        r@ == byte_array(b@),
{
    let mut out = arr_new();
    let mut i: usize = 0;
    while i < b.len()
        invariant
            i <= b@.len(),
            json_seq_view(out@) == b@.subrange(0, i as int).map_values(|x: u8| JsonV::Number(NumV::PosInt(x as u64))),
        decreases b@.len() - i,
    {
        let ghost before = json_seq_view(out@);
        arr_push(&mut out, Json::Number(JsonNumber::PosInt(b[i] as u64)));
        assert(b@.subrange(0, i + 1).map_values(|x: u8| JsonV::Number(NumV::PosInt(x as u64)))
            =~= before.push(JsonV::Number(NumV::PosInt(b@[i as int] as u64))));
        i = i + 1;
    }
    assert(b@.subrange(0, b@.len() as int) =~= b@);
    Json::Array(out)
}

// ---------------------------------------------------------------------------
// Consumer groups
// ---------------------------------------------------------------------------

/// The whitespace-separated words of a text.
pub open spec fn words(s: Seq<char>) -> Seq<Seq<char>>
    decreases s.len(),
{
    if s.len() == 0 {
        Seq::empty()
    } else {
        let w = words(s.drop_last());
        let c = s.last();
        if char_is_whitespace(c) {
            w
        } else if s.len() > 1 && !char_is_whitespace(s[s.len() - 2]) && w.len() > 0 {
            w.update(w.len() - 1, w.last().push(c))
        } else {
            w.push(seq![c])
        }
    }
}

/// The strings among the items.
pub open spec fn str_items(items: Seq<JsonV>) -> Seq<Seq<char>>
    decreases items.len(),
{
    if items.len() == 0 {
        Seq::empty()
    } else {
        let prev = str_items(items.drop_last());
        match items.last() {
            JsonV::Str(s) => prev.push(s),
            _ => prev,
        }
    }
}

/// The groups of a claim value as a comma-separated list: the strings of
/// an array; a string as it is when it holds a comma, else its words.
pub open spec fn groups_csv(v: JsonV) -> Seq<char> {
    match v {
        JsonV::Array(items) => joined(str_items(items), ","@),
        JsonV::Str(s) => if contains_seq(s, ","@) { s } else { joined(words(s), ","@) },
        _ => Seq::empty(),
    }
}

/// The words of a text, split on whitespace.
pub fn split_whitespace(s: &str) -> (r: Vec<String>)
    ensures
        views(r@) == words(s@),
{
    let cs = chars_of(s);
    let mut out: Vec<String> = Vec::new();
    let mut cur = String::new();
    let mut in_word = false;
    let mut i: usize = 0;
    assert(s@.subrange(0, 0) =~= Seq::<char>::empty());
    assert(views(out@) =~= Seq::<Seq<char>>::empty());
    while i < cs.len()
        invariant
            i <= cs@.len(),
            cs@ == s@,
            in_word ==> i > 0 && !char_is_whitespace(s@[i - 1]),
            !in_word ==> i == 0 || char_is_whitespace(s@[i - 1]),
            in_word ==> words(s@.subrange(0, i as int)) == views(out@).push(cur@),
            !in_word ==> words(s@.subrange(0, i as int)) == views(out@),
        decreases cs@.len() - i,
    {
        let c = cs[i];
        let ghost t = s@.subrange(0, i + 1);
        assert(t.drop_last() =~= s@.subrange(0, i as int));
        assert(t.last() == c);
        if is_whitespace(c) {
            if in_word {
                let ghost before = views(out@);
                out.push(cur);
                assert(views(out@) =~= before.push(cur@));
                cur = String::new();
                in_word = false;
            }
        } else {
            if in_word {
                let ghost w = views(out@).push(cur@);
                push_char(&mut cur, c);
                assert(t[t.len() - 2] == s@[i - 1]);
                assert(views(out@).push(cur@) =~= w.update(w.len() - 1, w.last().push(c)));
            } else {
                cur = String::new();
                push_char(&mut cur, c);
                assert(cur@ =~= seq![c]);
                in_word = true;
            }
        }
        i = i + 1;
    }
    if in_word {
        let ghost before = views(out@);
        out.push(cur);
        assert(views(out@) =~= before.push(cur@));
    }
    assert(s@.subrange(0, cs@.len() as int) =~= s@);
    out
}

/// Builds the comma-separated groups of a claim value.
pub fn groups_of(v: &Json) -> (r: String)
    ensures
        r@ == groups_csv(v@),
{
    match v {
        Json::Array(items) => {
            proof { lemma_seq_view(items@); }
            let ghost iv = json_seq_view(items@);
            let mut strs: Vec<String> = Vec::new();
            let mut i: usize = 0;
            assert(iv.subrange(0, 0) =~= Seq::<JsonV>::empty());
            assert(views(strs@) =~= Seq::<Seq<char>>::empty());
            while i < items.len()
                invariant
                    i <= items@.len(),
                    iv.len() == items@.len(),
                    forall|k: int| 0 <= k < items@.len() ==> #[trigger] iv[k] == items@[k]@,
                    views(strs@) == str_items(iv.subrange(0, i as int)),
                decreases items@.len() - i,
            {
                assert(iv.subrange(0, i + 1).drop_last() =~= iv.subrange(0, i as int));
                assert(iv.subrange(0, i + 1).last() == items@[i as int]@);
                match &items[i] {
                    Json::Str(x) => {
                        let ghost before = views(strs@);
                        strs.push(x.clone());
                        assert(views(strs@) =~= before.push(x@));
                    },
                    _ => {},
                }
                i = i + 1;
            }
            assert(iv.subrange(0, items@.len() as int) =~= iv);
            join_strings(&strs, ",")
        },
        Json::Str(s) => {
            if contains(s.as_str(), ",") {
                s.clone()
            } else {
                let ws = split_whitespace(s.as_str());
                join_strings(&ws, ",")
            }
        },
        _ => String::new(),
    }
}

// ---------------------------------------------------------------------------
// The middleware
// ---------------------------------------------------------------------------

/// JWT authentication configuration.
pub struct JwtAuth {
    /// Expected `iss`.
    pub issuer: Option<String>,
    /// Expected member of `aud`.
    pub audience: Option<String>,
    /// Tolerance for `exp` and `nbf`, in seconds.
    pub clock_skew_seconds: u64,
    /// Claim holding the consumer groups.
    pub groups_claim: Option<String>,
    /// Has no effect: signatures are always checked.
    pub skip_signature_validation: bool,
    /// Not handled here (JWKS keys are another plugin's).
    pub jwks_url: Option<String>,
    /// Not handled here.
    pub public_key_pem: Option<String>,
    /// The key that signatures are checked against.
    pub public_key_jwk: Option<Jwk>,
}

pub fn default_clock_skew() -> (r: u64)
    ensures r == 60,
{
    60
}

/// What is checked before the host verifies the signature: the token is
/// found, parses, names an accepted algorithm and fits the key; the
/// result is the parsed token and the host's verification request.
pub open spec fn begin_spec(a: JwtAuth, h: Map<Seq<char>, Seq<char>>) -> Result<(ParsedV, Seq<u8>), JwtFailure> {
    match bearer_token(h) {
        Err(e) => Err(e),
        Ok(token) => match parse_spec(token) {
            Err(e) => Err(e),
            Ok(p) => if !accepted_alg(p.header.alg) {
                Err(JwtFailure::UnsupportedAlgorithm(p.header.alg))
            } else {
                match key_check(a.public_key_jwk, p.header.alg) {
                    Err(e) => Err(e),
                    Ok(_) => Ok((p, json_bytes(verify_request_json(p.header.alg, a.public_key_jwk->0, p.signing_input, p.signature)))),
                }
            },
        },
    }
}

/// The claim checks at time `now`, with the clock skew added wrapping.
pub open spec fn claims_check(a: JwtAuth, c: ClaimsV, now: u64) -> Result<(), JwtFailure> {
    let skew = a.clock_skew_seconds;
    if c.exp is Some && now > vstd::wrapping::u64_specs::wrapping_add(c.exp->0, skew) {
        Err(JwtFailure::TokenExpired)
    } else if c.nbf is Some && vstd::wrapping::u64_specs::wrapping_add(now, skew) < c.nbf->0 {
        Err(JwtFailure::TokenNotYetValid)
    } else if a.issuer is Some && c.iss != Some(a.issuer->0@) {
        Err(JwtFailure::InvalidIssuer)
    } else if a.audience is Some && !(c.aud is Some && aud_contains(c.aud->0, a.audience->0@)) {
        Err(JwtFailure::InvalidAudience)
    } else {
        Ok(())
    }
}

/// The claims as JSON: the registered ones (null when absent), then the others.
pub open spec fn claims_json(c: ClaimsV) -> JsonV {
    let aud = match c.aud {
        Some(AudienceV::Single(s)) => JsonV::Str(s),
        Some(AudienceV::Multiple(v)) => JsonV::Array(v.map_values(|x: Seq<char>| JsonV::Str(x))),
        None => JsonV::Null,
    };
    let num = |o: Option<u64>| match o { Some(n) => JsonV::Number(NumV::PosInt(n)), None => JsonV::Null };
    JsonV::Object(seq![
        ("sub"@, opt_str_json(c.sub)),
        ("iss"@, opt_str_json(c.iss)),
        ("aud"@, aud),
        ("exp"@, num(c.exp)),
        ("nbf"@, num(c.nbf)),
        ("iat"@, num(c.iat)),
        ("jti"@, opt_str_json(c.jti)),
    ] + c.extra)
}

/// The request headers after a successful authentication.
pub open spec fn authenticated_headers(a: JwtAuth, h: Map<Seq<char>, Seq<char>>, c: ClaimsV) -> Map<Seq<char>, Seq<char>> {
    let h1 = match c.sub {
        Some(s) => h.insert("x-auth-sub"@, s).insert("x-auth-consumer"@, s),
        None => h,
    };
    let h2 = h1.insert("x-auth-claims"@, json_text(claims_json(c)));
    match a.groups_claim {
        Some(g) => match crate::json::member(c.extra, g@) {
            Some(v) => if groups_csv(v).len() > 0 { h2.insert("x-auth-consumer-groups"@, groups_csv(v)) } else { h2 },
            None => h2,
        },
        None => h2,
    }
}

/// The `www-authenticate` challenge of a failure.
pub open spec fn challenge(e: JwtError) -> Seq<char> {
    "Bearer realm=\"api\", error=\""@ + e.code_spec() + "\", error_description=\""@ + e.description_spec() + "\""@
}

/// The 401 body of a failure.
pub open spec fn unauthorized_json(e: JwtError) -> JsonV {
    JsonV::Object(crate::http::problem_members("urn:barbacane:error:authentication-failed"@, "Authentication failed"@, 401,
        e.description_spec()))
}

/// A request that passed the checks made before the signature check.
pub struct PendingJwt {
    pub parsed: ParsedJwt,
    /// The request for the host's signature check.
    pub verify_request: Vec<u8>,
}

impl JwtAuth {
    /// Extracts the bearer token.
    pub fn extract_token(&self, req: &Request) -> (r: Result<String, JwtError>)
        ensures
            match r {
                Ok(t) => bearer_token(req.headers@) == Ok::<Seq<char>, JwtFailure>(t@),
                Err(e) => bearer_token(req.headers@) == Err::<Seq<char>, JwtFailure>(failure(e)),
            },
    {
        let auth = match req.headers.get("authorization") {
            Some(v) => v,
            None => match req.headers.get("Authorization") {
                Some(v) => v,
                None => return Err(JwtError::MissingAuthHeader),
            },
        };
        if !starts_with(auth.as_str(), "Bearer ") && !starts_with(auth.as_str(), "bearer ") {
            return Err(JwtError::InvalidAuthHeader);
        }
        proof { reveal_strlit("Bearer "); reveal_strlit("bearer "); }
        let rest = skip_chars(auth.as_str(), 7);
        Ok(trim(rest.as_str()))
    }

    /// Splits and decodes a token.
    pub fn parse_jwt(&self, token: &str) -> (r: Result<ParsedJwt, JwtError>)
        ensures
            match r {
                Ok(p) => parse_spec(token@) == Ok::<ParsedV, JwtFailure>(parsed_view(p)),
                Err(e) => parse_spec(token@) == Err::<ParsedV, JwtFailure>(failure(e)),
            },
    {
        let parts = split(token, '.');
        if parts.len() != 3 {
            return Err(JwtError::MalformedToken);
        }
        let h = decode_url_no_pad(parts[0].as_str());
        let c = decode_url_no_pad(parts[1].as_str());
        let sig = decode_url_no_pad(parts[2].as_str());
        let (h, c, sig) = match (h, c, sig) {
            (Some(h), Some(c), Some(sig)) => (h, c, sig),
            _ => return Err(JwtError::InvalidBase64),
        };
        let header = match parse_json(h.as_slice()) {
            Some(v) => header_from(&v),
            None => Err(()),
        };
        let claims = match parse_json(c.as_slice()) {
            Some(v) => claims_from(&v),
            None => Err(()),
        };
        let (header, claims) = match (header, claims) {
            (Ok(hh), Ok(cc)) => (hh, cc),
            _ => return Err(JwtError::InvalidJson),
        };
        let mut signing_input = parts[0].clone();
        push_char(&mut signing_input, '.');
        push_str(&mut signing_input, parts[1].as_str());
        assert(signing_input@ =~= split_char(token@, '.')[0] + seq!['.'] + split_char(token@, '.')[1]);
        Ok(ParsedJwt { header, claims, signing_input, signature: sig })
    }

    /// Accepts the RSA and EC algorithms only.
    pub fn validate_algorithm(&self, header: &JwtHeader) -> (r: Result<(), JwtError>)
        ensures
            match r {
                Ok(_) => accepted_alg(header.alg@),
                Err(e) => !accepted_alg(header.alg@) && failure(e) == JwtFailure::UnsupportedAlgorithm(header.alg@),
            },
    {
        let a = header.alg.as_str();
        if str_eq(a, "RS256") || str_eq(a, "RS384") || str_eq(a, "RS512") || str_eq(a, "ES256") || str_eq(a, "ES384")
            || str_eq(a, "ES512") {
            Ok(())
        } else {
            Err(JwtError::UnsupportedAlgorithm(header.alg.clone()))
        }
    }

    /// Binds the configured key to the token and builds the host's
    /// verification request.
    pub fn signature_request(&self, parsed: &ParsedJwt) -> (r: Result<Vec<u8>, JwtError>)
        ensures
            match r {
                Ok(b) => key_check(self.public_key_jwk, parsed.header.alg@) is Ok
                    && b@ == json_bytes(verify_request_json(parsed.header.alg@, self.public_key_jwk->0,
                        parsed.signing_input@, parsed.signature@)),
                Err(e) => key_check(self.public_key_jwk, parsed.header.alg@) == Err::<(), JwtFailure>(failure(e)),
            },
    {
        let jwk = match &self.public_key_jwk {
            Some(k) => k,
            None => return Err(JwtError::SignatureInvalid),
        };
        let alg = parsed.header.alg.as_str();
        if let Some(ka) = &jwk.alg {
            if !str_eq(ka.as_str(), alg) {
                return Err(JwtError::SignatureInvalid);
            }
        }
        if let Some(u) = &jwk.use_ {
            if !str_eq(u.as_str(), "sig") {
                return Err(JwtError::SignatureInvalid);
            }
        }
        let expected = if str_eq(alg, "RS256") || str_eq(alg, "RS384") || str_eq(alg, "RS512") {
            "RSA"
        } else if str_eq(alg, "ES256") || str_eq(alg, "ES384") || str_eq(alg, "ES512") {
            "EC"
        } else {
            return Err(JwtError::UnsupportedAlgorithm(parsed.header.alg.clone()));
        };
        if !str_eq(jwk.kty.as_str(), expected) {
            return Err(JwtError::SignatureInvalid);
        }
        let mut m = members_new();
        obj_push(&mut m, "algorithm", Json::Str(parsed.header.alg.clone()));
        obj_push(&mut m, "jwk", jwk_to_json(jwk));
        obj_push(&mut m, "message", Json::Str(parsed.signing_input.clone()));
        obj_push(&mut m, "signature", bytes_json(&parsed.signature));
        assert(json_members_view(m@) =~= verify_request_json(parsed.header.alg@, *jwk, parsed.signing_input@,
            parsed.signature@)->Object_0);
        Ok(to_json_bytes(&Json::Object(m)))
    }

    /// Reads the host's answer to a signature check: 1 means the signature holds.
    pub fn signature_verdict(code: i32) -> (r: Result<(), JwtError>)
        ensures
            code == 1 <==> r is Ok,
            r matches Err(e) ==> failure(e) == JwtFailure::SignatureInvalid,
    {
        if code == 1 { Ok(()) } else { Err(JwtError::SignatureInvalid) }
    }

    /// Checks expiry, not-before, issuer and audience at time `now`.
    pub fn validate_claims(&self, claims: &JwtClaims, now: u64) -> (r: Result<(), JwtError>)
        ensures
            match r {
                Ok(_) => claims_check(*self, claims_view(*claims), now) is Ok,
                Err(e) => claims_check(*self, claims_view(*claims), now) == Err::<(), JwtFailure>(failure(e)),
            },
    {
        if let Some(exp) = claims.exp {
            if now > exp.wrapping_add(self.clock_skew_seconds) {
                return Err(JwtError::TokenExpired);
            }
        }
        if let Some(nbf) = claims.nbf {
            if now.wrapping_add(self.clock_skew_seconds) < nbf {
                return Err(JwtError::TokenNotYetValid);
            }
        }
        if let Some(expected) = &self.issuer {
            let ok = match &claims.iss {
                Some(iss) => str_eq(iss.as_str(), expected.as_str()),
                None => false,
            };
            if !ok {
                return Err(JwtError::InvalidIssuer);
            }
        }
        if let Some(expected) = &self.audience {
            let ok = match &claims.aud {
                Some(aud) => aud.contains(expected.as_str()),
                None => false,
            };
            if !ok {
                return Err(JwtError::InvalidAudience);
            }
        }
        Ok(())
    }

    /// The 401 answer, with the RFC 6750 challenge.
    pub fn unauthorized_response(&self, error: &JwtError) -> (r: Response)
        ensures
            r.status == 401,
            r.headers@ == crate::http::one_header("content-type"@, "application/json"@)
                .insert("www-authenticate"@, challenge(*error)),
            body_view(r.body) == Some(encode_utf8(json_text(unauthorized_json(*error)))),
    {
        let desc = error.description();
        let mut challenge = owned("Bearer realm=\"api\", error=\"");
        push_str(&mut challenge, error.as_str());
        push_str(&mut challenge, "\", error_description=\"");
        push_str(&mut challenge, desc.as_str());
        push_str(&mut challenge, "\"");
        let body = Json::Object(crate::http::problem_object("urn:barbacane:error:authentication-failed",
            "Authentication failed", 401, desc.as_str()));
        let mut resp = json_text_response(401, "application/json", &body);
        resp.headers.insert(owned("www-authenticate"), challenge);
        resp
    }

    /// The checks before the host's signature check.
    pub fn begin(&self, req: &Request) -> (r: Result<PendingJwt, JwtError>)
        ensures
            match r {
                Ok(p) => begin_spec(*self, req.headers@) == Ok::<(ParsedV, Seq<u8>), JwtFailure>((parsed_view(p.parsed), p.verify_request@)),
                Err(e) => begin_spec(*self, req.headers@) == Err::<(ParsedV, Seq<u8>), JwtFailure>(failure(e)),
            },
    {
        let token = self.extract_token(req)?;
        let parsed = self.parse_jwt(token.as_str())?;
        self.validate_algorithm(&parsed.header)?;
        let verify_request = self.signature_request(&parsed)?;
        Ok(PendingJwt { parsed, verify_request })
    }

    /// Completes the authentication once the host has checked the
    /// signature (`signature_code`, 1 for valid) at time `now`: the claims
    /// are checked, and the request goes on with the identity headers.
    pub fn complete(&self, req: Request, pending: PendingJwt, signature_code: i32, now: u64) -> (r: Action)
        ensures
            ({
                let c = claims_view(pending.parsed.claims);
                if signature_code != 1 {
                    r matches Action::ShortCircuit(resp) && resp.status == 401
                        && resp.headers@ == crate::http::one_header("content-type"@, "application/json"@)
                            .insert("www-authenticate"@, challenge(JwtError::SignatureInvalid))
                        && body_view(resp.body) == Some(encode_utf8(json_text(unauthorized_json(JwtError::SignatureInvalid))))
                } else {
                    match claims_check(*self, c, now) {
                        Ok(_) => r matches Action::Continue(out) && crate::http::with_headers(out, req,
                            authenticated_headers(*self, req.headers@, c)),
                        Err(f) => r matches Action::ShortCircuit(resp) && resp.status == 401
                            && exists|e: JwtError| failure(e) == f && resp.headers@ == crate::http::one_header("content-type"@, "application/json"@)
                                .insert("www-authenticate"@, challenge(e))
                                && body_view(resp.body) == Some(encode_utf8(json_text(unauthorized_json(e)))),
                    }
                }
            }),
    {
        if let Err(e) = Self::signature_verdict(signature_code) {
            return Action::ShortCircuit(self.unauthorized_response(&e));
        }
        let claims = &pending.parsed.claims;
        if let Err(e) = self.validate_claims(claims, now) {
            return Action::ShortCircuit(self.unauthorized_response(&e));
        }
        let Request { method, path, query, headers, body, client_ip, path_params } = req;
        let mut headers = headers;
        if let Some(sub) = &claims.sub {
            headers.insert(owned("x-auth-sub"), sub.clone());
            headers.insert(owned("x-auth-consumer"), sub.clone());
        }
        headers.insert(owned("x-auth-claims"), to_json_text(&self.claims_to_json(claims)));
        if let Some(g) = &self.groups_claim {
            if let Some(v) = crate::json::members_get(&claims.extra, g.as_str()) {
                let csv = groups_of(v);
                if !csv.as_str().is_empty() {
                    headers.insert(owned("x-auth-consumer-groups"), csv);
                }
            }
        }
        Action::Continue(Request { method, path, query, headers, body, client_ip, path_params })
    }

    /// The claims as JSON.
    pub fn claims_to_json(&self, c: &JwtClaims) -> (r: Json)
        ensures
            r@ == claims_json(claims_view(*c)),
    {
        let aud = match &c.aud {
            Some(Audience::Single(s)) => Json::Str(s.clone()),
            Some(Audience::Multiple(v)) => {
                let mut out = arr_new();
                let mut i: usize = 0;
                while i < v.len()
                    invariant
                        i <= v@.len(),
                        json_seq_view(out@) == views(v@).subrange(0, i as int).map_values(|x: Seq<char>| JsonV::Str(x)),
                    decreases v@.len() - i,
                {
                    let ghost before = json_seq_view(out@);
                    arr_push(&mut out, Json::Str(v[i].clone()));
                    assert(views(v@).subrange(0, i + 1).map_values(|x: Seq<char>| JsonV::Str(x)) =~= before.push(JsonV::Str(v@[i as int]@)));
                    i = i + 1;
                }
                assert(views(v@).subrange(0, v@.len() as int) =~= views(v@));
                Json::Array(out)
            },
            None => Json::Null,
        };
        let num = |o: Option<u64>| -> (j: Json)
            ensures j@ == (match o { Some(n) => JsonV::Number(NumV::PosInt(n)), None => JsonV::Null }),
        {
            match o { Some(n) => Json::Number(JsonNumber::PosInt(n)), None => Json::Null }
        };
        let mut m = members_new();
        obj_push(&mut m, "sub", opt_json_exec(&c.sub));
        obj_push(&mut m, "iss", opt_json_exec(&c.iss));
        obj_push(&mut m, "aud", aud);
        obj_push(&mut m, "exp", num(c.exp));
        obj_push(&mut m, "nbf", num(c.nbf));
        obj_push(&mut m, "iat", num(c.iat));
        obj_push(&mut m, "jti", opt_json_exec(&c.jti));
        let ghost base = json_members_view(m@);
        proof { lemma_members_view(m@); lemma_members_view(c.extra@); }
        let mut i: usize = 0;
        while i < c.extra.len()
            invariant
                i <= c.extra@.len(),
                json_members_view(m@) == base + json_members_view(c.extra@).subrange(0, i as int),
            decreases c.extra@.len() - i,
        {
            proof { lemma_members_view(c.extra@); }
            let ghost before = json_members_view(m@);
            members_push(&mut m, c.extra[i].0.clone(), c.extra[i].1.copy());
            assert(base + json_members_view(c.extra@).subrange(0, i + 1) =~= before.push((c.extra@[i as int].0@, c.extra@[i as int].1@)));
            i = i + 1;
        }
        assert(json_members_view(c.extra@).subrange(0, c.extra@.len() as int) =~= json_members_view(c.extra@));
        assert(json_members_view(m@) =~= claims_json(claims_view(*c))->Object_0);
        Json::Object(m)
    }

    /// Responses pass untouched.
    pub fn on_response(&mut self, resp: Response) -> (r: Response)
        ensures
            r == resp,
    {
        resp
    }
}

/// Without a configured key no token is ever accepted: authentication fails
/// closed, whatever the token holds.
pub proof fn law_no_key_fails_closed(a: JwtAuth, h: Map<Seq<char>, Seq<char>>)
    requires
        a.public_key_jwk is None,
    ensures
        begin_spec(a, h) is Err,
{
}

/// `skip_signature_validation` has no effect on what is accepted.
pub proof fn law_skip_flag_has_no_effect(a: JwtAuth, h: Map<Seq<char>, Seq<char>>, skip: bool)
    ensures
        begin_spec(a, h) == begin_spec(JwtAuth { skip_signature_validation: skip, ..a }, h),
{
}

/// Only the RSA and ECDSA algorithms reach the signature check: `none` and
/// the HMAC algorithms are rejected before any key is used.
pub proof fn law_only_asymmetric_algorithms(a: JwtAuth, h: Map<Seq<char>, Seq<char>>)
    ensures
        begin_spec(a, h) matches Ok((p, _)) ==> accepted_alg(p.header.alg),
        begin_spec(a, h) matches Ok((p, _)) ==> p.header.alg != "none"@ && p.header.alg != "HS256"@,
{
    if begin_spec(a, h) is Ok {
        let p = begin_spec(a, h)->Ok_0.0;
        assert(accepted_alg(p.header.alg));
        proof_strlits_differ();
    }
}

proof fn proof_strlits_differ()
    ensures
        "none"@ != "RS256"@ && "none"@ != "RS384"@ && "none"@ != "RS512"@,
        "none"@ != "ES256"@ && "none"@ != "ES384"@ && "none"@ != "ES512"@,
        "HS256"@ != "RS256"@ && "HS256"@ != "RS384"@ && "HS256"@ != "RS512"@,
        "HS256"@ != "ES256"@ && "HS256"@ != "ES384"@ && "HS256"@ != "ES512"@,
{
    reveal_strlit("none");
    reveal_strlit("HS256");
    reveal_strlit("RS256");
    reveal_strlit("RS384");
    reveal_strlit("RS512");
    reveal_strlit("ES256");
    reveal_strlit("ES384");
    reveal_strlit("ES512");
    assert("none"@.len() != "RS256"@.len());
    assert("HS256"@[0] != "RS256"@[0]);
    assert("HS256"@[0] != "RS384"@[0]);
    assert("HS256"@[0] != "RS512"@[0]);
    assert("HS256"@[0] != "ES256"@[0]);
    assert("HS256"@[0] != "ES384"@[0]);
    assert("HS256"@[0] != "ES512"@[0]);
}

/// A token whose expiry, plus the clock skew, lies before `now` is rejected
/// as expired.
pub proof fn law_expired_token_rejected(a: JwtAuth, c: ClaimsV, now: u64)
    requires
        c.exp is Some,
        c.exp->0 + a.clock_skew_seconds <= u64::MAX,
        now > c.exp->0 + a.clock_skew_seconds,
    ensures
        claims_check(a, c, now) == Err::<(), JwtFailure>(JwtFailure::TokenExpired),
{
    assert(vstd::wrapping::u64_specs::wrapping_add(c.exp->0, a.clock_skew_seconds) == c.exp->0 + a.clock_skew_seconds);
}

/// A token that passes the claim checks meets every configured
/// requirement: it is not expired, already valid, from the configured
/// issuer, and addressed to the configured audience (it carries an `aud`
/// claim that holds it).
pub proof fn law_accepted_claims_meet_configuration(a: JwtAuth, c: ClaimsV, now: u64)
    requires
        claims_check(a, c, now) is Ok,
    ensures
        c.exp matches Some(e) ==> now <= vstd::wrapping::u64_specs::wrapping_add(e, a.clock_skew_seconds),
        c.nbf matches Some(n) ==> n <= vstd::wrapping::u64_specs::wrapping_add(now, a.clock_skew_seconds),
        a.issuer matches Some(i) ==> c.iss == Some(i@),
        a.audience matches Some(x) ==> (c.aud matches Some(aud) && aud_contains(aud, x@)),
{
}

/// When an audience is configured, claims that pass the time and issuer
/// checks but carry no `aud` claim, or one that does not hold the audience,
/// are rejected as `InvalidAudience`.
pub proof fn law_missing_or_foreign_audience_rejected(a: JwtAuth, c: ClaimsV, now: u64)
    requires
        a.audience is Some,
        c.aud is None || !aud_contains(c.aud->0, a.audience->0@),
        !(c.exp matches Some(e) && now > vstd::wrapping::u64_specs::wrapping_add(e, a.clock_skew_seconds)),
        !(c.nbf matches Some(n) && vstd::wrapping::u64_specs::wrapping_add(now, a.clock_skew_seconds) < n),
        a.issuer matches Some(i) ==> c.iss == Some(i@),
    ensures
        claims_check(a, c, now) == Err::<(), JwtFailure>(JwtFailure::InvalidAudience),
{
}

/// Claims that meet every configured requirement (not expired, already
/// valid, from the configured issuer, addressed to the configured audience)
/// pass the claim checks.
pub proof fn law_valid_claims_accepted(a: JwtAuth, c: ClaimsV, now: u64)
    requires
        c.exp matches Some(e) ==> now <= vstd::wrapping::u64_specs::wrapping_add(e, a.clock_skew_seconds),
        c.nbf matches Some(n) ==> n <= vstd::wrapping::u64_specs::wrapping_add(now, a.clock_skew_seconds),
        a.issuer matches Some(i) ==> c.iss == Some(i@),
        a.audience matches Some(x) ==> (c.aud matches Some(aud) && aud_contains(aud, x@)),
    ensures
        claims_check(a, c, now) is Ok,
{
}

} // verus!
