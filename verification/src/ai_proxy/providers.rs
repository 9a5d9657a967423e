//! Per-provider transport details: credentials, URLs and base headers.

use vstd::prelude::*;
use crate::headers::HeaderMap;
use crate::text::{
    ascii_lower, contains, contains_seq, owned, push_char, push_str, to_ascii_lowercase, concat,
};

verus! {

/// How a target's credential is attached to an outbound request.
pub enum Auth {
    /// `authorization: Bearer <key>`.
    Bearer,
    /// `x-api-key: <key>`.
    ApiKey,
    /// A custom header carrying the key verbatim.
    Header(String),
    /// A query parameter carrying the key verbatim.
    Query(String),
}

/// The headers after attaching `key` per `auth`.
pub open spec fn auth_headers(auth: Auth, key: Seq<char>, headers: Map<Seq<char>, Seq<char>>) -> Map<Seq<char>, Seq<char>> {
    match auth {
        Auth::Bearer => headers.insert("authorization"@, "Bearer "@ + key),
        Auth::ApiKey => headers.insert("x-api-key"@, key),
        Auth::Header(name) => headers.insert(ascii_lower(name@), key),
        Auth::Query(_) => headers,
    }
}

/// The URL after attaching `key` per `auth`.
pub open spec fn auth_url(auth: Auth, key: Seq<char>, url: Seq<char>) -> Seq<char> {
    match auth {
        Auth::Query(param) => (url.push(query_separator(url)) + param@).push('=') + key,
        Auth::Bearer => url,
        Auth::ApiKey => url,
        Auth::Header(_) => url,
    }
}

/// `&` when the URL already has a query string, `?` otherwise.
pub open spec fn query_separator(url: Seq<char>) -> char {
    if contains_seq(url, "?"@) { '&' } else { '?' }
}

/// Attaches the credential to an outbound request per the target's `Auth`
/// strategy. Header names are lowercased; query auth appends to the URL,
/// keeping any query string already there.
pub fn apply_auth(auth: &Auth, key: &str, headers: &mut HeaderMap, url: &mut String)
    ensures
        final(headers)@ == auth_headers(*auth, key@, old(headers)@),
        final(url)@ == auth_url(*auth, key@, old(url)@),
{
    let mut u = url.clone();
    match auth {
        Auth::Bearer => {
            headers.insert(owned("authorization"), concat("Bearer ", key));
        },
        Auth::ApiKey => {
            headers.insert(owned("x-api-key"), owned(key));
        },
        Auth::Header(name) => {
            headers.insert(to_ascii_lowercase(name.as_str()), owned(key));
        },
        Auth::Query(param) => {
            let sep = if contains(u.as_str(), "?") { '&' } else { '?' };
            push_char(&mut u, sep);
            push_str(&mut u, param.as_str());
            push_char(&mut u, '=');
            push_str(&mut u, key);
        },
    }
    *url = u;
}

} // verus!
