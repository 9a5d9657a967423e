//! The outbound HTTP requests the dispatcher sends, and what it makes of
//! the upstream answers.

use vstd::prelude::*;
use crate::ai_proxy::chat_completion::{from_anthropic_spec, translate_from_anthropic};
use crate::ai_proxy::config::{AiProxy, Provider, TargetConfig, effective_base_url_spec};
use crate::headers::HeaderMap;
use crate::http::{HttpRequest, Request, Response, body_view};
use crate::json::{Json, JsonNumber, JsonV, NumV, get, json_bytes, parse_json, parsed, to_json_bytes};
use crate::text::{concat, owned, string_bytes, string_from_utf8, trim_end_char, trim_end_matches_char};
use vstd::utf8::{decode_utf8, encode_utf8, valid_utf8};

verus! {

/// The Anthropic API version the translation is pinned to.
pub const ANTHROPIC_API_VERSION: &'static str = "2024-10-22";

/// The timeout in milliseconds for a timeout in seconds (wrapping as the
/// release build's multiplication does).
pub fn timeout_ms(timeout_s: u64) -> (r: u64)
    ensures
        r == vstd::wrapping::u64_specs::wrapping_mul(timeout_s, 1000),
{
    timeout_s.wrapping_mul(1000)
}

/// The target's base URL without trailing slashes.
pub open spec fn base_spec(t: TargetConfig) -> Seq<char> {
    trim_end_char(effective_base_url_spec(t), '/')
}

/// The upstream URL of an OpenAI-compatible call: the base URL, then the
/// client's path.
pub fn openai_url(target: &TargetConfig, req_path: &str) -> (r: String)
    ensures
        r@ == base_spec(*target) + req_path@,
{
    let base = trim_end_matches_char(target.effective_base_url().as_str(), '/');
    concat(base.as_str(), req_path)
}

/// The headers of an OpenAI-compatible call.
pub open spec fn openai_headers_spec(api_key: Option<String>) -> Map<Seq<char>, Seq<char>> {
    let h = Map::<Seq<char>, Seq<char>>::empty().insert("content-type"@, "application/json"@);
    match api_key {
        Some(k) => h.insert("authorization"@, "Bearer "@ + k@),
        None => h,
    }
}

/// `content-type: application/json`, and the key as a bearer token.
pub fn openai_headers(target: &TargetConfig) -> (r: HeaderMap)
    ensures
        r@ == openai_headers_spec(target.api_key),
{
    let mut h = HeaderMap::new();
    h.insert(owned("content-type"), owned("application/json"));
    if let Some(key) = &target.api_key {
        h.insert(owned("authorization"), concat("Bearer ", key.as_str()));
    }
    h
}

/// The max-tokens default merged into a request body.
pub open spec fn inject_max_tokens_spec(max_tokens: Option<u32>, body: Option<Seq<u8>>) -> Option<Seq<u8>> {
    match (max_tokens, body) {
        (Some(m), Some(raw)) => match parsed(raw) {
            Some(JsonV::Object(members)) => if get(JsonV::Object(members), "max_tokens"@) is None {
                Some(json_bytes(JsonV::Object(members.push(("max_tokens"@, JsonV::Number(NumV::PosInt(m as u64)))))))
            } else {
                body
            },
            _ => body,
        },
        _ => body,
    }
}

fn copy_body(body: &Option<Vec<u8>>) -> (r: Option<Vec<u8>>)
    ensures
        body_view(r) == body_view(*body),
{
    match body {
        Some(b) => Some(b.clone()),
        None => None,
    }
}

impl AiProxy {
    /// Adds the configured `max_tokens` to a JSON object body that lacks
    /// one; any other body is sent unchanged.
    pub fn maybe_inject_max_tokens(&self, body: &Option<Vec<u8>>) -> (r: Option<Vec<u8>>)
        ensures
            body_view(r) == inject_max_tokens_spec(self.max_tokens, body_view(*body)),
    {
        let max = match self.max_tokens {
            Some(m) => m,
            None => return copy_body(body),
        };
        let raw = match body {
            Some(b) => b,
            None => return copy_body(body),
        };
        let v = match parse_json(raw.as_slice()) {
            Some(v) => v,
            None => return copy_body(body),
        };
        if v.get("max_tokens").is_some() {
            return copy_body(body);
        }
        match v {
            Json::Object(mut members) => {
                let ghost m0 = members@;
                let k = owned("max_tokens");
                let x = Json::Number(JsonNumber::PosInt(max as u64));
                proof { crate::json::lemma_members_view_push(m0, k, x); }
                members.push((k, x));
                Some(to_json_bytes(&Json::Object(members)))
            },
            _ => copy_body(body),
        }
    }

    /// The upstream request of an OpenAI-compatible call; a streamed call
    /// also asks for `text/event-stream`.
    pub fn openai_request(&self, target: &TargetConfig, req: &Request, streaming: bool) -> (r: HttpRequest)
        ensures
            r.method@ == req.method@,
            r.url@ == base_spec(*target) + req.path@,
            r.headers@ == (if streaming {
                openai_headers_spec(target.api_key).insert("accept"@, "text/event-stream"@)
            } else {
                openai_headers_spec(target.api_key)
            }),
            r.timeout_ms == Some(vstd::wrapping::u64_specs::wrapping_mul(self.timeout, 1000)),
    {
        let mut headers = openai_headers(target);
        if streaming {
            headers.insert(owned("accept"), owned("text/event-stream"));
        }
        HttpRequest {
            method: req.method.clone(),
            url: openai_url(target, req.path.as_str()),
            headers,
            timeout_ms: Some(timeout_ms(self.timeout)),
        }
    }

    /// The upstream request of an Anthropic Messages call.
    pub fn anthropic_request(&self, target: &TargetConfig) -> (r: HttpRequest)
        ensures
            r.method@ == "POST"@,
            r.url@ == base_spec(*target) + "/v1/messages"@,
            r.headers@ == anthropic_headers_spec(target.api_key),
            r.timeout_ms == Some(vstd::wrapping::u64_specs::wrapping_mul(self.timeout, 1000)),
    {
        let base = trim_end_matches_char(target.effective_base_url().as_str(), '/');
        let mut headers = HeaderMap::new();
        headers.insert(owned("content-type"), owned("application/json"));
        headers.insert(owned("anthropic-version"), owned(ANTHROPIC_API_VERSION));
        if let Some(key) = &target.api_key {
            headers.insert(owned("x-api-key"), key.clone());
        }
        HttpRequest {
            method: owned("POST"),
            url: concat(base.as_str(), "/v1/messages"),
            headers,
            timeout_ms: Some(timeout_ms(self.timeout)),
        }
    }
}

/// The headers of an Anthropic Messages call.
pub open spec fn anthropic_headers_spec(api_key: Option<String>) -> Map<Seq<char>, Seq<char>> {
    let h = Map::<Seq<char>, Seq<char>>::empty()
        .insert("content-type"@, "application/json"@)
        .insert("anthropic-version"@, ANTHROPIC_API_VERSION@);
    match api_key {
        Some(k) => h.insert("x-api-key"@, k@),
        None => h,
    }
}

/// What an Anthropic upstream answer becomes: a 2xx body that is UTF-8 is
/// translated into a chat completion (a body that does not parse is an
/// error); any other answer passes through.
pub open spec fn anthropic_answer_spec(status: u16, body: Option<Seq<u8>>) -> Result<Option<Seq<u8>>, Seq<char>> {
    if 200 <= status < 300 {
        match body {
            Some(b) => if valid_utf8(b) {
                match from_anthropic_spec(decode_utf8(b)) {
                    Ok(t) => Ok(Some(encode_utf8(t))),
                    Err(e) => Err(e),
                }
            } else {
                Ok(None)
            },
            None => Ok(None),
        }
    } else {
        Ok(body)
    }
}

/// Translates a 2xx Anthropic answer back into the OpenAI format, keeping
/// status and headers; other answers are returned as they are.
pub fn finish_anthropic_call(resp: Response) -> (r: Result<Response, String>)
    ensures
        match r {
            Ok(out) => anthropic_answer_spec(resp.status, body_view(resp.body)) == Ok::<Option<Seq<u8>>, Seq<char>>(body_view(out.body))
                && out.status == resp.status && out.headers@ == resp.headers@,
            Err(e) => anthropic_answer_spec(resp.status, body_view(resp.body)) == Err::<Option<Seq<u8>>, Seq<char>>(e@),
        },
{
    if resp.status >= 200 && resp.status < 300 {
        let Response { status, headers, body } = resp;
        let text = match body {
            Some(b) => string_from_utf8(b),
            None => None,
        };
        let translated = match text {
            Some(t) => match translate_from_anthropic(t.as_str()) {
                Ok(s) => Some(string_bytes(s)),
                Err(e) => return Err(e),
            },
            None => None,
        };
        Ok(Response { status, headers, body: translated })
    } else {
        Ok(resp)
    }
}

/// How a chat completion request is served.
pub enum ChatCall {
    /// Passed through to an OpenAI-compatible upstream and streamed.
    OpenAiStream,
    /// Passed through to an OpenAI-compatible upstream.
    OpenAiCall,
    /// Translated for Anthropic; a streamed request is buffered.
    Anthropic,
}

/// Picks the call for the target's provider: the OpenAI passthrough
/// (streamed or not), or the Anthropic translation (never streamed).
pub fn chat_call(provider: &Provider, streaming: bool) -> (r: ChatCall)
    ensures
        r == (if *provider is Anthropic {
            ChatCall::Anthropic
        } else if streaming {
            ChatCall::OpenAiStream
        } else {
            ChatCall::OpenAiCall
        }),
{
    if provider.is_openai_compatible() {
        if streaming { ChatCall::OpenAiStream } else { ChatCall::OpenAiCall }
    } else {
        ChatCall::Anthropic
    }
}

} // verus!
