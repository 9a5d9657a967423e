//! Target resolution, the fallback chain, and what the dispatcher reports.
//!
//! Each upstream call is made by the caller; after every attempt the
//! dispatcher decides whether to return the response or try the next target.

use vstd::prelude::*;
use crate::ai_proxy::config::{AiProxy, Provider, TargetConfig};
use crate::headers::{HeaderMap, entries_map, opt_view};
use crate::http::{Request, Response, body_view, one_header, problem_members, problem_object, json_response};
use crate::json::{
    Json, JsonV, NumV, as_bool, as_str, as_u64, field, get, json_bytes, parsed, parse_json, null_json,
};
use crate::text::{concat, owned, push_str, str_eq, to_lowercase, unicode_lower, u64_to_string, decimal};

verus! {

// ---------------------------------------------------------------------------
// Target resolution
// ---------------------------------------------------------------------------

/// The target registered under `name` (first matching row).
pub open spec fn named_target(t: Seq<(String, TargetConfig)>, name: Seq<char>) -> Option<TargetConfig>
    decreases t.len(),
{
    if t.len() == 0 {
        None
    } else if t[0].0@ == name {
        Some(t[0].1)
    } else {
        named_target(t.drop_first(), name)
    }
}

impl AiProxy {
    /// The active target: the one the context names, else the default
    /// target, else the flat configuration.
    pub open spec fn resolved_target(&self, context_target: Option<Seq<char>>) -> Option<TargetConfig> {
        let from_ctx = match context_target {
            Some(n) => named_target(self.targets@, n),
            None => None,
        };
        let from_default = match self.default_target {
            Some(n) => named_target(self.targets@, n@),
            None => None,
        };
        match from_ctx {
            Some(t) => Some(t),
            None => match from_default {
                Some(t) => Some(t),
                None => match self.provider {
                    Some(p) => Some(TargetConfig { provider: p, api_key: self.api_key, base_url: self.base_url, auth: self.auth }),
                    None => None,
                },
            },
        }
    }

    /// The target registered under `name`.
    pub fn lookup_target(&self, name: &str) -> (r: Option<TargetConfig>)
        ensures
            r == named_target(self.targets@, name@),
    {
        let ghost t = self.targets@;
        assert(t.skip(0) =~= t);
        let mut i: usize = 0;
        while i < self.targets.len()
            invariant
                t == self.targets@,
                i <= t.len(),
                named_target(t, name@) == named_target(t.skip(i as int), name@),
            decreases t.len() - i,
        {
            let ghost rest = t.skip(i as int);
            assert(rest[0] == t[i as int]);
            if str_eq(self.targets[i].0.as_str(), name) {
                return Some(self.targets[i].1.copy());
            }
            assert(rest.drop_first() =~= t.skip(i + 1));
            i = i + 1;
        }
        None
    }

    /// Resolves the active target from the `ai.target` context value.
    pub fn resolve_target(&self, context_target: Option<&str>) -> (r: Option<TargetConfig>)
        ensures
            r == self.resolved_target(match context_target { Some(n) => Some(n@), None => None }),
    {
        if let Some(name) = context_target {
            if let Some(t) = self.lookup_target(name) {
                return Some(t);
            }
        }
        if let Some(name) = &self.default_target {
            if let Some(t) = self.lookup_target(name.as_str()) {
                return Some(t);
            }
        }
        match &self.provider {
            Some(p) => Some(TargetConfig {
                provider: p.copy(),
                api_key: crate::ai_proxy::config::copy_opt_string(&self.api_key),
                base_url: crate::ai_proxy::config::copy_opt_string(&self.base_url),
                auth: match &self.auth { Some(a) => Some(crate::ai_proxy::config::copy_auth(a)), None => None },
            }),
            None => None,
        }
    }

    /// The targets to try in order: the primary, then the fallback chain.
    pub fn try_list(&self, primary: TargetConfig) -> (r: Vec<TargetConfig>)
        ensures
            r@ == seq![primary] + self.fallback@,
    {
        let mut v: Vec<TargetConfig> = Vec::new();
        v.push(primary);
        let mut i: usize = 0;
        while i < self.fallback.len()
            invariant
                i <= self.fallback@.len(),
                v@ == seq![primary] + self.fallback@.subrange(0, i as int),
            decreases self.fallback@.len() - i,
        {
            v.push(self.fallback[i].copy());
            i = i + 1;
            assert(v@ =~= seq![primary] + self.fallback@.subrange(0, i as int));
        }
        assert(self.fallback@.subrange(0, self.fallback@.len() as int) =~= self.fallback@);
        v
    }
}

// ---------------------------------------------------------------------------
// The fallback chain
// ---------------------------------------------------------------------------

/// What one attempt against a target gave: an upstream response with its
/// status (0 for a streamed response), or a connection-level error.
pub enum Attempt {
    Responded(u16),
    Failed(String),
}

/// What to do after an attempt.
pub enum NextStep {
    /// Return the attempt's response to the client.
    Accept,
    /// Try the next target; the text is the error reported if none is left.
    TryNext(String),
}

/// The fallback rule: a response below 500 is returned; a 5xx or a
/// connection error moves on to the next target, and once no target is
/// left the chain answers 502 with the last error.
pub open spec fn next_step_spec(idx: int, n_targets: int, provider: Provider, attempt: Attempt) -> (bool, Seq<char>) {
    match attempt {
        Attempt::Responded(status) => if status >= 500 {
            (false, attempt_error(provider, attempt))
        } else {
            (true, Seq::empty())
        },
        Attempt::Failed(e) => (false, attempt_error(provider, attempt)),
    }
}

/// The error an unsuccessful attempt reports.
pub open spec fn attempt_error(provider: Provider, attempt: Attempt) -> Seq<char> {
    match attempt {
        Attempt::Responded(status) => "provider "@ + provider.name_spec() + " returned "@ + decimal(status as nat),
        Attempt::Failed(e) => e@,
    }
}

/// An attempt whose answer is returned to the client.
pub open spec fn accepted(attempt: Attempt) -> bool {
    attempt matches Attempt::Responded(s) && s < 500
}

/// How a chain of attempts ends.
pub enum ChainEnd {
    /// The answer of the attempt at this index is returned.
    Accepted(int),
    /// Every target failed; the 502 carries this error.
    Exhausted(Seq<char>),
}

/// The chain as the dispatcher runs it: `next_step` on each attempt in
/// turn, from index `i`, with `last` the error reported so far.
pub open spec fn run_chain(provs: Seq<Provider>, atts: Seq<Attempt>, i: int, last: Seq<char>) -> ChainEnd
    decreases provs.len() - i,
{
    if i < 0 || i >= provs.len() {
        ChainEnd::Exhausted(last)
    } else {
        let (acc, e) = next_step_spec(i, provs.len() as int, provs[i], atts[i]);
        if acc { ChainEnd::Accepted(i) } else { run_chain(provs, atts, i + 1, e) }
    }
}

/// Decides what follows attempt `idx` of `n_targets` against `target`.
pub fn next_step(idx: usize, n_targets: usize, target: &TargetConfig, attempt: Attempt) -> (r: NextStep)
    ensures
        match r {
            NextStep::Accept => next_step_spec(idx as int, n_targets as int, target.provider, attempt).0,
            NextStep::TryNext(e) => !next_step_spec(idx as int, n_targets as int, target.provider, attempt).0
                && e@ == next_step_spec(idx as int, n_targets as int, target.provider, attempt).1,
        },
{
    match attempt {
        Attempt::Responded(status) => {
            if status >= 500 {
                let mut e = owned("provider ");
                push_str(&mut e, target.provider.name());
                push_str(&mut e, " returned ");
                push_str(&mut e, u64_to_string(status as u64).as_str());
                NextStep::TryNext(e)
            } else {
                NextStep::Accept
            }
        },
        Attempt::Failed(e) => NextStep::TryNext(e),
    }
}

/// The answer when every target failed: 502 with the last error.
pub fn all_failed_response(last_err: &str) -> (r: Response)
    ensures
        r.status == 502,
        r.headers@ == one_header("content-type"@, "application/problem+json"@),
        body_view(r.body) == Some(json_bytes(error_json(502, "ai-proxy: "@ + last_err@))),
{
    let detail = concat("ai-proxy: ", last_err);
    error_response(502, detail.as_str())
}

/// The error reported when the chain runs out without any attempt.
pub fn initial_error() -> (r: String)
    ensures r@ == "all providers failed"@,
{
    owned("all providers failed")
}

// ---------------------------------------------------------------------------
// Request inspection
// ---------------------------------------------------------------------------

/// The body as JSON, when there is one and it parses.
pub open spec fn body_json(body: Option<Seq<u8>>) -> Option<JsonV> {
    match body {
        Some(b) => parsed(b),
        None => None,
    }
}

/// `stream: true` in the request body.
pub open spec fn streaming_spec(body: Option<Seq<u8>>) -> bool {
    match body_json(body) {
        Some(v) => as_bool(field(v, "stream"@)) == Some(true),
        None => false,
    }
}

/// The non-empty string `model` of the request body.
pub open spec fn client_model_spec(body: Option<Seq<u8>>) -> Option<Seq<char>> {
    match body_json(body) {
        Some(v) => match get(v, "model"@) {
            Some(m) => match as_str(m) {
                Some(s) => if s.len() > 0 { Some(s) } else { None },
                None => None,
            },
            None => None,
        },
        None => None,
    }
}

/// Whether the client asked for a streamed response.
pub fn is_streaming_request(body: &Option<Vec<u8>>) -> (r: bool)
    ensures
        r == streaming_spec(body_view(*body)),
{
    match body {
        Some(b) => match parse_json(b.as_slice()) {
            Some(v) => match v.get("stream") {
                Some(s) => s.as_bool() == Some(true),
                None => false,
            },
            None => false,
        },
        None => false,
    }
}

/// The client-supplied `model`; `None` for an absent body, malformed JSON,
/// a missing or non-string field, or an empty string.
pub fn extract_client_model(body: &Option<Vec<u8>>) -> (r: Option<String>)
    ensures
        opt_view(r) == client_model_spec(body_view(*body)),
{
    let raw = match body {
        Some(b) => b,
        None => return None,
    };
    let v = match parse_json(raw.as_slice()) {
        Some(v) => v,
        None => return None,
    };
    let m = match v.get("model") {
        Some(m) => m,
        None => return None,
    };
    match m.as_str() {
        Some(s) => if s.as_str().is_empty() { None } else { Some(s.clone()) },
        None => None,
    }
}

/// The token counts of an OpenAI-format response body.
pub open spec fn tokens_spec(body: Option<Seq<u8>>) -> Option<(u64, u64)> {
    match body_json(body) {
        Some(v) => {
            let usage = field(v, "usage"@);
            match (as_u64(field(usage, "prompt_tokens"@)), as_u64(field(usage, "completion_tokens"@))) {
                (Some(p), Some(c)) => Some((p, c)),
                _ => None,
            }
        },
        None => None,
    }
}

/// `(prompt_tokens, completion_tokens)` of an OpenAI-format response body.
pub fn extract_tokens(body: &Option<Vec<u8>>) -> (r: Option<(u64, u64)>)
    ensures
        r == tokens_spec(body_view(*body)),
{
    let raw = match body {
        Some(b) => b,
        None => return None,
    };
    let v = match parse_json(raw.as_slice()) {
        Some(v) => v,
        None => return None,
    };
    let null = null_json();
    let usage = crate::json::field_ref(&v, "usage", &null);
    let p = crate::json::field_ref(usage, "prompt_tokens", &null).as_u64();
    let c = crate::json::field_ref(usage, "completion_tokens", &null).as_u64();
    match (p, c) {
        (Some(p), Some(c)) => Some((p, c)),
        _ => None,
    }
}

// ---------------------------------------------------------------------------
// Context propagation
// ---------------------------------------------------------------------------

/// What the dispatcher reports after a returned response: the context
/// entries to write, and the token counts for the token metrics.
pub struct Propagation {
    pub context: Vec<(String, String)>,
    pub tokens: Option<(u64, u64)>,
}

/// The context entries: provider and model always; token counts when the
/// response was not streamed and its body reports them.
pub open spec fn propagation_spec(provider: Provider, model: Seq<char>, status: u16, body: Option<Seq<u8>>) -> (Seq<(Seq<char>, Seq<char>)>, Option<(u64, u64)>) {
    let base = seq![("ai.provider"@, provider.name_spec()), ("ai.model"@, model)];
    if status == 0 {
        (base, None)
    } else {
        match tokens_spec(body) {
            Some(t) => (base + seq![("ai.prompt_tokens"@, decimal(t.0 as nat)), ("ai.completion_tokens"@, decimal(t.1 as nat))], Some(t)),
            None => (base, None),
        }
    }
}

/// The pairs as character sequences.
pub open spec fn pair_views(v: Seq<(String, String)>) -> Seq<(Seq<char>, Seq<char>)> {
    v.map_values(|p: (String, String)| (p.0@, p.1@))
}

/// What to write into the context after returning `resp` from `target`.
pub fn propagate_context(target: &TargetConfig, client_model: &str, resp: &Response) -> (r: Propagation)
    ensures
        pair_views(r.context@) == propagation_spec(target.provider, client_model@, resp.status, body_view(resp.body)).0,
        r.tokens == propagation_spec(target.provider, client_model@, resp.status, body_view(resp.body)).1,
{
    let mut ctx: Vec<(String, String)> = Vec::new();
    ctx.push((owned("ai.provider"), owned(target.provider.name())));
    ctx.push((owned("ai.model"), owned(client_model)));
    if resp.status == 0 {
        assert(pair_views(ctx@) =~= seq![("ai.provider"@, target.provider.name_spec()), ("ai.model"@, client_model@)]);
        return Propagation { context: ctx, tokens: None };
    }
    let tokens = extract_tokens(&resp.body);
    match tokens {
        Some((p, c)) => {
            ctx.push((owned("ai.prompt_tokens"), u64_to_string(p)));
            ctx.push((owned("ai.completion_tokens"), u64_to_string(c)));
            assert(pair_views(ctx@) =~= seq![("ai.provider"@, target.provider.name_spec()), ("ai.model"@, client_model@)]
                + seq![("ai.prompt_tokens"@, decimal(p as nat)), ("ai.completion_tokens"@, decimal(c as nat))]);
        },
        None => {
            assert(pair_views(ctx@) =~= seq![("ai.provider"@, target.provider.name_spec()), ("ai.model"@, client_model@)]);
        },
    }
    Propagation { context: ctx, tokens }
}

// ---------------------------------------------------------------------------
// Responses and labels
// ---------------------------------------------------------------------------

/// The problem object of a dispatcher error.
pub open spec fn error_json(status: u16, detail: Seq<char>) -> JsonV {
    let (t, title) = if status == 404 {
        ("urn:barbacane:error:not-found"@, "Not Found"@)
    } else if status == 502 {
        ("urn:barbacane:error:upstream-unavailable"@, "Bad Gateway"@)
    } else {
        ("urn:barbacane:error:internal"@, "Internal Server Error"@)
    };
    JsonV::Object(problem_members(t, title, status, detail))
}

/// A problem+json error response.
pub fn error_response(status: u16, detail: &str) -> (r: Response)
    ensures
        r.status == status,
        r.headers@ == one_header("content-type"@, "application/problem+json"@),
        body_view(r.body) == Some(json_bytes(error_json(status, detail@))),
{
    let (t, title) = if status == 404 {
        ("urn:barbacane:error:not-found", "Not Found")
    } else if status == 502 {
        ("urn:barbacane:error:upstream-unavailable", "Bad Gateway")
    } else {
        ("urn:barbacane:error:internal", "Internal Server Error")
    };
    let body = Json::Object(problem_object(t, title, status, detail));
    json_response(status, "application/problem+json", &body)
}

/// The members of the `model_required` problem.
pub open spec fn model_required_json() -> JsonV {
    JsonV::Object(seq![
        ("type"@, JsonV::Str("urn:barbacane:error:model_required"@)),
        ("title"@, JsonV::Str("Bad Request"@)),
        ("status"@, JsonV::Number(NumV::PosInt(400))),
        ("code"@, JsonV::Str("model_required"@)),
        ("detail"@, JsonV::Str("ai-proxy: request body is missing a non-empty `model` field. The gateway does not pick a default model \u{2014} see ADR-0030 \u{a7}0."@)),
    ])
}

/// 400 problem+json for a request that omits `model`.
pub fn model_required_response() -> (r: Response)
    ensures
        r.status == 400,
        r.headers@ == one_header("content-type"@, "application/problem+json"@),
        body_view(r.body) == Some(json_bytes(model_required_json())),
{
    let mut m = crate::json::members_new();
    crate::json::obj_push(&mut m, "type", crate::json::jstr("urn:barbacane:error:model_required"));
    crate::json::obj_push(&mut m, "title", crate::json::jstr("Bad Request"));
    crate::json::obj_push(&mut m, "status", crate::http::jnum(400));
    crate::json::obj_push(&mut m, "code", crate::json::jstr("model_required"));
    crate::json::obj_push(&mut m, "detail", crate::json::jstr(
        "ai-proxy: request body is missing a non-empty `model` field. The gateway does not pick a default model \u{2014} see ADR-0030 \u{a7}0."));
    let body = Json::Object(m);
    assert(crate::json::json_members_view(m@) =~= model_required_json()->Object_0);
    json_response(400, "application/problem+json", &body)
}

/// A JSON labels string with one pair.
pub fn labels1(k1: &str, v1: &str) -> (r: String)
    ensures
        r@ == "{\""@ + k1@ + "\":\""@ + v1@ + "\"}"@,
{
    let mut s = owned("{\"");
    push_str(&mut s, k1);
    push_str(&mut s, "\":\"");
    push_str(&mut s, v1);
    push_str(&mut s, "\"}");
    s
}

/// A JSON labels string with two pairs.
pub fn labels2(k1: &str, v1: &str, k2: &str, v2: &str) -> (r: String)
    ensures
        r@ == "{\""@ + k1@ + "\":\""@ + v1@ + "\",\""@ + k2@ + "\":\""@ + v2@ + "\"}"@,
{
    let mut s = owned("{\"");
    push_str(&mut s, k1);
    push_str(&mut s, "\":\"");
    push_str(&mut s, v1);
    push_str(&mut s, "\",\"");
    push_str(&mut s, k2);
    push_str(&mut s, "\":\"");
    push_str(&mut s, v2);
    push_str(&mut s, "\"}");
    s
}

/// A hop-by-hop header name (compared lowercased).
pub open spec fn is_hop_by_hop(k: Seq<char>) -> bool {
    let l = unicode_lower(k);
    l == "connection"@ || l == "keep-alive"@ || l == "transfer-encoding"@ || l == "te"@ || l == "trailer"@ || l == "upgrade"@
}

/// The upstream response, without hop-by-hop headers.
pub fn build_response(status: u16, headers: &Vec<(String, String)>, body: Option<Vec<u8>>) -> (r: Response)
    requires
        crate::headers::distinct_keys(headers@),
    ensures
        r.status == status,
        r.body == body,
        forall|k: Seq<char>| #[trigger] r.headers@.contains_key(k) <==> (entries_map(headers@).contains_key(k) && !is_hop_by_hop(k)),
        forall|k: Seq<char>| r.headers@.contains_key(k) ==> #[trigger] r.headers@[k] == entries_map(headers@)[k],
{
    let mut out = HeaderMap::new();
    let mut i: usize = 0;
    while i < headers.len()
        invariant
            i <= headers@.len(),
            crate::headers::distinct_keys(headers@),
            forall|k: Seq<char>| #[trigger] out@.contains_key(k) <==> (exists|j: int| 0 <= j < i && headers@[j].0@ == k) && !is_hop_by_hop(k),
            forall|j: int| 0 <= j < i && !is_hop_by_hop(headers@[j].0@) ==> #[trigger] out@[headers@[j].0@] == headers@[j].1@,
        decreases headers@.len() - i,
    {
        let k = &headers[i].0;
        let l = to_lowercase(k.as_str());
        let hop = str_eq(l.as_str(), "connection") || str_eq(l.as_str(), "keep-alive") || str_eq(l.as_str(), "transfer-encoding")
            || str_eq(l.as_str(), "te") || str_eq(l.as_str(), "trailer") || str_eq(l.as_str(), "upgrade");
        let ghost old_out = out@;
        if !hop {
            out.insert(k.clone(), headers[i].1.clone());
        }
        proof {
            assert forall|kk: Seq<char>| #[trigger] out@.contains_key(kk) <==> (exists|j: int| 0 <= j < i + 1 && headers@[j].0@ == kk) && !is_hop_by_hop(kk) by {
                if exists|j: int| 0 <= j < i + 1 && headers@[j].0@ == kk {
                    let j = choose|j: int| 0 <= j < i + 1 && headers@[j].0@ == kk;
                    if j < i {
                        assert(exists|j2: int| 0 <= j2 < i && headers@[j2].0@ == kk);
                    }
                }
                if old_out.contains_key(kk) {
                    let j = choose|j: int| 0 <= j < i && headers@[j].0@ == kk;
                    assert(0 <= j < i + 1 && headers@[j].0@ == kk);
                }
            }
            assert forall|j: int| 0 <= j < i + 1 && !is_hop_by_hop(headers@[j].0@) implies #[trigger] out@[headers@[j].0@] == headers@[j].1@ by {
                if j < i && !hop {
                    assert(headers@[j].0@ != headers@[i as int].0@);
                }
            }
        }
        i = i + 1;
    }
    proof {
        assert forall|k: Seq<char>| #[trigger] out@.contains_key(k) <==> (entries_map(headers@).contains_key(k) && !is_hop_by_hop(k)) by {
            if exists|j: int| 0 <= j < headers@.len() && headers@[j].0@ == k {
                let j = choose|j: int| 0 <= j < headers@.len() && headers@[j].0@ == k;
                assert(crate::headers::key_at(headers@, k, j));
            }
            if entries_map(headers@).contains_key(k) {
                let j = choose|j: int| crate::headers::key_at(headers@, k, j);
                assert(0 <= j < headers@.len() && headers@[j].0@ == k);
            }
        }
        assert forall|k: Seq<char>| out@.contains_key(k) implies #[trigger] out@[k] == entries_map(headers@)[k] by {
            let j = choose|j: int| 0 <= j < headers@.len() && headers@[j].0@ == k;
            crate::headers::lemma_entries_map_at(headers@, j);
        }
    }
    Response { status, headers: out, body }
}


/// The status a response is counted under: a streamed response (status 0)
/// counts as 200.
pub fn metric_status(status: u16) -> (r: u16)
    ensures
        r == (if status == 0 { 200 } else { status }),
{
    if status == 0 { 200 } else { status }
}

/// What the dispatcher does with a request path.
pub enum ProxyRoute {
    /// `POST /v1/chat/completions`.
    ChatCompletions,
    /// Any other path: 404.
    NotFound(Response),
}

/// The detail of the 404 for a path without a handler.
pub open spec fn no_handler_detail(path: Seq<char>) -> Seq<char> {
    "ai-proxy: no handler for path "@ + path
}

/// Routes a request path: chat completions, else 404.
pub fn route_for_path(path: &str) -> (r: ProxyRoute)
    ensures
        path@ == "/v1/chat/completions"@ <==> r is ChatCompletions,
        r matches ProxyRoute::NotFound(resp) ==> resp.status == 404
            && resp.headers@ == one_header("content-type"@, "application/problem+json"@)
            && body_view(resp.body) == Some(json_bytes(error_json(404, no_handler_detail(path@)))),
{
    if str_eq(path, "/v1/chat/completions") {
        ProxyRoute::ChatCompletions
    } else {
        let detail = concat("ai-proxy: no handler for path ", path);
        ProxyRoute::NotFound(error_response(404, detail.as_str()))
    }
}

/// What the proxy does with a request before any target is resolved.
pub enum DispatchEntry {
    /// The request is answered at once.
    Answer(Response),
    /// The request goes to the targets with the client's model.
    Proceed(String),
}

/// The entry of `POST /v1/chat/completions`: a path without a handler is
/// answered 404, a body without a non-empty string `model` is answered 400
/// `model_required` (the gateway never picks a default model), and any
/// other request goes on with its model.
pub fn dispatch_entry(req: &Request) -> (r: DispatchEntry)
    ensures
        req.path@ != "/v1/chat/completions"@ ==> (r matches DispatchEntry::Answer(resp) && resp.status == 404
            && resp.headers@ == one_header("content-type"@, "application/problem+json"@)
            && body_view(resp.body) == Some(json_bytes(error_json(404, no_handler_detail(req.path@))))),
        req.path@ == "/v1/chat/completions"@ ==> match client_model_spec(body_view(req.body)) {
            None => r matches DispatchEntry::Answer(resp) && resp.status == 400
                && resp.headers@ == one_header("content-type"@, "application/problem+json"@)
                && body_view(resp.body) == Some(json_bytes(model_required_json())),
            Some(m) => r matches DispatchEntry::Proceed(model) && model@ == m,
        },
{
    match route_for_path(req.path.as_str()) {
        ProxyRoute::NotFound(resp) => DispatchEntry::Answer(resp),
        ProxyRoute::ChatCompletions => match extract_client_model(&req.body) {
            None => DispatchEntry::Answer(model_required_response()),
            Some(model) => DispatchEntry::Proceed(model),
        },
    }
}

/// The answer when no provider is configured at all.
pub fn no_provider_response() -> (r: Response)
    ensures
        r.status == 500,
        r.headers@ == one_header("content-type"@, "application/problem+json"@),
        body_view(r.body) == Some(json_bytes(error_json(500,
            "ai-proxy misconfiguration: no provider configured (set `provider` or define `targets`)"@))),
{
    error_response(500, "ai-proxy misconfiguration: no provider configured (set `provider` or define `targets`)")
}

/// A connection-level failure is never returned to the client: the chain
/// always moves on (and reports the error if no target is left).
pub proof fn law_connection_failure_moves_on(idx: int, n_targets: int, provider: Provider, e: String)
    ensures
        !next_step_spec(idx, n_targets, provider, Attempt::Failed(e)).0,
        next_step_spec(idx, n_targets, provider, Attempt::Failed(e)).1 == e@,
{
}

/// Only a 5xx triggers the fallback: any other upstream answer, a 4xx
/// included, is returned as it is.
pub proof fn law_only_server_errors_fall_back(idx: int, n_targets: int, provider: Provider, status: u16)
    requires
        status < 500,
    ensures
        next_step_spec(idx, n_targets, provider, Attempt::Responded(status)).0,
{
}

/// A 5xx from the last target is not returned either: the chain ends, and
/// the dispatcher answers 502 with that target's error.
pub proof fn law_last_target_5xx_not_returned(n_targets: int, provider: Provider, status: u16)
    requires
        status >= 500,
    ensures
        !next_step_spec(n_targets - 1, n_targets, provider, Attempt::Responded(status)).0,
        next_step_spec(n_targets - 1, n_targets, provider, Attempt::Responded(status)).1
            == "provider "@ + provider.name_spec() + " returned "@ + decimal(status as nat),
{
}

/// The fallback chain: targets are tried in order; the first attempt that
/// answers below 500 is returned, every earlier one having failed or
/// answered 5xx.
pub proof fn law_chain_returns_first_success(provs: Seq<Provider>, atts: Seq<Attempt>, init: Seq<char>, k: int)
    requires
        0 <= k < provs.len(),
        accepted(atts[k]),
        forall|j: int| 0 <= j < k ==> !accepted(#[trigger] atts[j]),
    ensures
        run_chain(provs, atts, 0, init) == ChainEnd::Accepted(k),
{
    lemma_chain_accepts(provs, atts, 0, init, k);
}

/// The fallback chain: when every target fails or answers 5xx, the chain
/// is exhausted and the 502 reports the last target's error.
pub proof fn law_chain_exhausted_reports_last_error(provs: Seq<Provider>, atts: Seq<Attempt>, init: Seq<char>)
    requires
        provs.len() > 0,
        forall|j: int| 0 <= j < provs.len() ==> !accepted(#[trigger] atts[j]),
    ensures
        run_chain(provs, atts, 0, init) == ChainEnd::Exhausted(attempt_error(provs.last(), atts[provs.len() - 1])),
{
    lemma_chain_exhausts(provs, atts, 0, init);
}

proof fn lemma_chain_accepts(provs: Seq<Provider>, atts: Seq<Attempt>, i: int, last: Seq<char>, k: int)
    requires
        0 <= i <= k < provs.len(),
        accepted(atts[k]),
        forall|j: int| i <= j < k ==> !accepted(#[trigger] atts[j]),
    ensures
        run_chain(provs, atts, i, last) == ChainEnd::Accepted(k),
    decreases k - i,
{
    if i < k {
        assert(!accepted(atts[i]));
        let e = next_step_spec(i, provs.len() as int, provs[i], atts[i]).1;
        lemma_chain_accepts(provs, atts, i + 1, e, k);
    }
}

proof fn lemma_chain_exhausts(provs: Seq<Provider>, atts: Seq<Attempt>, i: int, last: Seq<char>)
    requires
        0 <= i < provs.len(),
        forall|j: int| i <= j < provs.len() ==> !accepted(#[trigger] atts[j]),
    ensures
        run_chain(provs, atts, i, last) == ChainEnd::Exhausted(attempt_error(provs.last(), atts[provs.len() - 1])),
    decreases provs.len() - i,
{
    assert(!accepted(atts[i]));
    let e = next_step_spec(i, provs.len() as int, provs[i], atts[i]).1;
    if i + 1 < provs.len() {
        lemma_chain_exhausts(provs, atts, i + 1, e);
    }
}

} // verus!
