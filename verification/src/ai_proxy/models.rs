//! The `GET /v1/models` aggregator: the unique upstreams of the
//! configuration, their catalog requests, and the merged OpenAI list.

use vstd::prelude::*;
use crate::ai_proxy::config::{AiProxy, Provider, Route, TargetConfig};
use crate::ai_proxy::providers::{Auth, apply_auth, auth_headers, auth_url};
use crate::http::HttpRequest;
use crate::ai_proxy::transport::ANTHROPIC_API_VERSION;
use crate::headers::HeaderMap;
use crate::http::{Response, body_view, one_header};
use crate::json::{
    Json, JsonNumber, JsonV, NumV, as_array, as_str, get, json_bytes, json_members_view, json_seq_view, jstr,
    lemma_seq_view, members_new, arr_new, arr_push, obj_push, parse_json_result, json_parse, to_json_bytes,
};
use crate::sdk::{problem_details, problem_details_json};
use crate::text::{
    ascii_lower, concat, eq_ignore_ascii_case, owned, trim_end_char, trim_end_matches_char, u64_to_string,
    decimal,
};
use vstd::utf8::encode_utf8;
use crate::ai_proxy::responses::body_text;
use crate::ai_proxy::transport::timeout_ms;

verus! {

// ---------------------------------------------------------------------------
// Unique upstreams
// ---------------------------------------------------------------------------

/// One upstream the aggregator queries.
pub struct UpstreamProvider {
    pub provider: Provider,
    pub base_url: String,
    pub api_key: Option<String>,
    pub auth: Option<Auth>,
}

/// A configured provider, as a candidate upstream.
pub struct Candidate {
    pub provider: Provider,
    pub api_key: Option<Seq<char>>,
    pub base_url: Option<Seq<char>>,
    pub auth: Option<Auth>,
}

pub open spec fn opt_chars(o: Option<String>) -> Option<Seq<char>> {
    match o {
        Some(s) => Some(s@),
        None => None,
    }
}

pub open spec fn route_candidate(r: Route) -> Candidate {
    Candidate { provider: r.provider, api_key: opt_chars(r.api_key), base_url: opt_chars(r.base_url), auth: r.auth }
}

pub open spec fn target_candidate(t: TargetConfig) -> Candidate {
    Candidate { provider: t.provider, api_key: opt_chars(t.api_key), base_url: opt_chars(t.base_url), auth: t.auth }
}

/// The candidates in order: the routes, the targets, then the flat provider.
pub open spec fn candidates(p: AiProxy) -> Seq<Candidate> {
    let flat = match p.provider {
        Some(pr) => seq![Candidate { provider: pr, api_key: opt_chars(p.api_key), base_url: opt_chars(p.base_url), auth: p.auth }],
        None => Seq::empty(),
    };
    p.routes@.map_values(|r: Route| route_candidate(r)) + p.targets@.map_values(|t: (String, TargetConfig)| target_candidate(t.1)) + flat
}

/// The base URL a candidate is queried at: its own when set and non-empty,
/// else the provider's default.
pub open spec fn resolved_base(c: Candidate) -> Seq<char> {
    match c.base_url {
        Some(u) => if u.len() > 0 { u } else { c.provider.base_url_spec() },
        None => c.provider.base_url_spec(),
    }
}

/// An upstream as plain values: provider, base URL, key and strategy.
pub struct UpstreamView {
    pub provider: Provider,
    pub base_url: Seq<char>,
    pub api_key: Option<Seq<char>>,
    pub auth: Option<Auth>,
}

pub open spec fn upstream_view(u: UpstreamProvider) -> UpstreamView {
    UpstreamView { provider: u.provider, base_url: u.base_url@, api_key: opt_chars(u.api_key), auth: u.auth }
}

pub open spec fn upstream_views(v: Seq<UpstreamProvider>) -> Seq<UpstreamView> {
    v.map_values(|u: UpstreamProvider| upstream_view(u))
}

/// Whether an upstream for `(provider, base)` is already in `out`.
pub open spec fn has_upstream(out: Seq<UpstreamView>, provider: Provider, base: Seq<char>) -> bool {
    exists|i: int| 0 <= i < out.len() && out[i].provider == provider && out[i].base_url == base
}

/// The unique upstreams of a list of candidates: the first candidate of
/// each `(provider, base URL)` pair, in order.
pub open spec fn unique_upstreams(cs: Seq<Candidate>) -> Seq<UpstreamView>
    decreases cs.len(),
{
    if cs.len() == 0 {
        Seq::empty()
    } else {
        let prev = unique_upstreams(cs.drop_last());
        let c = cs.last();
        let base = resolved_base(c);
        if has_upstream(prev, c.provider, base) {
            prev
        } else {
            prev.push(UpstreamView { provider: c.provider, base_url: base, api_key: c.api_key, auth: c.auth })
        }
    }
}

/// The deduplication of the upstreams: no two share a provider and a base
/// URL; every configured candidate is represented by the upstream of its
/// provider and resolved base URL; and every upstream stands for a
/// configured candidate.
pub proof fn law_unique_upstreams(cs: Seq<Candidate>)
    ensures
        forall|i: int, j: int| 0 <= i < j < unique_upstreams(cs).len() ==>
            !(#[trigger] unique_upstreams(cs)[i].provider == #[trigger] unique_upstreams(cs)[j].provider
                && unique_upstreams(cs)[i].base_url == unique_upstreams(cs)[j].base_url),
        forall|k: int| 0 <= k < cs.len() ==> has_upstream(unique_upstreams(cs), #[trigger] cs[k].provider, resolved_base(cs[k])),
        forall|i: int| 0 <= i < unique_upstreams(cs).len() ==> exists|k: int| 0 <= k < cs.len()
            && #[trigger] unique_upstreams(cs)[i].provider == cs[k].provider && unique_upstreams(cs)[i].base_url == resolved_base(cs[k]),
    decreases cs.len(),
{
    if cs.len() > 0 {
        let init = cs.drop_last();
        law_unique_upstreams(init);
        let prev = unique_upstreams(init);
        let out = unique_upstreams(cs);
        let c = cs.last();
        let base = resolved_base(c);
        assert forall|k: int| 0 <= k < cs.len() implies has_upstream(out, #[trigger] cs[k].provider, resolved_base(cs[k])) by {
            if k < cs.len() - 1 {
                assert(init[k] == cs[k]);
                let w = choose|w: int| 0 <= w < prev.len() && prev[w].provider == init[k].provider && prev[w].base_url == resolved_base(init[k]);
                assert(out[w] == prev[w]);
            } else if !has_upstream(prev, c.provider, base) {
                assert(out[prev.len() as int].provider == c.provider && out[prev.len() as int].base_url == base);
            }
        }
        assert forall|i: int| 0 <= i < out.len() implies exists|k: int| 0 <= k < cs.len()
            && #[trigger] out[i].provider == cs[k].provider && out[i].base_url == resolved_base(cs[k]) by {
            if i < prev.len() {
                assert(out[i] == prev[i]);
                let k = choose|k: int| 0 <= k < init.len() && prev[i].provider == init[k].provider && prev[i].base_url == resolved_base(init[k]);
                assert(init[k] == cs[k]);
            } else {
                assert(out[i].provider == cs[cs.len() - 1].provider);
            }
        }
        assert forall|i: int, j: int| 0 <= i < j < out.len() implies
            !(#[trigger] out[i].provider == #[trigger] out[j].provider && out[i].base_url == out[j].base_url) by {
            if j < prev.len() {
                assert(out[i] == prev[i] && out[j] == prev[j]);
            } else {
                assert(out[i] == prev[i]);
                if out[i].provider == out[j].provider && out[i].base_url == out[j].base_url {
                    assert(has_upstream(prev, c.provider, base));
                }
            }
        }
    }
}

fn same_provider(a: &Provider, b: &Provider) -> (r: bool)
    ensures
        r == (*a == *b),
{
    match (a, b) {
        (Provider::OpenAI, Provider::OpenAI) => true,
        (Provider::Anthropic, Provider::Anthropic) => true,
        (Provider::Ollama, Provider::Ollama) => true,
        _ => false,
    }
}

fn copy_auth_opt(a: &Option<Auth>) -> (r: Option<Auth>)
    ensures
        r == *a,
{
    match a {
        Some(x) => Some(crate::ai_proxy::config::copy_auth(x)),
        None => None,
    }
}

fn push_candidate(
    provider: &Provider,
    api_key: &Option<String>,
    base_url: &Option<String>,
    auth: &Option<Auth>,
    out: &mut Vec<UpstreamProvider>,
)
    ensures
        ({
            let c = Candidate { provider: *provider, api_key: opt_chars(*api_key), base_url: opt_chars(*base_url), auth: *auth };
            let prev = upstream_views(old(out)@);
            upstream_views(final(out)@) == (if has_upstream(prev, c.provider, resolved_base(c)) {
                prev
            } else {
                prev.push(UpstreamView { provider: c.provider, base_url: resolved_base(c), api_key: c.api_key, auth: c.auth })
            })
        }),
{
    let ghost c = Candidate { provider: *provider, api_key: opt_chars(*api_key), base_url: opt_chars(*base_url), auth: *auth };
    let resolved: String = match base_url {
        Some(u) => if u.as_str().is_empty() { owned(provider.default_base_url()) } else { u.clone() },
        None => owned(provider.default_base_url()),
    };
    assert(resolved@ == resolved_base(c));
    let ghost prev = upstream_views(out@);
    let mut i: usize = 0;
    while i < out.len()
        invariant
            i <= out@.len(),
            prev == upstream_views(out@),
            out@ == old(out)@,
            c == (Candidate { provider: *provider, api_key: opt_chars(*api_key), base_url: opt_chars(*base_url), auth: *auth }),
            resolved@ == resolved_base(c),
            c.provider == *provider,
            forall|j: int| 0 <= j < i ==> !(prev[j].provider == *provider && prev[j].base_url == resolved@),
        decreases out@.len() - i,
    {
        let u = &out[i];
        let sp = same_provider(&u.provider, provider);
        let sb = crate::text::str_eq(u.base_url.as_str(), resolved.as_str());
        if sp && sb {
            assert(*u == out@[i as int]);
            assert(upstream_view(*u).base_url == resolved@);
            assert(prev.len() == out@.len());
            assert(prev[i as int] == upstream_view(out@[i as int]));
            assert(prev[i as int].provider == c.provider && prev[i as int].base_url == resolved_base(c));
            assert(has_upstream(prev, c.provider, resolved_base(c)));
            return;
        }
        i = i + 1;
    }
    assert(!has_upstream(prev, c.provider, resolved_base(c)));
    let u = UpstreamProvider {
        provider: provider.copy(),
        base_url: resolved,
        api_key: crate::ai_proxy::config::copy_opt_string(api_key),
        auth: copy_auth_opt(auth),
    };
    out.push(u);
    assert(upstream_views(out@) =~= prev.push(upstream_view(u)));
}

impl AiProxy {
    /// The unique upstreams of the configuration: routes, then targets,
    /// then the flat provider, one per `(provider, base URL)`; a missing or
    /// empty base URL is the provider's default.
    pub fn collect_unique_providers(&self) -> (r: Vec<UpstreamProvider>)
        ensures
            upstream_views(r@) == unique_upstreams(candidates(*self)),
    {
        let ghost cs = candidates(*self);
        let ghost nr: int = self.routes@.len() as int;
        let ghost nt: int = self.targets@.len() as int;
        let mut out: Vec<UpstreamProvider> = Vec::new();
        assert(cs.subrange(0, 0) =~= Seq::<Candidate>::empty());
        let mut i: usize = 0;
        while i < self.routes.len()
            invariant
                i <= nr,
                nr == self.routes@.len(),
                cs == candidates(*self),
                upstream_views(out@) == unique_upstreams(cs.subrange(0, i as int)),
            decreases nr - i,
        {
            let r = &self.routes[i];
            assert(cs[i as int] == route_candidate(*r));
            assert(cs.subrange(0, i + 1).drop_last() =~= cs.subrange(0, i as int));
            push_candidate(&r.provider, &r.api_key, &r.base_url, &r.auth, &mut out);
            i = i + 1;
        }
        let mut j: usize = 0;
        while j < self.targets.len()
            invariant
                j <= nt,
                nr == self.routes@.len(),
                nt == self.targets@.len(),
                cs == candidates(*self),
                upstream_views(out@) == unique_upstreams(cs.subrange(0, nr + j)),
            decreases nt - j,
        {
            let t = &self.targets[j].1;
            assert(cs[nr + j] == target_candidate(*t));
            assert(cs.subrange(0, nr + j + 1).drop_last() =~= cs.subrange(0, nr + j));
            push_candidate(&t.provider, &t.api_key, &t.base_url, &t.auth, &mut out);
            j = j + 1;
        }
        match &self.provider {
            Some(p) => {
                assert(cs.len() == nr + nt + 1);
                assert(cs.subrange(0, nr + nt + 1).drop_last() =~= cs.subrange(0, nr + nt));
                push_candidate(p, &self.api_key, &self.base_url, &self.auth, &mut out);
                assert(cs.subrange(0, nr + nt + 1) =~= cs);
            },
            None => {
                assert(cs.subrange(0, nr + nt) =~= cs);
            },
        }
        out
    }
}

// ---------------------------------------------------------------------------
// Catalog requests and answers
// ---------------------------------------------------------------------------

/// The credential strategy of an upstream: its own, else the provider's.
pub open spec fn upstream_auth(u: UpstreamProvider) -> Auth {
    match u.auth {
        Some(a) => a,
        None => if u.provider is Anthropic { Auth::ApiKey } else { Auth::Bearer },
    }
}

/// The catalog URL of an upstream before any credential.
pub open spec fn catalog_url(u: UpstreamProvider) -> Seq<char> {
    let base = trim_end_char(u.base_url@, '/');
    match u.provider {
        Provider::Ollama => base + "/api/tags"@,
        _ => base + "/v1/models"@,
    }
}

/// The catalog headers of an upstream before any credential.
pub open spec fn catalog_headers(p: Provider) -> Map<Seq<char>, Seq<char>> {
    let json = Map::<Seq<char>, Seq<char>>::empty().insert("content-type"@, "application/json"@);
    match p {
        Provider::OpenAI => json,
        Provider::Anthropic => json.insert("anthropic-version"@, ANTHROPIC_API_VERSION@),
        Provider::Ollama => Map::empty(),
    }
}

fn upstream_auth_exec(u: &UpstreamProvider) -> (r: Auth)
    ensures
        r == upstream_auth(*u),
{
    match &u.auth {
        Some(a) => crate::ai_proxy::config::copy_auth(a),
        None => if u.provider.is_openai_compatible() { Auth::Bearer } else { Auth::ApiKey },
    }
}

impl AiProxy {
    /// The catalog request of an upstream: `GET /v1/models` (Ollama:
    /// `/api/tags`, unauthenticated), with the discovery timeout.
    pub fn models_request(&self, u: &UpstreamProvider) -> (r: HttpRequest)
        ensures
            r.method@ == "GET"@,
            r.timeout_ms == Some(self.models_timeout_ms),
            ({
                let keyed = !(u.provider is Ollama) && u.api_key is Some;
                &&& r.url@ == (if keyed { auth_url(upstream_auth(*u), u.api_key->0@, catalog_url(*u)) } else { catalog_url(*u) })
                &&& r.headers@ == (if keyed {
                    auth_headers(upstream_auth(*u), u.api_key->0@, catalog_headers(u.provider))
                } else {
                    catalog_headers(u.provider)
                })
            }),
    {
        let base = trim_end_matches_char(u.base_url.as_str(), '/');
        let mut headers = HeaderMap::new();
        let mut url = match u.provider {
            Provider::OpenAI => {
                headers.insert(owned("content-type"), owned("application/json"));
                concat(base.as_str(), "/v1/models")
            },
            Provider::Anthropic => {
                headers.insert(owned("content-type"), owned("application/json"));
                headers.insert(owned("anthropic-version"), owned(ANTHROPIC_API_VERSION));
                concat(base.as_str(), "/v1/models")
            },
            Provider::Ollama => concat(base.as_str(), "/api/tags"),
        };
        assert(headers@ =~= catalog_headers(u.provider));
        match (&u.provider, &u.api_key) {
            (Provider::Ollama, _) => {},
            (_, Some(key)) => {
                apply_auth(&upstream_auth_exec(u), key.as_str(), &mut headers, &mut url);
            },
            (_, None) => {},
        }
        HttpRequest { method: owned("GET"), url, headers, timeout_ms: Some(self.models_timeout_ms) }
    }
}

/// Why one upstream contributed no models: its status (0 when no answer
/// came) and a description.
pub struct UpstreamFailure {
    pub status: u16,
    pub detail: String,
}

/// A failure of the connection itself.
pub fn connection_failure(e: String) -> (r: UpstreamFailure)
    ensures
        r.status == 0,
        r.detail == e,
{
    UpstreamFailure { status: 0, detail: e }
}

/// An object item with `owned_by` set to the provider's name when absent.
pub open spec fn stamp_owned_by(item: JsonV, name: Seq<char>) -> JsonV {
    match item {
        JsonV::Object(m) => if get(item, "owned_by"@) is None {
            JsonV::Object(m.push(("owned_by"@, JsonV::Str(name))))
        } else {
            item
        },
        _ => item,
    }
}

/// The OpenAI model entry of an Ollama `/api/tags` model with a string name.
pub open spec fn ollama_model(m: JsonV) -> Option<JsonV> {
    match get(m, "name"@) {
        Some(v) => match as_str(v) {
            Some(n) => Some(JsonV::Object(seq![
                ("id"@, JsonV::Str(n)), ("object"@, JsonV::Str("model"@)), ("owned_by"@, JsonV::Str("ollama"@))])),
            None => None,
        },
        None => None,
    }
}

pub open spec fn ollama_models(ms: Seq<JsonV>) -> Seq<JsonV>
    decreases ms.len(),
{
    if ms.len() == 0 {
        Seq::empty()
    } else {
        let prev = ollama_models(ms.drop_last());
        match ollama_model(ms.last()) {
            Some(x) => prev.push(x),
            None => prev,
        }
    }
}

/// The array member `k` of a body, empty when absent or not an array.
pub open spec fn array_member(body: JsonV, k: Seq<char>) -> Seq<JsonV> {
    match get(body, k) {
        Some(v) => match as_array(v) {
            Some(a) => a,
            None => Seq::empty(),
        },
        None => Seq::empty(),
    }
}

/// The models an upstream's catalog lists, in the OpenAI shape.
pub open spec fn models_of(provider: Provider, body: JsonV) -> Seq<JsonV> {
    match provider {
        Provider::Ollama => ollama_models(array_member(body, "models"@)),
        _ => array_member(body, "data"@).map_values(|i: JsonV| stamp_owned_by(i, provider.name_spec())),
    }
}

fn array_member_ref<'a>(body: &'a Json, k: &str, empty: &'a Vec<Json>) -> (r: &'a Vec<Json>)
    requires
        empty@.len() == 0,
    ensures
        json_seq_view(r@) == array_member(body@, k@),
{
    match body.get(k) {
        Some(v) => match v.as_array() {
            Some(a) => a,
            None => empty,
        },
        None => empty,
    }
}

fn stamp_exec(item: &Json, name: &str) -> (r: Json)
    ensures
        r@ == stamp_owned_by(item@, name@),
{
    let present = item.get("owned_by").is_some();
    match item {
        Json::Object(m) => if !present {
            let mut m2 = item.copy();
            match m2 {
                Json::Object(mut members) => {
                    let ghost m0 = members@;
                    let k = owned("owned_by");
                    let x = jstr(name);
                    proof { crate::json::lemma_members_view_push(m0, k, x); }
                    members.push((k, x));
                    Json::Object(members)
                },
                other => other,
            }
        } else {
            item.copy()
        },
        _ => item.copy(),
    }
}

fn ollama_model_exec(m: &Json) -> (r: Option<Json>)
    ensures
        opt_json_eq(r, ollama_model(m@)),
{
    match m.get("name") {
        Some(v) => match v.as_str() {
            Some(n) => {
                let mut o = members_new();
                obj_push(&mut o, "id", jstr(n.as_str()));
                obj_push(&mut o, "object", jstr("model"));
                obj_push(&mut o, "owned_by", jstr("ollama"));
                assert(json_members_view(o@) =~= seq![
                    ("id"@, JsonV::Str(n@)), ("object"@, JsonV::Str("model"@)), ("owned_by"@, JsonV::Str("ollama"@))]);
                Some(Json::Object(o))
            },
            None => None,
        },
        None => None,
    }
}

pub open spec fn opt_json_eq(r: Option<Json>, s: Option<JsonV>) -> bool {
    crate::json::opt_json(r) == s
}

/// Reshapes an upstream catalog into OpenAI model entries: OpenAI and
/// Anthropic `data[]` items get `owned_by` when they lack it; Ollama
/// `models[]` with a string `name` become `{id, object, owned_by}`.
pub fn translate_models_response(provider: &Provider, body: &Json) -> (r: Vec<Json>)
    ensures
        json_seq_view(r@) == models_of(*provider, body@),
{
    let empty: Vec<Json> = Vec::new();
    let mut out = arr_new();
    match provider {
        Provider::Ollama => {
            let ms = array_member_ref(body, "models", &empty);
            proof { lemma_seq_view(ms@); }
            let ghost mv = json_seq_view(ms@);
            let mut i: usize = 0;
            assert(mv.subrange(0, 0) =~= Seq::<JsonV>::empty());
            while i < ms.len()
                invariant
                    i <= ms@.len(),
                    mv.len() == ms@.len(),
                    forall|k: int| 0 <= k < ms@.len() ==> #[trigger] mv[k] == ms@[k]@,
                    json_seq_view(out@) == ollama_models(mv.subrange(0, i as int)),
                decreases ms@.len() - i,
            {
                assert(mv.subrange(0, i + 1).drop_last() =~= mv.subrange(0, i as int));
                assert(mv.subrange(0, i + 1).last() == ms@[i as int]@);
                match ollama_model_exec(&ms[i]) {
                    Some(x) => arr_push(&mut out, x),
                    None => {},
                }
                i = i + 1;
            }
            assert(mv.subrange(0, ms@.len() as int) =~= mv);
        },
        _ => {
            let items = array_member_ref(body, "data", &empty);
            proof { lemma_seq_view(items@); }
            let ghost iv = json_seq_view(items@);
            let name = provider.name();
            let mut i: usize = 0;
            while i < items.len()
                invariant
                    i <= items@.len(),
                    iv.len() == items@.len(),
                    name@ == provider.name_spec(),
                    forall|k: int| 0 <= k < items@.len() ==> #[trigger] iv[k] == items@[k]@,
                    json_seq_view(out@) == iv.subrange(0, i as int).map_values(|x: JsonV| stamp_owned_by(x, provider.name_spec())),
                decreases items@.len() - i,
            {
                let ghost before = json_seq_view(out@);
                arr_push(&mut out, stamp_exec(&items[i], name));
                assert(iv.subrange(0, i + 1).map_values(|x: JsonV| stamp_owned_by(x, provider.name_spec()))
                    =~= before.push(stamp_owned_by(iv[i as int], provider.name_spec())));
                i = i + 1;
            }
            assert(iv.subrange(0, items@.len() as int) =~= iv);
        },
    }
    out
}

/// What one upstream's catalog answer gives: its models for a 2xx JSON
/// body (a body that is not UTF-8 reads as empty), or the failure.
pub open spec fn catalog_outcome(provider: Provider, status: u16, body: Option<Seq<u8>>) -> Result<Seq<JsonV>, (u16, Seq<char>)> {
    if !(200 <= status < 300) {
        Err((status, "upstream returned "@ + decimal(status as nat)))
    } else {
        match json_parse(encode_utf8(body_text(body))) {
            Ok(v) => Ok(models_of(provider, v)),
            Err(e) => Err((status, "invalid JSON from upstream: "@ + e)),
        }
    }
}

/// Reads an upstream's catalog answer.
pub fn models_from_answer(provider: &Provider, resp: Response) -> (r: Result<Vec<Json>, UpstreamFailure>)
    ensures
        match r {
            Ok(v) => catalog_outcome(*provider, resp.status, body_view(resp.body)) == Ok::<Seq<JsonV>, (u16, Seq<char>)>(json_seq_view(v@)),
            Err(f) => catalog_outcome(*provider, resp.status, body_view(resp.body)) == Err::<Seq<JsonV>, (u16, Seq<char>)>((f.status, f.detail@)),
        },
{
    let status = resp.status;
    if !(status >= 200 && status < 300) {
        let detail = concat("upstream returned ", u64_to_string(status as u64).as_str());
        return Err(UpstreamFailure { status, detail });
    }
    let text = match resp.body {
        Some(b) => match crate::text::string_from_utf8(b) {
            Some(t) => t,
            None => String::new(),
        },
        None => String::new(),
    };
    assert(text@ == body_text(body_view(resp.body)));
    match parse_json_result(text.as_str().as_bytes()) {
        Ok(v) => Ok(translate_models_response(provider, &v)),
        Err(e) => Err(UpstreamFailure { status, detail: concat("invalid JSON from upstream: ", e.as_str()) }),
    }
}

/// The `warnings[]` entry of a failed upstream.
pub open spec fn warning_json(provider: Provider, status: u16, detail: Seq<char>) -> JsonV {
    JsonV::Object(seq![
        ("provider"@, JsonV::Str(provider.name_spec())),
        ("status"@, JsonV::Number(NumV::PosInt(status as u64))),
        ("detail"@, JsonV::Str(detail)),
    ])
}

/// The aggregated list: `object: "list"` and the models; when some upstream
/// failed, also `partial: true` and the warnings.
pub open spec fn models_list_json(data: Seq<JsonV>, warnings: Seq<JsonV>) -> JsonV {
    let m = seq![("object"@, JsonV::Str("list"@)), ("data"@, JsonV::Array(data))];
    JsonV::Object(if warnings.len() > 0 {
        m.push(("partial"@, JsonV::Bool(true))).push(("warnings"@, JsonV::Array(warnings)))
    } else {
        m
    })
}

/// The result of one upstream in the aggregation.
pub enum CatalogResult {
    Models(Vec<Json>),
    Failed(UpstreamFailure),
}

/// The models and warnings of the upstreams' results, in order.
pub open spec fn aggregate(results: Seq<(Provider, Result<Seq<JsonV>, (u16, Seq<char>)>)>) -> (Seq<JsonV>, Seq<JsonV>)
    decreases results.len(),
{
    if results.len() == 0 {
        (Seq::empty(), Seq::empty())
    } else {
        let (d, w) = aggregate(results.drop_last());
        let (p, res) = results.last();
        match res {
            Ok(models) => (d + models, w),
            Err((status, detail)) => (d, w.push(warning_json(p, status, detail))),
        }
    }
}

pub open spec fn result_view(r: (Provider, CatalogResult)) -> (Provider, Result<Seq<JsonV>, (u16, Seq<char>)>) {
    (r.0, match r.1 {
        CatalogResult::Models(v) => Ok(json_seq_view(v@)),
        CatalogResult::Failed(f) => Err((f.status, f.detail@)),
    })
}

/// Merges the upstreams' results into the 200 answer: a failed upstream
/// turns the answer partial instead of failing it.
pub fn models_list_response(results: Vec<(Provider, CatalogResult)>) -> (r: Response)
    ensures
        r.status == 200,
        r.headers@ == one_header("content-type"@, "application/json"@),
        ({
            let (d, w) = aggregate(results@.map_values(|x: (Provider, CatalogResult)| result_view(x)));
            body_view(r.body) == Some(json_bytes(models_list_json(d, w)))
        }),
{
    let ghost rv = results@.map_values(|x: (Provider, CatalogResult)| result_view(x));
    let mut data = arr_new();
    let mut warnings = arr_new();
    let mut results = results;
    let ghost all = results@;
    let mut i: usize = 0;
    let n = results.len();
    assert(all.len() == n);
    assert(results@ =~= all.subrange(0, all.len() as int));
    assert(rv.subrange(0, 0) =~= Seq::<(Provider, Result<Seq<JsonV>, (u16, Seq<char>)>)>::empty());
    while results.len() > 0
        invariant
            i <= all.len(),
            all.len() <= usize::MAX,
            results@ == all.subrange(i as int, all.len() as int),
            rv == all.map_values(|x: (Provider, CatalogResult)| result_view(x)),
            aggregate(rv.subrange(0, i as int)) == (json_seq_view(data@), json_seq_view(warnings@)),
        decreases all.len() - i,
    {
        assert(rv.subrange(0, i + 1).drop_last() =~= rv.subrange(0, i as int));
        assert(rv.subrange(0, i + 1).last() == result_view(all[i as int]));
        let entry = results.remove(0);
        assert(entry == all[i as int]);
        let (p, res) = entry;
        match res {
            CatalogResult::Models(mut v) => {
                let ghost d0 = data@;
                proof { lemma_seq_view(d0); lemma_seq_view(v@); }
                let ghost vv = json_seq_view(v@);
                data.append(&mut v);
                proof { lemma_seq_view(data@); }
                assert(json_seq_view(data@) =~= json_seq_view(d0) + vv);
            },
            CatalogResult::Failed(f) => {
                let mut w = members_new();
                obj_push(&mut w, "provider", jstr(p.name()));
                obj_push(&mut w, "status", Json::Number(JsonNumber::PosInt(f.status as u64)));
                obj_push(&mut w, "detail", Json::Str(f.detail));
                assert(json_members_view(w@) =~= seq![
                    ("provider"@, JsonV::Str(p.name_spec())),
                    ("status"@, JsonV::Number(NumV::PosInt(f.status as u64))),
                    ("detail"@, JsonV::Str(f.detail@))]);
                arr_push(&mut warnings, Json::Object(w));
            },
        }
        i = i + 1;
        assert(results@ =~= all.subrange(i as int, all.len() as int));
    }
    assert(rv.subrange(0, all.len() as int) =~= rv);
    proof { lemma_seq_view(data@); lemma_seq_view(warnings@); }
    let ghost (dv, wv) = (json_seq_view(data@), json_seq_view(warnings@));
    let has_warnings = warnings.len() > 0;
    let mut m = members_new();
    obj_push(&mut m, "object", jstr("list"));
    obj_push(&mut m, "data", Json::Array(data));
    let ghost m2 = seq![("object"@, JsonV::Str("list"@)), ("data"@, JsonV::Array(dv))];
    assert(json_members_view(m@) =~= m2);
    if has_warnings {
        obj_push(&mut m, "partial", Json::Bool(true));
        obj_push(&mut m, "warnings", Json::Array(warnings));
        assert(json_members_view(m@) =~= m2.push(("partial"@, JsonV::Bool(true))).push(("warnings"@, JsonV::Array(wv))));
    }
    let body = to_json_bytes(&Json::Object(m));
    let mut headers = HeaderMap::new();
    headers.insert(owned("content-type"), owned("application/json"));
    Response { status: 200, headers, body: Some(body) }
}

/// The detail of the 405 answer.
pub open spec fn method_not_allowed_json() -> JsonV {
    problem_details_json(405, "urn:barbacane:error:method_not_allowed"@, "Method Not Allowed"@,
        Some("ai-proxy: /v1/models accepts GET only."@), seq![("code"@, JsonV::Str("method_not_allowed"@))])
}

/// 405 for a non-GET request, with `allow: GET`.
pub fn method_not_allowed_response() -> (r: Response)
    ensures
        r.status == 405,
        r.headers@ == one_header("content-type"@, "application/problem+json"@).insert("allow"@, "GET"@),
        body_view(r.body) == Some(json_bytes(method_not_allowed_json())),
{
    let mut ext = members_new();
    obj_push(&mut ext, "code", jstr("method_not_allowed"));
    assert(json_members_view(ext@) =~= seq![("code"@, JsonV::Str("method_not_allowed"@))]);
    let mut resp = problem_details(405, "urn:barbacane:error:method_not_allowed", "Method Not Allowed",
        Some("ai-proxy: /v1/models accepts GET only."), &ext);
    resp.headers.insert(owned("allow"), owned("GET"));
    resp
}

/// Whether the catalog accepts the method (GET, in any case).
pub fn models_method_allowed(method: &str) -> (r: bool)
    ensures
        r == (ascii_lower(method@) == ascii_lower("GET"@)),
{
    eq_ignore_ascii_case(method, "GET")
}

/// The 500 detail of a catalog request with nothing configured.
pub open spec fn no_upstream_detail() -> Seq<char> {
    "ai-proxy misconfiguration: no provider configured (set `provider`, `routes`, or define `targets`)"@
}

impl AiProxy {
    /// The start of a catalog request: 405 for a method other than GET,
    /// 500 when no upstream is configured, else the upstreams to ask.
    pub fn models_plan(&self, method: &str) -> (r: Result<Vec<UpstreamProvider>, Response>)
        ensures
            ascii_lower(method@) != ascii_lower("GET"@) ==> (r matches Err(resp) && resp.status == 405
                && resp.headers@ == one_header("content-type"@, "application/problem+json"@).insert("allow"@, "GET"@)
                && body_view(resp.body) == Some(json_bytes(method_not_allowed_json()))),
            ascii_lower(method@) == ascii_lower("GET"@) ==> match r {
                Ok(us) => upstream_views(us@) == unique_upstreams(candidates(*self)) && us@.len() > 0,
                Err(resp) => unique_upstreams(candidates(*self)).len() == 0 && resp.status == 500
                    && resp.headers@ == one_header("content-type"@, "application/problem+json"@)
                    && body_view(resp.body) == Some(json_bytes(crate::ai_proxy::dispatch::error_json(500, no_upstream_detail()))),
            },
    {
        if !models_method_allowed(method) {
            return Err(method_not_allowed_response());
        }
        let upstreams = self.collect_unique_providers();
        if upstreams.len() == 0 {
            return Err(crate::ai_proxy::dispatch::error_response(500,
                "ai-proxy misconfiguration: no provider configured (set `provider`, `routes`, or define `targets`)"));
        }
        Ok(upstreams)
    }
}

} // verus!
