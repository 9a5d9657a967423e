//! The HTTP log middleware: what a request leaves in the context, and the
//! log entry sent for its response.

use vstd::prelude::*;
use crate::headers::HeaderMap;
use crate::http::{Request, Response};
use crate::json::{
    Json, JsonNumber, JsonV, NumV, json_bytes, json_members_view, json_text, members_new, members_push,
    obj_push, parse_json, parsed, to_json_bytes, to_json_text, member_texts, members_joined, members_joined_of,
    pairs_view, struct_text, struct_text_of, texts_of,
};
use crate::text::{decimal, owned, parse_u64, parse_unsigned, u64_to_string};
use vstd::utf8::encode_utf8;

verus! {

/// HTTP log configuration.
pub struct HttpLog {
    /// Where log entries are sent.
    pub endpoint: String,
    /// Method of the log call.
    pub method: String,
    pub timeout_ms: u64,
    /// Content type of the log call.
    pub content_type: String,
    /// Whether headers are logged.
    pub include_headers: bool,
    /// Whether body sizes are logged.
    pub include_body: bool,
    /// Fields added to every entry.
    pub custom_fields: HeaderMap,
}

pub fn default_method() -> (r: String)
    ensures r@ == "POST"@,
{
    owned("POST")
}

pub fn default_timeout_ms() -> (r: u64)
    ensures r == 2000,
{
    2000
}

pub fn default_content_type() -> (r: String)
    ensures r@ == "application/json"@,
{
    owned("application/json")
}

/// Header entries as a JSON object of strings, in their order.
pub open spec fn headers_json(es: Seq<(Seq<char>, Seq<char>)>) -> JsonV {
    JsonV::Object(es.map_values(|e: (Seq<char>, Seq<char>)| (e.0, JsonV::Str(e.1))))
}

fn headers_to_json(h: &HeaderMap) -> (r: Json)
    ensures
        r@ == headers_json(h.entry_seq()),
{
    let pairs = h.pairs();
    let mut m = members_new();
    let mut i: usize = 0;
    while i < pairs.len()
        invariant
            i <= pairs@.len(),
            json_members_view(m@) == pairs@.subrange(0, i as int).map_values(|e: (String, String)| (e.0@, JsonV::Str(e.1@))),
        decreases pairs@.len() - i,
    {
        let ghost before = json_members_view(m@);
        members_push(&mut m, pairs[i].0.clone(), Json::Str(pairs[i].1.clone()));
        assert(pairs@.subrange(0, i + 1).map_values(|e: (String, String)| (e.0@, JsonV::Str(e.1@)))
            =~= before.push((pairs@[i as int].0@, JsonV::Str(pairs@[i as int].1@))));
        i = i + 1;
    }
    assert(pairs@.subrange(0, pairs@.len() as int) =~= pairs@);
    assert(pairs@.map_values(|e: (String, String)| (e.0@, JsonV::Str(e.1@)))
        =~= h.entry_seq().map_values(|e: (Seq<char>, Seq<char>)| (e.0, JsonV::Str(e.1))));
    Json::Object(m)
}

impl HttpLog {
    /// The context entries a request leaves for its response: start time,
    /// method, path, client address, the query when present, the headers
    /// as JSON and the body size when asked for.
    pub fn request_context(&self, req: &Request, start_ms: u64) -> (r: Vec<(String, String)>)
        ensures
            ({
                let base = seq![
                    ("http_log_start_ms"@, decimal(start_ms as nat)),
                    ("http_log_method"@, req.method@),
                    ("http_log_path"@, req.path@),
                    ("http_log_client_ip"@, req.client_ip@),
                ];
                let with_query = match req.query { Some(q) => base.push(("http_log_query"@, q@)), None => base };
                let with_headers = if self.include_headers {
                    with_query.push(("http_log_req_headers"@, json_text(headers_json(req.headers.entry_seq()))))
                } else {
                    with_query
                };
                let all = if self.include_body && req.body is Some {
                    with_headers.push(("http_log_req_body_size"@, decimal(req.body->0@.len())))
                } else {
                    with_headers
                };
                r@.map_values(|e: (String, String)| (e.0@, e.1@)) == all
            }),
    {
        let mut out: Vec<(String, String)> = Vec::new();
        out.push((owned("http_log_start_ms"), u64_to_string(start_ms)));
        out.push((owned("http_log_method"), req.method.clone()));
        out.push((owned("http_log_path"), req.path.clone()));
        out.push((owned("http_log_client_ip"), req.client_ip.clone()));
        if let Some(q) = &req.query {
            out.push((owned("http_log_query"), q.clone()));
        }
        let hj = headers_to_json(&req.headers);
        if self.include_headers {
            out.push((owned("http_log_req_headers"), to_json_text(&hj)));
        }
        if self.include_body {
            if let Some(b) = &req.body {
                out.push((owned("http_log_req_body_size"), u64_to_string(b.len() as u64)));
            }
        }
        let ghost base = seq![
            ("http_log_start_ms"@, decimal(start_ms as nat)),
            ("http_log_method"@, req.method@),
            ("http_log_path"@, req.path@),
            ("http_log_client_ip"@, req.client_ip@),
        ];
        let ghost with_query = match &req.query { Some(q) => base.push(("http_log_query"@, q@)), None => base };
        let ghost with_headers = if self.include_headers {
            with_query.push(("http_log_req_headers"@, json_text(headers_json(req.headers.entry_seq()))))
        } else {
            with_query
        };
        let ghost all = if self.include_body && req.body is Some {
            with_headers.push(("http_log_req_body_size"@, decimal(req.body->0@.len())))
        } else {
            with_headers
        };
        assert(out@.map_values(|e: (String, String)| (e.0@, e.1@)) =~= all);
        out
    }
}

/// What the response phase reads back from the context.
pub struct LogContext {
    pub start_ms: Option<String>,
    pub correlation_id: Option<String>,
    pub method: Option<String>,
    pub path: Option<String>,
    pub query: Option<String>,
    pub client_ip: Option<String>,
    pub req_headers: Option<String>,
    pub req_body_size: Option<String>,
}

/// A number read from the context, if it is one (at most `max`).
pub open spec fn ctx_number(o: Option<String>, max: nat) -> Option<nat> {
    match o {
        Some(s) => parse_unsigned(s@, max),
        None => None,
    }
}

/// Whether every member is a string.
pub open spec fn all_str_members(m: Seq<(Seq<char>, JsonV)>) -> bool {
    forall|i: int| 0 <= i < m.len() ==> m[i].1 is Str
}

/// The stored request headers, when they read back as an object of strings.
pub open spec fn stored_headers(o: Option<String>) -> Option<JsonV> {
    match o {
        Some(h) => match parsed(encode_utf8(h@)) {
            Some(JsonV::Object(m)) => if all_str_members(m) { Some(JsonV::Object(m)) } else { None },
            _ => None,
        },
        None => None,
    }
}

pub open spec fn or_empty(o: Option<String>) -> Seq<char> {
    match o {
        Some(s) => s@,
        None => Seq::empty(),
    }
}

pub open spec fn push_some(m: Seq<(Seq<char>, JsonV)>, k: Seq<char>, o: Option<JsonV>) -> Seq<(Seq<char>, JsonV)> {
    match o {
        Some(v) => m.push((k, v)),
        None => m,
    }
}

pub open spec fn size_json(n: Option<nat>) -> Option<JsonV> {
    match n {
        Some(v) => Some(JsonV::Number(NumV::PosInt(v as u64))),
        None => None,
    }
}

/// The `request` part of a log entry.
pub open spec fn request_members(c: HttpLog, ctx: LogContext) -> Seq<(Seq<char>, JsonV)> {
    push_some(push_some(push_some(seq![
            ("method"@, JsonV::Str(or_empty(ctx.method))),
            ("path"@, JsonV::Str(or_empty(ctx.path))),
        ], "query"@, match ctx.query { Some(q) => Some(JsonV::Str(q@)), None => None })
        .push(("client_ip"@, JsonV::Str(or_empty(ctx.client_ip)))),
        "headers"@, if c.include_headers { stored_headers(ctx.req_headers) } else { None }),
        "body_size"@, if c.include_body { size_json(ctx_number(ctx.req_body_size, usize::MAX as nat)) } else { None })
}

/// The `response` part of a log entry.
pub open spec fn response_members(c: HttpLog, resp: Response) -> Seq<(Seq<char>, JsonV)> {
    push_some(push_some(seq![("status"@, JsonV::Number(NumV::PosInt(resp.status as u64)))],
        "headers"@, if c.include_headers { Some(headers_json(resp.headers.entry_seq())) } else { None }),
        "body_size"@, if c.include_body { match resp.body { Some(b) => Some(JsonV::Number(NumV::PosInt(b@.len() as u64))), None => None } } else { None })
}

/// The start time read back, 0 when missing.
pub open spec fn start_of(ctx: LogContext) -> u64 {
    match ctx_number(ctx.start_ms, u64::MAX as nat) { Some(n) => n as u64, None => 0 }
}

/// The top-level members before `request`.
pub open spec fn head_members(ctx: LogContext, now_ms: u64) -> Seq<(Seq<char>, JsonV)> {
    let start = start_of(ctx);
    let duration = if now_ms >= start { (now_ms - start) as u64 } else { 0 };
    push_some(seq![
            ("timestamp_ms"@, JsonV::Number(NumV::PosInt(start))),
            ("duration_ms"@, JsonV::Number(NumV::PosInt(duration))),
        ], "correlation_id"@, match ctx.correlation_id { Some(x) => Some(JsonV::Str(x@)), None => None })
}

/// The entry's own fields, each value as text, in declaration order; the
/// `request` and `response` parts are written in their declaration order
/// too.
pub open spec fn entry_fields(c: HttpLog, resp: Response, ctx: LogContext, now_ms: u64) -> Seq<(Seq<char>, Seq<char>)> {
    texts_of(head_members(ctx, now_ms))
        .push(("request"@, struct_text(texts_of(request_members(c, ctx)))))
        .push(("response"@, struct_text(texts_of(response_members(c, resp)))))
}

/// The text between the braces of an object's text.
pub open spec fn inner_text(t: Seq<char>) -> Seq<char> {
    if t.len() >= 2 { t.subrange(1, t.len() - 1) } else { Seq::empty() }
}

/// The log entry as text, as serde writes the entry: its fields in
/// declaration order, then the custom fields flattened into it as
/// serde_json writes a map of them. Maps (the headers, the custom fields)
/// come in key order, as a `BTreeMap` holds them.
pub open spec fn entry_text(c: HttpLog, resp: Response, ctx: LogContext, now_ms: u64) -> Seq<char> {
    let fields = entry_fields(c, resp, ctx, now_ms);
    if c.custom_fields.entry_seq().len() == 0 {
        struct_text(fields)
    } else {
        seq!['{'] + members_joined(fields) + seq![','] + inner_text(json_text(headers_json(c.custom_fields.entry_seq())))
            + seq!['}']
    }
}

/// The host call that sends an entry.
pub open spec fn log_call_json(c: HttpLog, payload: Seq<char>) -> JsonV {
    JsonV::Object(seq![
        ("method"@, JsonV::Str(c.method@)),
        ("url"@, JsonV::Str(c.endpoint@)),
        ("headers"@, JsonV::Object(seq![("content-type"@, JsonV::Str(c.content_type@))])),
        ("body"@, JsonV::Str(payload)),
        ("timeout_ms"@, JsonV::Number(NumV::PosInt(c.timeout_ms))),
    ])
}

fn push_opt_member(m: &mut Vec<(String, Json)>, k: &str, o: Option<Json>)
    ensures
        json_members_view(final(m)@) == push_some(json_members_view(old(m)@), k@, crate::json::opt_json(o)),
{
    match o {
        Some(v) => obj_push(m, k, v),
        None => {},
    }
}

fn stored_headers_exec(o: &Option<String>) -> (r: Option<Json>)
    ensures
        crate::json::opt_json(r) == stored_headers(*o),
{
    let h = match o {
        Some(h) => h,
        None => return None,
    };
    let v = match parse_json(h.as_str().as_bytes()) {
        Some(v) => v,
        None => return None,
    };
    match &v {
        Json::Object(m) => {
            proof { crate::json::lemma_members_view(m@); }
            let ghost mv = json_members_view(m@);
            assert(stored_headers(*o) == (if all_str_members(mv) { Some(JsonV::Object(mv)) } else { None::<JsonV> }));
            let mut i: usize = 0;
            while i < m.len()
                invariant
                    stored_headers(*o) == (if all_str_members(mv) { Some(JsonV::Object(mv)) } else { None::<JsonV> }),
                    i <= m@.len(),
                    mv == json_members_view(m@),
                    mv.len() == m@.len(),
                    forall|k: int| 0 <= k < m@.len() ==> #[trigger] mv[k] == (m@[k].0@, m@[k].1@),
                    forall|k: int| 0 <= k < i ==> mv[k].1 is Str,
                decreases m@.len() - i,
            {
                match &m[i].1 {
                    Json::Str(_) => {},
                    _ => {
                        assert(!(mv[i as int].1 is Str));
                        return None;
                    },
                }
                i = i + 1;
            }
        },
        _ => return None,
    }
    Some(v)
}

fn ctx_number_exec(o: &Option<String>) -> (r: Option<u64>)
    ensures
        match r { Some(n) => ctx_number(*o, u64::MAX as nat) == Some(n as nat), None => ctx_number(*o, u64::MAX as nat) is None },
{
    match o {
        Some(s) => parse_u64(s.as_str()),
        None => None,
    }
}

fn or_empty_exec(o: &Option<String>) -> (r: String)
    ensures
        r@ == or_empty(*o),
{
    match o {
        Some(s) => s.clone(),
        None => String::new(),
    }
}

impl HttpLog {
    /// The host call sending the log entry of a response at time `now_ms`.
    pub fn log_call(&self, resp: &Response, ctx: &LogContext, now_ms: u64) -> (r: Vec<u8>)
        ensures
            r@ == json_bytes(log_call_json(*self, entry_text(*self, *resp, *ctx, now_ms))),
    {
        let start: u64 = match ctx_number_exec(&ctx.start_ms) { Some(n) => n, None => 0 };
        let duration = now_ms.saturating_sub(start);
        let mut request = members_new();
        obj_push(&mut request, "method", Json::Str(or_empty_exec(&ctx.method)));
        obj_push(&mut request, "path", Json::Str(or_empty_exec(&ctx.path)));
        push_opt_member(&mut request, "query", match &ctx.query { Some(q) => Some(Json::Str(q.clone())), None => None });
        obj_push(&mut request, "client_ip", Json::Str(or_empty_exec(&ctx.client_ip)));
        push_opt_member(&mut request, "headers", if self.include_headers { stored_headers_exec(&ctx.req_headers) } else { None });
        let size: Option<Json> = if self.include_body {
            match &ctx.req_body_size {
                Some(s) => match crate::text::parse_usize(s.as_str()) {
                    Some(n) => Some(Json::Number(JsonNumber::PosInt(n as u64))),
                    None => None,
                },
                None => None,
            }
        } else {
            None
        };
        push_opt_member(&mut request, "body_size", size);
        assert(json_members_view(request@) == request_members(*self, *ctx));
        let rhj = headers_to_json(&resp.headers);
        let mut response = members_new();
        obj_push(&mut response, "status", Json::Number(JsonNumber::PosInt(resp.status as u64)));
        push_opt_member(&mut response, "headers", if self.include_headers { Some(rhj) } else { None });
        push_opt_member(&mut response, "body_size", if self.include_body {
            match &resp.body { Some(b) => Some(Json::Number(JsonNumber::PosInt(b.len() as u64))), None => None }
        } else {
            None
        });
        assert(json_members_view(response@) == response_members(*self, *resp));
        let request_text = struct_text_of(&member_texts(&request));
        let response_text = struct_text_of(&member_texts(&response));
        let mut head = members_new();
        obj_push(&mut head, "timestamp_ms", Json::Number(JsonNumber::PosInt(start)));
        obj_push(&mut head, "duration_ms", Json::Number(JsonNumber::PosInt(duration)));
        push_opt_member(&mut head, "correlation_id", match &ctx.correlation_id { Some(x) => Some(Json::Str(x.clone())), None => None });
        assert(start == start_of(*ctx));
        assert(json_members_view(head@) == head_members(*ctx, now_ms));
        let mut fields = member_texts(&head);
        fields.push((owned("request"), request_text));
        fields.push((owned("response"), response_text));
        assert(pairs_view(fields@) =~= entry_fields(*self, *resp, *ctx, now_ms));
        let cfj = headers_to_json(&self.custom_fields);
        let n_custom = match &cfj { Json::Object(m) => m.len(), _ => 0 };
        proof {
            match &cfj {
                Json::Object(m) => crate::json::lemma_members_view(m@),
                _ => {},
            }
        }
        let payload = if n_custom == 0 {
            struct_text_of(&fields)
        } else {
            let custom = to_json_text(&cfj);
            let cs = crate::text::chars_of(custom.as_str());
            let inner: String = if cs.len() >= 2 {
                crate::text::string_from(&crate::text::slice_of(&cs, 1, cs.len() - 1))
            } else {
                String::new()
            };
            let mut out = String::new();
            crate::text::push_char(&mut out, '{');
            crate::text::push_str(&mut out, members_joined_of(&fields).as_str());
            crate::text::push_char(&mut out, ',');
            crate::text::push_str(&mut out, inner.as_str());
            crate::text::push_char(&mut out, '}');
            out
        };
        assert(payload@ == entry_text(*self, *resp, *ctx, now_ms));
        let mut headers = members_new();
        obj_push(&mut headers, "content-type", Json::Str(self.content_type.clone()));
        let ghost hv = JsonV::Object(json_members_view(headers@));
        let mut call = members_new();
        obj_push(&mut call, "method", Json::Str(self.method.clone()));
        obj_push(&mut call, "url", Json::Str(self.endpoint.clone()));
        obj_push(&mut call, "headers", Json::Object(headers));
        obj_push(&mut call, "body", Json::Str(payload));
        obj_push(&mut call, "timeout_ms", Json::Number(JsonNumber::PosInt(self.timeout_ms)));
        assert(json_members_view(call@) =~= log_call_json(*self, entry_text(*self, *resp, *ctx, now_ms))->Object_0);
        to_json_bytes(&Json::Object(call))
    }
}

} // verus!
