//! The Kafka dispatcher: the message published for a request, and the
//! answer for each publish outcome.

use vstd::prelude::*;
use crate::headers::{HeaderMap, distinct_keys, entries_map, map_get, opt_view};
use crate::http::{
    Request, Response, body_view, one_header, json_text_response, problem_members, problem_object,
};
use crate::json::{Json, JsonNumber, JsonV, NumV, json_bytes, json_members_view, json_text, jstr, members_new, members_push,
    obj_push, to_json_bytes, to_json_text, member_texts, struct_text, struct_text_of, texts_of};
use crate::text::{is_prefix, owned, skip_chars, starts_with, string_bytes, string_from_utf8};
use crate::ai_proxy::responses::body_text;
use vstd::utf8::encode_utf8;

verus! {

/// A configured acknowledgment: a body and headers replacing the defaults.
pub struct AckResponse {
    pub body: Option<Json>,
    pub headers: Option<HeaderMap>,
}

/// Kafka dispatcher configuration.
pub struct KafkaDispatcher {
    /// Broker addresses.
    pub brokers: String,
    /// Topic the messages go to.
    pub topic: String,
    /// Message key: `$request.header.<name>`, `$request.path.<name>`, or a literal.
    pub key: Option<String>,
    pub ack_response: Option<AckResponse>,
    /// Whether the acknowledgment reports partition and offset.
    pub include_metadata: bool,
    /// Request headers copied onto the message.
    pub headers_from_request: Vec<String>,
}

/// What the broker reported for a publish.
pub struct PublishResult {
    pub success: bool,
    pub error: Option<String>,
    pub topic: String,
    pub partition: Option<i32>,
    pub offset: Option<i64>,
}

/// The message key for a request.
pub open spec fn key_spec(key: Option<Seq<char>>, headers: Map<Seq<char>, Seq<char>>, params: Map<Seq<char>, Seq<char>>) -> Option<Seq<char>> {
    match key {
        None => None,
        Some(k) => if is_prefix("$request.header."@, k) {
            map_get(headers, k.skip("$request.header."@.len() as int))
        } else if is_prefix("$request.path."@, k) {
            map_get(params, k.skip("$request.path."@.len() as int))
        } else {
            Some(k)
        },
    }
}

/// The message headers: the configured request headers that are present,
/// then `x-request-id` and `x-trace-id` when present.
pub open spec fn message_headers_spec(names: Seq<Seq<char>>, h: Map<Seq<char>, Seq<char>>) -> Map<Seq<char>, Seq<char>>
    decreases names.len(),
{
    if names.len() == 0 {
        Map::empty()
    } else {
        let prev = message_headers_spec(names.drop_last(), h);
        match map_get(h, names.last()) {
            Some(v) => prev.insert(names.last(), v),
            None => prev,
        }
    }
}

pub open spec fn with_tracing(m: Map<Seq<char>, Seq<char>>, h: Map<Seq<char>, Seq<char>>) -> Map<Seq<char>, Seq<char>> {
    let m1 = match map_get(h, "x-request-id"@) { Some(v) => m.insert("x-request-id"@, v), None => m };
    match map_get(h, "x-trace-id"@) { Some(v) => m1.insert("x-trace-id"@, v), None => m1 }
}

/// A number for an optional signed value (null when absent).
pub open spec fn opt_int(o: Option<int>) -> JsonV {
    match o {
        Some(i) => if i >= 0 { JsonV::Number(NumV::PosInt(i as u64)) } else { JsonV::Number(NumV::NegInt(i as i64)) },
        None => JsonV::Null,
    }
}

/// The default acknowledgment body.
pub open spec fn default_ack_json(include_metadata: bool, topic: Seq<char>, partition: Option<i32>, offset: Option<i64>) -> JsonV {
    if include_metadata {
        JsonV::Object(seq![
            ("status"@, JsonV::Str("accepted"@)),
            ("topic"@, JsonV::Str(topic)),
            ("partition"@, opt_int(match partition { Some(p) => Some(p as int), None => None })),
            ("offset"@, opt_int(match offset { Some(o) => Some(o as int), None => None })),
        ])
    } else {
        JsonV::Object(seq![("status"@, JsonV::Str("accepted"@))])
    }
}

/// The problem type of a Kafka error status.
pub open spec fn kafka_error_type(status: u16) -> Seq<char> {
    if status == 502 {
        "urn:barbacane:error:kafka-publish-failed"@
    } else if status == 503 {
        "urn:barbacane:error:kafka-unavailable"@
    } else {
        "urn:barbacane:error:internal"@
    }
}

fn opt_int_json(o: Option<i64>) -> (r: Json)
    ensures
        r@ == opt_int(match o { Some(i) => Some(i as int), None => None }),
{
    match o {
        Some(i) => if i >= 0 { Json::Number(JsonNumber::PosInt(i as u64)) } else { Json::Number(JsonNumber::NegInt(i)) },
        None => Json::Null,
    }
}

/// How a publish ended.
pub enum PublishOutcome {
    /// The host refused the publish.
    PublishFailed,
    /// The host's result could not be read.
    ReadFailed,
    /// The host's result did not parse; the parser's message.
    Invalid(String),
    /// The broker's report.
    Reported(PublishResult),
}

impl KafkaDispatcher {
    /// Resolves the message key from a header, a path parameter, or the
    /// literal configured.
    pub fn resolve_key(&self, req: &Request) -> (r: Option<String>)
        ensures
            opt_view(r) == key_spec(opt_view(self.key), req.headers@, req.path_params@),
    {
        let k = match &self.key {
            Some(k) => k,
            None => return None,
        };
        proof { reveal_strlit("$request.header."); reveal_strlit("$request.path."); }
        if starts_with(k.as_str(), "$request.header.") {
            let name = skip_chars(k.as_str(), 16);
            req.headers.get(name.as_str())
        } else if starts_with(k.as_str(), "$request.path.") {
            let name = skip_chars(k.as_str(), 14);
            req.path_params.get(name.as_str())
        } else {
            Some(k.clone())
        }
    }

    /// The message headers for a request.
    pub fn message_headers(&self, req: &Request) -> (r: HeaderMap)
        ensures
            r@ == with_tracing(message_headers_spec(crate::text::views(self.headers_from_request@), req.headers@), req.headers@),
    {
        let ghost names = crate::text::views(self.headers_from_request@);
        let mut out = HeaderMap::new();
        let mut i: usize = 0;
        assert(names.subrange(0, 0) =~= Seq::<Seq<char>>::empty());
        assert(out@ =~= message_headers_spec(names.subrange(0, 0), req.headers@));
        while i < self.headers_from_request.len()
            invariant
                i <= self.headers_from_request@.len(),
                names == crate::text::views(self.headers_from_request@),
                out@ == message_headers_spec(names.subrange(0, i as int), req.headers@),
            decreases self.headers_from_request@.len() - i,
        {
            assert(names.subrange(0, i + 1).drop_last() =~= names.subrange(0, i as int));
            let name = &self.headers_from_request[i];
            match req.headers.get(name.as_str()) {
                Some(v) => out.insert(name.clone(), v),
                None => {},
            }
            i = i + 1;
        }
        assert(names.subrange(0, names.len() as int) =~= names);
        match req.headers.get("x-request-id") {
            Some(v) => out.insert(owned("x-request-id"), v),
            None => {},
        }
        match req.headers.get("x-trace-id") {
            Some(v) => out.insert(owned("x-trace-id"), v),
            None => {},
        }
        out
    }

    /// The JSON message handed to the host's publish call, written as serde
    /// writes the message struct, fields in declaration order: brokers
    /// (`url`), topic, key when resolved, the body as text (`payload`), and
    /// the message headers as an object, each header once (a map, whose
    /// members serde_json writes in key order).
    pub fn publish_message(&self, req: &Request) -> (r: Vec<u8>)
        ensures
            exists|p: Seq<(String, String)>| {
                &&& distinct_keys(p)
                &&& entries_map(p) == with_tracing(message_headers_spec(crate::text::views(self.headers_from_request@), req.headers@), req.headers@)
                &&& r@ == encode_utf8(struct_text(texts_of(publish_json(self.brokers@, self.topic@,
                    key_spec(opt_view(self.key), req.headers@, req.path_params@), body_text(body_view(req.body)),
                    p.map_values(|e: (String, String)| (e.0@, JsonV::Str(e.1@))))->Object_0)))
            },
    {
        let key = self.resolve_key(req);
        let headers = self.message_headers(req);
        let payload = match &req.body {
            Some(b) => match string_from_utf8(b.clone()) {
                Some(t) => t,
                None => String::new(),
            },
            None => String::new(),
        };
        let mut hm = members_new();
        let pairs = headers.pairs();
        let mut i: usize = 0;
        while i < pairs.len()
            invariant
                i <= pairs@.len(),
                json_members_view(hm@) == pairs@.subrange(0, i as int).map_values(|e: (String, String)| (e.0@, JsonV::Str(e.1@))),
            decreases pairs@.len() - i,
        {
            let ghost before = json_members_view(hm@);
            members_push(&mut hm, pairs[i].0.clone(), Json::Str(pairs[i].1.clone()));
            assert(pairs@.subrange(0, i + 1).map_values(|e: (String, String)| (e.0@, JsonV::Str(e.1@)))
                =~= before.push((pairs@[i as int].0@, JsonV::Str(pairs@[i as int].1@))));
            i = i + 1;
        }
        assert(pairs@.subrange(0, pairs@.len() as int) =~= pairs@);
        let ghost hv = json_members_view(hm@);
        let mut m = members_new();
        obj_push(&mut m, "url", Json::Str(self.brokers.clone()));
        obj_push(&mut m, "topic", Json::Str(self.topic.clone()));
        match key {
            Some(k) => obj_push(&mut m, "key", Json::Str(k)),
            None => {},
        }
        let ghost pv = payload@;
        obj_push(&mut m, "payload", Json::Str(payload));
        obj_push(&mut m, "headers", Json::Object(hm));
        assert(json_members_view(m@) =~= publish_json(self.brokers@, self.topic@,
            key_spec(opt_view(self.key), req.headers@, req.path_params@), pv, hv)->Object_0);
        let r = string_bytes(struct_text_of(&member_texts(&m)));
        assert(hv == pairs@.map_values(|e: (String, String)| (e.0@, JsonV::Str(e.1@))));
        r
    }
}

/// The message document.
pub open spec fn publish_json(brokers: Seq<char>, topic: Seq<char>, key: Option<Seq<char>>, payload: Seq<char>,
    headers: Seq<(Seq<char>, JsonV)>) -> JsonV
{
    let m0 = seq![("url"@, JsonV::Str(brokers)), ("topic"@, JsonV::Str(topic))];
    let m1 = match key { Some(k) => m0.push(("key"@, JsonV::Str(k))), None => m0 };
    JsonV::Object(m1.push(("payload"@, JsonV::Str(payload))).push(("headers"@, JsonV::Object(headers))))
}


/// The error answer of the dispatcher.
pub open spec fn kafka_error_json(status: u16, title: Seq<char>, detail: Seq<char>) -> JsonV {
    JsonV::Object(problem_members(kafka_error_type(status), title, status, detail))
}

/// The answer for a publish outcome: 202 with the acknowledgment for a
/// successful report, else a 502 problem.
pub open spec fn outcome_spec(d: KafkaDispatcher, o: PublishOutcome) -> (u16, Map<Seq<char>, Seq<char>>, Seq<u8>) {
    let problem = one_header("content-type"@, "application/problem+json"@);
    match o {
        PublishOutcome::PublishFailed => (502u16, problem, encode_utf8(json_text(kafka_error_json(502, "Kafka publish failed"@, "host_kafka_publish returned error"@)))),
        PublishOutcome::ReadFailed => (502u16, problem, encode_utf8(json_text(kafka_error_json(502, "Kafka publish failed"@, "failed to read publish result"@)))),
        PublishOutcome::Invalid(e) => (502u16, problem, encode_utf8(json_text(kafka_error_json(502, "invalid publish result"@, e@)))),
        PublishOutcome::Reported(res) => if !res.success {
            (502u16, problem, encode_utf8(json_text(kafka_error_json(502, "Kafka publish failed"@,
                match res.error { Some(e) => e@, None => "unknown error"@ }))))
        } else {
            (202u16, ack_headers(d.ack_response), encode_utf8(json_text(ack_body(d, res))))
        },
    }
}

/// The acknowledgment headers: JSON, then the configured ones.
pub open spec fn ack_headers(ack: Option<AckResponse>) -> Map<Seq<char>, Seq<char>> {
    let base = one_header("content-type"@, "application/json"@);
    match ack {
        Some(a) => match a.headers {
            Some(h) => base.union_prefer_right(h@),
            None => base,
        },
        None => base,
    }
}

/// The acknowledgment body: the configured one, else the default.
pub open spec fn ack_body(d: KafkaDispatcher, res: PublishResult) -> JsonV {
    let default = default_ack_json(d.include_metadata, res.topic@, res.partition, res.offset);
    match d.ack_response {
        Some(a) => match a.body {
            Some(b) => b@,
            None => default,
        },
        None => default,
    }
}

impl KafkaDispatcher {
    /// An RFC 9457 error answer.
    pub fn error_response(&self, status: u16, title: &str, detail: &str) -> (r: Response)
        ensures
            r.status == status,
            r.headers@ == one_header("content-type"@, "application/problem+json"@),
            body_view(r.body) == Some(encode_utf8(json_text(kafka_error_json(status, title@, detail@)))),
    {
        let t = if status == 502 {
            "urn:barbacane:error:kafka-publish-failed"
        } else if status == 503 {
            "urn:barbacane:error:kafka-unavailable"
        } else {
            "urn:barbacane:error:internal"
        };
        let body = Json::Object(problem_object(t, title, status, detail));
        json_text_response(status, "application/problem+json", &body)
    }

    /// The default acknowledgment body.
    pub fn default_ack_body(&self, result: &PublishResult) -> (r: String)
        ensures
            r@ == json_text(default_ack_json(self.include_metadata, result.topic@, result.partition, result.offset)),
    {
        let mut m = members_new();
        obj_push(&mut m, "status", jstr("accepted"));
        if self.include_metadata {
            obj_push(&mut m, "topic", Json::Str(result.topic.clone()));
            obj_push(&mut m, "partition", opt_int_json(match result.partition { Some(p) => Some(p as i64), None => None }));
            obj_push(&mut m, "offset", opt_int_json(result.offset));
            assert(json_members_view(m@) =~= default_ack_json(true, result.topic@, result.partition, result.offset)->Object_0);
        } else {
            assert(json_members_view(m@) =~= default_ack_json(false, result.topic@, result.partition, result.offset)->Object_0);
        }
        to_json_text(&Json::Object(m))
    }

    /// The 202 acknowledgment of a successful publish.
    pub fn accepted_response(&self, result: &PublishResult) -> (r: Response)
        ensures
            r.status == 202,
            r.headers@ == ack_headers(self.ack_response),
            body_view(r.body) == Some(encode_utf8(json_text(ack_body(*self, *result)))),
    {
        let mut headers = HeaderMap::new();
        headers.insert(owned("content-type"), owned("application/json"));
        let ghost h0 = headers@;
        match &self.ack_response {
            Some(a) => match &a.headers {
                Some(h) => {
                    let pairs = h.pairs();
                    let mut i: usize = 0;
                    while i < pairs.len()
                        invariant
                            i <= pairs@.len(),
                            distinct_keys(pairs@),
                            entries_map(pairs@) == h@,
                            forall|k: Seq<char>| #[trigger] headers@.contains_key(k) <==>
                                (h0.contains_key(k) || exists|j: int| 0 <= j < i && pairs@[j].0@ == k),
                            forall|k: Seq<char>| headers@.contains_key(k) ==> #[trigger] headers@[k] ==
                                (if exists|j: int| 0 <= j < i && pairs@[j].0@ == k { h@[k] } else { h0[k] }),
                        decreases pairs@.len() - i,
                    {
                        let ghost before = headers@;
                        proof { crate::headers::lemma_entries_map_at(pairs@, i as int); }
                        headers.insert(pairs[i].0.clone(), pairs[i].1.clone());
                        proof {
                            assert forall|k: Seq<char>| #[trigger] headers@.contains_key(k) <==>
                                (h0.contains_key(k) || exists|j: int| 0 <= j < i + 1 && pairs@[j].0@ == k) by {
                                if exists|j: int| 0 <= j < i + 1 && pairs@[j].0@ == k {
                                    let j = choose|j: int| 0 <= j < i + 1 && pairs@[j].0@ == k;
                                    if j < i { assert(exists|j2: int| 0 <= j2 < i && pairs@[j2].0@ == k); }
                                }
                                if before.contains_key(k) && k != pairs@[i as int].0@ {
                                    if exists|j: int| 0 <= j < i && pairs@[j].0@ == k {
                                        let j = choose|j: int| 0 <= j < i && pairs@[j].0@ == k;
                                        assert(0 <= j < i + 1 && pairs@[j].0@ == k);
                                    }
                                }
                            }
                            assert forall|k: Seq<char>| headers@.contains_key(k) implies #[trigger] headers@[k] ==
                                (if exists|j: int| 0 <= j < i + 1 && pairs@[j].0@ == k { h@[k] } else { h0[k] }) by {
                                if k == pairs@[i as int].0@ {
                                    assert(0 <= i < i + 1 && pairs@[i as int].0@ == k);
                                } else if exists|j: int| 0 <= j < i + 1 && pairs@[j].0@ == k {
                                    let j = choose|j: int| 0 <= j < i + 1 && pairs@[j].0@ == k;
                                    assert(j != i);
                                    assert(exists|j2: int| 0 <= j2 < i && pairs@[j2].0@ == k);
                                }
                            }
                        }
                        i = i + 1;
                    }
                    proof {
                        assert forall|k: Seq<char>| (exists|j: int| 0 <= j < pairs@.len() && pairs@[j].0@ == k) == h@.contains_key(k) by {
                            if exists|j: int| 0 <= j < pairs@.len() && pairs@[j].0@ == k {
                                let j = choose|j: int| 0 <= j < pairs@.len() && pairs@[j].0@ == k;
                                assert(crate::headers::key_at(pairs@, k, j));
                            }
                            if h@.contains_key(k) {
                                let j = choose|j: int| crate::headers::key_at(pairs@, k, j);
                                assert(0 <= j < pairs@.len() && pairs@[j].0@ == k);
                            }
                        }
                        assert(headers@ =~= h0.union_prefer_right(h@));
                    }
                },
                None => {},
            },
            None => {},
        }
        let text: String = match &self.ack_response {
            Some(a) => match &a.body {
                Some(b) => to_json_text(b),
                None => self.default_ack_body(result),
            },
            None => self.default_ack_body(result),
        };
        Response { status: 202, headers, body: Some(string_bytes(text)) }
    }

    /// The answer for a publish outcome.
    pub fn publish_response(&self, outcome: PublishOutcome) -> (r: Response)
        ensures
            r.status == outcome_spec(*self, outcome).0,
            r.headers@ == outcome_spec(*self, outcome).1,
            body_view(r.body) == Some(outcome_spec(*self, outcome).2),
    {
        match outcome {
            PublishOutcome::PublishFailed => self.error_response(502, "Kafka publish failed", "host_kafka_publish returned error"),
            PublishOutcome::ReadFailed => self.error_response(502, "Kafka publish failed", "failed to read publish result"),
            PublishOutcome::Invalid(e) => self.error_response(502, "invalid publish result", e.as_str()),
            PublishOutcome::Reported(res) => if !res.success {
                match &res.error {
                    Some(e) => self.error_response(502, "Kafka publish failed", e.as_str()),
                    None => self.error_response(502, "Kafka publish failed", "unknown error"),
                }
            } else {
                self.accepted_response(&res)
            },
        }
    }
}

/// The message headers hold exactly the request headers that are
/// configured in `headers_from_request` or are `x-request-id` or
/// `x-trace-id`, each with the request's value.
pub proof fn law_message_headers(names: Seq<Seq<char>>, h: Map<Seq<char>, Seq<char>>, k: Seq<char>)
    ensures
        with_tracing(message_headers_spec(names, h), h).contains_key(k)
            <==> ((names.contains(k) || k == "x-request-id"@ || k == "x-trace-id"@) && h.contains_key(k)),
        with_tracing(message_headers_spec(names, h), h).contains_key(k)
            ==> with_tracing(message_headers_spec(names, h), h)[k] == h[k],
{
    lemma_message_headers(names, h, k);
}

proof fn lemma_message_headers(names: Seq<Seq<char>>, h: Map<Seq<char>, Seq<char>>, k: Seq<char>)
    ensures
        message_headers_spec(names, h).contains_key(k) <==> (names.contains(k) && h.contains_key(k)),
        message_headers_spec(names, h).contains_key(k) ==> message_headers_spec(names, h)[k] == h[k],
    decreases names.len(),
{
    if names.len() > 0 {
        let init = names.drop_last();
        lemma_message_headers(init, h, k);
        assert(names =~= init.push(names.last()));
        assert(names.contains(k) <==> (init.contains(k) || names.last() == k)) by {
            if names.contains(k) {
                let j = choose|j: int| 0 <= j < names.len() && names[j] == k;
                if j < names.len() - 1 {
                    assert(init[j] == k);
                }
            }
            if init.contains(k) {
                let j = choose|j: int| 0 <= j < init.len() && init[j] == k;
                assert(names[j] == k);
            }
        }
    }
}

} // verus!
