//! The OpenAI Responses API adapter: stateless preflight checks, the
//! translation of `input[]` items into Anthropic messages and back, and the
//! synthetic `resp_<uuid-v7>` identifiers.

use vstd::prelude::*;
use vstd::utf8::{decode_utf8, encode_utf8, valid_utf8};
use crate::ai_proxy::chat_completion::{
    message_json, part_texts, push_opt, text_block, text_of, system_of, usage_count, request_bytes,
};
use crate::headers::{HeaderMap, opt_view};
use crate::json::{
    Json, JsonNumber, JsonV, NumV, as_array, as_str, as_u64, field, field_ref, get, get_or_null, json_members_view,
    json_seq_view, json_text, jstr, lemma_seq_view, members_new, arr_new, arr_push, obj_push, null_json, opt_json,
    parsed, to_json_text,
};
use crate::ai_proxy::chat_completion::parse_json_str;
use crate::text::{
    string_bytes, string_from_utf8, str_result, concat, join_strings, joined, owned, push_char, push_str,
    str_eq, views,
};
use crate::headers::map_get;
use crate::http::{Request, Response, body_view};
use crate::json::{
    json_view, json_bytes, json_parse, parse_json, parse_json_result, to_json_bytes, lemma_members_view,
};
use crate::ai_proxy::config::{AiProxy, Provider, TargetConfig};
use crate::ai_proxy::providers::{Auth, apply_auth, auth_headers, auth_url};
use crate::http::HttpRequest;
use crate::ai_proxy::transport::{base_spec, openai_url, timeout_ms};
use crate::sdk::{problem_details, problem_details_json};

verus! {

// ---------------------------------------------------------------------------
// Content blocks
// ---------------------------------------------------------------------------

/// The Anthropic `image` block of an `input_image` item or part: a URL
/// source when `image_url` is a string, else the `image` value as given.
pub open spec fn image_block(part: JsonV) -> JsonV {
    match as_str(field(part, "image_url"@)) {
        Some(url) => JsonV::Object(seq![
            ("type"@, JsonV::Str("image"@)),
            ("source"@, JsonV::Object(seq![("type"@, JsonV::Str("url"@)), ("url"@, JsonV::Str(url))])),
        ]),
        None => JsonV::Object(seq![("type"@, JsonV::Str("image"@)), ("source"@, field(part, "image"@))]),
    }
}

/// The string `type` of a part, `input_text` when absent or not a string.
pub open spec fn part_type(part: JsonV) -> Seq<char> {
    match as_str(field(part, "type"@)) {
        Some(t) => t,
        None => "input_text"@,
    }
}

/// The block of one content part: a text block for `input_text`/`text`
/// parts with a string `text`, an image block for `input_image`; other
/// parts are dropped.
pub open spec fn part_block(part: JsonV) -> Option<JsonV> {
    let pt = part_type(part);
    if pt == "input_text"@ || pt == "text"@ {
        match text_of(part) {
            Some(t) => Some(text_block(t)),
            None => None,
        }
    } else if pt == "input_image"@ {
        Some(image_block(part))
    } else {
        None
    }
}

pub open spec fn part_blocks(parts: Seq<JsonV>) -> Seq<JsonV>
    decreases parts.len(),
{
    if parts.len() == 0 {
        Seq::empty()
    } else {
        let prev = part_blocks(parts.drop_last());
        match part_block(parts.last()) {
            Some(b) => prev.push(b),
            None => prev,
        }
    }
}

/// The blocks of an `input_text` content: one text block for a string, the
/// blocks of the parts for an array, none otherwise.
pub open spec fn content_blocks(value: Option<JsonV>) -> Seq<JsonV> {
    match value {
        Some(JsonV::Str(s)) => seq![text_block(s)],
        Some(JsonV::Array(parts)) => part_blocks(parts),
        _ => Seq::empty(),
    }
}

/// Builds the Anthropic `image` block of an `input_image` item or part.
pub fn build_image_block(part: &Json) -> (r: Json)
    ensures
        r@ == image_block(part@),
{
    let null = null_json();
    match field_ref(part, "image_url", &null).as_str() {
        Some(url) => {
            let mut src = members_new();
            obj_push(&mut src, "type", jstr("url"));
            obj_push(&mut src, "url", jstr(url.as_str()));
            let ghost sv = JsonV::Object(json_members_view(src@));
            assert(json_members_view(src@) =~= seq![("type"@, JsonV::Str("url"@)), ("url"@, JsonV::Str(url@))]);
            let mut m = members_new();
            obj_push(&mut m, "type", jstr("image"));
            obj_push(&mut m, "source", Json::Object(src));
            assert(json_members_view(m@) =~= seq![("type"@, JsonV::Str("image"@)), ("source"@, sv)]);
            Json::Object(m)
        },
        None => {
            let image = get_or_null(part, "image");
            let ghost iv = image@;
            let mut m = members_new();
            obj_push(&mut m, "type", jstr("image"));
            obj_push(&mut m, "source", image);
            assert(json_members_view(m@) =~= seq![("type"@, JsonV::Str("image"@)), ("source"@, iv)]);
            Json::Object(m)
        },
    }
}

fn text_block_of(t: &str) -> (r: Json)
    ensures
        r@ == text_block(t@),
{
    let mut m = members_new();
    obj_push(&mut m, "type", jstr("text"));
    obj_push(&mut m, "text", jstr(t));
    assert(json_members_view(m@) =~= seq![("type"@, JsonV::Str("text"@)), ("text"@, JsonV::Str(t@))]);
    Json::Object(m)
}

fn part_block_exec(part: &Json) -> (r: Option<Json>)
    ensures
        opt_json(r) == part_block(part@),
{
    let null = null_json();
    let is_text = match field_ref(part, "type", &null).as_str() {
        Some(t) => str_eq(t.as_str(), "input_text") || str_eq(t.as_str(), "text"),
        None => true,
    };
    let is_image = match field_ref(part, "type", &null).as_str() {
        Some(t) => str_eq(t.as_str(), "input_image"),
        None => false,
    };
    if is_text {
        match field_ref(part, "text", &null).as_str() {
            Some(t) => Some(text_block_of(t.as_str())),
            None => None,
        }
    } else if is_image {
        Some(build_image_block(part))
    } else {
        None
    }
}

/// Converts an `input_text` content (a string or an array of parts) into
/// Anthropic content blocks.
pub fn build_text_or_array_blocks(value: Option<&Json>) -> (r: Vec<Json>)
    ensures
        json_seq_view(r@) == content_blocks(match value { Some(v) => Some(v@), None => None }),
{
    let mut out = arr_new();
    match value {
        Some(Json::Str(s)) => {
            arr_push(&mut out, text_block_of(s.as_str()));
            assert(json_seq_view(out@) =~= seq![text_block(s@)]);
        },
        Some(Json::Array(parts)) => {
            proof { lemma_seq_view(parts@); }
            let ghost pv = json_seq_view(parts@);
            let mut i: usize = 0;
            assert(pv.subrange(0, 0) =~= Seq::<JsonV>::empty());
            while i < parts.len()
                invariant
                    i <= parts@.len(),
                    pv.len() == parts@.len(),
                    forall|k: int| 0 <= k < parts@.len() ==> #[trigger] pv[k] == parts@[k]@,
                    json_seq_view(out@) == part_blocks(pv.subrange(0, i as int)),
                decreases parts@.len() - i,
            {
                assert(pv.subrange(0, i + 1).drop_last() =~= pv.subrange(0, i as int));
                assert(pv.subrange(0, i + 1).last() == parts@[i as int]@);
                match part_block_exec(&parts[i]) {
                    Some(b) => arr_push(&mut out, b),
                    None => {},
                }
                i = i + 1;
            }
            assert(pv.subrange(0, parts@.len() as int) =~= pv);
        },
        _ => {},
    }
    out
}

// ---------------------------------------------------------------------------
// Input items
// ---------------------------------------------------------------------------

/// The translation state after some input items: the messages emitted, the
/// system texts, the role and blocks of the message being built, and the
/// number of reasoning items dropped.
pub struct ItemState {
    pub messages: Seq<JsonV>,
    pub system: Seq<Seq<char>>,
    pub role: Option<Seq<char>>,
    pub blocks: Seq<JsonV>,
    pub dropped: nat,
}

/// Emits the message being built, if it has a role and blocks.
pub open spec fn flush_item_state(st: ItemState) -> ItemState {
    match st.role {
        Some(r) => if st.blocks.len() > 0 {
            ItemState { messages: st.messages.push(message_json(r, JsonV::Array(st.blocks))), blocks: Seq::empty(), ..st }
        } else {
            st
        },
        None => st,
    }
}

/// Makes `role` the role of the message being built, emitting the previous
/// message when the role changes.
pub open spec fn switch_role(st: ItemState, role: Seq<char>) -> ItemState {
    if st.role != Some(role) {
        ItemState { role: Some(role), ..flush_item_state(st) }
    } else {
        st
    }
}

/// Appends a block to the message of `role`.
pub open spec fn add_block(st: ItemState, role: Seq<char>, b: JsonV) -> ItemState {
    let s = switch_role(st, role);
    ItemState { blocks: s.blocks.push(b), ..s }
}

/// The string field `k` of an item, `default` when absent or not a string.
pub open spec fn str_or(item: JsonV, k: Seq<char>, default: Seq<char>) -> Seq<char> {
    match as_str(field(item, k)) {
        Some(s) => s,
        None => default,
    }
}

/// The `tool_use` block of a `function_call` item.
pub open spec fn function_call_block(item: JsonV) -> JsonV {
    let id = match get(item, "call_id"@) {
        Some(v) => v,
        None => field(item, "id"@),
    };
    let input = match as_str(field(item, "arguments"@)) {
        Some(s) => match parsed(encode_utf8(s)) {
            Some(v) => v,
            None => JsonV::Object(Seq::empty()),
        },
        None => JsonV::Object(Seq::empty()),
    };
    JsonV::Object(seq![
        ("type"@, JsonV::Str("tool_use"@)),
        ("id"@, id),
        ("name"@, field(item, "name"@)),
        ("input"@, input),
    ])
}

/// The `tool_result` block of a `function_call_output` item.
pub open spec fn function_output_block(item: JsonV) -> JsonV {
    let content = match get(item, "output"@) {
        Some(v) => v,
        None => JsonV::Str(Seq::empty()),
    };
    JsonV::Object(seq![
        ("type"@, JsonV::Str("tool_result"@)),
        ("tool_use_id"@, field(item, "call_id"@)),
        ("content"@, content),
    ])
}

/// One input item's effect on the translation.
pub open spec fn item_step(st: ItemState, item: JsonV) -> ItemState {
    let t = str_or(item, "type"@, Seq::empty());
    let role = str_or(item, "role"@, "user"@);
    if t == "input_text"@ || t.len() == 0 {
        let content = match get(item, "content"@) {
            Some(c) => Some(c),
            None => get(item, "text"@),
        };
        let blocks = content_blocks(content);
        if role == "system"@ {
            ItemState { system: st.system + part_texts(blocks), ..st }
        } else {
            let s = switch_role(st, role);
            ItemState { blocks: s.blocks + blocks, ..s }
        }
    } else if t == "input_image"@ {
        add_block(st, role, image_block(item))
    } else if t == "function_call"@ {
        add_block(st, "assistant"@, function_call_block(item))
    } else if t == "function_call_output"@ {
        add_block(st, "user"@, function_output_block(item))
    } else if t == "reasoning"@ {
        ItemState { dropped: st.dropped + 1, ..st }
    } else {
        st
    }
}

/// Whether the translation handles an input item of type `t` (an item
/// without a type counts as text).
pub open spec fn known_item_type(t: Seq<char>) -> bool {
    t.len() == 0 || t == "input_text"@ || t == "input_image"@ || t == "function_call"@
        || t == "function_call_output"@ || t == "reasoning"@
}

/// The types of the input items that the translation leaves out without a
/// trace, in order.
pub open spec fn unknown_item_types(items: Seq<JsonV>) -> Seq<Seq<char>>
    decreases items.len(),
{
    if items.len() == 0 {
        Seq::empty()
    } else {
        let prev = unknown_item_types(items.drop_last());
        let t = str_or(items.last(), "type"@, Seq::empty());
        if known_item_type(t) { prev } else { prev.push(t) }
    }
}

/// The types of the `input` items of a Responses request that the
/// translation drops silently, in order, for the gateway to report.
pub fn unknown_input_item_types(responses: &Json) -> (r: Vec<String>)
    ensures
        views(r@) == match get(responses@, "input"@) {
            Some(v) => match as_array(v) {
                Some(items) => unknown_item_types(items),
                None => Seq::empty(),
            },
            None => Seq::empty(),
        },
{
    let mut out: Vec<String> = Vec::new();
    assert(views(out@) =~= Seq::<Seq<char>>::empty());
    let items = match responses.get("input") {
        Some(v) => match v.as_array() {
            Some(a) => a,
            None => return out,
        },
        None => return out,
    };
    proof { lemma_seq_view(items@); }
    let ghost iv = json_seq_view(items@);
    let null = null_json();
    let mut i: usize = 0;
    assert(iv.subrange(0, 0) =~= Seq::<JsonV>::empty());
    while i < items.len()
        invariant
            i <= items@.len(),
            null@ == JsonV::Null,
            iv.len() == items@.len(),
            forall|k: int| 0 <= k < items@.len() ==> #[trigger] iv[k] == items@[k]@,
            views(out@) == unknown_item_types(iv.subrange(0, i as int)),
        decreases items@.len() - i,
    {
        let item = &items[i];
        assert(iv.subrange(0, i + 1).drop_last() =~= iv.subrange(0, i as int));
        assert(iv.subrange(0, i + 1).last() == item@);
        let t: String = match field_ref(item, "type", &null).as_str() {
            Some(s) => s.clone(),
            None => String::new(),
        };
        assert(t@ == str_or(item@, "type"@, Seq::empty()));
        let known = t.as_str().is_empty() || str_eq(t.as_str(), "input_text") || str_eq(t.as_str(), "input_image")
            || str_eq(t.as_str(), "function_call") || str_eq(t.as_str(), "function_call_output")
            || str_eq(t.as_str(), "reasoning");
        if !known {
            let ghost before = out@;
            out.push(t);
            assert(views(out@) =~= views(before).push(t@));
        }
        i = i + 1;
    }
    assert(iv.subrange(0, items@.len() as int) =~= iv);
    out
}

pub open spec fn fold_items(items: Seq<JsonV>, init: ItemState) -> ItemState
    decreases items.len(),
{
    if items.len() == 0 {
        init
    } else {
        item_step(fold_items(items.drop_last(), init), items.last())
    }
}

/// The state before any item: the `instructions` string as the first
/// system text.
pub open spec fn initial_items_state(responses: JsonV) -> ItemState {
    let system = match get(responses, "instructions"@) {
        Some(v) => match as_str(v) {
            Some(s) => seq![s],
            None => Seq::empty(),
        },
        None => Seq::empty(),
    };
    ItemState { messages: Seq::empty(), system, role: None, blocks: Seq::empty(), dropped: 0 }
}

/// `max_tokens`: `max_output_tokens` (cut to 32 bits), else the default,
/// else 4096.
pub open spec fn max_output_tokens_of(responses: JsonV, default_max_tokens: Option<u32>) -> u32 {
    match get(responses, "max_output_tokens"@) {
        Some(v) => match as_u64(v) {
            Some(n) => n as u32,
            None => match default_max_tokens { Some(d) => d, None => 4096 },
        },
        None => match default_max_tokens { Some(d) => d, None => 4096 },
    }
}

/// The Anthropic Messages request for a Responses request with `input`
/// items `items`, and the number of reasoning items dropped.
pub open spec fn responses_request(
    responses: JsonV,
    items: Seq<JsonV>,
    client_model: Seq<char>,
    stream: bool,
    default_max_tokens: Option<u32>,
) -> (JsonV, nat) {
    let st = flush_item_state(fold_items(items, initial_items_state(responses)));
    let m0 = seq![("model"@, JsonV::Str(client_model)), ("messages"@, JsonV::Array(st.messages))];
    let m1 = push_opt(m0, "system"@, system_of(st.system));
    let m2 = m1.push(("max_tokens"@, JsonV::Number(NumV::PosInt(max_output_tokens_of(responses, default_max_tokens) as u64))));
    let m3 = push_opt(m2, "temperature"@, get(responses, "temperature"@));
    let m4 = push_opt(m3, "top_p"@, get(responses, "top_p"@));
    (JsonV::Object(push_opt(m4, "stream"@, if stream { Some(JsonV::Bool(true)) } else { None })), st.dropped)
}

/// The outcome of translating a Responses request: the Anthropic body and
/// the reasoning-drop count, or the error for a request without `input`.
pub open spec fn responses_to_anthropic_spec(
    responses: JsonV,
    client_model: Seq<char>,
    stream: bool,
    default_max_tokens: Option<u32>,
) -> Result<(Seq<char>, nat), Seq<char>> {
    match get(responses, "input"@) {
        Some(v) => match as_array(v) {
            Some(items) => {
                let (body, dropped) = responses_request(responses, items, client_model, stream, default_max_tokens);
                Ok((json_text(body), dropped))
            },
            None => Err("Responses request must include `input` array"@),
        },
        None => Err("Responses request must include `input` array"@),
    }
}

/// The system texts an input item contributes: the texts of a role-`system`
/// item of type `input_text` (or untyped); none for any other item.
pub open spec fn item_system_texts(item: JsonV) -> Seq<Seq<char>> {
    let t = str_or(item, "type"@, Seq::empty());
    let role = str_or(item, "role"@, "user"@);
    if (t == "input_text"@ || t.len() == 0) && role == "system"@ {
        let content = match get(item, "content"@) {
            Some(c) => Some(c),
            None => get(item, "text"@),
        };
        part_texts(content_blocks(content))
    } else {
        Seq::empty()
    }
}

/// The system texts of the items, in order.
pub open spec fn system_texts(items: Seq<JsonV>) -> Seq<Seq<char>>
    decreases items.len(),
{
    if items.len() == 0 {
        Seq::empty()
    } else {
        system_texts(items.drop_last()) + item_system_texts(items.last())
    }
}

/// The `instructions` string, as a list of at most one system text.
pub open spec fn instructions_text(responses: JsonV) -> Seq<Seq<char>> {
    initial_items_state(responses).system
}

proof fn lemma_fold_system(items: Seq<JsonV>, init: ItemState)
    ensures
        fold_items(items, init).system == init.system + system_texts(items),
    decreases items.len(),
{
    if items.len() == 0 {
        assert(init.system + Seq::<Seq<char>>::empty() =~= init.system);
    } else {
        lemma_fold_system(items.drop_last(), init);
        let st = fold_items(items.drop_last(), init);
        assert(item_step(st, items.last()).system == st.system + item_system_texts(items.last()));
        assert(init.system + system_texts(items.drop_last()) + item_system_texts(items.last())
            =~= init.system + system_texts(items));
    }
}

proof fn lemma_tail_members(m2: Seq<(Seq<char>, JsonV)>, responses: JsonV, stream: bool, k: Seq<char>)
    requires
        k != "temperature"@ && k != "top_p"@ && k != "stream"@,
    ensures
        crate::json::member(push_opt(push_opt(push_opt(m2, "temperature"@, get(responses, "temperature"@)),
            "top_p"@, get(responses, "top_p"@)), "stream"@, if stream { Some(JsonV::Bool(true)) } else { None }), k)
            == crate::json::member(m2, k),
{
    let m3 = push_opt(m2, "temperature"@, get(responses, "temperature"@));
    let m4 = push_opt(m3, "top_p"@, get(responses, "top_p"@));
    match get(responses, "temperature"@) {
        Some(v) => crate::json::lemma_member_push(m2, ("temperature"@, v), k),
        None => {},
    }
    match get(responses, "top_p"@) {
        Some(v) => crate::json::lemma_member_push(m3, ("top_p"@, v), k),
        None => {},
    }
    if stream {
        crate::json::lemma_member_push(m4, ("stream"@, JsonV::Bool(true)), k);
    }
}

proof fn lemma_head_members(a: (Seq<char>, JsonV), b: (Seq<char>, JsonV), system: Seq<Seq<char>>,
    mt: (Seq<char>, JsonV), k: Seq<char>)
    requires
        a.0 == "model"@, b.0 == "messages"@, mt.0 == "max_tokens"@, k != a.0,
        b.0 != "system"@, mt.0 != "system"@, mt.0 != b.0,
    ensures
        crate::json::member(push_opt(seq![a, b], "system"@, system_of(system)).push(mt), k) == (
            if k == b.0 { Some(b.1) }
            else if k == "system"@ { system_of(system) }
            else if k == mt.0 { Some(mt.1) }
            else { None }),
{
    let e = Seq::<(Seq<char>, JsonV)>::empty();
    let m0 = seq![a, b];
    assert(m0 =~= e.push(a).push(b));
    crate::json::lemma_member_push(e, a, k);
    crate::json::lemma_member_push(e.push(a), b, k);
    let m1 = push_opt(m0, "system"@, system_of(system));
    match system_of(system) {
        Some(v) => crate::json::lemma_member_push(m0, ("system"@, v), k),
        None => {},
    }
    crate::json::lemma_member_push(m1, mt, k);
}

proof fn lemma_request_members(
    responses: JsonV,
    items: Seq<JsonV>,
    client_model: Seq<char>,
    stream: bool,
    default_max_tokens: Option<u32>,
)
    ensures
        ({
            let body = responses_request(responses, items, client_model, stream, default_max_tokens).0;
            let st = flush_item_state(fold_items(items, initial_items_state(responses)));
            &&& get(body, "messages"@) == Some(JsonV::Array(st.messages))
            &&& get(body, "system"@) == system_of(st.system)
            &&& get(body, "max_tokens"@) == Some(JsonV::Number(NumV::PosInt(max_output_tokens_of(responses, default_max_tokens) as u64)))
        }),
{
    reveal_strlit("model");
    reveal_strlit("messages");
    reveal_strlit("system");
    reveal_strlit("max_tokens");
    reveal_strlit("temperature");
    reveal_strlit("top_p");
    reveal_strlit("stream");
    let st = flush_item_state(fold_items(items, initial_items_state(responses)));
    let mt = ("max_tokens"@, JsonV::Number(NumV::PosInt(max_output_tokens_of(responses, default_max_tokens) as u64)));
    let e = Seq::<(Seq<char>, JsonV)>::empty();
    let a = ("model"@, JsonV::Str(client_model));
    let b = ("messages"@, JsonV::Array(st.messages));
    let m0 = seq![a, b];
    assert(m0 =~= e.push(a).push(b));
    let m1 = push_opt(m0, "system"@, system_of(st.system));
    let m2 = m1.push(mt);
    let m3 = push_opt(m2, "temperature"@, get(responses, "temperature"@));
    let m4 = push_opt(m3, "top_p"@, get(responses, "top_p"@));
    let m5 = push_opt(m4, "stream"@, if stream { Some(JsonV::Bool(true)) } else { None });
    assert("messages"@.len() == 8 && "model"@.len() == 5 && "messages"@[0] != "model"@[1]);
    assert("messages"@ != "temperature"@ && "messages"@ != "top_p"@ && "messages"@ != "stream"@);
    assert("system"@.len() == 6 && "stream"@.len() == 6 && "system"@[1] != "stream"@[1]);
    assert("system"@ != "temperature"@ && "system"@ != "top_p"@ && "system"@ != "stream"@);
    assert("max_tokens"@.len() == 10 && "temperature"@.len() == 11 && "top_p"@.len() == 5);
    assert("max_tokens"@ != "temperature"@ && "max_tokens"@ != "top_p"@ && "max_tokens"@ != "stream"@);
    assert("messages"@ != "model"@ && "system"@ != "model"@ && "max_tokens"@ != "model"@);
    assert("system"@ != "messages"@ && "max_tokens"@ != "messages"@ && "max_tokens"@ != "system"@);
    lemma_tail_members(m2, responses, stream, "messages"@);
    lemma_tail_members(m2, responses, stream, "system"@);
    lemma_tail_members(m2, responses, stream, "max_tokens"@);
    lemma_head_members(a, b, st.system, mt, "messages"@);
    lemma_head_members(a, b, st.system, mt, "system"@);
    lemma_head_members(a, b, st.system, mt, "max_tokens"@);
    assert(responses_request(responses, items, client_model, stream, default_max_tokens).0 == JsonV::Object(m5));
}

/// A Responses request without an `input` array is refused with the same
/// error whatever else it holds; with one, the Anthropic body is an object
/// whose `messages` is an array.
pub proof fn law_responses_input_required(responses: JsonV, client_model: Seq<char>, stream: bool, default_max_tokens: Option<u32>)
    ensures
        responses_to_anthropic_spec(responses, client_model, stream, default_max_tokens) is Err
            <==> !(get(responses, "input"@) matches Some(v) && as_array(v) is Some),
        responses_to_anthropic_spec(responses, client_model, stream, default_max_tokens) is Err ==>
            responses_to_anthropic_spec(responses, client_model, stream, default_max_tokens)
                == Err::<(Seq<char>, nat), Seq<char>>("Responses request must include `input` array"@),
        forall|items: Seq<JsonV>| get(responses, "input"@) == Some(JsonV::Array(items)) ==> {
            &&& #[trigger] responses_to_anthropic_spec(responses, client_model, stream, default_max_tokens)
                == Ok::<(Seq<char>, nat), Seq<char>>((json_text(responses_request(responses, items, client_model, stream, default_max_tokens).0),
                    responses_request(responses, items, client_model, stream, default_max_tokens).1))
            &&& get(responses_request(responses, items, client_model, stream, default_max_tokens).0, "messages"@) is Some
            &&& get(responses_request(responses, items, client_model, stream, default_max_tokens).0, "messages"@)->0 is Array
        },
{
    match get(responses, "input"@) {
        Some(v) => match as_array(v) {
            Some(items) => {
                lemma_request_members(responses, items, client_model, stream, default_max_tokens);
                let (body, dropped) = responses_request(responses, items, client_model, stream, default_max_tokens);
                assert(responses_to_anthropic_spec(responses, client_model, stream, default_max_tokens)
                    == Ok::<(Seq<char>, nat), Seq<char>>((json_text(body), dropped)));
            },
            None => {},
        },
        None => {},
    }
}

/// `max_tokens` of the Anthropic body: `max_output_tokens` when it is an
/// unsigned number (cut to 32 bits), else the configured default, else 4096.
pub proof fn law_responses_max_tokens(responses: JsonV, items: Seq<JsonV>, client_model: Seq<char>, stream: bool,
    default_max_tokens: Option<u32>)
    ensures
        get(responses_request(responses, items, client_model, stream, default_max_tokens).0, "max_tokens"@)
            == Some(JsonV::Number(NumV::PosInt((match get(responses, "max_output_tokens"@) {
                Some(v) => match as_u64(v) {
                    Some(n) => n as u32,
                    None => match default_max_tokens { Some(d) => d, None => 4096u32 },
                },
                None => match default_max_tokens { Some(d) => d, None => 4096u32 },
            }) as u64))),
{
    lemma_request_members(responses, items, client_model, stream, default_max_tokens);
}

/// The system prompt of the Anthropic body: the `instructions` string, then
/// the texts of the role-`system` items of type `input_text` (or untyped),
/// in order, joined with newlines; absent when there is none. Such items
/// add no message and leave the message being built as it was.
pub proof fn law_responses_system_hoisting(responses: JsonV, items: Seq<JsonV>, client_model: Seq<char>, stream: bool,
    default_max_tokens: Option<u32>)
    ensures
        get(responses_request(responses, items, client_model, stream, default_max_tokens).0, "system"@)
            == system_of(instructions_text(responses) + system_texts(items)),
        forall|st: ItemState, item: JsonV| item_system_texts(item).len() > 0 ==> {
            let after = #[trigger] item_step(st, item);
            after.messages == st.messages && after.blocks == st.blocks && after.role == st.role
        },
{
    lemma_request_members(responses, items, client_model, stream, default_max_tokens);
    lemma_fold_system(items, initial_items_state(responses));
}

/// A Responses request translated for Anthropic.
pub struct ResponsesToAnthropic {
    /// The JSON body for Anthropic's `/v1/messages`.
    pub body: String,
    /// How many `reasoning` items were dropped (Anthropic accepts none).
    pub dropped_reasoning_count: usize,
}

pub fn flush_message(role: &Option<String>, blocks: &mut Vec<Json>, messages: &mut Vec<Json>)
    ensures
        ({
            let st = ItemState {
                messages: json_seq_view(old(messages)@), system: Seq::empty(), role: opt_view(*role),
                blocks: json_seq_view(old(blocks)@), dropped: 0,
            };
            json_seq_view(final(messages)@) == flush_item_state(st).messages
                && json_seq_view(final(blocks)@) == flush_item_state(st).blocks
        }),
{
    proof { lemma_seq_view(blocks@); }
    let r = match role {
        Some(r) => r,
        None => return,
    };
    if blocks.len() == 0 {
        return;
    }
    let mut taken = arr_new();
    std::mem::swap(blocks, &mut taken);
    proof { lemma_seq_view(taken@); }
    let ghost tv = json_seq_view(taken@);
    let mut m = members_new();
    obj_push(&mut m, "role", jstr(r.as_str()));
    obj_push(&mut m, "content", Json::Array(taken));
    assert(json_members_view(m@) =~= seq![("role"@, JsonV::Str(r@)), ("content"@, JsonV::Array(tv))]);
    arr_push(messages, Json::Object(m));
    assert(json_seq_view(blocks@) =~= Seq::<JsonV>::empty());
}

fn function_call_exec(item: &Json) -> (r: Json)
    ensures
        r@ == function_call_block(item@),
{
    let null = null_json();
    let id = match item.get("call_id") {
        Some(v) => v.copy(),
        None => get_or_null(item, "id"),
    };
    let input = match field_ref(item, "arguments", &null).as_str() {
        Some(s) => match parse_json_str(s.as_str()) {
            Some(v) => v,
            None => Json::Object(members_new()),
        },
        None => Json::Object(members_new()),
    };
    let name = get_or_null(item, "name");
    let ghost (iv, nv, inv) = (id@, name@, input@);
    let mut m = members_new();
    obj_push(&mut m, "type", jstr("tool_use"));
    obj_push(&mut m, "id", id);
    obj_push(&mut m, "name", name);
    obj_push(&mut m, "input", input);
    assert(json_members_view(m@) =~= seq![("type"@, JsonV::Str("tool_use"@)), ("id"@, iv), ("name"@, nv), ("input"@, inv)]);
    Json::Object(m)
}

fn function_output_exec(item: &Json) -> (r: Json)
    ensures
        r@ == function_output_block(item@),
{
    let content = match item.get("output") {
        Some(v) => v.copy(),
        None => Json::Str(String::new()),
    };
    let id = get_or_null(item, "call_id");
    let ghost (iv, cv) = (id@, content@);
    let mut m = members_new();
    obj_push(&mut m, "type", jstr("tool_result"));
    obj_push(&mut m, "tool_use_id", id);
    obj_push(&mut m, "content", content);
    assert(json_members_view(m@) =~= seq![("type"@, JsonV::Str("tool_result"@)), ("tool_use_id"@, iv), ("content"@, cv)]);
    Json::Object(m)
}


fn switch_role_exec(current_role: &mut Option<String>, role: &str, blocks: &mut Vec<Json>, messages: &mut Vec<Json>)
    ensures
        ({
            let st = ItemState {
                messages: json_seq_view(old(messages)@), system: Seq::empty(), role: opt_view(*old(current_role)),
                blocks: json_seq_view(old(blocks)@), dropped: 0,
            };
            let s = switch_role(st, role@);
            json_seq_view(final(messages)@) == s.messages && json_seq_view(final(blocks)@) == s.blocks
                && opt_view(*final(current_role)) == s.role
        }),
{
    let same = match current_role {
        Some(r) => str_eq(r.as_str(), role),
        None => false,
    };
    if !same {
        flush_message(current_role, blocks, messages);
        *current_role = Some(owned(role));
    }
}

impl ResponsesToAnthropic {
    /// Translates a Responses request into an Anthropic Messages body:
    /// `instructions` and system items become `system`, consecutive items of
    /// one role become one message, function calls and their outputs become
    /// `tool_use` and `tool_result` blocks, and reasoning items are dropped
    /// and counted.
    pub fn translate(
        responses: &Json,
        client_model: &str,
        stream: bool,
        default_max_tokens: Option<u32>,
    ) -> (r: Result<ResponsesToAnthropic, String>)
        ensures
            match r {
                Ok(t) => responses_to_anthropic_spec(responses@, client_model@, stream, default_max_tokens)
                    == Ok::<(Seq<char>, nat), Seq<char>>((t.body@, t.dropped_reasoning_count as nat)),
                Err(e) => responses_to_anthropic_spec(responses@, client_model@, stream, default_max_tokens)
                    == Err::<(Seq<char>, nat), Seq<char>>(e@),
            },
    {
        let items = match responses.get("input") {
            Some(v) => match v.as_array() {
                Some(a) => a,
                None => return Err(owned("Responses request must include `input` array")),
            },
            None => return Err(owned("Responses request must include `input` array")),
        };
        proof { lemma_seq_view(items@); }
        let ghost iv = json_seq_view(items@);
        let ghost init = initial_items_state(responses@);
        let null = null_json();
        let mut system: Vec<String> = Vec::new();
        match responses.get("instructions") {
            Some(v) => match v.as_str() {
                Some(s) => system.push(s.clone()),
                None => {},
            },
            None => {},
        }
        let mut messages = arr_new();
        let mut current_role: Option<String> = None;
        let mut blocks = arr_new();
        let mut dropped: usize = 0;
        assert(iv.subrange(0, 0) =~= Seq::<JsonV>::empty());
        assert(views(system@) =~= init.system);
        let mut i: usize = 0;
        while i < items.len()
            invariant
                i <= items@.len(),
                dropped <= i,
                null@ == JsonV::Null,
                iv.len() == items@.len(),
                forall|k: int| 0 <= k < items@.len() ==> #[trigger] iv[k] == items@[k]@,
                fold_items(iv.subrange(0, i as int), init) == (ItemState {
                    messages: json_seq_view(messages@), system: views(system@), role: opt_view(current_role),
                    blocks: json_seq_view(blocks@), dropped: dropped as nat,
                }),
            decreases items@.len() - i,
        {
            let item = &items[i];
            assert(iv.subrange(0, i + 1).drop_last() =~= iv.subrange(0, i as int));
            assert(iv.subrange(0, i + 1).last() == item@);
            let ghost st = fold_items(iv.subrange(0, i as int), init);
            let t = field_ref(item, "type", &null).as_str();
            let is_text = match t { Some(s) => s.as_str().is_empty() || str_eq(s.as_str(), "input_text"), None => true };
            let is_image = match t { Some(s) => str_eq(s.as_str(), "input_image"), None => false };
            let is_call = match t { Some(s) => str_eq(s.as_str(), "function_call"), None => false };
            let is_output = match t { Some(s) => str_eq(s.as_str(), "function_call_output"), None => false };
            let is_reasoning = match t { Some(s) => str_eq(s.as_str(), "reasoning"), None => false };
            proof { reveal_strlit(""); }
            let role: String = match field_ref(item, "role", &null).as_str() {
                Some(r) => r.clone(),
                None => owned("user"),
            };
            assert(role@ == str_or(item@, "role"@, "user"@));
            if is_text {
                let content = match item.get("content") {
                    Some(c) => Some(c),
                    None => item.get("text"),
                };
                let new_blocks = build_text_or_array_blocks(content);
                proof { lemma_seq_view(new_blocks@); }
                if str_eq(role.as_str(), "system") {
                    let mut j: usize = 0;
                    let ghost base = views(system@);
                    let ghost bv = json_seq_view(new_blocks@);
                    assert(bv.subrange(0, 0) =~= Seq::<JsonV>::empty());
                    assert(views(system@) =~= base + part_texts(bv.subrange(0, 0)));
                    while j < new_blocks.len()
                        invariant
                            j <= new_blocks@.len(),
                            null@ == JsonV::Null,
                            bv.len() == new_blocks@.len(),
                            forall|k: int| 0 <= k < new_blocks@.len() ==> #[trigger] bv[k] == new_blocks@[k]@,
                            views(system@) == base + part_texts(bv.subrange(0, j as int)),
                        decreases new_blocks@.len() - j,
                    {
                        assert(bv.subrange(0, j + 1).drop_last() =~= bv.subrange(0, j as int));
                        assert(bv.subrange(0, j + 1).last() == new_blocks@[j as int]@);
                        match field_ref(&new_blocks[j], "text", &null).as_str() {
                            Some(x) => {
                                let ghost before = views(system@);
                                system.push(x.clone());
                                assert(views(system@) =~= before.push(x@));
                            },
                            None => {},
                        }
                        j = j + 1;
                    }
                    assert(bv.subrange(0, new_blocks@.len() as int) =~= bv);
                } else {
                    switch_role_exec(&mut current_role, role.as_str(), &mut blocks, &mut messages);
                    let ghost ob = blocks@;
                    let ghost before = json_seq_view(blocks@);
                    let mut nb = new_blocks;
                    blocks.append(&mut nb);
                    proof { lemma_seq_view(blocks@); lemma_seq_view(ob); }
                    assert(blocks@ =~= ob + new_blocks@);
                    assert(json_seq_view(blocks@) =~= before + json_seq_view(new_blocks@));
                }
            } else if is_image {
                let b = build_image_block(item);
                switch_role_exec(&mut current_role, role.as_str(), &mut blocks, &mut messages);
                arr_push(&mut blocks, b);
            } else if is_call {
                let b = function_call_exec(item);
                switch_role_exec(&mut current_role, "assistant", &mut blocks, &mut messages);
                arr_push(&mut blocks, b);
            } else if is_output {
                let b = function_output_exec(item);
                switch_role_exec(&mut current_role, "user", &mut blocks, &mut messages);
                arr_push(&mut blocks, b);
            } else if is_reasoning {
                dropped = dropped + 1;
            }
            i = i + 1;
        }
        assert(iv.subrange(0, items@.len() as int) =~= iv);
        flush_message(&current_role, &mut blocks, &mut messages);
        proof { lemma_seq_view(messages@); }
        let max_tokens: u32 = match responses.get("max_output_tokens") {
            Some(v) => match v.as_u64() {
                Some(n) => n as u32,
                None => match default_max_tokens { Some(d) => d, None => 4096 },
            },
            None => match default_max_tokens { Some(d) => d, None => 4096 },
        };
        let ghost mv = json_seq_view(messages@);
        let mut m = members_new();
        obj_push(&mut m, "model", jstr(client_model));
        obj_push(&mut m, "messages", Json::Array(messages));
        assert(json_members_view(m@) =~= seq![("model"@, JsonV::Str(client_model@)), ("messages"@, JsonV::Array(mv))]);
        if system.len() > 0 {
            obj_push(&mut m, "system", Json::Str(join_strings(&system, "\n")));
        }
        obj_push(&mut m, "max_tokens", Json::Number(JsonNumber::PosInt(max_tokens as u64)));
        match responses.get("temperature") {
            Some(t) => obj_push(&mut m, "temperature", t.copy()),
            None => {},
        }
        match responses.get("top_p") {
            Some(t) => obj_push(&mut m, "top_p", t.copy()),
            None => {},
        }
        if stream {
            obj_push(&mut m, "stream", Json::Bool(true));
        }
        let body = to_json_text(&Json::Object(m));
        Ok(ResponsesToAnthropic { body, dropped_reasoning_count: dropped })
    }
}


// ---------------------------------------------------------------------------
// Anthropic → Responses
// ---------------------------------------------------------------------------

/// The Responses `output` item of an Anthropic content block: text becomes
/// `output_text`, `tool_use` a `function_call` with its input serialized,
/// and any other block is passed on as `unknown:<type>` with the raw block.
pub open spec fn output_item(block: JsonV) -> JsonV {
    let t = str_or(block, "type"@, Seq::empty());
    if t == "text"@ {
        JsonV::Object(seq![
            ("type"@, JsonV::Str("output_text"@)),
            ("text"@, JsonV::Str(str_or(block, "text"@, Seq::empty()))),
            ("annotations"@, JsonV::Array(Seq::empty())),
        ])
    } else if t == "tool_use"@ {
        let arguments = match get(block, "input"@) {
            Some(v) => JsonV::Str(json_text(v)),
            None => JsonV::Null,
        };
        JsonV::Object(seq![
            ("type"@, JsonV::Str("function_call"@)),
            ("call_id"@, field(block, "id"@)),
            ("name"@, field(block, "name"@)),
            ("arguments"@, arguments),
        ])
    } else {
        JsonV::Object(seq![("type"@, JsonV::Str("unknown:"@ + t)), ("raw"@, block)])
    }
}

pub open spec fn output_items(blocks: Seq<JsonV>) -> Seq<JsonV> {
    blocks.map_values(|b: JsonV| output_item(b))
}

/// The Responses payload for a parsed Anthropic response.
pub open spec fn responses_payload(anthropic: JsonV, client_model: Seq<char>, id: Seq<char>, now_ms: u64) -> JsonV {
    let blocks = match get(anthropic, "content"@) {
        Some(v) => match as_array(v) { Some(b) => b, None => Seq::empty() },
        None => Seq::empty(),
    };
    let input = usage_count(anthropic, "input_tokens"@);
    let output = usage_count(anthropic, "output_tokens"@);
    JsonV::Object(seq![
        ("id"@, JsonV::Str(id)),
        ("object"@, JsonV::Str("response"@)),
        ("created_at"@, JsonV::Number(NumV::PosInt(now_ms / 1000))),
        ("status"@, JsonV::Str("completed"@)),
        ("model"@, JsonV::Str(client_model)),
        ("output"@, JsonV::Array(output_items(blocks))),
        ("usage"@, JsonV::Object(seq![
            ("input_tokens"@, JsonV::Number(NumV::PosInt(input))),
            ("output_tokens"@, JsonV::Number(NumV::PosInt(output))),
            ("total_tokens"@, JsonV::Number(NumV::PosInt(vstd::wrapping::u64_specs::wrapping_add(input, output)))),
        ])),
    ])
}

/// The outcome of translating an Anthropic response body into a Responses
/// payload with the given id and clock.
pub open spec fn anthropic_to_responses_spec(body: Seq<char>, client_model: Seq<char>, id: Seq<char>, now_ms: u64) -> Result<Seq<char>, Seq<char>> {
    match json_parse(encode_utf8(body)) {
        Err(e) => Err("invalid Anthropic response: "@ + e),
        Ok(a) => Ok(json_text(responses_payload(a, client_model, id, now_ms))),
    }
}

fn output_item_exec(block: &Json) -> (r: Json)
    ensures
        r@ == output_item(block@),
{
    let null = null_json();
    let t: String = match field_ref(block, "type", &null).as_str() {
        Some(s) => s.clone(),
        None => String::new(),
    };
    let mut m = members_new();
    if str_eq(t.as_str(), "text") {
        let text: String = match field_ref(block, "text", &null).as_str() {
            Some(s) => s.clone(),
            None => String::new(),
        };
        obj_push(&mut m, "type", jstr("output_text"));
        obj_push(&mut m, "text", Json::Str(text));
        obj_push(&mut m, "annotations", Json::Array(arr_new()));
        assert(json_members_view(m@) =~= seq![
            ("type"@, JsonV::Str("output_text"@)),
            ("text"@, JsonV::Str(str_or(block@, "text"@, Seq::empty()))),
            ("annotations"@, JsonV::Array(Seq::empty()))]);
    } else if str_eq(t.as_str(), "tool_use") {
        let arguments = match block.get("input") {
            Some(v) => Json::Str(to_json_text(v)),
            None => Json::Null,
        };
        let id = get_or_null(block, "id");
        let name = get_or_null(block, "name");
        let ghost (iv, nv, av) = (id@, name@, arguments@);
        obj_push(&mut m, "type", jstr("function_call"));
        obj_push(&mut m, "call_id", id);
        obj_push(&mut m, "name", name);
        obj_push(&mut m, "arguments", arguments);
        assert(json_members_view(m@) =~= seq![
            ("type"@, JsonV::Str("function_call"@)), ("call_id"@, iv), ("name"@, nv), ("arguments"@, av)]);
    } else {
        let ty = concat("unknown:", t.as_str());
        obj_push(&mut m, "type", Json::Str(ty));
        obj_push(&mut m, "raw", block.copy());
        assert(json_members_view(m@) =~= seq![("type"@, JsonV::Str("unknown:"@ + t@)), ("raw"@, block@)]);
    }
    Json::Object(m)
}

fn u64_json(n: u64) -> (r: Json)
    ensures
        r@ == JsonV::Number(NumV::PosInt(n)),
{
    Json::Number(JsonNumber::PosInt(n))
}

/// Builds the Responses payload of a parsed Anthropic response, with the
/// synthetic id and `created_at` from the clock in milliseconds.
pub fn responses_payload_from(anthropic: &Json, client_model: &str, id: &str, now_ms: u64) -> (r: Json)
    ensures
        r@ == responses_payload(anthropic@, client_model@, id@, now_ms),
{
    let mut items = arr_new();
    let ghost empty: Seq<JsonV> = Seq::empty();
    let ghost blocks_v: Seq<JsonV> = match get(anthropic@, "content"@) {
        Some(v) => match as_array(v) { Some(b) => b, None => Seq::empty() },
        None => Seq::empty(),
    };
    match anthropic.get("content") {
        Some(v) => match v.as_array() {
            Some(blocks) => {
                proof { lemma_seq_view(blocks@); }
                let ghost bv = json_seq_view(blocks@);
                let mut i: usize = 0;
                while i < blocks.len()
                    invariant
                        i <= blocks@.len(),
                        bv.len() == blocks@.len(),
                        forall|k: int| 0 <= k < blocks@.len() ==> #[trigger] bv[k] == blocks@[k]@,
                        json_seq_view(items@) == output_items(bv.subrange(0, i as int)),
                    decreases blocks@.len() - i,
                {
                    let ghost before = json_seq_view(items@);
                    arr_push(&mut items, output_item_exec(&blocks[i]));
                    assert(output_items(bv.subrange(0, i + 1)) =~= before.push(output_item(bv[i as int])));
                    i = i + 1;
                }
                assert(bv.subrange(0, blocks@.len() as int) =~= bv);
            },
            None => { assert(json_seq_view(items@) =~= output_items(empty)); },
        },
        None => { assert(json_seq_view(items@) =~= output_items(empty)); },
    }
    let ghost ov = json_seq_view(items@);
    assert(ov == output_items(blocks_v));
    let null = null_json();
    let input = match field_ref(field_ref(anthropic, "usage", &null), "input_tokens", &null).as_u64() { Some(n) => n, None => 0 };
    let output = match field_ref(field_ref(anthropic, "usage", &null), "output_tokens", &null).as_u64() { Some(n) => n, None => 0 };
    let mut usage = members_new();
    obj_push(&mut usage, "input_tokens", u64_json(input));
    obj_push(&mut usage, "output_tokens", u64_json(output));
    obj_push(&mut usage, "total_tokens", u64_json(input.wrapping_add(output)));
    let ghost uv = JsonV::Object(json_members_view(usage@));
    assert(json_members_view(usage@) =~= seq![
        ("input_tokens"@, JsonV::Number(NumV::PosInt(input))),
        ("output_tokens"@, JsonV::Number(NumV::PosInt(output))),
        ("total_tokens"@, JsonV::Number(NumV::PosInt(vstd::wrapping::u64_specs::wrapping_add(input, output))))]);
    let mut m = members_new();
    obj_push(&mut m, "id", jstr(id));
    obj_push(&mut m, "object", jstr("response"));
    obj_push(&mut m, "created_at", u64_json(now_ms / 1000));
    obj_push(&mut m, "status", jstr("completed"));
    obj_push(&mut m, "model", jstr(client_model));
    obj_push(&mut m, "output", Json::Array(items));
    obj_push(&mut m, "usage", Json::Object(usage));
    assert(json_members_view(m@) =~= seq![
        ("id"@, JsonV::Str(id@)),
        ("object"@, JsonV::Str("response"@)),
        ("created_at"@, JsonV::Number(NumV::PosInt(now_ms / 1000))),
        ("status"@, JsonV::Str("completed"@)),
        ("model"@, JsonV::Str(client_model@)),
        ("output"@, JsonV::Array(ov)),
        ("usage"@, uv)]);
    Json::Object(m)
}

/// Translates a 2xx Anthropic Messages response body into an OpenAI
/// Responses payload carrying the synthetic `id` and the creation time.
pub fn anthropic_to_responses(body: &str, client_model: &str, id: &str, now_ms: u64) -> (r: Result<String, String>)
    ensures
        crate::text::str_result(r) == anthropic_to_responses_spec(body@, client_model@, id@, now_ms),
{
    match parse_json_result(body.as_bytes()) {
        Ok(a) => Ok(to_json_text(&responses_payload_from(&a, client_model, id, now_ms))),
        Err(e) => Err(concat("invalid Anthropic response: ", e.as_str())),
    }
}

/// Translates a 2xx Anthropic Messages response body into an OpenAI
/// Responses payload, minting its id from the clock `now_ms` and the
/// instance's id counter; `now_ms` also gives the creation time.
pub fn translate_anthropic_response(body: &str, client_model: &str, now_ms: u64, counter: u64) -> (r: Result<String, String>)
    ensures
        crate::text::str_result(r) == anthropic_to_responses_spec(body@, client_model@, minted_id(now_ms, counter), now_ms),
{
    let id = response_id(now_ms, counter);
    anthropic_to_responses(body, client_model, id.as_str(), now_ms)
}

// ---------------------------------------------------------------------------
// Synthetic identifiers
// ---------------------------------------------------------------------------

/// The 16 bytes of a UUID v7 (RFC 9562): the low 48 bits of the clock in
/// milliseconds, big-endian; version 7; the counter's low 12 bits as
/// `rand_a`; the variant `10`; and the counter's bits as `rand_b`.
pub open spec fn uuid_v7_bytes(timestamp_ms: u64, counter: u64) -> Seq<u8> {
    seq![
        (timestamp_ms >> 40u64) as u8, (timestamp_ms >> 32u64) as u8, (timestamp_ms >> 24u64) as u8,
        (timestamp_ms >> 16u64) as u8, (timestamp_ms >> 8u64) as u8, timestamp_ms as u8,
        0x70u8 | (((counter >> 8u64) & 0x0Fu64) as u8), (counter & 0xFFu64) as u8,
        0x80u8 | (((counter >> 56u64) & 0x3Fu64) as u8), (counter >> 48u64) as u8,
        (counter >> 40u64) as u8, (counter >> 32u64) as u8, (counter >> 24u64) as u8,
        (counter >> 16u64) as u8, (counter >> 8u64) as u8, counter as u8,
    ]
}

/// Builds the bytes of a UUID v7 from the clock and a per-instance counter.
pub fn make_uuid_v7(timestamp_ms: u64, counter: u64) -> (r: [u8; 16])
    ensures
        r@ == uuid_v7_bytes(timestamp_ms, counter),
        r@[6] >> 4u8 == 7,
        r@[8] >> 6u8 == 2,
{
    let b6: u8 = 0x70u8 | (((counter >> 8u64) & 0x0Fu64) as u8);
    let b8: u8 = 0x80u8 | (((counter >> 56u64) & 0x3Fu64) as u8);
    assert(b6 >> 4u8 == 7) by (bit_vector)
        requires b6 == 0x70u8 | (((counter >> 8u64) & 0x0Fu64) as u8);
    assert(b8 >> 6u8 == 2) by (bit_vector)
        requires b8 == 0x80u8 | (((counter >> 56u64) & 0x3Fu64) as u8);
    let r = [
        (timestamp_ms >> 40u64) as u8, (timestamp_ms >> 32u64) as u8, (timestamp_ms >> 24u64) as u8,
        (timestamp_ms >> 16u64) as u8, (timestamp_ms >> 8u64) as u8, timestamp_ms as u8,
        b6, (counter & 0xFFu64) as u8,
        b8, (counter >> 48u64) as u8,
        (counter >> 40u64) as u8, (counter >> 32u64) as u8, (counter >> 24u64) as u8,
        (counter >> 16u64) as u8, (counter >> 8u64) as u8, counter as u8,
    ];
    assert(r@ =~= uuid_v7_bytes(timestamp_ms, counter));
    r
}

/// The lowercase hexadecimal digit of `n < 16`.
pub open spec fn hex_digit(n: u8) -> char {
    seq!['0', '1', '2', '3', '4', '5', '6', '7', '8', '9', 'a', 'b', 'c', 'd', 'e', 'f'][n as int]
}

/// Two lowercase hexadecimal digits per byte, high nibble first.
pub open spec fn hex_of(bytes: Seq<u8>) -> Seq<char>
    decreases bytes.len(),
{
    if bytes.len() == 0 {
        Seq::empty()
    } else {
        hex_of(bytes.drop_last()) + seq![hex_digit(bytes.last() / 16), hex_digit(bytes.last() % 16)]
    }
}

/// The hyphenated lowercase text of a UUID: groups of 4, 2, 2, 2 and 6 bytes.
pub open spec fn uuid_hyphenated(b: Seq<u8>) -> Seq<char> {
    hex_of(b.subrange(0, 4)) + seq!['-'] + hex_of(b.subrange(4, 6)) + seq!['-'] + hex_of(b.subrange(6, 8))
        + seq!['-'] + hex_of(b.subrange(8, 10)) + seq!['-'] + hex_of(b.subrange(10, 16))
}

/// `Uuid::from_bytes(..).to_string()` of the uuid crate: the hyphenated
/// lowercase hexadecimal form of the 16 bytes.
#[verifier::external_body]
fn uuid_text(bytes: [u8; 16]) -> (r: String)
    ensures
        r@ == uuid_hyphenated(bytes@),
{
    uuid::Uuid::from_bytes(bytes).to_string()
}

/// The synthetic Responses id minted at `timestamp_ms` with `counter`:
/// `resp_` and the hyphenated UUID v7 of the clock and the counter.
pub open spec fn minted_id(timestamp_ms: u64, counter: u64) -> Seq<char> {
    "resp_"@ + uuid_hyphenated(uuid_v7_bytes(timestamp_ms, counter))
}

proof fn lemma_hex_len(bytes: Seq<u8>)
    ensures
        hex_of(bytes).len() == 2 * bytes.len(),
    decreases bytes.len(),
{
    if bytes.len() > 0 {
        lemma_hex_len(bytes.drop_last());
    }
}

proof fn lemma_hex_first(bytes: Seq<u8>)
    requires
        bytes.len() > 0,
    ensures
        hex_of(bytes)[0] == hex_digit(bytes[0] / 16),
    decreases bytes.len(),
{
    let init = bytes.drop_last();
    let tail = seq![hex_digit(bytes.last() / 16), hex_digit(bytes.last() % 16)];
    assert(hex_of(bytes) == hex_of(init) + tail);
    if bytes.len() == 1 {
        assert(init.len() == 0);
        assert(hex_of(init) =~= Seq::<char>::empty());
        assert(bytes.last() == bytes[0]);
        assert((hex_of(init) + tail)[0] == tail[0]);
    } else {
        lemma_hex_len(init);
        lemma_hex_first(init);
        assert(init[0] == bytes[0]);
        assert((hex_of(init) + tail)[0] == hex_of(init)[0]);
    }
}

/// A minted id is `resp_` and a 36-character hyphenated UUID whose version
/// digit (the 15th character of the UUID) is `7`.
pub proof fn law_minted_id_shape(timestamp_ms: u64, counter: u64)
    ensures
        minted_id(timestamp_ms, counter).len() == 41,
        minted_id(timestamp_ms, counter).subrange(0, 5) == "resp_"@,
        minted_id(timestamp_ms, counter)[13] == '-',
        minted_id(timestamp_ms, counter)[18] == '-',
        minted_id(timestamp_ms, counter)[19] == '7',
        minted_id(timestamp_ms, counter)[23] == '-',
        minted_id(timestamp_ms, counter)[28] == '-',
{
    let b = uuid_v7_bytes(timestamp_ms, counter);
    reveal_strlit("resp_");
    lemma_hex_len(b.subrange(0, 4));
    lemma_hex_len(b.subrange(4, 6));
    lemma_hex_len(b.subrange(6, 8));
    lemma_hex_len(b.subrange(8, 10));
    lemma_hex_len(b.subrange(10, 16));
    lemma_hex_first(b.subrange(6, 8));
    let b6 = b[6];
    assert(b6 == 0x70u8 | (((counter >> 8u64) & 0x0Fu64) as u8));
    assert(b6 / 16 == 7) by (bit_vector)
        requires b6 == 0x70u8 | (((counter >> 8u64) & 0x0Fu64) as u8);
    assert(b.subrange(6, 8)[0] == b6);
    let id = minted_id(timestamp_ms, counter);
    let g3 = hex_of(b.subrange(6, 8));
    assert(id[19] == g3[0]);
    assert(id.subrange(0, 5) =~= "resp_"@);
}

/// The Responses `output` holds one item per Anthropic content block, in
/// order.
pub proof fn law_output_item_per_block(blocks: Seq<JsonV>)
    ensures
        output_items(blocks).len() == blocks.len(),
        forall|i: int| 0 <= i < blocks.len() ==> #[trigger] output_items(blocks)[i] == output_item(blocks[i]),
{
}

/// The synthetic Responses id: `resp_` and a UUID v7 of the clock and the
/// counter.
pub fn response_id(timestamp_ms: u64, counter: u64) -> (r: String)
    ensures
        r@ == "resp_"@ + uuid_hyphenated(uuid_v7_bytes(timestamp_ms, counter)),
        r@ == minted_id(timestamp_ms, counter),
{
    let text = uuid_text(make_uuid_v7(timestamp_ms, counter));
    concat("resp_", text.as_str())
}

/// The next value of the per-instance id counter (wrapping at 2^64).
pub fn next_counter(counter: u64) -> (r: u64)
    ensures
        r == vstd::wrapping::u64_specs::wrapping_add(counter, 1),
{
    counter.wrapping_add(1)
}

/// The first six bytes of an id read as a big-endian number.
pub open spec fn time_prefix(b: Seq<u8>) -> int {
    b[0] * 0x100_0000_0000int + b[1] * 0x1_0000_0000int + b[2] * 0x100_0000int
        + b[3] * 0x1_0000int + b[4] * 0x100int + b[5]
}

/// A UUID v7 carries the clock in its first 48 bits: its six leading
/// bytes, read big-endian, are the millisecond timestamp (modulo 2^48).
/// Ids minted at a later millisecond therefore sort after earlier ones.
#[verifier::spinoff_prover]
pub proof fn law_uuid_v7_time_ordered(t1: u64, c1: u64, t2: u64, c2: u64)
    ensures
        time_prefix(uuid_v7_bytes(t1, c1)) == t1 % 0x1_0000_0000_0000,
        t1 < t2 < 0x1_0000_0000_0000 ==> time_prefix(uuid_v7_bytes(t1, c1)) < time_prefix(uuid_v7_bytes(t2, c2)),
{
    lemma_time_prefix(t1, c1);
    lemma_time_prefix(t2, c2);
    assert(t1 < t2 < 0x1_0000_0000_0000 ==> t1 % 0x1_0000_0000_0000 == t1 && t2 % 0x1_0000_0000_0000 == t2);
}

proof fn lemma_time_prefix(t: u64, c: u64)
    ensures
        time_prefix(uuid_v7_bytes(t, c)) == t % 0x1_0000_0000_0000,
{
    let b = uuid_v7_bytes(t, c);
    let (b0, b1, b2, b3, b4, b5) = (b[0], b[1], b[2], b[3], b[4], b[5]);
    assert(b0 == (t >> 40u64) as u8 && b1 == (t >> 32u64) as u8 && b2 == (t >> 24u64) as u8
        && b3 == (t >> 16u64) as u8 && b4 == (t >> 8u64) as u8 && b5 == t as u8);
    assert(b0 as u64 * 0x100_0000_0000u64 + b1 as u64 * 0x1_0000_0000u64 + b2 as u64 * 0x100_0000u64
        + b3 as u64 * 0x1_0000u64 + b4 as u64 * 0x100u64 + b5 as u64 == t % 0x1_0000_0000_0000u64) by (bit_vector)
        requires
            b0 == (t >> 40u64) as u8, b1 == (t >> 32u64) as u8, b2 == (t >> 24u64) as u8,
            b3 == (t >> 16u64) as u8, b4 == (t >> 8u64) as u8, b5 == t as u8;
}

/// Two ids minted in the same millisecond differ whenever their counters
/// differ in their low 62 bits; in particular an id and the one minted
/// next by the same instance (the counter advanced by one) never collide.
pub proof fn law_uuid_v7_same_ms_distinct(t: u64, c1: u64, c2: u64)
    ensures
        c1 % 0x4000_0000_0000_0000 != c2 % 0x4000_0000_0000_0000 ==> uuid_v7_bytes(t, c1) != uuid_v7_bytes(t, c2),
        uuid_v7_bytes(t, c1) != uuid_v7_bytes(t, vstd::wrapping::u64_specs::wrapping_add(c1, 1)),
{
    let c3 = vstd::wrapping::u64_specs::wrapping_add(c1, 1);
    assert(c1 % 0x4000_0000_0000_0000 != c3 % 0x4000_0000_0000_0000) by (bit_vector)
        requires c3 == vstd::wrapping::u64_specs::wrapping_add(c1, 1);
    lemma_counter_bits(t, c1, c2);
    lemma_counter_bits(t, c1, c3);
}

proof fn lemma_counter_bits(t: u64, c1: u64, c2: u64)
    ensures
        uuid_v7_bytes(t, c1) == uuid_v7_bytes(t, c2) ==> c1 % 0x4000_0000_0000_0000 == c2 % 0x4000_0000_0000_0000,
{
    let x = uuid_v7_bytes(t, c1);
    let y = uuid_v7_bytes(t, c2);
    if x == y {
        assert(x[8] == y[8] && x[9] == y[9] && x[10] == y[10] && x[11] == y[11]
            && x[12] == y[12] && x[13] == y[13] && x[14] == y[14] && x[15] == y[15]);
        assert(c1 % 0x4000_0000_0000_0000u64 == c2 % 0x4000_0000_0000_0000u64) by (bit_vector)
            requires
                0x80u8 | (((c1 >> 56u64) & 0x3Fu64) as u8) == 0x80u8 | (((c2 >> 56u64) & 0x3Fu64) as u8),
                (c1 >> 48u64) as u8 == (c2 >> 48u64) as u8, (c1 >> 40u64) as u8 == (c2 >> 40u64) as u8,
                (c1 >> 32u64) as u8 == (c2 >> 32u64) as u8, (c1 >> 24u64) as u8 == (c2 >> 24u64) as u8,
                (c1 >> 16u64) as u8 == (c2 >> 16u64) as u8, (c1 >> 8u64) as u8 == (c2 >> 8u64) as u8,
                c1 as u8 == c2 as u8;
    }
}


// ---------------------------------------------------------------------------
// Warning headers
// ---------------------------------------------------------------------------

/// The warning for a request that asked for server-side storage.
pub open spec fn store_warning() -> Seq<char> {
    "299 - \"store ignored; gateway is stateless, see ADR-0030\""@
}

/// The warning for dropped reasoning items.
pub open spec fn reasoning_warning() -> Seq<char> {
    "299 - \"reasoning items dropped; Anthropic upstream does not accept client-supplied reasoning input\""@
}

/// The headers after adding the warnings that apply; a `warning` already
/// there keeps its value, and the new ones follow it after `, `.
pub open spec fn warned_headers(h: Map<Seq<char>, Seq<char>>, store_downgrade: bool, reasoning_dropped: bool) -> Map<Seq<char>, Seq<char>> {
    let parts = (if store_downgrade { seq![store_warning()] } else { Seq::empty() })
        + (if reasoning_dropped { seq![reasoning_warning()] } else { Seq::empty() });
    if parts.len() == 0 {
        h
    } else {
        let merged = joined(parts, ", "@);
        h.insert("warning"@, match map_get(h, "warning"@) {
            Some(e) => e + ", "@ + merged,
            None => merged,
        })
    }
}

/// Adds `Warning: 299` values for a storage request and for dropped
/// reasoning items, comma-joined into the one `warning` header.
pub fn attach_warnings(headers: &mut HeaderMap, store_downgrade: bool, reasoning_dropped: bool)
    ensures
        final(headers)@ == warned_headers(old(headers)@, store_downgrade, reasoning_dropped),
{
    let mut parts: Vec<String> = Vec::new();
    if store_downgrade {
        parts.push(owned("299 - \"store ignored; gateway is stateless, see ADR-0030\""));
    }
    if reasoning_dropped {
        parts.push(owned("299 - \"reasoning items dropped; Anthropic upstream does not accept client-supplied reasoning input\""));
    }
    assert(views(parts@) =~= (if store_downgrade { seq![store_warning()] } else { Seq::<Seq<char>>::empty() })
        + (if reasoning_dropped { seq![reasoning_warning()] } else { Seq::<Seq<char>>::empty() }));
    if parts.len() == 0 {
        return;
    }
    let merged = join_strings(&parts, ", ");
    let value = match headers.get("warning") {
        Some(existing) => {
            let mut e = existing;
            push_str(&mut e, ", ");
            push_str(&mut e, merged.as_str());
            e
        },
        None => merged,
    };
    headers.insert(owned("warning"), value);
}

// ---------------------------------------------------------------------------
// Id rewriting on the OpenAI passthrough
// ---------------------------------------------------------------------------

/// The members with `k` set to `v`: the first member named `k` takes the
/// value, or a new member is appended.
pub open spec fn set_member(m: Seq<(Seq<char>, JsonV)>, k: Seq<char>, v: JsonV) -> Seq<(Seq<char>, JsonV)> {
    if exists|i: int| 0 <= i < m.len() && m[i].0 == k {
        let i = choose|i: int| 0 <= i < m.len() && m[i].0 == k && forall|j: int| 0 <= j < i ==> m[j].0 != k;
        m.update(i, (k, v))
    } else {
        m.push((k, v))
    }
}

/// The body of a passthrough answer after rewriting its `id`: only a 2xx
/// JSON object body is rewritten.
pub open spec fn rewritten_body(status: u16, body: Option<Seq<u8>>, id: Seq<char>) -> Option<Seq<u8>> {
    if 200 <= status < 300 {
        match body {
            Some(b) => match parsed(b) {
                Some(JsonV::Object(m)) => Some(json_bytes(JsonV::Object(set_member(m, "id"@, JsonV::Str(id))))),
                _ => body,
            },
            None => body,
        }
    } else {
        body
    }
}

proof fn lemma_first_index(m: Seq<(Seq<char>, JsonV)>, k: Seq<char>, i: int)
    requires
        0 <= i < m.len(),
        m[i].0 == k,
        forall|j: int| 0 <= j < i ==> m[j].0 != k,
    ensures
        (choose|x: int| 0 <= x < m.len() && m[x].0 == k && forall|j: int| 0 <= j < x ==> m[j].0 != k) == i,
{
    let x = choose|x: int| 0 <= x < m.len() && m[x].0 == k && forall|j: int| 0 <= j < x ==> m[j].0 != k;
    assert(0 <= x < m.len() && m[x].0 == k && forall|j: int| 0 <= j < x ==> m[j].0 != k);
    if x < i {
        assert(m[x].0 != k);
    }
    if x > i {
        assert(m[i].0 != k);
    }
}

fn first_member_index(members: &Vec<(String, Json)>, k: &str) -> (r: Option<usize>)
    ensures
        match r {
            Some(i) => i < members@.len() && members@[i as int].0@ == k@
                && forall|j: int| 0 <= j < i ==> members@[j].0@ != k@,
            None => forall|j: int| 0 <= j < members@.len() ==> members@[j].0@ != k@,
        },
{
    let mut i: usize = 0;
    while i < members.len()
        invariant
            i <= members@.len(),
            forall|j: int| 0 <= j < i ==> members@[j].0@ != k@,
        decreases members@.len() - i,
    {
        if str_eq(members[i].0.as_str(), k) {
            return Some(i);
        }
        i = i + 1;
    }
    None
}

/// Sets the member `k` of an object's members to `v`.
pub fn set_member_exec(members: &mut Vec<(String, Json)>, k: &str, v: Json)
    ensures
        json_members_view(final(members)@) == set_member(json_members_view(old(members)@), k@, v@),
{
    proof { lemma_members_view(members@); }
    let ghost mv = json_members_view(members@);
    let ghost vv = v@;
    match first_member_index(members, k) {
        Some(i) => {
            assert(mv[i as int].0 == k@);
            assert(forall|j: int| 0 <= j < i ==> mv[j].0 != k@) by {
                assert forall|j: int| 0 <= j < i implies mv[j].0 != k@ by {
                    assert(mv[j] == (members@[j].0@, json_view(members@[j].1)));
                }
            }
            proof { lemma_first_index(mv, k@, i as int); }
            let ghost m0 = members@;
            members.set(i, (owned(k), v));
            proof { lemma_members_view(members@); }
            assert(json_members_view(members@) =~= mv.update(i as int, (k@, vv)));
        },
        None => {
            assert(!(exists|i: int| 0 <= i < mv.len() && mv[i].0 == k@)) by {
                assert forall|i: int| 0 <= i < mv.len() implies mv[i].0 != k@ by {
                    assert(mv[i] == (members@[i].0@, json_view(members@[i].1)));
                }
            }
            let ghost m0 = members@;
            let kk = owned(k);
            proof { crate::json::lemma_members_view_push(m0, kk, v); }
            members.push((kk, v));
        },
    }
}

/// Replaces the `id` of a 2xx JSON object answer with the synthetic id
/// minted at `timestamp_ms` with `counter`, so that no upstream id reaches
/// the client; other answers pass unchanged.
pub fn rewrite_response_id_if_2xx(resp: Response, timestamp_ms: u64, counter: u64) -> (r: Response)
    ensures
        r.status == resp.status,
        r.headers@ == resp.headers@,
        body_view(r.body) == rewritten_body(resp.status, body_view(resp.body), minted_id(timestamp_ms, counter)),
{
    if !(resp.status >= 200 && resp.status < 300) {
        return resp;
    }
    let id_text = response_id(timestamp_ms, counter);
    let id = id_text.as_str();
    let v = match &resp.body {
        Some(b) => match parse_json(b.as_slice()) {
            Some(v) => v,
            None => return resp,
        },
        None => return resp,
    };
    let mut members = match v {
        Json::Object(m) => m,
        _ => return resp,
    };
    set_member_exec(&mut members, "id", jstr(id));
    let body = to_json_bytes(&Json::Object(members));
    Response { status: resp.status, headers: resp.headers, body: Some(body) }
}


// ---------------------------------------------------------------------------
// Preflight and refusals
// ---------------------------------------------------------------------------

/// The preflight verdict on a request body: `None` when it carries a
/// non-null `previous_response_id` (refused), else whether `store` asks for
/// server-side storage (anything but an explicit `false`). A body that is
/// not JSON passes with no downgrade.
pub open spec fn preflight_spec(body: Option<Seq<u8>>) -> Option<bool> {
    match parsed(request_bytes(body)) {
        None => Some(false),
        Some(v) => match get(v, "previous_response_id"@) {
            Some(p) if p != JsonV::Null => None,
            _ => Some(get(v, "store"@) != Some(JsonV::Bool(false))),
        },
    }
}

/// The outcome of the checks made before a target is resolved.
pub struct ResponsesPreflight {
    /// The client asked for storage the gateway cannot give.
    pub store_downgrade: bool,
}

/// The detail of the refusal of `previous_response_id`.
pub open spec fn previous_response_id_detail() -> Seq<char> {
    "ai-proxy: this gateway is stateless. `previous_response_id` requires server-side conversation storage that ADR-0030 \u{a7}2 explicitly defers. Resend the full `input[]` each turn."@
}

/// The problem object of a 400 refusal with a `code` member.
pub open spec fn refusal_json(type_uri: Seq<char>, detail: Seq<char>, code: Seq<char>) -> JsonV {
    problem_details_json(400, type_uri, "Bad Request"@, Some(detail), seq![("code"@, JsonV::Str(code))])
}

fn refusal(type_uri: &str, detail: &str, code: &str) -> (r: Response)
    ensures
        r.status == 400,
        r.headers@ == crate::http::one_header("content-type"@, "application/problem+json"@),
        body_view(r.body) == Some(json_bytes(refusal_json(type_uri@, detail@, code@))),
{
    let mut ext = members_new();
    obj_push(&mut ext, "code", jstr(code));
    assert(json_members_view(ext@) =~= seq![("code"@, JsonV::Str(code@))]);
    problem_details(400, type_uri, "Bad Request", Some(detail), &ext)
}

/// 400 for a request that relies on server-side conversation state.
pub fn previous_response_id_not_supported_response() -> (r: Response)
    ensures
        r.status == 400,
        r.headers@ == crate::http::one_header("content-type"@, "application/problem+json"@),
        body_view(r.body) == Some(json_bytes(refusal_json(
            "urn:barbacane:error:previous_response_id_not_supported"@,
            previous_response_id_detail(),
            "previous_response_id_not_supported"@))),
{
    refusal(
        "urn:barbacane:error:previous_response_id_not_supported",
        "ai-proxy: this gateway is stateless. `previous_response_id` requires server-side conversation storage that ADR-0030 \u{a7}2 explicitly defers. Resend the full `input[]` each turn.",
        "previous_response_id_not_supported",
    )
}

/// The detail of the refusal of a provider without a Responses API.
pub open spec fn unsupported_detail(name: Seq<char>) -> Seq<char> {
    "ai-proxy: provider "@ + seq!['"'] + name + seq!['"']
        + " does not implement the OpenAI Responses API (no upstream surface to translate to or passthrough). Use `/v1/chat/completions` instead, or route to OpenAI/Anthropic."@
}

/// 400 for a provider that has no Responses API.
pub fn responses_not_supported_for_provider_response(provider: &Provider) -> (r: Response)
    ensures
        r.status == 400,
        r.headers@ == crate::http::one_header("content-type"@, "application/problem+json"@),
        body_view(r.body) == Some(json_bytes(refusal_json(
            "urn:barbacane:error:responses_not_supported_for_provider"@,
            unsupported_detail(provider.name_spec()),
            "responses_not_supported_for_provider"@))),
{
    let mut detail = owned("ai-proxy: provider ");
    push_char(&mut detail, '"');
    push_str(&mut detail, provider.name());
    push_char(&mut detail, '"');
    push_str(&mut detail, " does not implement the OpenAI Responses API (no upstream surface to translate to or passthrough). Use `/v1/chat/completions` instead, or route to OpenAI/Anthropic.");
    assert(detail@ =~= unsupported_detail(provider.name_spec()));
    refusal(
        "urn:barbacane:error:responses_not_supported_for_provider",
        detail.as_str(),
        "responses_not_supported_for_provider",
    )
}

impl ResponsesPreflight {
    /// Refuses a non-null `previous_response_id` and records whether the
    /// request asked for storage (an absent body reads as `{}`).
    pub fn from_body(body: &Option<Vec<u8>>) -> (r: Result<ResponsesPreflight, Response>)
        ensures
            match r {
                Ok(p) => preflight_spec(body_view(*body)) == Some(p.store_downgrade),
                Err(resp) => preflight_spec(body_view(*body)) is None
                    && resp.status == 400
                    && resp.headers@ == crate::http::one_header("content-type"@, "application/problem+json"@)
                    && body_view(resp.body) == Some(json_bytes(refusal_json(
                        "urn:barbacane:error:previous_response_id_not_supported"@,
                        previous_response_id_detail(),
                        "previous_response_id_not_supported"@))),
            },
    {
        let parsed_body = match body {
            Some(b) => parse_json(b.as_slice()),
            None => {
                let raw: Vec<u8> = vec![123u8, 125u8];
                assert(raw@ =~= crate::ai_proxy::chat_completion::empty_object_bytes());
                parse_json(raw.as_slice())
            },
        };
        let v = match parsed_body {
            Some(v) => v,
            None => return Ok(ResponsesPreflight { store_downgrade: false }),
        };
        match v.get("previous_response_id") {
            Some(p) => if !p.is_null() {
                return Err(previous_response_id_not_supported_response());
            },
            None => {},
        }
        let store_downgrade = match v.get("store") {
            Some(Json::Bool(b)) => *b,
            _ => true,
        };
        Ok(ResponsesPreflight { store_downgrade })
    }
}

// ---------------------------------------------------------------------------
// Per-provider handling
// ---------------------------------------------------------------------------

/// How a Responses request is served for a provider.
pub enum ResponsesCall {
    /// Passed through to OpenAI's own `/v1/responses`.
    OpenAiPassthrough,
    /// Refused: the provider has no Responses API.
    Unsupported,
    /// Translated to and from the Anthropic Messages API.
    Anthropic,
}

/// OpenAI passes through, Anthropic is translated, Ollama is refused.
pub fn responses_call(provider: &Provider) -> (r: ResponsesCall)
    ensures
        r == match *provider {
            Provider::OpenAI => ResponsesCall::OpenAiPassthrough,
            Provider::Ollama => ResponsesCall::Unsupported,
            Provider::Anthropic => ResponsesCall::Anthropic,
        },
{
    match provider {
        Provider::OpenAI => ResponsesCall::OpenAiPassthrough,
        Provider::Ollama => ResponsesCall::Unsupported,
        Provider::Anthropic => ResponsesCall::Anthropic,
    }
}

/// The credential strategy of a target.
pub open spec fn effective_auth_spec(t: TargetConfig) -> Auth {
    match t.auth {
        Some(a) => a,
        None => if t.provider is Anthropic { Auth::ApiKey } else { Auth::Bearer },
    }
}

/// The headers of the passthrough call before the credential.
pub open spec fn json_headers() -> Map<Seq<char>, Seq<char>> {
    Map::<Seq<char>, Seq<char>>::empty().insert("content-type"@, "application/json"@)
}

impl AiProxy {
    /// The upstream request of the OpenAI Responses passthrough: the
    /// client's path on the target's base URL, the credential attached per
    /// the target's strategy, and `accept: text/event-stream` when streamed.
    pub fn responses_openai_request(&self, target: &TargetConfig, req: &Request, streaming: bool) -> (r: HttpRequest)
        ensures
            r.method@ == req.method@,
            r.url@ == match target.api_key {
                Some(k) => auth_url(effective_auth_spec(*target), k@, base_spec(*target) + req.path@),
                None => base_spec(*target) + req.path@,
            },
            r.headers@ == ({
                let h = match target.api_key {
                    Some(k) => auth_headers(effective_auth_spec(*target), k@, json_headers()),
                    None => json_headers(),
                };
                if streaming { h.insert("accept"@, "text/event-stream"@) } else { h }
            }),
            r.timeout_ms == Some(vstd::wrapping::u64_specs::wrapping_mul(self.timeout, 1000)),
    {
        let mut url = openai_url(target, req.path.as_str());
        let mut headers = HeaderMap::new();
        headers.insert(owned("content-type"), owned("application/json"));
        if let Some(key) = &target.api_key {
            apply_auth(&target.effective_auth(), key.as_str(), &mut headers, &mut url);
        }
        if streaming {
            headers.insert(owned("accept"), owned("text/event-stream"));
        }
        HttpRequest { method: req.method.clone(), url, headers, timeout_ms: Some(timeout_ms(self.timeout)) }
    }
}

/// The `store_downgrade` flag the preflight left in the request context
/// (`"true"` or `"false"`); assumed when absent.
pub fn store_downgrade_from_context(v: Option<&str>) -> (r: bool)
    ensures
        r == match v { Some(s) => s@ == "true"@, None => true },
{
    match v {
        Some(s) => str_eq(s, "true"),
        None => true,
    }
}

/// The outcome of building the Anthropic body of a Responses request.
pub open spec fn anthropic_body_spec(
    body: Option<Seq<u8>>,
    client_model: Seq<char>,
    stream: bool,
    default_max_tokens: Option<u32>,
) -> Result<(Seq<char>, nat), Seq<char>> {
    match json_parse(request_bytes(body)) {
        Err(e) => Err("invalid Responses request body: "@ + e),
        Ok(v) => responses_to_anthropic_spec(v, client_model, stream, default_max_tokens),
    }
}

/// Parses a Responses request body (`{}` when absent) and translates it
/// for Anthropic.
pub fn responses_anthropic_body(
    body: &Option<Vec<u8>>,
    client_model: &str,
    stream: bool,
    default_max_tokens: Option<u32>,
) -> (r: Result<ResponsesToAnthropic, String>)
    ensures
        match r {
            Ok(t) => anthropic_body_spec(body_view(*body), client_model@, stream, default_max_tokens)
                == Ok::<(Seq<char>, nat), Seq<char>>((t.body@, t.dropped_reasoning_count as nat)),
            Err(e) => anthropic_body_spec(body_view(*body), client_model@, stream, default_max_tokens)
                == Err::<(Seq<char>, nat), Seq<char>>(e@),
        },
{
    let parsed_body = match body {
        Some(b) => parse_json_result(b.as_slice()),
        None => {
            let raw: Vec<u8> = vec![123u8, 125u8];
            assert(raw@ =~= crate::ai_proxy::chat_completion::empty_object_bytes());
            parse_json_result(raw.as_slice())
        },
    };
    match parsed_body {
        Ok(v) => ResponsesToAnthropic::translate(&v, client_model, stream, default_max_tokens),
        Err(e) => Err(concat("invalid Responses request body: ", e.as_str())),
    }
}

/// The body as text: its UTF-8 decoding, empty when absent or not UTF-8.
pub open spec fn body_text(body: Option<Seq<u8>>) -> Seq<char> {
    match body {
        Some(b) => if valid_utf8(b) { decode_utf8(b) } else { Seq::empty() },
        None => Seq::empty(),
    }
}

/// Turns an Anthropic answer into the Responses answer: a non-2xx answer
/// passes as it is; a 2xx body is translated (a body that is not JSON is an
/// error, the id minted from `now_ms` and `counter`), and the warnings for
/// storage and dropped reasoning are added.
pub fn finish_responses_anthropic(
    resp: Response,
    client_model: &str,
    store_downgrade: bool,
    dropped_reasoning_count: usize,
    now_ms: u64,
    counter: u64,
) -> (r: Result<Response, String>)
    ensures
        !(200 <= resp.status < 300) ==> (r matches Ok(out)
            && out.status == resp.status && out.headers@ == resp.headers@ && body_view(out.body) == body_view(resp.body)),
        200 <= resp.status < 300 ==> match anthropic_to_responses_spec(body_text(body_view(resp.body)), client_model@, minted_id(now_ms, counter), now_ms) {
            Ok(t) => (r matches Ok(out) && out.status == resp.status
                && out.headers@ == warned_headers(resp.headers@, store_downgrade, dropped_reasoning_count > 0)
                && body_view(out.body) == Some(encode_utf8(t))),
            Err(e) => (r matches Err(x) && x@ == e),
        },
{
    if !(resp.status >= 200 && resp.status < 300) {
        return Ok(resp);
    }
    let Response { status, headers, body } = resp;
    let text = match body {
        Some(b) => match string_from_utf8(b) {
            Some(t) => t,
            None => String::new(),
        },
        None => String::new(),
    };
    let translated = match translate_anthropic_response(text.as_str(), client_model, now_ms, counter) {
        Ok(t) => t,
        Err(e) => return Err(e),
    };
    let mut headers = headers;
    attach_warnings(&mut headers, store_downgrade, dropped_reasoning_count > 0);
    Ok(Response { status, headers, body: Some(string_bytes(translated)) })
}

} // verus!
