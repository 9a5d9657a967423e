//! The OpenAI Chat Completions adapter: translation of requests to the
//! Anthropic Messages API and of Anthropic responses back.

use vstd::prelude::*;
use vstd::utf8::encode_utf8;
use crate::ai_proxy::tools::{
    chat_tools_json, chat_tools_to_anthropic, tool_choice_json, tool_choice_to_anthropic,
};
use crate::json::{
    Json, JsonNumber, JsonV, NumV, as_array, as_bool, as_str, as_u64, field, field_ref, get, json_parse,
    json_seq_view, json_members_view, json_text, lemma_seq_view, members_new, arr_new, arr_push, obj_push,
    jstr, null_json, opt_json, parse_json, parse_json_result, parsed, to_json_text, get_or_null,
};
use crate::text::{concat, joined, join_strings, owned, push_str, str_eq, str_result, views};
use crate::http::body_view;

verus! {

// ---------------------------------------------------------------------------
// Content helpers
// ---------------------------------------------------------------------------

/// `{"type": "text", "text": t}`.
pub open spec fn text_block(t: Seq<char>) -> JsonV {
    JsonV::Object(seq![("type"@, JsonV::Str("text"@)), ("text"@, JsonV::Str(t))])
}

/// `{"role": role, "content": content}`.
pub open spec fn message_json(role: Seq<char>, content: JsonV) -> JsonV {
    JsonV::Object(seq![("role"@, JsonV::Str(role)), ("content"@, content)])
}

/// The string `text` member of a part, if any.
pub open spec fn text_of(p: JsonV) -> Option<Seq<char>> {
    match get(p, "text"@) {
        Some(t) => as_str(t),
        None => None,
    }
}

/// The texts of the parts that have a string `text`.
pub open spec fn part_texts(parts: Seq<JsonV>) -> Seq<Seq<char>>
    decreases parts.len(),
{
    if parts.len() == 0 {
        Seq::empty()
    } else {
        let prev = part_texts(parts.drop_last());
        match text_of(parts.last()) { Some(t) => prev.push(t), None => prev }
    }
}

/// The text of a `content` field: the string itself, or the texts of an
/// array of parts.
pub open spec fn content_texts(content: JsonV) -> Seq<Seq<char>> {
    match content {
        JsonV::Str(s) => seq![s],
        JsonV::Array(items) => part_texts(items),
        _ => Seq::empty(),
    }
}

/// The Anthropic block for one OpenAI user content part, if any.
pub open spec fn user_part(p: JsonV) -> Option<JsonV> {
    let ty = match get(p, "type"@) { Some(t) => as_str(t), None => None };
    match ty {
        None => match text_of(p) { Some(t) => Some(text_block(t)), None => None },
        Some(k) => if k == "text"@ {
            match text_of(p) { Some(t) => Some(text_block(t)), None => None }
        } else if k == "image_url"@ {
            let url = match get(p, "image_url"@) {
                Some(u) => match get(u, "url"@) { Some(x) => as_str(x), None => None },
                None => None,
            };
            match url {
                Some(u) => Some(JsonV::Object(seq![
                    ("type"@, JsonV::Str("image"@)),
                    ("source"@, JsonV::Object(seq![("type"@, JsonV::Str("url"@)), ("url"@, JsonV::Str(u))])),
                ])),
                None => None,
            }
        } else {
            None
        },
    }
}

pub open spec fn user_parts(parts: Seq<JsonV>) -> Seq<JsonV>
    decreases parts.len(),
{
    if parts.len() == 0 {
        Seq::empty()
    } else {
        let prev = user_parts(parts.drop_last());
        match user_part(parts.last()) { Some(b) => prev.push(b), None => prev }
    }
}

/// An OpenAI user `content` as Anthropic accepts it.
pub open spec fn normalized_content(content: JsonV) -> JsonV {
    match content {
        JsonV::Str(_) => content,
        JsonV::Array(parts) => JsonV::Array(user_parts(parts)),
        JsonV::Null => JsonV::Str(Seq::empty()),
        _ => content,
    }
}

/// A tool message `content` as the string a `tool_result` carries.
pub open spec fn stringified(content: JsonV) -> JsonV {
    match content {
        JsonV::Str(_) => content,
        JsonV::Null => JsonV::Str(Seq::empty()),
        _ => JsonV::Str(json_text(content)),
    }
}

/// The `tool_result` block of an OpenAI `role: "tool"` message.
pub open spec fn tool_result_block(msg: JsonV) -> JsonV {
    JsonV::Object(seq![
        ("type"@, JsonV::Str("tool_result"@)),
        ("tool_use_id"@, field(msg, "tool_call_id"@)),
        ("content"@, stringified(field(msg, "content"@))),
    ])
}

/// The parsed `arguments` string of a tool call, `{}` when absent or not JSON.
pub open spec fn call_input(c: JsonV) -> JsonV {
    match as_str(field(field(c, "function"@), "arguments"@)) {
        Some(s) => match parsed(encode_utf8(s)) { Some(v) => v, None => JsonV::Object(Seq::empty()) },
        None => JsonV::Object(Seq::empty()),
    }
}

/// The `tool_use` block of an OpenAI tool call.
pub open spec fn tool_use_block(c: JsonV) -> JsonV {
    JsonV::Object(seq![
        ("type"@, JsonV::Str("tool_use"@)),
        ("id"@, field(c, "id"@)),
        ("name"@, field(field(c, "function"@), "name"@)),
        ("input"@, call_input(c)),
    ])
}

pub open spec fn text_blocks(ts: Seq<Seq<char>>) -> Seq<JsonV> {
    ts.map_values(|t: Seq<char>| text_block(t))
}

pub open spec fn tool_use_blocks(calls: Seq<JsonV>) -> Seq<JsonV> {
    calls.map_values(|c: JsonV| tool_use_block(c))
}

/// The blocks of an assistant message: its text (a non-empty string, or the
/// texts of its parts), then one `tool_use` per tool call.
pub open spec fn assistant_blocks(msg: JsonV) -> Seq<JsonV> {
    let content = field(msg, "content"@);
    let texts = match content {
        JsonV::Str(t) => if t.len() > 0 { seq![text_block(t)] } else { Seq::empty() },
        JsonV::Array(parts) => text_blocks(part_texts(parts)),
        _ => Seq::empty(),
    };
    let calls = match as_array(field(msg, "tool_calls"@)) { Some(cs) => tool_use_blocks(cs), None => Seq::empty() };
    texts + calls
}

// ---------------------------------------------------------------------------
// Message translation
// ---------------------------------------------------------------------------

/// The translation state after some messages: the Anthropic messages so
/// far, the hoisted system texts, and the tool results waiting for a user turn.
pub struct ChatState {
    pub out: Seq<JsonV>,
    pub system: Seq<Seq<char>>,
    pub pending: Seq<JsonV>,
}

/// Emits the waiting tool results as one user turn.
pub open spec fn flush(st: ChatState) -> ChatState {
    if st.pending.len() > 0 {
        ChatState { out: st.out.push(message_json("user"@, JsonV::Array(st.pending))), system: st.system, pending: Seq::empty() }
    } else {
        st
    }
}

/// The role of a message (`user` when absent or not a string).
pub open spec fn role_of(msg: JsonV) -> Seq<char> {
    match as_str(field(msg, "role"@)) { Some(r) => r, None => "user"@ }
}

/// One message's effect on the translation.
pub open spec fn step(st: ChatState, msg: JsonV) -> ChatState {
    let r = role_of(msg);
    let s1 = if r != "tool"@ { flush(st) } else { st };
    if r == "system"@ {
        ChatState { out: s1.out, system: s1.system + content_texts(field(msg, "content"@)), pending: s1.pending }
    } else if r == "tool"@ {
        ChatState { out: s1.out, system: s1.system, pending: s1.pending.push(tool_result_block(msg)) }
    } else if r == "assistant"@ {
        let blocks = assistant_blocks(msg);
        if blocks.len() > 0 {
            ChatState { out: s1.out.push(message_json("assistant"@, JsonV::Array(blocks))), system: s1.system, pending: s1.pending }
        } else {
            s1
        }
    } else {
        ChatState { out: s1.out.push(message_json("user"@, normalized_content(field(msg, "content"@)))), system: s1.system, pending: s1.pending }
    }
}

pub open spec fn fold_messages(msgs: Seq<JsonV>) -> ChatState
    decreases msgs.len(),
{
    if msgs.len() == 0 {
        ChatState { out: Seq::empty(), system: Seq::empty(), pending: Seq::empty() }
    } else {
        step(fold_messages(msgs.drop_last()), msgs.last())
    }
}

/// The Anthropic messages and system texts of an OpenAI `messages` array.
pub open spec fn translated_messages(msgs: Seq<JsonV>) -> (Seq<JsonV>, Seq<Seq<char>>) {
    let st = flush(fold_messages(msgs));
    (st.out, st.system)
}

/// Whether an Anthropic turn is a user or an assistant turn.
pub open spec fn user_or_assistant(m: JsonV) -> bool {
    as_str(field(m, "role"@)) == Some("user"@) || as_str(field(m, "role"@)) == Some("assistant"@)
}

proof fn lemma_message_role(r: Seq<char>, c: JsonV)
    ensures
        as_str(field(message_json(r, c), "role"@)) == Some(r),
{
    let ms = seq![("role"@, JsonV::Str(r)), ("content"@, c)];
    assert(ms[0].0 == "role"@);
}

proof fn lemma_fold_roles(msgs: Seq<JsonV>)
    ensures
        forall|i: int| 0 <= i < fold_messages(msgs).out.len() ==> user_or_assistant(#[trigger] fold_messages(msgs).out[i]),
    decreases msgs.len(),
{
    if msgs.len() > 0 {
        let init = msgs.drop_last();
        let m = msgs.last();
        lemma_fold_roles(init);
        let st = fold_messages(init);
        lemma_message_role("user"@, JsonV::Array(st.pending));
        lemma_message_role("assistant"@, JsonV::Array(assistant_blocks(m)));
        lemma_message_role("user"@, normalized_content(field(m, "content"@)));
        let s1 = if role_of(m) != "tool"@ { flush(st) } else { st };
        assert forall|i: int| 0 <= i < s1.out.len() implies user_or_assistant(#[trigger] s1.out[i]) by {
            if i < st.out.len() {
                assert(s1.out[i] == st.out[i]);
            }
        }
        let after = fold_messages(msgs);
        assert forall|i: int| 0 <= i < after.out.len() implies user_or_assistant(#[trigger] after.out[i]) by {
            if i < s1.out.len() {
                assert(after.out[i] == s1.out[i]);
            }
        }
    }
}

/// The translated conversation holds only user and assistant turns: system
/// messages are hoisted and tool results travel in user turns.
pub proof fn law_translated_roles(msgs: Seq<JsonV>)
    ensures
        forall|i: int| 0 <= i < translated_messages(msgs).0.len() ==> user_or_assistant(#[trigger] translated_messages(msgs).0[i]),
{
    lemma_fold_roles(msgs);
    let st = fold_messages(msgs);
    lemma_message_role("user"@, JsonV::Array(st.pending));
    let out = translated_messages(msgs).0;
    assert forall|i: int| 0 <= i < out.len() implies user_or_assistant(#[trigger] out[i]) by {
        if i < st.out.len() {
            assert(out[i] == st.out[i]);
        }
    }
}

proof fn lemma_tool_run(pre: Seq<JsonV>, tools: Seq<JsonV>)
    requires
        forall|i: int| 0 <= i < tools.len() ==> role_of(#[trigger] tools[i]) == "tool"@,
    ensures
        fold_messages(pre + tools).out == fold_messages(pre).out,
        fold_messages(pre + tools).system == fold_messages(pre).system,
        fold_messages(pre + tools).pending == fold_messages(pre).pending + tools.map_values(|m: JsonV| tool_result_block(m)),
    decreases tools.len(),
{
    let f = |m: JsonV| tool_result_block(m);
    if tools.len() == 0 {
        assert(pre + tools =~= pre);
        assert(fold_messages(pre).pending + tools.map_values(f) =~= fold_messages(pre).pending);
    } else {
        let init = tools.drop_last();
        assert forall|i: int| 0 <= i < init.len() implies role_of(#[trigger] init[i]) == "tool"@ by {
            assert(init[i] == tools[i]);
        }
        lemma_tool_run(pre, init);
        assert((pre + tools).drop_last() =~= pre + init);
        assert((pre + tools).last() == tools.last());
        assert(role_of(tools.last()) == "tool"@);
        reveal_strlit("tool");
        reveal_strlit("system");
        assert("tool"@ != "system"@) by {
            assert("tool"@[0] != "system"@[0]);
        }
        assert(fold_messages(pre).pending + tools.map_values(f)
            =~= (fold_messages(pre).pending + init.map_values(f)).push(tool_result_block(tools.last())));
    }
}

/// A run of tool messages becomes exactly one user turn, with one tool
/// result per message in order, once the run ends.
pub proof fn law_tool_run_is_one_user_turn(pre: Seq<JsonV>, tools: Seq<JsonV>)
    requires
        fold_messages(pre).pending.len() == 0,
        tools.len() > 0,
        forall|i: int| 0 <= i < tools.len() ==> role_of(#[trigger] tools[i]) == "tool"@,
    ensures
        flush(fold_messages(pre + tools)).out
            == fold_messages(pre).out.push(message_json("user"@, JsonV::Array(tools.map_values(|m: JsonV| tool_result_block(m))))),
        flush(fold_messages(pre + tools)).system == fold_messages(pre).system,
{
    lemma_tool_run(pre, tools);
    assert(fold_messages(pre).pending + tools.map_values(|m: JsonV| tool_result_block(m))
        =~= tools.map_values(|m: JsonV| tool_result_block(m)));
}

fn text_block_exec(t: &str) -> (r: Json)
    ensures r@ == text_block(t@),
{
    let mut m = members_new();
    obj_push(&mut m, "type", jstr("text"));
    obj_push(&mut m, "text", jstr(t));
    assert(json_members_view(m@) =~= seq![("type"@, JsonV::Str("text"@)), ("text"@, JsonV::Str(t@))]);
    Json::Object(m)
}

fn message_exec(role: &str, content: Json) -> (r: Json)
    ensures r@ == message_json(role@, content@),
{
    let ghost c = content@;
    let mut m = members_new();
    obj_push(&mut m, "role", jstr(role));
    obj_push(&mut m, "content", content);
    assert(json_members_view(m@) =~= seq![("role"@, JsonV::Str(role@)), ("content"@, c)]);
    Json::Object(m)
}

fn text_of_exec(p: &Json) -> (r: Option<&String>)
    ensures
        match r { Some(s) => text_of(p@) == Some(s@), None => text_of(p@) is None },
{
    match p.get("text") {
        Some(t) => t.as_str(),
        None => None,
    }
}

/// Appends the text of an OpenAI `content` field to `parts` (a string, or
/// the `text` of each part of an array).
pub fn collect_text_into(content: &Json, parts: &mut Vec<String>)
    ensures
        views(final(parts)@) == views(old(parts)@) + content_texts(content@),
{
    match content {
        Json::Str(s) => {
            parts.push(s.clone());
            assert(views(parts@) =~= views(old(parts)@) + seq![s@]);
        },
        Json::Array(items) => {
            proof { lemma_seq_view(items@); }
            let ghost iv = json_seq_view(items@);
            let ghost base = views(parts@);
            let mut i: usize = 0;
            assert(iv.subrange(0, 0) =~= Seq::<JsonV>::empty());
            assert(views(parts@) =~= base + part_texts(iv.subrange(0, 0)));
            while i < items.len()
                invariant
                    i <= items@.len(),
                    iv.len() == items@.len(),
                    forall|k: int| 0 <= k < items@.len() ==> #[trigger] iv[k] == items@[k]@,
                    views(parts@) == base + part_texts(iv.subrange(0, i as int)),
                decreases items@.len() - i,
            {
                assert(iv.subrange(0, i + 1).drop_last() =~= iv.subrange(0, i as int));
                assert(iv.subrange(0, i + 1).last() == items@[i as int]@);
                match text_of_exec(&items[i]) {
                    Some(t) => {
                        let ghost before = views(parts@);
                        parts.push(t.clone());
                        assert(views(parts@) =~= before.push(t@));
                    },
                    None => {},
                }
                i = i + 1;
            }
            assert(iv.subrange(0, items@.len() as int) =~= iv);
        },
        _ => {
            assert(views(parts@) =~= views(old(parts)@) + Seq::<Seq<char>>::empty());
        },
    }
}

fn user_part_exec(p: &Json) -> (r: Option<Json>)
    ensures opt_json(r) == user_part(p@),
{
    let ty: Option<&String> = match p.get("type") {
        Some(t) => t.as_str(),
        None => None,
    };
    let is_text = match ty {
        None => true,
        Some(k) => str_eq(k.as_str(), "text"),
    };
    if is_text {
        return match text_of_exec(p) {
            Some(t) => Some(text_block_exec(t.as_str())),
            None => None,
        };
    }
    if !str_eq(ty.unwrap().as_str(), "image_url") {
        return None;
    }
    let url: Option<&String> = match p.get("image_url") {
        Some(u) => match u.get("url") {
            Some(x) => x.as_str(),
            None => None,
        },
        None => None,
    };
    match url {
        Some(u) => {
            let mut src = members_new();
            obj_push(&mut src, "type", jstr("url"));
            obj_push(&mut src, "url", jstr(u.as_str()));
            let ghost sv = JsonV::Object(seq![("type"@, JsonV::Str("url"@)), ("url"@, JsonV::Str(u@))]);
            assert(json_members_view(src@) =~= sv->Object_0);
            let mut m = members_new();
            obj_push(&mut m, "type", jstr("image"));
            obj_push(&mut m, "source", Json::Object(src));
            assert(json_members_view(m@) =~= seq![("type"@, JsonV::Str("image"@)), ("source"@, sv)]);
            Some(Json::Object(m))
        },
        None => None,
    }
}

/// Normalizes an OpenAI user `content` into what Anthropic accepts: a
/// string passes through; `text` and `image_url` parts become blocks.
pub fn normalize_user_content(content: &Json) -> (r: Json)
    ensures r@ == normalized_content(content@),
{
    match content {
        Json::Array(parts) => {
            proof { lemma_seq_view(parts@); }
            let ghost pv = json_seq_view(parts@);
            let mut out = arr_new();
            let mut i: usize = 0;
            assert(pv.subrange(0, 0) =~= Seq::<JsonV>::empty());
            while i < parts.len()
                invariant
                    i <= parts@.len(),
                    pv.len() == parts@.len(),
                    forall|k: int| 0 <= k < parts@.len() ==> #[trigger] pv[k] == parts@[k]@,
                    json_seq_view(out@) == user_parts(pv.subrange(0, i as int)),
                decreases parts@.len() - i,
            {
                assert(pv.subrange(0, i + 1).drop_last() =~= pv.subrange(0, i as int));
                assert(pv.subrange(0, i + 1).last() == parts@[i as int]@);
                match user_part_exec(&parts[i]) {
                    Some(b) => arr_push(&mut out, b),
                    None => {},
                }
                i = i + 1;
            }
            assert(pv.subrange(0, parts@.len() as int) =~= pv);
            Json::Array(out)
        },
        Json::Null => Json::Str(String::new()),
        _ => content.copy(),
    }
}

/// Coerces a tool message `content` into the string a `tool_result`
/// carries; other values are serialized.
pub fn stringify_tool_content(content: &Json) -> (r: Json)
    ensures r@ == stringified(content@),
{
    match content {
        Json::Str(_) => content.copy(),
        Json::Null => Json::Str(String::new()),
        _ => Json::Str(to_json_text(content)),
    }
}

fn tool_result_exec(msg: &Json) -> (r: Json)
    ensures r@ == tool_result_block(msg@),
{
    let null = null_json();
    let id = get_or_null(msg, "tool_call_id");
    let content = stringify_tool_content(field_ref(msg, "content", &null));
    let ghost (iv, cv) = (id@, content@);
    let mut m = members_new();
    obj_push(&mut m, "type", jstr("tool_result"));
    obj_push(&mut m, "tool_use_id", id);
    obj_push(&mut m, "content", content);
    assert(json_members_view(m@) =~= seq![("type"@, JsonV::Str("tool_result"@)), ("tool_use_id"@, iv), ("content"@, cv)]);
    Json::Object(m)
}

/// Parses a JSON text, `None` on error.
pub fn parse_json_str(s: &str) -> (r: Option<Json>)
    ensures opt_json(r) == parsed(encode_utf8(s@)),
{
    parse_json(s.as_bytes())
}

fn empty_object() -> (r: Json)
    ensures r@ == JsonV::Object(Seq::empty()),
{
    Json::Object(members_new())
}

fn tool_use_exec(c: &Json) -> (r: Json)
    ensures r@ == tool_use_block(c@),
{
    let null = null_json();
    let f = field_ref(c, "function", &null);
    let input = match field_ref(f, "arguments", &null).as_str() {
        Some(s) => match parse_json_str(s.as_str()) {
            Some(v) => v,
            None => empty_object(),
        },
        None => empty_object(),
    };
    let id = get_or_null(c, "id");
    let name = get_or_null(f, "name");
    let ghost (iv, nv, inv) = (id@, name@, input@);
    let mut m = members_new();
    obj_push(&mut m, "type", jstr("tool_use"));
    obj_push(&mut m, "id", id);
    obj_push(&mut m, "name", name);
    obj_push(&mut m, "input", input);
    assert(json_members_view(m@) =~= seq![("type"@, JsonV::Str("tool_use"@)), ("id"@, iv), ("name"@, nv), ("input"@, inv)]);
    Json::Object(m)
}

fn assistant_blocks_exec(msg: &Json) -> (r: Vec<Json>)
    ensures json_seq_view(r@) == assistant_blocks(msg@),
{
    let null = null_json();
    let content = field_ref(msg, "content", &null);
    let mut blocks = arr_new();
    match content {
        Json::Str(t) => {
            if !t.as_str().is_empty() {
                arr_push(&mut blocks, text_block_exec(t.as_str()));
                assert(json_seq_view(blocks@) =~= seq![text_block(t@)]);
            }
        },
        Json::Array(parts) => {
            proof { lemma_seq_view(parts@); }
            let ghost pv = json_seq_view(parts@);
            let mut i: usize = 0;
            assert(pv.subrange(0, 0) =~= Seq::<JsonV>::empty());
            assert(json_seq_view(blocks@) =~= text_blocks(part_texts(pv.subrange(0, 0))));
            while i < parts.len()
                invariant
                    i <= parts@.len(),
                    pv.len() == parts@.len(),
                    forall|k: int| 0 <= k < parts@.len() ==> #[trigger] pv[k] == parts@[k]@,
                    json_seq_view(blocks@) == text_blocks(part_texts(pv.subrange(0, i as int))),
                decreases parts@.len() - i,
            {
                assert(pv.subrange(0, i + 1).drop_last() =~= pv.subrange(0, i as int));
                assert(pv.subrange(0, i + 1).last() == parts@[i as int]@);
                match text_of_exec(&parts[i]) {
                    Some(t) => {
                        let ghost before = json_seq_view(blocks@);
                        arr_push(&mut blocks, text_block_exec(t.as_str()));
                        assert(text_blocks(part_texts(pv.subrange(0, i as int)).push(t@)) =~= before.push(text_block(t@)));
                    },
                    None => {},
                }
                i = i + 1;
            }
            assert(pv.subrange(0, parts@.len() as int) =~= pv);
        },
        _ => {},
    }
    let ghost texts = json_seq_view(blocks@);
    match field_ref(msg, "tool_calls", &null).as_array() {
        Some(calls) => {
            proof { lemma_seq_view(calls@); }
            let ghost cv = json_seq_view(calls@);
            let mut i: usize = 0;
            assert(texts + tool_use_blocks(cv.subrange(0, 0)) =~= texts);
            while i < calls.len()
                invariant
                    i <= calls@.len(),
                    cv.len() == calls@.len(),
                    forall|k: int| 0 <= k < calls@.len() ==> #[trigger] cv[k] == calls@[k]@,
                    json_seq_view(blocks@) == texts + tool_use_blocks(cv.subrange(0, i as int)),
                decreases calls@.len() - i,
            {
                let ghost before = json_seq_view(blocks@);
                arr_push(&mut blocks, tool_use_exec(&calls[i]));
                assert(texts + tool_use_blocks(cv.subrange(0, i + 1)) =~= before.push(tool_use_block(cv[i as int])));
                i = i + 1;
            }
            assert(cv.subrange(0, calls@.len() as int) =~= cv);
        },
        None => {
            assert(texts + Seq::<JsonV>::empty() =~= texts);
        },
    }
    blocks
}

/// Emits the waiting tool results as one user turn.
fn flush_exec(pending: &mut Vec<Json>, out: &mut Vec<Json>)
    ensures
        ({
            let st = flush(ChatState { out: json_seq_view(old(out)@), system: Seq::empty(), pending: json_seq_view(old(pending)@) });
            json_seq_view(final(out)@) == st.out && json_seq_view(final(pending)@) == st.pending
        }),
{
    if pending.len() > 0 {
        proof { lemma_seq_view(pending@); }
        let mut taken = arr_new();
        std::mem::swap(pending, &mut taken);
        arr_push(out, message_exec("user", Json::Array(taken)));
        assert(json_seq_view(pending@) =~= Seq::<JsonV>::empty());
    } else {
        proof { lemma_seq_view(pending@); }
    }
}

/// Translates OpenAI `messages` into Anthropic `messages` and hoisted
/// `system` texts: assistant tool calls become `tool_use` blocks, and
/// consecutive `role: "tool"` messages become one user turn of
/// `tool_result` blocks.
pub fn translate_chat_messages(messages: &Vec<Json>) -> (r: (Vec<Json>, Vec<String>))
    ensures
        json_seq_view(r.0@) == translated_messages(json_seq_view(messages@)).0,
        views(r.1@) == translated_messages(json_seq_view(messages@)).1,
{
    proof { lemma_seq_view(messages@); }
    let ghost mv = json_seq_view(messages@);
    let mut out = arr_new();
    let mut system: Vec<String> = Vec::new();
    let mut pending = arr_new();
    let null = null_json();
    let mut i: usize = 0;
    assert(mv.subrange(0, 0) =~= Seq::<JsonV>::empty());
    assert(views(system@) =~= Seq::<Seq<char>>::empty());
    while i < messages.len()
        invariant
            i <= messages@.len(),
            null@ == JsonV::Null,
            mv.len() == messages@.len(),
            forall|k: int| 0 <= k < messages@.len() ==> #[trigger] mv[k] == messages@[k]@,
            fold_messages(mv.subrange(0, i as int)) == (ChatState {
                out: json_seq_view(out@), system: views(system@), pending: json_seq_view(pending@),
            }),
        decreases messages@.len() - i,
    {
        let msg = &messages[i];
        assert(mv.subrange(0, i + 1).drop_last() =~= mv.subrange(0, i as int));
        assert(mv.subrange(0, i + 1).last() == msg@);
        let ghost st = fold_messages(mv.subrange(0, i as int));
        let role: String = match field_ref(msg, "role", &null).as_str() {
            Some(r) => r.clone(),
            None => owned("user"),
        };
        assert(role@ == role_of(msg@));
        let is_tool = str_eq(role.as_str(), "tool");
        if !is_tool {
            flush_exec(&mut pending, &mut out);
        }
        let ghost s1 = if role@ != "tool"@ { flush(st) } else { st };
        assert(s1 == (ChatState { out: json_seq_view(out@), system: views(system@), pending: json_seq_view(pending@) }));
        if str_eq(role.as_str(), "system") {
            collect_text_into(field_ref(msg, "content", &null), &mut system);
        } else if is_tool {
            arr_push(&mut pending, tool_result_exec(msg));
        } else if str_eq(role.as_str(), "assistant") {
            let blocks = assistant_blocks_exec(msg);
            if blocks.len() > 0 {
                proof { lemma_seq_view(blocks@); }
                arr_push(&mut out, message_exec("assistant", Json::Array(blocks)));
            } else {
                proof { lemma_seq_view(blocks@); }
            }
        } else {
            let c = normalize_user_content(field_ref(msg, "content", &null));
            arr_push(&mut out, message_exec("user", c));
        }
        i = i + 1;
    }
    assert(mv.subrange(0, messages@.len() as int) =~= mv);
    flush_exec(&mut pending, &mut out);
    (out, system)
}

// ---------------------------------------------------------------------------
// Request translation
// ---------------------------------------------------------------------------

/// The bytes read for an absent request body: `{}`.
pub open spec fn empty_object_bytes() -> Seq<u8> {
    seq![123u8, 125u8]
}

/// The request bytes, `{}` when the body is absent.
pub open spec fn request_bytes(body: Option<Seq<u8>>) -> Seq<u8> {
    match body {
        Some(b) => b,
        None => empty_object_bytes(),
    }
}

/// Appends the member `k` when the value is present.
pub open spec fn push_opt(m: Seq<(Seq<char>, JsonV)>, k: Seq<char>, o: Option<JsonV>) -> Seq<(Seq<char>, JsonV)> {
    match o {
        Some(v) => m.push((k, v)),
        None => m,
    }
}

/// A numeric value, passed through as the number it is.
pub open spec fn number_of(v: JsonV) -> Option<JsonV> {
    match v {
        JsonV::Number(_) => Some(v),
        _ => None,
    }
}

/// `max_tokens`: the client's value (cut to 32 bits), else the configured
/// default, else 4096.
pub open spec fn max_tokens_of(openai: JsonV, default_max_tokens: Option<u32>) -> u32 {
    match as_u64(field(openai, "max_tokens"@)) {
        Some(v) => v as u32,
        None => match default_max_tokens {
            Some(d) => d,
            None => 4096,
        },
    }
}

/// The hoisted system texts joined by newlines; absent when there are none.
pub open spec fn system_of(system: Seq<Seq<char>>) -> Option<JsonV> {
    if system.len() == 0 {
        None
    } else {
        Some(JsonV::Str(joined(system, "\n"@)))
    }
}

/// `parallel_tool_calls` as a boolean, if it is one.
pub open spec fn parallel_of(openai: JsonV) -> Option<bool> {
    match get(openai, "parallel_tool_calls"@) {
        Some(v) => as_bool(v),
        None => None,
    }
}

/// The Anthropic Messages request for an OpenAI chat request whose
/// `messages` array is `msgs`.
pub open spec fn anthropic_request(
    openai: JsonV,
    msgs: Seq<JsonV>,
    client_model: Seq<char>,
    stream: bool,
    default_max_tokens: Option<u32>,
) -> JsonV {
    let t = translated_messages(msgs);
    let m0 = seq![("model"@, JsonV::Str(client_model)), ("messages"@, JsonV::Array(t.0))];
    let m1 = push_opt(m0, "system"@, system_of(t.1));
    let m2 = m1.push(("max_tokens"@, JsonV::Number(NumV::PosInt(max_tokens_of(openai, default_max_tokens) as u64))));
    let m3 = push_opt(m2, "temperature"@, number_of(field(openai, "temperature"@)));
    let m4 = push_opt(m3, "top_p"@, number_of(field(openai, "top_p"@)));
    let m5 = push_opt(m4, "stream"@, if stream { Some(JsonV::Bool(true)) } else { None });
    let m6 = push_opt(m5, "tools"@, chat_tools_json(openai));
    JsonV::Object(push_opt(m6, "tool_choice"@, tool_choice_json(get(openai, "tool_choice"@), parallel_of(openai))))
}

/// The outcome of translating a chat request body for Anthropic.
pub open spec fn to_anthropic_spec(
    body: Option<Seq<u8>>,
    client_model: Seq<char>,
    stream: bool,
    default_max_tokens: Option<u32>,
) -> Result<Seq<char>, Seq<char>> {
    match json_parse(request_bytes(body)) {
        Err(e) => Err("invalid request body: "@ + e),
        Ok(openai) => match as_array(field(openai, "messages"@)) {
            None => Err("missing or invalid messages array"@),
            Some(msgs) => Ok(json_text(anthropic_request(openai, msgs, client_model, stream, default_max_tokens))),
        },
    }
}

fn push_opt_exec(m: &mut Vec<(String, Json)>, k: &str, o: Option<Json>)
    ensures
        json_members_view(final(m)@) == push_opt(json_members_view(old(m)@), k@, opt_json(o)),
{
    match o {
        Some(v) => obj_push(m, k, v),
        None => {},
    }
}

fn number_exec(v: &Json) -> (r: Option<Json>)
    ensures
        opt_json(r) == number_of(v@),
{
    match v {
        Json::Number(_) => Some(v.copy()),
        _ => None,
    }
}

/// Translates an OpenAI chat completion request body into an Anthropic
/// Messages API request body (an absent body reads as `{}`).
pub fn translate_to_anthropic(
    body: &Option<Vec<u8>>,
    client_model: &str,
    stream: bool,
    default_max_tokens: Option<u32>,
) -> (r: Result<String, String>)
    ensures
        str_result(r) == to_anthropic_spec(body_view(*body), client_model@, stream, default_max_tokens),
{
    let parsed_body = match body {
        Some(b) => parse_json_result(b.as_slice()),
        None => {
            let raw: Vec<u8> = vec![123u8, 125u8];
            assert(raw@ =~= empty_object_bytes());
            parse_json_result(raw.as_slice())
        },
    };
    let openai = match parsed_body {
        Ok(v) => v,
        Err(e) => return Err(concat("invalid request body: ", e.as_str())),
    };
    let null = null_json();
    let msgs = match field_ref(&openai, "messages", &null).as_array() {
        Some(a) => a,
        None => return Err(owned("missing or invalid messages array")),
    };
    proof { lemma_seq_view(msgs@); }
    let (messages, system_parts) = translate_chat_messages(msgs);
    proof { lemma_seq_view(messages@); }
    let max_tokens: u32 = match field_ref(&openai, "max_tokens", &null).as_u64() {
        Some(v) => v as u32,
        None => match default_max_tokens {
            Some(d) => d,
            None => 4096,
        },
    };
    let ghost mv = json_seq_view(messages@);
    let mut m = members_new();
    obj_push(&mut m, "model", jstr(client_model));
    obj_push(&mut m, "messages", Json::Array(messages));
    assert(json_members_view(m@) =~= seq![("model"@, JsonV::Str(client_model@)), ("messages"@, JsonV::Array(mv))]);
    let system = if system_parts.len() == 0 {
        None
    } else {
        Some(Json::Str(join_strings(&system_parts, "\n")))
    };
    push_opt_exec(&mut m, "system", system);
    obj_push(&mut m, "max_tokens", Json::Number(JsonNumber::PosInt(max_tokens as u64)));
    push_opt_exec(&mut m, "temperature", number_exec(field_ref(&openai, "temperature", &null)));
    push_opt_exec(&mut m, "top_p", number_exec(field_ref(&openai, "top_p", &null)));
    push_opt_exec(&mut m, "stream", if stream { Some(Json::Bool(true)) } else { None });
    push_opt_exec(&mut m, "tools", chat_tools_to_anthropic(&openai));
    let parallel: Option<bool> = match openai.get("parallel_tool_calls") {
        Some(v) => v.as_bool(),
        None => None,
    };
    push_opt_exec(&mut m, "tool_choice", tool_choice_to_anthropic(openai.get("tool_choice"), parallel));
    let out = Json::Object(m);
    Ok(to_json_text(&out))
}

// ---------------------------------------------------------------------------
// Response translation
// ---------------------------------------------------------------------------

/// The OpenAI `tool_calls` entry of an Anthropic `tool_use` block; the
/// arguments are the input serialized as a JSON string (`{}` when absent).
pub open spec fn tool_call_json(block: JsonV) -> JsonV {
    let arguments = match get(block, "input"@) {
        Some(v) => json_text(v),
        None => "{}"@,
    };
    JsonV::Object(seq![
        ("id"@, field(block, "id"@)),
        ("type"@, JsonV::Str("function"@)),
        ("function"@, JsonV::Object(seq![("name"@, field(block, "name"@)), ("arguments"@, JsonV::Str(arguments))])),
    ])
}

/// One content block's effect on the text so far and the tool calls so far.
pub open spec fn block_step(acc: (Seq<char>, Seq<JsonV>), block: JsonV) -> (Seq<char>, Seq<JsonV>) {
    match as_str(field(block, "type"@)) {
        Some(t) => if t == "text"@ {
            match as_str(field(block, "text"@)) {
                Some(x) => (acc.0 + x, acc.1),
                None => acc,
            }
        } else if t == "tool_use"@ {
            (acc.0, acc.1.push(tool_call_json(block)))
        } else {
            acc
        },
        None => acc,
    }
}

/// The concatenated text and the tool calls of a list of content blocks.
pub open spec fn fold_blocks(blocks: Seq<JsonV>) -> (Seq<char>, Seq<JsonV>)
    decreases blocks.len(),
{
    if blocks.len() == 0 {
        (Seq::empty(), Seq::empty())
    } else {
        block_step(fold_blocks(blocks.drop_last()), blocks.last())
    }
}

/// Whether a content block is a tool call.
pub open spec fn is_tool_use(b: JsonV) -> bool {
    as_str(field(b, "type"@)) == Some("tool_use"@)
}

/// The text a content block adds to the answer: a text block's text,
/// nothing for any other block.
pub open spec fn block_text(b: JsonV) -> Seq<char> {
    if as_str(field(b, "type"@)) == Some("text"@) {
        match as_str(field(b, "text"@)) {
            Some(x) => x,
            None => Seq::empty(),
        }
    } else {
        Seq::empty()
    }
}

/// The answer's text is the texts of the text blocks, joined in order, and
/// there is one tool call per `tool_use` block, in order.
pub proof fn law_blocks_text_and_calls(blocks: Seq<JsonV>)
    ensures
        fold_blocks(blocks).0 == blocks.map_values(|b: JsonV| block_text(b)).flatten(),
        fold_blocks(blocks).1 == blocks.filter(|b: JsonV| is_tool_use(b)).map_values(|b: JsonV| tool_call_json(b)),
    decreases blocks.len(),
{
    let texts = |b: JsonV| block_text(b);
    let pred = |b: JsonV| is_tool_use(b);
    let calls = |b: JsonV| tool_call_json(b);
    if blocks.len() == 0 {
        assert(blocks.map_values(texts) =~= Seq::<Seq<char>>::empty());
        assert(blocks.filter(pred) =~= Seq::<JsonV>::empty()) by {
            reveal(Seq::filter);
        }
        assert(blocks.filter(pred).map_values(calls) =~= Seq::<JsonV>::empty());
    } else {
        let init = blocks.drop_last();
        let last = blocks.last();
        law_blocks_text_and_calls(init);
        assert(blocks =~= init.push(last));
        assert(blocks.map_values(texts) =~= init.map_values(texts).push(block_text(last)));
        init.map_values(texts).lemma_flatten_push(block_text(last));
        init.lemma_filter_push(last, pred);
        reveal_strlit("text");
        reveal_strlit("tool_use");
        assert("text"@ != "tool_use"@) by {
            assert("text"@.len() != "tool_use"@.len());
        }
        if is_tool_use(last) {
            assert(init.filter(pred).push(last).map_values(calls) =~= init.filter(pred).map_values(calls).push(tool_call_json(last)));
        } else {
            assert(fold_blocks(blocks).1 == fold_blocks(init).1);
        }
        assert(fold_blocks(blocks).0 =~= blocks.map_values(texts).flatten());
    }
}

/// The usage total is the sum of the prompt and completion counts whenever
/// that sum fits in 64 bits.
pub proof fn law_usage_total(input: u64, output: u64)
    requires
        input + output <= u64::MAX,
    ensures
        vstd::wrapping::u64_specs::wrapping_add(input, output) == input + output,
{
}

/// The OpenAI `finish_reason` for an Anthropic `stop_reason`.
pub open spec fn finish_reason_of(stop_reason: Option<Seq<char>>, has_tool_calls: bool) -> Seq<char> {
    match stop_reason {
        Some(s) if s == "end_turn"@ => "stop"@,
        Some(s) if s == "max_tokens"@ => "length"@,
        Some(s) if s == "tool_use"@ => "tool_calls"@,
        _ => if has_tool_calls { "tool_calls"@ } else { "stop"@ },
    }
}

/// A token count of the `usage` object, 0 when absent.
pub open spec fn usage_count(anthropic: JsonV, k: Seq<char>) -> u64 {
    match as_u64(field(field(anthropic, "usage"@), k)) {
        Some(n) => n,
        None => 0,
    }
}

/// The OpenAI assistant message: `content` is null on a turn of tool calls
/// only, and `tool_calls` is present when there are any.
pub open spec fn assistant_message(text: Seq<char>, calls: Seq<JsonV>) -> JsonV {
    let content = if text.len() == 0 && calls.len() > 0 { JsonV::Null } else { JsonV::Str(text) };
    let m = seq![("role"@, JsonV::Str("assistant"@)), ("content"@, content)];
    JsonV::Object(if calls.len() > 0 { m.push(("tool_calls"@, JsonV::Array(calls))) } else { m })
}

/// The OpenAI chat completion for an Anthropic Messages response.
pub open spec fn chat_completion_json(anthropic: JsonV) -> JsonV {
    let blocks = match as_array(field(anthropic, "content"@)) {
        Some(b) => b,
        None => Seq::empty(),
    };
    let (text, calls) = fold_blocks(blocks);
    let input = usage_count(anthropic, "input_tokens"@);
    let output = usage_count(anthropic, "output_tokens"@);
    let finish = finish_reason_of(as_str(field(anthropic, "stop_reason"@)), calls.len() > 0);
    let choice = JsonV::Object(seq![
        ("index"@, JsonV::Number(NumV::PosInt(0))),
        ("message"@, assistant_message(text, calls)),
        ("finish_reason"@, JsonV::Str(finish)),
    ]);
    let usage = JsonV::Object(seq![
        ("prompt_tokens"@, JsonV::Number(NumV::PosInt(input))),
        ("completion_tokens"@, JsonV::Number(NumV::PosInt(output))),
        ("total_tokens"@, JsonV::Number(NumV::PosInt(vstd::wrapping::u64_specs::wrapping_add(input, output)))),
    ]);
    JsonV::Object(seq![
        ("id"@, field(anthropic, "id"@)),
        ("object"@, JsonV::Str("chat.completion"@)),
        ("model"@, field(anthropic, "model"@)),
        ("choices"@, JsonV::Array(seq![choice])),
        ("usage"@, usage),
    ])
}

/// The outcome of translating an Anthropic response body.
pub open spec fn from_anthropic_spec(body: Seq<char>) -> Result<Seq<char>, Seq<char>> {
    match json_parse(encode_utf8(body)) {
        Err(e) => Err("invalid Anthropic response: "@ + e),
        Ok(a) => Ok(json_text(chat_completion_json(a))),
    }
}

fn tool_call_exec(block: &Json) -> (r: Json)
    ensures
        r@ == tool_call_json(block@),
{
    let arguments: String = match block.get("input") {
        Some(v) => to_json_text(v),
        None => owned("{}"),
    };
    let id = get_or_null(block, "id");
    let name = get_or_null(block, "name");
    let ghost (iv, nv) = (id@, name@);
    let mut f = members_new();
    obj_push(&mut f, "name", name);
    obj_push(&mut f, "arguments", Json::Str(arguments));
    assert(json_members_view(f@) =~= seq![("name"@, nv), ("arguments"@, JsonV::Str(arguments@))]);
    let ghost fv = JsonV::Object(json_members_view(f@));
    let mut m = members_new();
    obj_push(&mut m, "id", id);
    obj_push(&mut m, "type", jstr("function"));
    obj_push(&mut m, "function", Json::Object(f));
    assert(json_members_view(m@) =~= seq![("id"@, iv), ("type"@, JsonV::Str("function"@)), ("function"@, fv)]);
    Json::Object(m)
}

fn finish_reason_exec(stop_reason: Option<&String>, has_tool_calls: bool) -> (r: &'static str)
    ensures
        r@ == finish_reason_of(match stop_reason { Some(s) => Some(s@), None => None }, has_tool_calls),
{
    match stop_reason {
        Some(s) => {
            if str_eq(s.as_str(), "end_turn") {
                return "stop";
            } else if str_eq(s.as_str(), "max_tokens") {
                return "length";
            } else if str_eq(s.as_str(), "tool_use") {
                return "tool_calls";
            }
        },
        None => {},
    }
    if has_tool_calls { "tool_calls" } else { "stop" }
}

fn usage_count_exec(anthropic: &Json, k: &str) -> (r: u64)
    ensures
        r == usage_count(anthropic@, k@),
{
    let null = null_json();
    match field_ref(field_ref(anthropic, "usage", &null), k, &null).as_u64() {
        Some(n) => n,
        None => 0,
    }
}

fn number_json(n: u64) -> (r: Json)
    ensures
        r@ == JsonV::Number(NumV::PosInt(n)),
{
    Json::Number(JsonNumber::PosInt(n))
}

/// Builds the OpenAI chat completion for a parsed Anthropic response.
pub fn chat_completion_from(anthropic: &Json) -> (r: Json)
    ensures
        r@ == chat_completion_json(anthropic@),
{
    let null = null_json();
    let mut content_text = String::new();
    let mut tool_calls = arr_new();
    match field_ref(anthropic, "content", &null).as_array() {
        Some(blocks) => {
            proof { lemma_seq_view(blocks@); }
            let ghost bv = json_seq_view(blocks@);
            let mut i: usize = 0;
            assert(bv.subrange(0, 0) =~= Seq::<JsonV>::empty());
            assert(content_text@ =~= Seq::<char>::empty());
            while i < blocks.len()
                invariant
                    i <= blocks@.len(),
                    null@ == JsonV::Null,
                    bv.len() == blocks@.len(),
                    forall|k: int| 0 <= k < blocks@.len() ==> #[trigger] bv[k] == blocks@[k]@,
                    fold_blocks(bv.subrange(0, i as int)) == (content_text@, json_seq_view(tool_calls@)),
                decreases blocks@.len() - i,
            {
                let block = &blocks[i];
                assert(bv.subrange(0, i + 1).drop_last() =~= bv.subrange(0, i as int));
                assert(bv.subrange(0, i + 1).last() == block@);
                match field_ref(block, "type", &null).as_str() {
                    Some(t) => {
                        if str_eq(t.as_str(), "text") {
                            match field_ref(block, "text", &null).as_str() {
                                Some(x) => push_str(&mut content_text, x.as_str()),
                                None => {},
                            }
                        } else if str_eq(t.as_str(), "tool_use") {
                            arr_push(&mut tool_calls, tool_call_exec(block));
                        }
                    },
                    None => {},
                }
                i = i + 1;
            }
            assert(bv.subrange(0, blocks@.len() as int) =~= bv);
        },
        None => {},
    }
    proof { lemma_seq_view(tool_calls@); }
    let ghost (tv, cv) = (content_text@, json_seq_view(tool_calls@));
    let input = usage_count_exec(anthropic, "input_tokens");
    let output = usage_count_exec(anthropic, "output_tokens");
    let has_calls = tool_calls.len() > 0;
    let finish = finish_reason_exec(field_ref(anthropic, "stop_reason", &null).as_str(), has_calls);
    let content = if content_text.as_str().is_empty() && has_calls { Json::Null } else { Json::Str(content_text) };
    let ghost ctv = content@;
    assert(ctv == (if tv.len() == 0 && cv.len() > 0 { JsonV::Null } else { JsonV::Str(tv) }));
    let mut msg = members_new();
    obj_push(&mut msg, "role", jstr("assistant"));
    obj_push(&mut msg, "content", content);
    let ghost m2 = seq![("role"@, JsonV::Str("assistant"@)), ("content"@, ctv)];
    assert(json_members_view(msg@) =~= m2);
    if has_calls {
        obj_push(&mut msg, "tool_calls", Json::Array(tool_calls));
        assert(json_members_view(msg@) =~= m2.push(("tool_calls"@, JsonV::Array(cv))));
    }
    assert(JsonV::Object(json_members_view(msg@)) == assistant_message(tv, cv));
    let ghost mv = JsonV::Object(json_members_view(msg@));
    let mut choice = members_new();
    obj_push(&mut choice, "index", number_json(0));
    obj_push(&mut choice, "message", Json::Object(msg));
    obj_push(&mut choice, "finish_reason", jstr(finish));
    let ghost chv = JsonV::Object(json_members_view(choice@));
    assert(json_members_view(choice@) =~= seq![
        ("index"@, JsonV::Number(NumV::PosInt(0))), ("message"@, mv), ("finish_reason"@, JsonV::Str(finish@))]);
    let mut choices = arr_new();
    arr_push(&mut choices, Json::Object(choice));
    assert(json_seq_view(choices@) =~= seq![chv]);
    let mut usage = members_new();
    obj_push(&mut usage, "prompt_tokens", number_json(input));
    obj_push(&mut usage, "completion_tokens", number_json(output));
    obj_push(&mut usage, "total_tokens", number_json(input.wrapping_add(output)));
    let ghost uv = JsonV::Object(json_members_view(usage@));
    assert(json_members_view(usage@) =~= seq![
        ("prompt_tokens"@, JsonV::Number(NumV::PosInt(input))),
        ("completion_tokens"@, JsonV::Number(NumV::PosInt(output))),
        ("total_tokens"@, JsonV::Number(NumV::PosInt(vstd::wrapping::u64_specs::wrapping_add(input, output))))]);
    let id = get_or_null(anthropic, "id");
    let model = get_or_null(anthropic, "model");
    let ghost (iv, mdv) = (id@, model@);
    let mut out = members_new();
    obj_push(&mut out, "id", id);
    obj_push(&mut out, "object", jstr("chat.completion"));
    obj_push(&mut out, "model", model);
    obj_push(&mut out, "choices", Json::Array(choices));
    obj_push(&mut out, "usage", Json::Object(usage));
    assert(json_members_view(out@) =~= seq![
        ("id"@, iv), ("object"@, JsonV::Str("chat.completion"@)), ("model"@, mdv),
        ("choices"@, JsonV::Array(seq![chv])), ("usage"@, uv)]);
    Json::Object(out)
}

/// Translates an Anthropic Messages response body into an OpenAI chat
/// completion body: text blocks are concatenated and `tool_use` blocks
/// become `tool_calls`.
pub fn translate_from_anthropic(body: &str) -> (r: Result<String, String>)
    ensures
        str_result(r) == from_anthropic_spec(body@),
{
    match parse_json_result(body.as_bytes()) {
        Ok(a) => Ok(to_json_text(&chat_completion_from(&a))),
        Err(e) => Err(concat("invalid Anthropic response: ", e.as_str())),
    }
}

} // verus!
