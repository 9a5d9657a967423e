//! OpenAI to Anthropic tool-schema translation, shared by the Chat
//! Completions and Responses adapters.

use vstd::prelude::*;
use crate::json::{
    Json, JsonV, get, as_array, as_str, member, opt_json, json_seq_view, lemma_seq_view, members_new, arr_new,
    arr_push, obj_push, jstr,
};
use crate::text::{owned, str_eq};

verus! {

/// A tool type the Anthropic Messages API cannot represent.
pub struct UnsupportedTool {
    pub tool_type: String,
}

/// `{"type": t}`.
pub open spec fn type_obj(t: Seq<char>) -> JsonV {
    JsonV::Object(seq![("type"@, JsonV::Str(t))])
}

/// One Anthropic tool: `name`, the `description` when given, and
/// `input_schema` (an empty object schema when no parameters are given).
pub open spec fn anthropic_tool_json(name: JsonV, description: Option<JsonV>, parameters: Option<JsonV>) -> JsonV {
    let m1 = seq![("name"@, name)];
    let m2 = match description { Some(d) => m1.push(("description"@, d)), None => m1 };
    let schema = match parameters { Some(p) => p, None => type_obj("object"@) };
    JsonV::Object(m2.push(("input_schema"@, schema)))
}

/// The Anthropic tool for one Chat Completions tool entry, if it has a
/// `function` with a `name`.
pub open spec fn chat_tool(t: JsonV) -> Option<JsonV> {
    match get(t, "function"@) {
        None => None,
        Some(f) => match get(f, "name"@) {
            None => None,
            Some(n) => Some(anthropic_tool_json(n, get(f, "description"@), get(f, "parameters"@))),
        },
    }
}

/// The Anthropic tools of a Chat Completions `tools` array.
pub open spec fn chat_tools(arr: Seq<JsonV>) -> Seq<JsonV>
    decreases arr.len(),
{
    if arr.len() == 0 {
        Seq::empty()
    } else {
        let prev = chat_tools(arr.drop_last());
        match chat_tool(arr.last()) { Some(t) => prev.push(t), None => prev }
    }
}

/// `chat_tools_to_anthropic` as a value.
pub open spec fn chat_tools_json(openai: JsonV) -> Option<JsonV> {
    match get(openai, "tools"@) {
        None => None,
        Some(t) => match as_array(t) {
            None => None,
            Some(arr) => if chat_tools(arr).len() == 0 { None } else { Some(JsonV::Array(chat_tools(arr))) },
        },
    }
}

/// The type of a Responses tool entry (`function` when absent).
pub open spec fn tool_type(t: JsonV) -> Seq<char> {
    match get(t, "type"@) {
        Some(x) => match as_str(x) { Some(s) => s, None => "function"@ },
        None => "function"@,
    }
}

/// The Anthropic tools of a Responses `tools` array, or the first tool
/// type that is not `function`.
pub open spec fn responses_tools(arr: Seq<JsonV>) -> Result<Seq<JsonV>, Seq<char>>
    decreases arr.len(),
{
    if arr.len() == 0 {
        Ok(Seq::empty())
    } else {
        match responses_tools(arr.drop_last()) {
            Err(e) => Err(e),
            Ok(prev) => {
                let t = arr.last();
                if tool_type(t) != "function"@ {
                    Err(tool_type(t))
                } else {
                    match get(t, "name"@) {
                        None => Ok(prev),
                        Some(n) => Ok(prev.push(anthropic_tool_json(n, get(t, "description"@), get(t, "parameters"@)))),
                    }
                }
            },
        }
    }
}

/// `responses_tools_to_anthropic` as a value.
pub open spec fn responses_tools_json(responses: JsonV) -> Result<Option<JsonV>, Seq<char>> {
    match get(responses, "tools"@) {
        None => Ok(None),
        Some(t) => match as_array(t) {
            None => Ok(None),
            Some(arr) => match responses_tools(arr) {
                Err(e) => Err(e),
                Ok(tools) => if tools.len() == 0 { Ok(None) } else { Ok(Some(JsonV::Array(tools))) },
            },
        },
    }
}

/// The Anthropic `tool_choice` for an OpenAI one, before the parallel flag.
pub open spec fn base_choice(tool_choice: Option<JsonV>) -> Option<JsonV> {
    match tool_choice {
        Some(JsonV::Str(s)) => if s == "auto"@ {
            Some(type_obj("auto"@))
        } else if s == "none"@ {
            Some(type_obj("none"@))
        } else if s == "required"@ || s == "any"@ {
            Some(type_obj("any"@))
        } else {
            None
        },
        Some(JsonV::Object(o)) => {
            let named = match member(o, "function"@) {
                Some(f) => get(f, "name"@),
                None => None,
            };
            let name = match named { Some(n) => Some(n), None => member(o, "name"@) };
            match name {
                Some(n) => Some(JsonV::Object(seq![("type"@, JsonV::Str("tool"@)), ("name"@, n)])),
                None => None,
            }
        },
        _ => None,
    }
}

/// `tool_choice_to_anthropic` as a value.
pub open spec fn tool_choice_json(tool_choice: Option<JsonV>, parallel: Option<bool>) -> Option<JsonV> {
    if parallel == Some(false) {
        let choice = match base_choice(tool_choice) { Some(c) => c, None => type_obj("auto"@) };
        match choice {
            JsonV::Object(m) => Some(JsonV::Object(m.push(("disable_parallel_tool_use"@, JsonV::Bool(true))))),
            other => Some(other),
        }
    } else {
        base_choice(tool_choice)
    }
}

/// `{"type": t}` as a value.
pub fn type_object(t: &str) -> (r: Json)
    ensures
        r@ == type_obj(t@),
{
    let mut m = members_new();
    obj_push(&mut m, "type", jstr(t));
    Json::Object(m)
}

/// Builds one Anthropic tool object.
pub fn anthropic_tool(name: &Json, description: Option<Json>, parameters: Option<Json>) -> (r: Json)
    ensures
        r@ == anthropic_tool_json(name@, opt_json(description), opt_json(parameters)),
{
    let mut m = members_new();
    obj_push(&mut m, "name", name.copy());
    if let Some(d) = description {
        obj_push(&mut m, "description", d);
    }
    let schema = match parameters {
        Some(p) => p,
        None => type_object("object"),
    };
    obj_push(&mut m, "input_schema", schema);
    Json::Object(m)
}

fn opt_copy(o: Option<&Json>) -> (r: Option<Json>)
    ensures
        opt_json(r) == match o { Some(x) => Some(x@), None => None::<JsonV> },
{
    match o {
        Some(x) => Some(x.copy()),
        None => None,
    }
}

/// Translates a Chat Completions `tools` array into Anthropic tools;
/// `None` when there is no usable tool.
pub fn chat_tools_to_anthropic(openai: &Json) -> (r: Option<Json>)
    ensures
        opt_json(r) == chat_tools_json(openai@),
{
    let arr = match openai.get("tools") {
        Some(t) => match t.as_array() {
            Some(a) => a,
            None => return None,
        },
        None => return None,
    };
    proof { lemma_seq_view(arr@); }
    let ghost av = json_seq_view(arr@);
    let mut out = arr_new();
    let mut i: usize = 0;
    assert(av.subrange(0, 0) =~= Seq::<JsonV>::empty());
    while i < arr.len()
        invariant
            i <= arr@.len(),
            av == json_seq_view(arr@),
            av.len() == arr@.len(),
            forall|k: int| 0 <= k < arr@.len() ==> #[trigger] av[k] == arr@[k]@,
            json_seq_view(out@) == chat_tools(av.subrange(0, i as int)),
            match get(openai@, "tools"@) { Some(tv) => as_array(tv) == Some(av), None => false },
        decreases arr@.len() - i,
    {
        let t = &arr[i];
        assert(av.subrange(0, i + 1).drop_last() =~= av.subrange(0, i as int));
        assert(av.subrange(0, i + 1).last() == t@);
        match t.get("function") {
            Some(f) => match f.get("name") {
                Some(name) => {
                    let tool = anthropic_tool(name, opt_copy(f.get("description")), opt_copy(f.get("parameters")));
                    arr_push(&mut out, tool);
                },
                None => {},
            },
            None => {},
        }
        i = i + 1;
    }
    assert(av.subrange(0, arr@.len() as int) =~= av);
    if out.len() == 0 {
        proof { lemma_seq_view(out@); }
        None
    } else {
        proof { lemma_seq_view(out@); }
        Some(Json::Array(out))
    }
}

/// Translates a Responses `tools` array into Anthropic tools, rejecting a
/// tool type other than `function`.
pub fn responses_tools_to_anthropic(responses: &Json) -> (r: Result<Option<Json>, UnsupportedTool>)
    ensures
        match r {
            Ok(o) => responses_tools_json(responses@) == Ok::<Option<JsonV>, Seq<char>>(opt_json(o)),
            Err(u) => responses_tools_json(responses@) == Err::<Option<JsonV>, Seq<char>>(u.tool_type@),
        },
{
    let arr = match responses.get("tools") {
        Some(t) => match t.as_array() {
            Some(a) => a,
            None => return Ok(None),
        },
        None => return Ok(None),
    };
    proof { lemma_seq_view(arr@); }
    let ghost av = json_seq_view(arr@);
    let mut out = arr_new();
    let mut i: usize = 0;
    assert(av.subrange(0, 0) =~= Seq::<JsonV>::empty());
    while i < arr.len()
        invariant
            i <= arr@.len(),
            av == json_seq_view(arr@),
            av.len() == arr@.len(),
            forall|k: int| 0 <= k < arr@.len() ==> #[trigger] av[k] == arr@[k]@,
            responses_tools(av.subrange(0, i as int)) == Ok::<Seq<JsonV>, Seq<char>>(json_seq_view(out@)),
            match get(responses@, "tools"@) { Some(tv) => as_array(tv) == Some(av), None => false },
        decreases arr@.len() - i,
    {
        let t = &arr[i];
        assert(av.subrange(0, i + 1).drop_last() =~= av.subrange(0, i as int));
        assert(av.subrange(0, i + 1).last() == t@);
        let ty: String = match t.get("type") {
            Some(x) => match x.as_str() {
                Some(s) => s.clone(),
                None => owned("function"),
            },
            None => owned("function"),
        };
        assert(ty@ == tool_type(t@));
        if !str_eq(ty.as_str(), "function") {
            assert(responses_tools(av.subrange(0, i + 1)) == Err::<Seq<JsonV>, Seq<char>>(ty@));
            proof { lemma_responses_tools_err_prefix(av, i as int + 1); }
            return Err(UnsupportedTool { tool_type: ty });
        }
        match t.get("name") {
            Some(name) => {
                let tool = anthropic_tool(name, opt_copy(t.get("description")), opt_copy(t.get("parameters")));
                arr_push(&mut out, tool);
            },
            None => {},
        }
        i = i + 1;
    }
    assert(av.subrange(0, arr@.len() as int) =~= av);
    proof { lemma_seq_view(out@); }
    if out.len() == 0 {
        Ok(None)
    } else {
        Ok(Some(Json::Array(out)))
    }
}

/// An error in a prefix stays the error of the whole array.
proof fn lemma_responses_tools_err_prefix(av: Seq<JsonV>, n: int)
    requires
        0 <= n <= av.len(),
        responses_tools(av.subrange(0, n)) is Err,
    ensures
        responses_tools(av) == responses_tools(av.subrange(0, n)),
    decreases av.len() - n,
{
    if n < av.len() {
        assert(av.subrange(0, n + 1).drop_last() =~= av.subrange(0, n));
        lemma_responses_tools_err_prefix(av, n + 1);
    } else {
        assert(av.subrange(0, n) =~= av);
    }
}

/// Maps an OpenAI `tool_choice` plus `parallel_tool_calls` to an
/// Anthropic `tool_choice`; `None` leaves Anthropic's default.
pub fn tool_choice_to_anthropic(tool_choice: Option<&Json>, parallel_tool_calls: Option<bool>) -> (r: Option<Json>)
    ensures
        opt_json(r) == tool_choice_json(match tool_choice { Some(x) => Some(x@), None => None }, parallel_tool_calls),
{
    let base: Option<Json> = match tool_choice {
        Some(Json::Str(s)) => {
            let b = if str_eq(s.as_str(), "auto") {
                Some(type_object("auto"))
            } else if str_eq(s.as_str(), "none") {
                Some(type_object("none"))
            } else if str_eq(s.as_str(), "required") || str_eq(s.as_str(), "any") {
                Some(type_object("any"))
            } else {
                None
            };
            assert(opt_json(b) == base_choice(Some(JsonV::Str(s@))));
            b
        },
        Some(Json::Object(o)) => {
            let obj = tool_choice.unwrap();
            let named = match obj.get("function") {
                Some(f) => f.get("name"),
                None => None,
            };
            let name = match named {
                Some(n) => Some(n),
                None => obj.get("name"),
            };
            assert(obj@ == JsonV::Object(crate::json::json_members_view(o@)));
            let r = match name {
                Some(n) => {
                    let mut m = members_new();
                    obj_push(&mut m, "type", jstr("tool"));
                    let nc = n.copy();
                    obj_push(&mut m, "name", nc);
                    assert(crate::json::json_members_view(m@) =~= seq![("type"@, JsonV::Str("tool"@)), ("name"@, n@)]);
                    Some(Json::Object(m))
                },
                None => None,
            };
            assert(opt_json(r) == base_choice(Some(obj@)));
            r
        },
        _ => None,
    };
    assert(opt_json(base) == base_choice(match tool_choice { Some(x) => Some(x@), None => None }));
    if parallel_tool_calls == Some(false) {
        let choice = match base {
            Some(c) => c,
            None => type_object("auto"),
        };
        match choice {
            Json::Object(m) => {
                let mut m = m;
                obj_push(&mut m, "disable_parallel_tool_use", Json::Bool(true));
                Some(Json::Object(m))
            },
            other => Some(other),
        }
    } else {
        base
    }
}

/// Whether a Chat Completions tool entry has a `function` with a `name`.
pub open spec fn has_named_function(t: JsonV) -> bool {
    match get(t, "function"@) {
        Some(f) => get(f, "name"@) is Some,
        None => false,
    }
}

/// The `name` of an entry's `function`.
pub open spec fn function_name(t: JsonV) -> Option<JsonV> {
    match get(t, "function"@) {
        Some(f) => get(f, "name"@),
        None => None,
    }
}

/// The `name` member of an Anthropic tool.
pub open spec fn tool_name(t: JsonV) -> Option<JsonV> {
    get(t, "name"@)
}

/// The member `k` of an entry's `function`.
pub open spec fn function_member(t: JsonV, k: Seq<char>) -> Option<JsonV> {
    match get(t, "function"@) {
        Some(f) => get(f, k),
        None => None,
    }
}

/// A translated tool carries the function's description when it has one,
/// and its parameters as `input_schema` (an empty object schema when the
/// function gives none).
pub proof fn law_chat_tool_fields(t: JsonV)
    requires
        has_named_function(t),
    ensures
        chat_tool(t) matches Some(tool)
            && tool_name(tool) == function_name(t)
            && get(tool, "description"@) == function_member(t, "description"@)
            && get(tool, "input_schema"@) == Some(match function_member(t, "parameters"@) {
                Some(p) => p,
                None => type_obj("object"@),
            }),
{
    reveal_strlit("name");
    reveal_strlit("description");
    reveal_strlit("input_schema");
    assert("name"@ != "description"@ && "name"@ != "input_schema"@ && "description"@ != "input_schema"@) by {
        assert("name"@[0] != "description"@[0] && "name"@[0] != "input_schema"@[0] && "description"@[0] != "input_schema"@[0]);
    }
    let f = get(t, "function"@)->0;
    let n = get(f, "name"@)->0;
    let d = get(f, "description"@);
    let p = get(f, "parameters"@);
    let schema = match p { Some(x) => x, None => type_obj("object"@) };
    let m1 = seq![("name"@, n)];
    match d {
        Some(dv) => {
            let ms = m1.push(("description"@, dv)).push(("input_schema"@, schema));
            assert(ms[0].0 == "name"@ && ms[1].0 == "description"@ && ms[2].0 == "input_schema"@);
            assert(ms.drop_first()[0].0 == "description"@);
            assert(ms.drop_first().drop_first()[0].0 == "input_schema"@);
            assert(member(ms, "description"@) == member(ms.drop_first(), "description"@));
            assert(member(ms, "input_schema"@) == member(ms.drop_first(), "input_schema"@));
            assert(member(ms.drop_first(), "input_schema"@) == member(ms.drop_first().drop_first(), "input_schema"@));
        },
        None => {
            let ms = m1.push(("input_schema"@, schema));
            assert(ms[0].0 == "name"@ && ms[1].0 == "input_schema"@);
            assert(ms.drop_first()[0].0 == "input_schema"@);
            assert(ms.drop_first().drop_first().len() == 0);
            assert(member(ms, "description"@) == member(ms.drop_first(), "description"@));
            assert(member(ms.drop_first(), "description"@) == member(ms.drop_first().drop_first(), "description"@));
            assert(member(ms, "input_schema"@) == member(ms.drop_first(), "input_schema"@));
        },
    }
}

/// Every Chat tool entry that has a function with a name is translated, in
/// order: the translation holds one tool per such entry, and the k-th tool
/// is the translation of the k-th such entry (see `law_chat_tool_fields`),
/// carrying its name.
pub proof fn law_chat_tools_one_per_named_function(arr: Seq<JsonV>)
    ensures
        chat_tools(arr).len() == arr.filter(|t: JsonV| has_named_function(t)).len(),
        forall|k: int| 0 <= k < chat_tools(arr).len() ==>
            tool_name(#[trigger] chat_tools(arr)[k]) == function_name(arr.filter(|t: JsonV| has_named_function(t))[k]),
        forall|k: int| 0 <= k < chat_tools(arr).len() ==>
            chat_tool(arr.filter(|t: JsonV| has_named_function(t))[k]) == Some(#[trigger] chat_tools(arr)[k]),
    decreases arr.len(),
{
    let pred = |t: JsonV| has_named_function(t);
    if arr.len() == 0 {
        assert(arr.filter(pred) =~= Seq::<JsonV>::empty()) by {
            reveal(Seq::filter);
        }
    } else {
        let init = arr.drop_last();
        let last = arr.last();
        law_chat_tools_one_per_named_function(init);
        assert(arr =~= init.push(last));
        init.lemma_filter_push(last, pred);
        let prev = chat_tools(init);
        let fi = init.filter(pred);
        if has_named_function(last) {
            let f = get(last, "function"@)->0;
            let n = get(f, "name"@)->0;
            let tool = anthropic_tool_json(n, get(f, "description"@), get(f, "parameters"@));
            assert(chat_tool(last) == Some(tool));
            let m1 = seq![("name"@, n)];
            let m2 = match get(f, "description"@) { Some(d) => m1.push(("description"@, d)), None => m1 };
            let ms = m2.push(("input_schema"@, match get(f, "parameters"@) { Some(p) => p, None => type_obj("object"@) }));
            assert(ms[0] == ("name"@, n));
            assert(tool_name(tool) == Some(n));
            assert(chat_tools(arr) == prev.push(tool));
            assert(arr.filter(pred) == fi.push(last));
            assert forall|k: int| 0 <= k < chat_tools(arr).len() implies
                tool_name(#[trigger] chat_tools(arr)[k]) == function_name(arr.filter(pred)[k]) by {
                if k < prev.len() {
                    assert(chat_tools(arr)[k] == prev[k]);
                    assert(arr.filter(pred)[k] == fi[k]);
                }
            }
            assert forall|k: int| 0 <= k < chat_tools(arr).len() implies
                chat_tool(arr.filter(pred)[k]) == Some(#[trigger] chat_tools(arr)[k]) by {
                if k < prev.len() {
                    assert(chat_tools(arr)[k] == prev[k]);
                    assert(arr.filter(pred)[k] == fi[k]);
                }
            }
        } else {
            assert(chat_tool(last) is None);
            assert(chat_tools(arr) == prev);
        }
    }
}

/// A request whose `tools` array holds n ≥ 1 entries with a named function
/// is translated into exactly n Anthropic tools, named as those entries are,
/// in order.
pub proof fn law_chat_tools_json_keeps_every_function(openai: JsonV, arr: Seq<JsonV>)
    requires
        get(openai, "tools"@) matches Some(t) && as_array(t) == Some(arr),
        arr.filter(|t: JsonV| has_named_function(t)).len() > 0,
    ensures
        chat_tools_json(openai) matches Some(JsonV::Array(ts))
            && ts.len() == arr.filter(|t: JsonV| has_named_function(t)).len()
            && (forall|k: int| 0 <= k < ts.len() ==>
                tool_name(#[trigger] ts[k]) == function_name(arr.filter(|t: JsonV| has_named_function(t))[k]))
            && (forall|k: int| 0 <= k < ts.len() ==>
                chat_tool(arr.filter(|t: JsonV| has_named_function(t))[k]) == Some(#[trigger] ts[k])),
{
    law_chat_tools_one_per_named_function(arr);
}

} // verus!
