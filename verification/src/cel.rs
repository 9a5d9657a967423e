//! The CEL policy middleware: the request as CEL sees it, and what the
//! expression's value decides. Compilation and evaluation are the
//! cel-interpreter crate's.

use vstd::prelude::*;
use crate::headers::{HeaderMap, keys_distinct, lemma_entry_seq_view, map_get, opt_view};
use crate::http::{
    Action, Request, Response, body_view, json_text_response, one_header, problem_members, problem_object,
};
use crate::json::{Json, JsonNumber, JsonV, NumV, json_members_view, json_seq_view, json_text, jstr, lemma_members_view,
    lemma_seq_view, obj_push, parse_json, parsed};
use crate::ai_proxy::responses::body_text;
use crate::text::{ascii_lower, concat, ends_with, is_prefix, is_suffix, owned, push_str, split, split_char, starts_with,
    str_eq, to_ascii_lowercase, trim, trimmed};
use vstd::utf8::encode_utf8;
use std::sync::Arc;
use std::collections::HashMap;
use cel_interpreter::Value as Interp;
use crate::cel_scan::{cel_admissible, cel_scan, cel_targets, fields_view, paths_view};

verus! {

// ---------------------------------------------------------------------------
// CEL values
// ---------------------------------------------------------------------------

/// A CEL value as the request context needs it.
pub enum CelValue {
    Null,
    Bool(bool),
    Int(i64),
    UInt(u64),
    /// A double, kept as its decimal text.
    Float(String),
    Str(String),
    List(Vec<CelValue>),
    Object(Vec<(String, CelValue)>),
}

/// A CEL value as plain values.
pub enum CelV {
    Null,
    Bool(bool),
    Int(i64),
    UInt(u64),
    Float(Seq<char>),
    Str(Seq<char>),
    List(Seq<CelV>),
    Object(Seq<(Seq<char>, CelV)>),
}

pub open spec fn cel_view(v: CelValue) -> CelV
    decreases v,
{
    match v {
        CelValue::Null => CelV::Null,
        CelValue::Bool(b) => CelV::Bool(b),
        CelValue::Int(i) => CelV::Int(i),
        CelValue::UInt(u) => CelV::UInt(u),
        CelValue::Float(s) => CelV::Float(s@),
        CelValue::Str(s) => CelV::Str(s@),
        CelValue::List(items) => CelV::List(cel_seq_view(items@)),
        CelValue::Object(m) => CelV::Object(cel_members_view(m@)),
    }
}

pub open spec fn cel_seq_view(s: Seq<CelValue>) -> Seq<CelV>
    decreases s,
{
    if s.len() == 0 { Seq::empty() } else { cel_seq_view(s.drop_last()).push(cel_view(s.last())) }
}

pub open spec fn cel_members_view(s: Seq<(String, CelValue)>) -> Seq<(Seq<char>, CelV)>
    decreases s,
{
    if s.len() == 0 { Seq::empty() } else { cel_members_view(s.drop_last()).push((s.last().0@, cel_view(s.last().1))) }
}

impl View for CelValue {
    type V = CelV;

    open spec fn view(&self) -> CelV {
        cel_view(*self)
    }
}

proof fn lemma_cel_seq_push(s: Seq<CelValue>, x: CelValue)
    ensures
        cel_seq_view(s.push(x)) == cel_seq_view(s).push(cel_view(x)),
{
    assert(s.push(x).drop_last() =~= s);
}

proof fn lemma_cel_members_push(s: Seq<(String, CelValue)>, k: String, x: CelValue)
    ensures
        cel_members_view(s.push((k, x))) == cel_members_view(s).push((k@, cel_view(x))),
{
    assert(s.push((k, x)).drop_last() =~= s);
}

/// A JSON value as CEL sees it: integers as `int` when they fit, else
/// `uint`; doubles as `double`; arrays as lists; objects as maps.
pub open spec fn json_cel(v: JsonV) -> CelV
    decreases v,
{
    match v {
        JsonV::Null => CelV::Null,
        JsonV::Bool(b) => CelV::Bool(b),
        JsonV::Number(NumV::PosInt(u)) => if u <= i64::MAX as u64 { CelV::Int(u as i64) } else { CelV::UInt(u) },
        JsonV::Number(NumV::NegInt(i)) => CelV::Int(i),
        JsonV::Number(NumV::Float(s)) => CelV::Float(s),
        JsonV::Str(s) => CelV::Str(s),
        JsonV::Array(items) => CelV::List(json_cel_seq(items)),
        JsonV::Object(m) => CelV::Object(json_cel_members(m)),
    }
}

pub open spec fn json_cel_seq(s: Seq<JsonV>) -> Seq<CelV>
    decreases s,
{
    if s.len() == 0 { Seq::empty() } else { json_cel_seq(s.drop_last()).push(json_cel(s.last())) }
}

pub open spec fn json_cel_members(s: Seq<(Seq<char>, JsonV)>) -> Seq<(Seq<char>, CelV)>
    decreases s,
{
    if s.len() == 0 { Seq::empty() } else { json_cel_members(s.drop_last()).push((s.last().0, json_cel(s.last().1))) }
}

/// Converts a JSON value into a CEL value.
pub fn json_to_cel(v: &Json) -> (r: CelValue)
    ensures
        r@ == json_cel(v@),
    decreases v,
{
    match v {
        Json::Null => CelValue::Null,
        Json::Bool(b) => CelValue::Bool(*b),
        Json::Number(JsonNumber::PosInt(u)) => if *u <= 0x7fff_ffff_ffff_ffffu64 { CelValue::Int(*u as i64) } else { CelValue::UInt(*u) },
        Json::Number(JsonNumber::NegInt(i)) => CelValue::Int(*i),
        Json::Number(JsonNumber::Float(s)) => CelValue::Float(s.clone()),
        Json::Str(s) => CelValue::Str(s.clone()),
        Json::Array(items) => {
            let mut out: Vec<CelValue> = Vec::new();
            let mut i: usize = 0;
            proof { lemma_seq_view(items@); }
            while i < items.len()
                invariant
                    *v == Json::Array(*items),
                    i <= items@.len(),
                    cel_seq_view(out@) == json_cel_seq(json_seq_view(items@).subrange(0, i as int)),
                decreases items@.len() - i,
            {
                assert(decreases_to!(*v => (*v)->Array_0));
                assert(decreases_to!(*items => items@));
                assert(decreases_to!(items@ => items@[i as int]));
                let x = json_to_cel(&items[i]);
                proof {
                    lemma_cel_seq_push(out@, x);
                    lemma_seq_view(items@);
                    assert(json_seq_view(items@).subrange(0, i + 1).drop_last() =~= json_seq_view(items@).subrange(0, i as int));
                }
                out.push(x);
                i = i + 1;
            }
            assert(json_seq_view(items@).subrange(0, items@.len() as int) =~= json_seq_view(items@));
            CelValue::List(out)
        },
        Json::Object(m) => {
            let mut out: Vec<(String, CelValue)> = Vec::new();
            let mut i: usize = 0;
            proof { lemma_members_view(m@); }
            while i < m.len()
                invariant
                    *v == Json::Object(*m),
                    i <= m@.len(),
                    cel_members_view(out@) == json_cel_members(json_members_view(m@).subrange(0, i as int)),
                decreases m@.len() - i,
            {
                assert(decreases_to!(*v => (*v)->Object_0));
                assert(decreases_to!(*m => m@));
                assert(decreases_to!(m@ => m@[i as int]));
                assert(decreases_to!(m@[i as int] => m@[i as int].1));
                let x = json_to_cel(&m[i].1);
                let k = m[i].0.clone();
                proof {
                    lemma_cel_members_push(out@, k, x);
                    lemma_members_view(m@);
                    assert(json_members_view(m@).subrange(0, i + 1).drop_last() =~= json_members_view(m@).subrange(0, i as int));
                }
                out.push((k, x));
                i = i + 1;
            }
            assert(json_members_view(m@).subrange(0, m@.len() as int) =~= json_members_view(m@));
            CelValue::Object(out)
        },
    }
}

// ---------------------------------------------------------------------------
// The cel-interpreter crate
// ---------------------------------------------------------------------------

/// A compiled CEL program, carried through as it is.
#[verifier::external_type_specification]
#[verifier::external_body]
pub struct ExProgram(cel_interpreter::Program);

/// A value of the CEL interpreter, carried through as it is.
#[verifier::external_type_specification]
#[verifier::external_body]
pub struct ExCelValue(cel_interpreter::Value);

/// An evaluation error of the CEL interpreter, carried through as it is.
#[verifier::external_type_specification]
#[verifier::external_body]
pub struct ExExecutionError(cel_interpreter::ExecutionError);

/// What `Program::compile` reports for a source: `None` when it parses,
/// else the text of its errors.
pub uninterp spec fn cel_compile_error(source: Seq<char>) -> Option<Seq<char>>;

/// The kind of a non-boolean result.
pub enum CelKind {
    List,
    Dictionary,
    Function,
    Int,
    UInt,
    Float,
    Text,
    Bytes,
    Null,
    Time,
}

/// What running an expression gave.
pub enum CelOutcome {
    Bool(bool),
    Other(CelKind),
    Failed(String),
}

/// The outcome as plain values.
pub enum CelOutcomeV {
    Bool(bool),
    Other(CelKind),
    Failed(Seq<char>),
}

pub open spec fn outcome_view(o: CelOutcome) -> CelOutcomeV {
    match o {
        CelOutcome::Bool(b) => CelOutcomeV::Bool(b),
        CelOutcome::Other(k) => CelOutcomeV::Other(k),
        CelOutcome::Failed(e) => CelOutcomeV::Failed(e@),
    }
}

/// A program with its source and the ranges of its comprehensions. Only
/// `compile_checked` builds one, from the source and what `compile_cel`
/// made of it, and only for an admissible source.
pub struct CompiledCel {
    source: String,
    program: cel_interpreter::Program,
    targets: Vec<Vec<String>>,
}

impl View for CompiledCel {
    type V = Seq<char>;

    closed spec fn view(&self) -> Seq<char> {
        self.source@
    }
}

impl CompiledCel {
    #[verifier::type_invariant]
    closed spec fn admitted(self) -> bool {
        &&& cel_admissible(self.source@)
        &&& paths_view(self.targets@) == cel_targets(self.source@)
    }
}

// ---------------------------------------------------------------------------
// Comprehension ranges, checked against the request
// ---------------------------------------------------------------------------

/// The names of the interpreter's default functions: a member access that
/// finds no such key gives a function value under one of these names,
/// and an error under any other.
pub open spec fn cel_function_name(k: Seq<char>) -> bool {
    ||| k == "contains"@ || k == "size"@ || k == "max"@ || k == "min"@ || k == "startsWith"@ || k == "endsWith"@
    ||| k == "string"@ || k == "bytes"@ || k == "double"@ || k == "int"@ || k == "uint"@ || k == "matches"@
    ||| k == "duration"@ || k == "timestamp"@ || k == "getFullYear"@ || k == "getMonth"@ || k == "getDayOfYear"@
    ||| k == "getDayOfMonth"@ || k == "getDate"@ || k == "getDayOfWeek"@ || k == "getHours"@ || k == "getMinutes"@
    ||| k == "getSeconds"@ || k == "getMilliseconds"@
}

/// The member `k` of a map: the last entry with that key, as the
/// interpreter's map keeps it.
pub open spec fn member_lookup(ms: Seq<(Seq<char>, CelV)>, k: Seq<char>) -> Option<CelV>
    decreases ms.len(),
{
    if ms.len() == 0 {
        None
    } else if ms.last().0 == k {
        Some(ms.last().1)
    } else {
        member_lookup(ms.drop_last(), k)
    }
}

/// Whether the member path `fs`, read from `v` as a comprehension's range,
/// ends in an error or in a list or a map: a member that is there leads on,
/// a member that is missing must not be named like a function, and what the
/// path reaches must be a list or a map.
pub open spec fn path_safe(v: CelV, fs: Seq<Seq<char>>) -> bool
    decreases fs.len(),
{
    if fs.len() == 0 {
        v is List || v is Object
    } else {
        match v {
            CelV::Object(ms) => match member_lookup(ms, fs[0]) {
                Some(x) => path_safe(x, fs.drop_first()),
                None => !cel_function_name(fs[0]),
            },
            _ => !cel_function_name(fs[0]),
        }
    }
}

/// Whether every comprehension range is safe on the request.
pub open spec fn targets_safe(request: CelV, ts: Seq<Seq<Seq<char>>>) -> bool {
    forall|i: int| 0 <= i < ts.len() ==> path_safe(request, #[trigger] ts[i])
}

/// A comprehension over `request.headers` or `request.path_params` never
/// ranges over anything but a map: on every request such a source runs.
pub proof fn law_header_and_path_param_ranges_are_safe(req: Request)
    ensures
        path_safe(request_cel(req), seq!["headers"@]),
        path_safe(request_cel(req), seq!["path_params"@]),
{
    reveal_strlit("headers");
    reveal_strlit("path_params");
    reveal_strlit("claims");
    reveal_strlit("consumer");
    let ms = request_cel(req)->Object_0;
    let h = seq!["headers"@];
    let p = seq!["path_params"@];
    assert(ms.last().0 == "claims"@);
    assert("claims"@ != "headers"@ && "claims"@ != "path_params"@) by {
        assert("claims"@[0] != "headers"@[0] && "claims"@[0] != "path_params"@[0]);
    }
    assert("consumer"@ != "headers"@ && "consumer"@ != "path_params"@) by {
        assert("consumer"@[0] != "headers"@[0] && "consumer"@[0] != "path_params"@[0]);
    }
    assert("path_params"@ != "headers"@) by {
        assert("path_params"@[0] != "headers"@[0]);
    }
    let m1 = ms.drop_last();
    let m2 = m1.drop_last();
    let m3 = m2.drop_last();
    assert(m1.last().0 == "consumer"@);
    assert(m2.last().0 == "path_params"@);
    assert(m3.last().0 == "headers"@);
    assert(member_lookup(ms, "headers"@) == member_lookup(m1, "headers"@));
    assert(member_lookup(m1, "headers"@) == member_lookup(m2, "headers"@));
    assert(member_lookup(m2, "headers"@) == member_lookup(m3, "headers"@));
    assert(member_lookup(ms, "path_params"@) == member_lookup(m1, "path_params"@));
    assert(member_lookup(m1, "path_params"@) == member_lookup(m2, "path_params"@));
    assert(h[0] == "headers"@ && h.drop_first().len() == 0);
    assert(p[0] == "path_params"@ && p.drop_first().len() == 0);
    assert(member_lookup(m3, "headers"@) == Some(m3.last().1));
    assert(member_lookup(m2, "path_params"@) == Some(m2.last().1));
    assert(m3.last().1 is Object);
    assert(m2.last().1 is Object);
    assert(path_safe(m3.last().1, h.drop_first()));
    assert(path_safe(m2.last().1, p.drop_first()));
    assert(member_lookup(ms, h[0]) == Some(m3.last().1));
    assert(member_lookup(ms, p[0]) == Some(m2.last().1));
}

proof fn lemma_str_map_lookup(es: Seq<(Seq<char>, Seq<char>)>, k: Seq<char>)
    requires
        keys_distinct(es),
    ensures
        forall|i: int| 0 <= i < es.len() && es[i].0 == k ==> member_lookup(str_map(es)->Object_0, k) == Some(CelV::Str(es[i].1)),
        (forall|i: int| 0 <= i < es.len() ==> es[i].0 != k) ==> member_lookup(str_map(es)->Object_0, k) is None,
    decreases es.len(),
{
    let f = |e: (Seq<char>, Seq<char>)| (e.0, CelV::Str(e.1));
    let ms = es.map_values(f);
    if es.len() > 0 {
        let init = es.drop_last();
        assert(keys_distinct(init)) by {
            assert forall|i: int, j: int| 0 <= i < init.len() && 0 <= j < init.len() && i != j implies init[i].0 != init[j].0 by {
                assert(init[i] == es[i] && init[j] == es[j]);
            }
        }
        lemma_str_map_lookup(init, k);
        assert(ms.drop_last() =~= init.map_values(f));
        assert(ms.last() == (es.last().0, CelV::Str(es.last().1)));
        assert forall|i: int| 0 <= i < es.len() && es[i].0 == k implies member_lookup(ms, k) == Some(CelV::Str(es[i].1)) by {
            if i < es.len() - 1 {
                assert(es[es.len() - 1].0 != k);
                assert(init[i] == es[i]);
            }
        }
        if forall|i: int| 0 <= i < es.len() ==> es[i].0 != k {
            assert forall|i: int| 0 <= i < init.len() implies init[i].0 != k by {
                assert(init[i] == es[i]);
            }
            assert(es[es.len() - 1].0 != k);
        }
    }
}

/// The `request` variable carries the request's header and path-parameter
/// maps as they are: each parameter (each header) is a member with its
/// value, and no other key is.
pub proof fn law_request_maps_carry_the_request(req: Request)
    requires
        keys_distinct(req.headers.entry_seq()),
        keys_distinct(req.path_params.entry_seq()),
    ensures
        member_lookup(request_cel(req)->Object_0, "path_params"@) matches Some(CelV::Object(ps))
            && forall|k: Seq<char>| #[trigger] member_lookup(ps, k) == (if req.path_params@.contains_key(k) {
                Some(CelV::Str(req.path_params@[k]))
            } else {
                None
            }),
        member_lookup(request_cel(req)->Object_0, "headers"@) matches Some(CelV::Object(hs))
            && forall|k: Seq<char>| #[trigger] member_lookup(hs, k) == (if req.headers@.contains_key(k) {
                Some(CelV::Str(req.headers@[k]))
            } else {
                None
            }),
{
    reveal_strlit("headers");
    reveal_strlit("path_params");
    reveal_strlit("claims");
    reveal_strlit("consumer");
    let ms = request_cel(req)->Object_0;
    assert("claims"@ != "headers"@ && "claims"@ != "path_params"@) by {
        assert("claims"@[0] != "headers"@[0] && "claims"@[0] != "path_params"@[0]);
    }
    assert("consumer"@ != "headers"@ && "consumer"@ != "path_params"@) by {
        assert("consumer"@[0] != "headers"@[0] && "consumer"@[0] != "path_params"@[0]);
    }
    assert("path_params"@ != "headers"@) by {
        assert("path_params"@[0] != "headers"@[0]);
    }
    let m1 = ms.drop_last();
    let m2 = m1.drop_last();
    let m3 = m2.drop_last();
    assert(ms.last().0 == "claims"@);
    assert(m1.last().0 == "consumer"@);
    assert(m2.last().0 == "path_params"@);
    assert(m3.last().0 == "headers"@);
    assert(member_lookup(ms, "headers"@) == member_lookup(m1, "headers"@));
    assert(member_lookup(m1, "headers"@) == member_lookup(m2, "headers"@));
    assert(member_lookup(m2, "headers"@) == member_lookup(m3, "headers"@));
    assert(member_lookup(ms, "path_params"@) == member_lookup(m1, "path_params"@));
    assert(member_lookup(m1, "path_params"@) == member_lookup(m2, "path_params"@));
    assert(member_lookup(m2, "path_params"@) == Some(str_map(req.path_params.entry_seq())));
    assert(member_lookup(m3, "headers"@) == Some(str_map(req.headers.entry_seq())));
    lemma_entry_seq_view(req.path_params);
    lemma_entry_seq_view(req.headers);
    let pe = req.path_params.entry_seq();
    let he = req.headers.entry_seq();
    assert forall|k: Seq<char>| #[trigger] member_lookup(str_map(pe)->Object_0, k) == (if req.path_params@.contains_key(k) {
        Some(CelV::Str(req.path_params@[k]))
    } else {
        None
    }) by {
        lemma_str_map_lookup(pe, k);
        if req.path_params@.contains_key(k) {
            let i = choose|i: int| 0 <= i < pe.len() && #[trigger] pe[i].0 == k;
            assert(req.path_params@[pe[i].0] == pe[i].1);
        } else {
            assert forall|i: int| 0 <= i < pe.len() implies pe[i].0 != k by {
                if pe[i].0 == k {
                    assert(req.path_params@.contains_key(pe[i].0));
                }
            }
        }
    }
    assert forall|k: Seq<char>| #[trigger] member_lookup(str_map(he)->Object_0, k) == (if req.headers@.contains_key(k) {
        Some(CelV::Str(req.headers@[k]))
    } else {
        None
    }) by {
        lemma_str_map_lookup(he, k);
        if req.headers@.contains_key(k) {
            let i = choose|i: int| 0 <= i < he.len() && #[trigger] he[i].0 == k;
            assert(req.headers@[he[i].0] == he[i].1);
        } else {
            assert forall|i: int| 0 <= i < he.len() implies he[i].0 != k by {
                if he[i].0 == k {
                    assert(req.headers@.contains_key(he[i].0));
                }
            }
        }
    }
}

/// The `request` variable carries the request's method, path, query (empty
/// when absent), client address and authenticated consumer (empty when
/// absent) as strings.
pub proof fn law_request_scalars(req: Request)
    ensures
        member_lookup(request_cel(req)->Object_0, "method"@) == Some(CelV::Str(req.method@)),
        member_lookup(request_cel(req)->Object_0, "path"@) == Some(CelV::Str(req.path@)),
        member_lookup(request_cel(req)->Object_0, "query"@) == Some(CelV::Str(match req.query { Some(q) => q@, None => Seq::empty() })),
        member_lookup(request_cel(req)->Object_0, "client_ip"@) == Some(CelV::Str(req.client_ip@)),
        member_lookup(request_cel(req)->Object_0, "consumer"@) == Some(CelV::Str(match map_get(req.headers@, "x-auth-consumer"@) {
            Some(c) => c,
            None => Seq::empty(),
        })),
{
    reveal_strlit("method");
    reveal_strlit("path");
    reveal_strlit("query");
    reveal_strlit("body");
    reveal_strlit("body_json");
    reveal_strlit("client_ip");
    reveal_strlit("headers");
    reveal_strlit("path_params");
    reveal_strlit("consumer");
    reveal_strlit("claims");
    reveal_with_fuel(member_lookup, 11);
    let ms = request_cel(req)->Object_0;
    assert(ms.len() == 10);
    let m9 = ms.drop_last();
    let m8 = m9.drop_last();
    let m7 = m8.drop_last();
    let m6 = m7.drop_last();
    let m5 = m6.drop_last();
    let m4 = m5.drop_last();
    let m3 = m4.drop_last();
    let m2 = m3.drop_last();
    let m1 = m2.drop_last();
    assert(ms.last().0 == "claims"@ && m9.last().0 == "consumer"@ && m8.last().0 == "path_params"@
        && m7.last().0 == "headers"@ && m6.last().0 == "client_ip"@ && m5.last().0 == "body_json"@
        && m4.last().0 == "body"@ && m3.last().0 == "query"@ && m2.last().0 == "path"@ && m1.last().0 == "method"@);
    let ks = seq!["claims"@, "consumer"@, "path_params"@, "headers"@, "client_ip"@, "body_json"@, "body"@, "query"@];
    assert forall|i: int| 0 <= i < ks.len() implies #[trigger] ks[i] != "method"@ && ks[i] != "path"@ by {
        assert(ks[i].len() != "method"@.len() || ks[i][0] != "method"@[0]);
        assert(ks[i].len() != "path"@.len() || ks[i][0] != "path"@[0]);
    }
    assert(ks[0] != "method"@ && ks[1] != "method"@ && ks[2] != "method"@ && ks[3] != "method"@);
    assert(ks[4] != "method"@ && ks[5] != "method"@ && ks[6] != "method"@ && ks[7] != "method"@);
    assert(ks[0] != "path"@ && ks[1] != "path"@ && ks[2] != "path"@ && ks[3] != "path"@);
    assert(ks[4] != "path"@ && ks[5] != "path"@ && ks[6] != "path"@ && ks[7] != "path"@);
    assert("path"@ != "method"@) by { assert("path"@.len() != "method"@.len()); }
    assert(member_lookup(ms, "method"@) == member_lookup(m9, "method"@));
    assert(member_lookup(m9, "method"@) == member_lookup(m8, "method"@));
    assert(member_lookup(m8, "method"@) == member_lookup(m7, "method"@));
    assert(member_lookup(m7, "method"@) == member_lookup(m6, "method"@));
    assert(member_lookup(m6, "method"@) == member_lookup(m5, "method"@));
    assert(member_lookup(m5, "method"@) == member_lookup(m4, "method"@));
    assert(member_lookup(m4, "method"@) == member_lookup(m3, "method"@));
    assert(member_lookup(m3, "method"@) == member_lookup(m2, "method"@));
    assert(member_lookup(m2, "method"@) == member_lookup(m1, "method"@));
    assert(member_lookup(ms, "path"@) == member_lookup(m9, "path"@));
    assert(member_lookup(m9, "path"@) == member_lookup(m8, "path"@));
    assert(member_lookup(m8, "path"@) == member_lookup(m7, "path"@));
    assert(member_lookup(m7, "path"@) == member_lookup(m6, "path"@));
    assert(member_lookup(m6, "path"@) == member_lookup(m5, "path"@));
    assert(member_lookup(m5, "path"@) == member_lookup(m4, "path"@));
    assert(member_lookup(m4, "path"@) == member_lookup(m3, "path"@));
    assert(member_lookup(m3, "path"@) == member_lookup(m2, "path"@));
}

fn function_name_exec(k: &str) -> (r: bool)
    ensures
        r == cel_function_name(k@),
{
    str_eq(k, "contains") || str_eq(k, "size") || str_eq(k, "max") || str_eq(k, "min") || str_eq(k, "startsWith")
        || str_eq(k, "endsWith") || str_eq(k, "string") || str_eq(k, "bytes") || str_eq(k, "double") || str_eq(k, "int")
        || str_eq(k, "uint") || str_eq(k, "matches") || str_eq(k, "duration") || str_eq(k, "timestamp")
        || str_eq(k, "getFullYear") || str_eq(k, "getMonth") || str_eq(k, "getDayOfYear") || str_eq(k, "getDayOfMonth")
        || str_eq(k, "getDate") || str_eq(k, "getDayOfWeek") || str_eq(k, "getHours") || str_eq(k, "getMinutes")
        || str_eq(k, "getSeconds") || str_eq(k, "getMilliseconds")
}

proof fn lemma_members_prefix(ms: Seq<(String, CelValue)>, i: int)
    requires
        0 < i <= ms.len(),
    ensures
        cel_members_view(ms.subrange(0, i)).last() == (ms[i - 1].0@, cel_view(ms[i - 1].1)),
        cel_members_view(ms.subrange(0, i)).drop_last() == cel_members_view(ms.subrange(0, i - 1)),
        cel_members_view(ms.subrange(0, i)).len() > 0,
{
    let pre = ms.subrange(0, i);
    assert(pre.drop_last() =~= ms.subrange(0, i - 1));
    assert(cel_members_view(pre).drop_last() =~= cel_members_view(pre.drop_last()));
}

fn member_lookup_exec<'a>(ms: &'a Vec<(String, CelValue)>, k: &str) -> (r: Option<&'a CelValue>)
    ensures
        match r {
            Some(x) => member_lookup(cel_members_view(ms@), k@) == Some(cel_view(*x)),
            None => member_lookup(cel_members_view(ms@), k@) is None,
        },
{
    let mut i: usize = ms.len();
    assert(ms@.subrange(0, ms@.len() as int) =~= ms@);
    while i > 0
        invariant
            i <= ms@.len(),
            member_lookup(cel_members_view(ms@), k@) == member_lookup(cel_members_view(ms@.subrange(0, i as int)), k@),
        decreases i,
    {
        proof {
            lemma_members_prefix(ms@, i as int);
        }
        if str_eq(ms[i - 1].0.as_str(), k) {
            return Some(&ms[i - 1].1);
        }
        i = i - 1;
    }
    None
}

fn path_safe_exec(v: &CelValue, fs: &Vec<String>) -> (r: bool)
    ensures
        r == path_safe(cel_view(*v), fields_view(fs@)),
{
    let mut cur = v;
    let mut i: usize = 0;
    assert(fields_view(fs@).subrange(0, fs@.len() as int) =~= fields_view(fs@));
    while i < fs.len()
        invariant
            i <= fs@.len(),
            path_safe(cel_view(*v), fields_view(fs@)) == path_safe(cel_view(*cur), fields_view(fs@).subrange(i as int, fs@.len() as int)),
        decreases fs@.len() - i,
    {
        let ghost rest = fields_view(fs@).subrange(i as int, fs@.len() as int);
        assert(rest[0] == fs@[i as int]@);
        assert(rest.drop_first() =~= fields_view(fs@).subrange(i + 1, fs@.len() as int));
        match cur {
            CelValue::Object(ms) => match member_lookup_exec(ms, fs[i].as_str()) {
                Some(x) => {
                    cur = x;
                },
                None => {
                    return !function_name_exec(fs[i].as_str());
                },
            },
            _ => {
                return !function_name_exec(fs[i].as_str());
            },
        }
        i = i + 1;
    }
    match cur {
        CelValue::List(_) => true,
        CelValue::Object(_) => true,
        _ => false,
    }
}

/// Whether every comprehension range of a compiled program is safe on the
/// request.
fn targets_safe_exec(request: &CelValue, ts: &Vec<Vec<String>>) -> (r: bool)
    ensures
        r == targets_safe(cel_view(*request), paths_view(ts@)),
{
    let mut i: usize = 0;
    while i < ts.len()
        invariant
            i <= ts@.len(),
            forall|j: int| 0 <= j < i ==> path_safe(cel_view(*request), #[trigger] paths_view(ts@)[j]),
        decreases ts@.len() - i,
    {
        assert(paths_view(ts@)[i as int] == fields_view(ts@[i as int]@));
        if !path_safe_exec(request, &ts[i]) {
            return false;
        }
        i = i + 1;
    }
    true
}

/// `Program::compile`: the program, or the text of the parse errors.
/// Not claimed: that the generated parser returns on every source.
#[verifier::external_body]
fn compile_cel(source: &str) -> (r: Result<cel_interpreter::Program, String>)
    ensures
        match r {
            Ok(_) => cel_compile_error(source@) is None,
            Err(e) => cel_compile_error(source@) == Some(e@),
        },
{
    match cel_interpreter::Program::compile(source) {
        Ok(program) => Ok(program),
        Err(e) => Err(e.to_string()),
    }
}

/// The message for a source that parses but fails the admission check.
pub open spec fn unsupported_message() -> Seq<char> {
    "CEL expression not supported: message literals, comprehensions over anything but a member path of request, request as a comprehension variable, unary minus on anything but a number literal, indexes other than a string or a small number literal, and duration() are not evaluated"@
}

/// The detail of the 500 for a request on which a comprehension would range
/// over a value that is neither a list nor a map.
pub open spec fn range_error_detail() -> Seq<char> {
    "expression ranges over a value that is neither a list nor a map"@
}

/// Why a source cannot be run: its parse errors, else a failed admission
/// check.
pub open spec fn source_problem(source: Seq<char>) -> Option<Seq<char>> {
    match cel_compile_error(source) {
        Some(e) => Some("CEL parse error: "@ + e),
        None => if cel_admissible(source) { None } else { Some(unsupported_message()) },
    }
}

/// Compiles a source and admits the program only if the source passes the
/// admission check.
pub fn compile_checked(source: &str) -> (r: Result<CompiledCel, String>)
    ensures
        match r {
            Ok(p) => source_problem(source@) is None && p@ == source@,
            Err(e) => source_problem(source@) == Some(e@),
        },
{
    match compile_cel(source) {
        Err(e) => Err(concat("CEL parse error: ", e.as_str())),
        Ok(program) => match cel_scan(source) {
            Some(targets) => Ok(CompiledCel { source: owned(source), program, targets }),
            None => Err(owned("CEL expression not supported: message literals, comprehensions over anything but a member path of request, request as a comprehension variable, unary minus on anything but a number literal, indexes other than a string or a small number literal, and duration() are not evaluated")),
        },
    }
}

/// Converts a value into the interpreter's, node for node.
#[verifier::external_body]
fn to_cel(v: &CelValue) -> Interp {
    match v {
        CelValue::Null => Interp::Null,
        CelValue::Bool(b) => Interp::Bool(*b),
        CelValue::Int(i) => Interp::Int(*i),
        CelValue::UInt(u) => Interp::UInt(*u),
        CelValue::Float(s) => Interp::Float(s.parse().unwrap_or_default()),
        CelValue::Str(s) => Interp::String(Arc::new(s.clone())),
        CelValue::List(items) => Interp::List(Arc::new(items.iter().map(to_cel).collect())),
        CelValue::Object(m) => m.iter().map(|(k, x)| (k.clone(), to_cel(x))).collect::<HashMap<String, Interp>>().into(),
    }
}

/// Names the kind of an interpreter value, one arm per variant.
#[verifier::external_body]
#[allow(unreachable_patterns)]
fn kind_of(v: &Interp) -> CelKind {
    match v {
        Interp::List(_) => CelKind::List,
        Interp::Map(_) => CelKind::Dictionary,
        Interp::Function(_, _) => CelKind::Function,
        Interp::Int(_) => CelKind::Int,
        Interp::UInt(_) => CelKind::UInt,
        Interp::Float(_) => CelKind::Float,
        Interp::String(_) => CelKind::Text,
        Interp::Bytes(_) => CelKind::Bytes,
        Interp::Null => CelKind::Null,
        _ => CelKind::Time,
    }
}

/// `Program::execute` with `request` as the only variable.
///
/// Nothing is claimed of the outcome: the interpreter walks maps in the
/// order of a `HashMap`, so two runs on the same program and request may
/// give different results. The interpreter aborts on a comprehension over a
/// value that is neither a list nor a map, on a message literal, on a long
/// duration text whose sum overflows, and (with overflow checks on) on the
/// negation of the least 64-bit integer and on a string index at the
/// largest one. The `requires` admits only sources that passed the
/// admission check (no message literal, no unary minus but on a number
/// literal, no index but a string or a small number literal, no call of
/// `duration`, comprehensions only over member paths of `request`), and
/// only requests on which each such path ends in an error or in a list or
/// a map. Not excluded: an expression nested deeply enough to exhaust the
/// stack of the recursive evaluator.
#[verifier::external_body]
pub(crate) fn cel_execute(p: &CompiledCel, request: &CelValue) -> (r: CelOutcome)
    requires
        cel_admissible(p@),
        targets_safe(request@, cel_targets(p@)),
{
    let mut ctx = cel_interpreter::Context::default();
    ctx.add_variable_from_value("request", to_cel(request));
    match p.program.execute(&ctx) {
        Ok(Interp::Bool(b)) => CelOutcome::Bool(b),
        Ok(v) => CelOutcome::Other(kind_of(&v)),
        Err(e) => CelOutcome::Failed(e.to_string()),
    }
}

/// What `format!("{:?}", s)` writes for a string.
pub uninterp spec fn str_debug(s: Seq<char>) -> Seq<char>;

/// A string's `Debug` form: quoted, with escapes.
#[verifier::external_body]
fn debug_text(s: &str) -> (r: String)
    ensures
        r@ == str_debug(s@),
{
    format!("{:?}", s)
}

// ---------------------------------------------------------------------------
// The request as CEL sees it
// ---------------------------------------------------------------------------

/// A header map as a CEL map of strings, in entry order.
pub open spec fn str_map(h: Seq<(Seq<char>, Seq<char>)>) -> CelV {
    CelV::Object(h.map_values(|e: (Seq<char>, Seq<char>)| (e.0, CelV::Str(e.1))))
}

/// The empty CEL map.
pub open spec fn empty_cel_map() -> CelV {
    CelV::Object(Seq::empty())
}

/// The media type of a `content-type` value: before any `;`, trimmed,
/// ASCII-lowercased.
pub open spec fn media_type(ct: Seq<char>) -> Seq<char> {
    ascii_lower(trimmed(split_char(ct, ';')[0]))
}

/// Whether a media type is JSON (`application/json` or `application/*+json`).
pub open spec fn is_json_type(t: Seq<char>) -> bool {
    t == "application/json"@ || (is_prefix("application/"@, t) && is_suffix("+json"@, t))
}

/// The body as JSON when the content type says JSON and it parses, else
/// the empty map.
pub open spec fn body_json_cel(h: Map<Seq<char>, Seq<char>>, body: Option<Seq<u8>>) -> CelV {
    match map_get(h, "content-type"@) {
        None => empty_cel_map(),
        Some(ct) => if !is_json_type(media_type(ct)) || body_text(body).len() == 0 {
            empty_cel_map()
        } else {
            match parsed(encode_utf8(body_text(body))) {
                Some(v) => json_cel(v),
                None => empty_cel_map(),
            }
        },
    }
}

/// The claims forwarded by an authentication plugin, else the empty map.
pub open spec fn claims_cel(h: Map<Seq<char>, Seq<char>>) -> CelV {
    match map_get(h, "x-auth-claims"@) {
        Some(c) => match parsed(encode_utf8(c)) {
            Some(v) => json_cel(v),
            None => empty_cel_map(),
        },
        None => empty_cel_map(),
    }
}

pub open spec fn or_empty(o: Option<Seq<char>>) -> Seq<char> {
    match o {
        Some(s) => s,
        None => Seq::empty(),
    }
}

/// The `request` variable of an expression.
pub open spec fn request_cel(req: Request) -> CelV {
    CelV::Object(seq![
        ("method"@, CelV::Str(req.method@)),
        ("path"@, CelV::Str(req.path@)),
        ("query"@, CelV::Str(or_empty(opt_view(req.query)))),
        ("body"@, CelV::Str(body_text(body_view(req.body)))),
        ("body_json"@, body_json_cel(req.headers@, body_view(req.body))),
        ("client_ip"@, CelV::Str(req.client_ip@)),
        ("headers"@, str_map(req.headers.entry_seq())),
        ("path_params"@, str_map(req.path_params.entry_seq())),
        ("consumer"@, CelV::Str(or_empty(map_get(req.headers@, "x-auth-consumer"@)))),
        ("claims"@, claims_cel(req.headers@)),
    ])
}

fn str_map_exec(h: &HeaderMap) -> (r: CelValue)
    ensures
        r@ == str_map(h.entry_seq()),
{
    let pairs = h.pairs();
    let mut out: Vec<(String, CelValue)> = Vec::new();
    let mut i: usize = 0;
    while i < pairs.len()
        invariant
            i <= pairs@.len(),
            pairs@.map_values(|e: (String, String)| (e.0@, e.1@)) == h.entry_seq(),
            cel_members_view(out@) == h.entry_seq().subrange(0, i as int).map_values(|e: (Seq<char>, Seq<char>)| (e.0, CelV::Str(e.1))),
        decreases pairs@.len() - i,
    {
        let ghost before = cel_members_view(out@);
        let k = pairs[i].0.clone();
        let x = CelValue::Str(pairs[i].1.clone());
        proof { lemma_cel_members_push(out@, k, x); }
        out.push((k, x));
        assert(h.entry_seq()[i as int] == (pairs@[i as int].0@, pairs@[i as int].1@));
        assert(h.entry_seq().subrange(0, i + 1).map_values(|e: (Seq<char>, Seq<char>)| (e.0, CelV::Str(e.1)))
            =~= before.push((pairs@[i as int].0@, CelV::Str(pairs@[i as int].1@))));
        i = i + 1;
    }
    assert(h.entry_seq().subrange(0, pairs@.len() as int) =~= h.entry_seq());
    CelValue::Object(out)
}

fn body_text_exec(body: &Option<Vec<u8>>) -> (r: String)
    ensures
        r@ == body_text(body_view(*body)),
{
    match body {
        Some(b) => match crate::text::string_from_utf8(b.clone()) {
            Some(t) => t,
            None => String::new(),
        },
        None => String::new(),
    }
}

fn parse_json_cel(text: &str) -> (r: Option<CelValue>)
    ensures
        match r { Some(v) => parsed(encode_utf8(text@)) matches Some(j) && v@ == json_cel(j), None => parsed(encode_utf8(text@)) is None },
{
    match parse_json(text.as_bytes()) {
        Some(v) => Some(json_to_cel(&v)),
        None => None,
    }
}

/// The request body as CEL sees it under `request.body_json`.
pub fn parse_body_json(req: &Request) -> (r: CelValue)
    ensures
        r@ == body_json_cel(req.headers@, body_view(req.body)),
{
    let ct = match req.headers.get("content-type") {
        Some(v) => v,
        None => return CelValue::Object(Vec::new()),
    };
    proof { crate::text::lemma_split_nonempty(ct@, ';'); }
    let parts = split(ct.as_str(), ';');
    let t = to_ascii_lowercase(trim(parts[0].as_str()).as_str());
    let is_json = str_eq(t.as_str(), "application/json")
        || (starts_with(t.as_str(), "application/") && ends_with(t.as_str(), "+json"));
    if !is_json {
        return CelValue::Object(Vec::new());
    }
    let body = body_text_exec(&req.body);
    if body.as_str().is_empty() {
        return CelValue::Object(Vec::new());
    }
    match parse_json_cel(body.as_str()) {
        Some(v) => v,
        None => CelValue::Object(Vec::new()),
    }
}

/// Builds the `request` variable of an expression.
#[verifier::spinoff_prover]
pub fn build_context(req: &Request) -> (r: CelValue)
    ensures
        r@ == request_cel(*req),
{
    let consumer = match req.headers.get("x-auth-consumer") {
        Some(c) => c,
        None => String::new(),
    };
    let claims = match req.headers.get("x-auth-claims") {
        Some(c) => match parse_json_cel(c.as_str()) {
            Some(v) => v,
            None => CelValue::Object(Vec::new()),
        },
        None => CelValue::Object(Vec::new()),
    };
    let query = match &req.query {
        Some(q) => q.clone(),
        None => String::new(),
    };
    let mut m: Vec<(String, CelValue)> = Vec::new();
    m.push((owned("method"), CelValue::Str(req.method.clone())));
    m.push((owned("path"), CelValue::Str(req.path.clone())));
    m.push((owned("query"), CelValue::Str(query)));
    m.push((owned("body"), CelValue::Str(body_text_exec(&req.body))));
    m.push((owned("body_json"), parse_body_json(req)));
    m.push((owned("client_ip"), CelValue::Str(req.client_ip.clone())));
    m.push((owned("headers"), str_map_exec(&req.headers)));
    m.push((owned("path_params"), str_map_exec(&req.path_params)));
    m.push((owned("consumer"), CelValue::Str(consumer)));
    m.push((owned("claims"), claims));
    proof {
        reveal_with_fuel(cel_members_view, 11);
    }
    assert(cel_members_view(m@) =~= request_cel(*req)->Object_0);
    CelValue::Object(m)
}

// ---------------------------------------------------------------------------
// The policy
// ---------------------------------------------------------------------------

/// A configured rejection for a matching request.
pub struct DenyAction {
    /// Status (4xx; another value answers 403).
    pub status: u16,
    /// snake_case error code.
    pub code: String,
    /// Detail; the code when absent.
    pub message: Option<String>,
}

/// What a matching request gets.
pub struct OnMatch {
    /// Context entries written when the expression holds.
    pub set_context: HeaderMap,
    pub deny: Option<DenyAction>,
}

/// CEL policy configuration.
pub struct CelPolicy {
    /// The expression, which must give a boolean.
    pub expression: String,
    /// Detail of the 403 in access-control mode.
    pub deny_message: String,
    /// The compiled expression, once compiled.
    pub compiled: Option<CompiledCel>,
    /// Match-and-act mode when present.
    pub on_match: Option<OnMatch>,
}

pub fn default_deny_message() -> (r: String)
    ensures r@ == "Access denied by policy"@,
{
    owned("Access denied by policy")
}

pub fn default_deny_status() -> (r: u16)
    ensures r == 403,
{
    403
}

/// `^[a-z][a-z0-9_]*$`.
pub open spec fn snake_case(s: Seq<char>) -> bool {
    s.len() > 0 && 'a' <= s[0] <= 'z'
        && forall|i: int| 1 <= i < s.len() ==> ('a' <= #[trigger] s[i] <= 'z' || '0' <= s[i] <= '9' || s[i] == '_')
}

/// Checks a code against `^[a-z][a-z0-9_]*$`.
pub fn is_snake_case_code(s: &str) -> (r: bool)
    ensures
        r == snake_case(s@),
{
    let cs = crate::text::chars_of(s);
    if cs.len() == 0 {
        return false;
    }
    if !('a' <= cs[0] && cs[0] <= 'z') {
        return false;
    }
    let mut i: usize = 1;
    while i < cs.len()
        invariant
            1 <= i <= cs@.len(),
            cs@ == s@,
            forall|j: int| 1 <= j < i ==> ('a' <= #[trigger] s@[j] <= 'z' || '0' <= s@[j] <= '9' || s@[j] == '_'),
        decreases cs@.len() - i,
    {
        let c = cs[i];
        if !(('a' <= c && c <= 'z') || ('0' <= c && c <= '9') || c == '_') {
            return false;
        }
        i = i + 1;
    }
    true
}

/// The reason phrase of a 4xx status; `Forbidden` for the others.
pub open spec fn reason_phrase(status: u16) -> Seq<char> {
    if status == 400 { "Bad Request"@ }
    else if status == 401 { "Unauthorized"@ }
    else if status == 403 { "Forbidden"@ }
    else if status == 404 { "Not Found"@ }
    else if status == 405 { "Method Not Allowed"@ }
    else if status == 409 { "Conflict"@ }
    else if status == 422 { "Unprocessable Entity"@ }
    else if status == 429 { "Too Many Requests"@ }
    else { "Forbidden"@ }
}

pub fn http_reason_phrase(status: u16) -> (r: &'static str)
    ensures
        r@ == reason_phrase(status),
{
    match status {
        400 => "Bad Request",
        401 => "Unauthorized",
        403 => "Forbidden",
        404 => "Not Found",
        405 => "Method Not Allowed",
        409 => "Conflict",
        422 => "Unprocessable Entity",
        429 => "Too Many Requests",
        _ => "Forbidden",
    }
}

/// The name of a result kind.
pub open spec fn kind_name(k: CelKind) -> Seq<char> {
    match k {
        CelKind::List => "list"@,
        CelKind::Dictionary => "map"@,
        CelKind::Function => "function"@,
        CelKind::Int => "int"@,
        CelKind::UInt => "uint"@,
        CelKind::Float => "float"@,
        CelKind::Text => "string"@,
        CelKind::Bytes => "bytes"@,
        CelKind::Null => "null"@,
        CelKind::Time => "timestamp"@,
    }
}

pub fn value_type_name(k: &CelKind) -> (r: &'static str)
    ensures
        r@ == kind_name(*k),
{
    match k {
        CelKind::List => "list",
        CelKind::Dictionary => "map",
        CelKind::Function => "function",
        CelKind::Int => "int",
        CelKind::UInt => "uint",
        CelKind::Float => "float",
        CelKind::Text => "string",
        CelKind::Bytes => "bytes",
        CelKind::Null => "null",
        CelKind::Time => "timestamp",
    }
}

/// The status of a configured rejection.
pub open spec fn deny_status(d: DenyAction) -> u16 {
    if 400 <= d.status < 500 { d.status } else { 403 }
}

/// The body of a configured rejection.
pub open spec fn deny_json(d: DenyAction) -> JsonV {
    let status = deny_status(d);
    JsonV::Object(seq![
        ("type"@, JsonV::Str("urn:barbacane:error:"@ + d.code@)),
        ("title"@, JsonV::Str(reason_phrase(status))),
        ("status"@, JsonV::Number(NumV::PosInt(status as u64))),
        ("code"@, JsonV::Str(d.code@)),
        ("detail"@, JsonV::Str(match d.message { Some(m) => m@, None => d.code@ })),
    ])
}

pub open spec fn denied_json(message: Seq<char>) -> JsonV {
    JsonV::Object(problem_members("urn:barbacane:error:cel-denied"@, "Forbidden"@, 403, message))
}

pub open spec fn config_error_json(detail: Seq<char>) -> JsonV {
    JsonV::Object(problem_members("urn:barbacane:error:cel-config"@, "Internal Server Error"@, 500, detail))
}

pub open spec fn eval_error_json(detail: Seq<char>) -> JsonV {
    JsonV::Object(problem_members("urn:barbacane:error:cel-evaluation"@, "Internal Server Error"@, 500, detail))
}

/// Why an expression cannot be used yet: a deny code that is not
/// snake_case, a source that does not parse, or one that fails the
/// admission check. Checked until the expression compiles.
pub open spec fn config_problem(p: CelPolicy) -> Option<Seq<char>> {
    if p.compiled is Some {
        None
    } else if p.on_match is Some && p.on_match->0.deny is Some && !snake_case(p.on_match->0.deny->0.code@) {
        Some("on_match.deny.code must match ^[a-z][a-z0-9_]*$, got "@ + str_debug(p.on_match->0.deny->0.code@))
    } else {
        source_problem(p.expression@)
    }
}

/// The source the policy runs: the compiled program's, else the expression.
pub open spec fn program_source(p: CelPolicy) -> Seq<char> {
    match p.compiled {
        Some(c) => c@,
        None => p.expression@,
    }
}

/// What the policy decides for an outcome: the answer, or the context
/// entries to write before the request goes on.
pub enum CelDecision {
    Answer(u16, JsonV),
    Proceed(Seq<(Seq<char>, Seq<char>)>),
}

pub open spec fn decide(p: CelPolicy, o: CelOutcomeV) -> CelDecision {
    match o {
        CelOutcomeV::Bool(true) => match p.on_match {
            Some(om) => match om.deny {
                Some(d) => CelDecision::Answer(deny_status(d), deny_json(d)),
                None => CelDecision::Proceed(om.set_context.entry_seq()),
            },
            None => CelDecision::Proceed(Seq::empty()),
        },
        CelOutcomeV::Bool(false) => if p.on_match is Some {
            CelDecision::Proceed(Seq::empty())
        } else {
            CelDecision::Answer(403, denied_json(p.deny_message@))
        },
        CelOutcomeV::Other(k) => CelDecision::Answer(500, eval_error_json("expression returned "@ + kind_name(k) + ", expected bool"@)),
        CelOutcomeV::Failed(e) => CelDecision::Answer(500, eval_error_json(e)),
    }
}

/// No context entry.
fn no_context() -> (r: Vec<(String, String)>)
    ensures
        r@.len() == 0,
        r@.map_values(|e: (String, String)| (e.0@, e.1@)) == Seq::<(Seq<char>, Seq<char>)>::empty(),
{
    let r: Vec<(String, String)> = Vec::new();
    assert(r@.map_values(|e: (String, String)| (e.0@, e.1@)) =~= Seq::<(Seq<char>, Seq<char>)>::empty());
    r
}

/// Whether `r` is the step `decide` gives for outcome `o`.
pub open spec fn step_for(p: CelPolicy, req: Request, o: CelOutcomeV, r: CelStep) -> bool {
    match decide(p, o) {
        CelDecision::Answer(status, v) => r.action matches Action::ShortCircuit(resp) && resp.status == status
            && resp.headers@ == one_header("content-type"@, "application/problem+json"@)
            && body_view(resp.body) == Some(encode_utf8(json_text(v))) && r.set_context@.len() == 0,
        CelDecision::Proceed(ctx) => r.action == Action::Continue(req)
            && r.set_context@.map_values(|e: (String, String)| (e.0@, e.1@)) == ctx,
    }
}

/// What a request gets, and the context entries written.
pub struct CelStep {
    pub action: Action,
    pub set_context: Vec<(String, String)>,
}

impl CelPolicy {
    /// A policy not compiled yet.
    pub fn new(expression: String, deny_message: String, on_match: Option<OnMatch>) -> (r: CelPolicy)
        ensures
            r.expression == expression,
            r.deny_message == deny_message,
            r.compiled is None,
            r.on_match == on_match,
    {
        CelPolicy { expression, deny_message, compiled: None, on_match }
    }

    /// Compiles the expression once; the code check comes first.
    pub fn ensure_compiled(&mut self) -> (r: Result<(), String>)
        ensures
            final(self).expression == old(self).expression,
            final(self).deny_message == old(self).deny_message,
            final(self).on_match == old(self).on_match,
            match r {
                Ok(_) => config_problem(*old(self)) is None && final(self).compiled is Some
                    && program_source(*final(self)) == program_source(*old(self)),
                Err(e) => config_problem(*old(self)) == Some(e@) && final(self).compiled is None,
            },
    {
        if self.compiled.is_some() {
            return Ok(());
        }
        if let Some(om) = &self.on_match {
            if let Some(d) = &om.deny {
                if !is_snake_case_code(d.code.as_str()) {
                    let msg = concat("on_match.deny.code must match ^[a-z][a-z0-9_]*$, got ", debug_text(d.code.as_str()).as_str());
                    return Err(msg);
                }
            }
        }
        match compile_checked(self.expression.as_str()) {
            Ok(p) => {
                self.compiled = Some(p);
                Ok(())
            },
            Err(e) => Err(e),
        }
    }

    /// The 403 for an expression that evaluated to false.
    pub fn denied_response(&self) -> (r: Response)
        ensures
            r.status == 403,
            r.headers@ == one_header("content-type"@, "application/problem+json"@),
            body_view(r.body) == Some(encode_utf8(json_text(denied_json(self.deny_message@)))),
    {
        let body = Json::Object(problem_object("urn:barbacane:error:cel-denied", "Forbidden", 403, self.deny_message.as_str()));
        json_text_response(403, "application/problem+json", &body)
    }

    /// The 500 for a policy that cannot be used.
    pub fn config_error_response(&self, detail: &str) -> (r: Response)
        ensures
            r.status == 500,
            r.headers@ == one_header("content-type"@, "application/problem+json"@),
            body_view(r.body) == Some(encode_utf8(json_text(config_error_json(detail@)))),
    {
        let body = Json::Object(problem_object("urn:barbacane:error:cel-config", "Internal Server Error", 500, detail));
        json_text_response(500, "application/problem+json", &body)
    }

    /// The 500 for an evaluation that failed or gave no boolean.
    pub fn eval_error_response(&self, detail: &str) -> (r: Response)
        ensures
            r.status == 500,
            r.headers@ == one_header("content-type"@, "application/problem+json"@),
            body_view(r.body) == Some(encode_utf8(json_text(eval_error_json(detail@)))),
    {
        let body = Json::Object(problem_object("urn:barbacane:error:cel-evaluation", "Internal Server Error", 500, detail));
        json_text_response(500, "application/problem+json", &body)
    }

    /// The configured rejection.
    pub fn deny_action_response(&self, action: &DenyAction) -> (r: Response)
        ensures
            r.status == deny_status(*action),
            r.headers@ == one_header("content-type"@, "application/problem+json"@),
            body_view(r.body) == Some(encode_utf8(json_text(deny_json(*action)))),
    {
        let status = if action.status >= 400 && action.status < 500 { action.status } else { 403 };
        let detail = match &action.message {
            Some(m) => m.clone(),
            None => action.code.clone(),
        };
        let mut m = crate::json::members_new();
        obj_push(&mut m, "type", Json::Str(concat("urn:barbacane:error:", action.code.as_str())));
        obj_push(&mut m, "title", jstr(http_reason_phrase(status)));
        obj_push(&mut m, "status", Json::Number(JsonNumber::PosInt(status as u64)));
        obj_push(&mut m, "code", Json::Str(action.code.clone()));
        obj_push(&mut m, "detail", Json::Str(detail));
        assert(json_members_view(m@) =~= deny_json(*action)->Object_0);
        json_text_response(status, "application/problem+json", &Json::Object(m))
    }

    /// What a request is answered once the expression gave `outcome`.
    pub fn decide_outcome(&self, req: Request, outcome: CelOutcome) -> (r: CelStep)
        ensures
            step_for(*self, req, outcome_view(outcome), r),
    {
        match outcome {
            CelOutcome::Bool(true) => match &self.on_match {
                Some(om) => match &om.deny {
                    Some(d) => CelStep { action: Action::ShortCircuit(self.deny_action_response(d)), set_context: Vec::new() },
                    None => CelStep { action: Action::Continue(req), set_context: om.set_context.pairs() },
                },
                None => CelStep { action: Action::Continue(req), set_context: no_context() },
            },
            CelOutcome::Bool(false) => if self.on_match.is_some() {
                CelStep { action: Action::Continue(req), set_context: no_context() }
            } else {
                let resp = self.denied_response();
                CelStep { action: Action::ShortCircuit(resp), set_context: Vec::new() }
            },
            CelOutcome::Other(k) => {
                let mut d = owned("expression returned ");
                push_str(&mut d, value_type_name(&k));
                push_str(&mut d, ", expected bool");
                let resp = self.eval_error_response(d.as_str());
                CelStep { action: Action::ShortCircuit(resp), set_context: Vec::new() }
            },
            CelOutcome::Failed(e) => {
                let resp = self.eval_error_response(e.as_str());
                CelStep { action: Action::ShortCircuit(resp), set_context: Vec::new() }
            },
        }
    }

    /// Evaluates the policy for a request: a policy that cannot be used is
    /// answered 500; a request on which a comprehension of the expression
    /// would range over a value that is neither a list nor a map is answered
    /// 500 without running it; otherwise the expression runs on the
    /// request's context and the request is answered as `decide_outcome`
    /// says for what it gave.
    pub fn on_request(&mut self, req: Request) -> (r: CelStep)
        ensures
            final(self).expression == old(self).expression,
            final(self).on_match == old(self).on_match,
            final(self).deny_message == old(self).deny_message,
            match config_problem(*old(self)) {
                Some(e) => r.action matches Action::ShortCircuit(resp) && resp.status == 500
                    && resp.headers@ == one_header("content-type"@, "application/problem+json"@)
                    && body_view(resp.body) == Some(encode_utf8(json_text(config_error_json(e)))) && r.set_context@.len() == 0,
                None => if targets_safe(request_cel(req), cel_targets(program_source(*old(self)))) {
                    exists|o: CelOutcomeV| step_for(*old(self), req, o, r)
                } else {
                    r.action matches Action::ShortCircuit(resp) && resp.status == 500
                        && resp.headers@ == one_header("content-type"@, "application/problem+json"@)
                        && body_view(resp.body) == Some(encode_utf8(json_text(eval_error_json(range_error_detail())))) && r.set_context@.len() == 0
                },
            },
    {
        if let Err(msg) = self.ensure_compiled() {
            let resp = self.config_error_response(msg.as_str());
            return CelStep { action: Action::ShortCircuit(resp), set_context: Vec::new() };
        }
        let request = build_context(&req);
        let outcome = match &self.compiled {
            Some(p) => {
                proof {
                    use_type_invariant(p);
                }
                if !targets_safe_exec(&request, &p.targets) {
                    let resp = self.eval_error_response("expression ranges over a value that is neither a list nor a map");
                    return CelStep { action: Action::ShortCircuit(resp), set_context: Vec::new() };
                }
                cel_execute(p, &request)
            },
            None => CelOutcome::Failed(String::new()),
        };
        let ghost o = outcome_view(outcome);
        let r = self.decide_outcome(req, outcome);
        assert(step_for(*old(self), req, o, r));
        r
    }

    /// Responses pass untouched.
    pub fn on_response(&mut self, resp: Response) -> (r: Response)
        ensures
            r == resp,
    {
        resp
    }
}

} // verus!
