//! A JSON document model the plugins compute on.

use vstd::prelude::*;
use crate::text::str_eq;
use serde_json::Value;

verus! {

/// A JSON number, kept in the three forms that serde_json distinguishes.
pub enum JsonNumber {
    PosInt(u64),
    NegInt(i64),
    /// A number that is neither an unsigned nor a signed 64-bit integer,
    /// kept as its decimal text.
    Float(String),
}

/// A JSON value. Object members keep their order; keys are unique in every
/// object this library builds.
pub enum Json {
    Null,
    Bool(bool),
    Number(JsonNumber),
    Str(String),
    Array(Vec<Json>),
    Object(Vec<(String, Json)>),
}

/// The mathematical form of a JSON number.
pub enum NumV {
    PosInt(u64),
    NegInt(i64),
    Float(Seq<char>),
}

/// The mathematical form of a JSON value.
pub enum JsonV {
    Null,
    Bool(bool),
    Number(NumV),
    Str(Seq<char>),
    Array(Seq<JsonV>),
    Object(Seq<(Seq<char>, JsonV)>),
}

impl View for JsonNumber {
    type V = NumV;

    open spec fn view(&self) -> NumV {
        match self {
            JsonNumber::PosInt(u) => NumV::PosInt(*u),
            JsonNumber::NegInt(i) => NumV::NegInt(*i),
            JsonNumber::Float(s) => NumV::Float(s@),
        }
    }
}

pub open spec fn json_view(j: Json) -> JsonV
    decreases j,
{
    match j {
        Json::Null => JsonV::Null,
        Json::Bool(b) => JsonV::Bool(b),
        Json::Number(n) => JsonV::Number(n@),
        Json::Str(s) => JsonV::Str(s@),
        Json::Array(v) => JsonV::Array(json_seq_view(v@)),
        Json::Object(m) => JsonV::Object(json_members_view(m@)),
    }
}

pub open spec fn json_seq_view(s: Seq<Json>) -> Seq<JsonV>
    decreases s,
{
    if s.len() == 0 {
        Seq::empty()
    } else {
        json_seq_view(s.drop_last()).push(json_view(s.last()))
    }
}

pub open spec fn json_members_view(s: Seq<(String, Json)>) -> Seq<(Seq<char>, JsonV)>
    decreases s,
{
    if s.len() == 0 {
        Seq::empty()
    } else {
        json_members_view(s.drop_last()).push((s.last().0@, json_view(s.last().1)))
    }
}

impl View for Json {
    type V = JsonV;

    open spec fn view(&self) -> JsonV {
        json_view(*self)
    }
}

pub proof fn lemma_seq_view(s: Seq<Json>)
    ensures
        json_seq_view(s).len() == s.len(),
        forall|i: int| 0 <= i < s.len() ==> #[trigger] json_seq_view(s)[i] == json_view(s[i]),
    decreases s.len(),
{
    if s.len() > 0 {
        lemma_seq_view(s.drop_last());
    }
}

pub proof fn lemma_members_view(s: Seq<(String, Json)>)
    ensures
        json_members_view(s).len() == s.len(),
        forall|i: int| 0 <= i < s.len() ==> #[trigger] json_members_view(s)[i] == (s[i].0@, json_view(s[i].1)),
    decreases s.len(),
{
    if s.len() > 0 {
        lemma_members_view(s.drop_last());
    }
}

pub proof fn lemma_seq_view_push(s: Seq<Json>, x: Json)
    ensures
        json_seq_view(s.push(x)) == json_seq_view(s).push(json_view(x)),
{
    assert(s.push(x).drop_last() =~= s);
}

pub proof fn lemma_members_view_push(s: Seq<(String, Json)>, k: String, x: Json)
    ensures
        json_members_view(s.push((k, x))) == json_members_view(s).push((k@, json_view(x))),
{
    assert(s.push((k, x)).drop_last() =~= s);
}

/// The optional JSON value as its mathematical form.
pub open spec fn opt_json(o: Option<Json>) -> Option<JsonV> {
    match o {
        Some(j) => Some(j@),
        None => None,
    }
}

/// The value of the first member named `k` of an object, if any
/// (`Value::get` with a string index).
pub open spec fn member(members: Seq<(Seq<char>, JsonV)>, k: Seq<char>) -> Option<JsonV>
    decreases members.len(),
{
    if members.len() == 0 {
        None
    } else if members[0].0 == k {
        Some(members[0].1)
    } else {
        member(members.drop_first(), k)
    }
}

/// Appending a member changes the lookup of `k` only when `k` was absent
/// and the new member is `k`.
pub proof fn lemma_member_push(m: Seq<(Seq<char>, JsonV)>, x: (Seq<char>, JsonV), k: Seq<char>)
    ensures
        member(m.push(x), k) == (match member(m, k) {
            Some(v) => Some(v),
            None => if x.0 == k { Some(x.1) } else { None },
        }),
    decreases m.len(),
{
    if m.len() > 0 {
        assert(m.push(x).drop_first() =~= m.drop_first().push(x));
        assert(m.push(x)[0] == m[0]);
        lemma_member_push(m.drop_first(), x, k);
    } else {
        let e = Seq::<(Seq<char>, JsonV)>::empty();
        assert(m =~= e);
        assert(m.push(x).drop_first() =~= e);
        assert(member(e, k) is None);
        assert(m.push(x)[0] == x);
    }
}

/// `Value::get(k)`: the member `k` of an object; `None` for any other value.
pub open spec fn get(v: JsonV, k: Seq<char>) -> Option<JsonV> {
    match v {
        JsonV::Object(m) => member(m, k),
        _ => None,
    }
}

/// `v[k]`: the member `k` of an object, `Null` when absent.
pub open spec fn field(v: JsonV, k: Seq<char>) -> JsonV {
    match get(v, k) {
        Some(x) => x,
        None => JsonV::Null,
    }
}

/// `Value::as_str`.
pub open spec fn as_str(v: JsonV) -> Option<Seq<char>> {
    match v {
        JsonV::Str(s) => Some(s),
        _ => None,
    }
}

/// `Value::as_u64`.
pub open spec fn as_u64(v: JsonV) -> Option<u64> {
    match v {
        JsonV::Number(NumV::PosInt(u)) => Some(u),
        _ => None,
    }
}

/// `Value::as_bool`.
pub open spec fn as_bool(v: JsonV) -> Option<bool> {
    match v {
        JsonV::Bool(b) => Some(b),
        _ => None,
    }
}

/// `Value::as_array`.
pub open spec fn as_array(v: JsonV) -> Option<Seq<JsonV>> {
    match v {
        JsonV::Array(a) => Some(a),
        _ => None,
    }
}

/// What `serde_json::from_slice::<Value>` returns for a byte string: the
/// value, or the text of the error it reports.
pub uninterp spec fn json_parse(bytes: Seq<u8>) -> Result<JsonV, Seq<char>>;

/// The parse of `bytes` as an option.
pub open spec fn parsed(bytes: Seq<u8>) -> Option<JsonV> {
    match json_parse(bytes) {
        Ok(v) => Some(v),
        Err(_) => None,
    }
}

/// The bytes that `serde_json::to_vec` writes for a value (object members
/// in key order, a repeated key keeping its last value).
pub uninterp spec fn json_bytes(v: JsonV) -> Seq<u8>;

/// The text that `Value::to_string` writes for a value.
pub uninterp spec fn json_text(v: JsonV) -> Seq<char>;

/// The serde_json value type, carried through conversions only.
#[verifier::external_type_specification]
#[verifier::external_body]
pub struct ExValue(serde_json::Value);

/// Converts a serde_json value into a `Json`, one node for one node.
#[verifier::external_body]
pub(crate) fn from_value(v: &Value) -> Json {
    match v {
        Value::Null => Json::Null,
        Value::Bool(b) => Json::Bool(*b),
        Value::Number(n) => Json::Number(match (n.as_u64(), n.as_i64()) {
            (Some(u), _) => JsonNumber::PosInt(u),
            (None, Some(i)) => JsonNumber::NegInt(i),
            _ => JsonNumber::Float(n.to_string()),
        }),
        Value::String(s) => Json::Str(s.clone()),
        Value::Array(a) => Json::Array(a.iter().map(from_value).collect()),
        Value::Object(o) => Json::Object(o.iter().map(|(k, x)| (k.clone(), from_value(x))).collect()),
    }
}

/// Converts a `Json` into a serde_json value, one node for one node.
#[verifier::external_body]
pub(crate) fn to_value(j: &Json) -> Value {
    match j {
        Json::Null => Value::Null,
        Json::Bool(b) => Value::Bool(*b),
        Json::Number(JsonNumber::PosInt(u)) => Value::from(*u),
        Json::Number(JsonNumber::NegInt(i)) => Value::from(*i),
        Json::Number(JsonNumber::Float(s)) => serde_json::from_str(s).unwrap_or(Value::Null),
        Json::Str(s) => Value::String(s.clone()),
        Json::Array(a) => Value::Array(a.iter().map(to_value).collect()),
        Json::Object(m) => Value::Object(m.iter().map(|(k, x)| (k.clone(), to_value(x))).collect()),
    }
}

/// `serde_json::from_slice::<Value>`: parses a JSON document, or gives the
/// text of the error.
#[verifier::external_body]
pub(crate) fn parse_json_result(bytes: &[u8]) -> (r: Result<Json, String>)
    ensures
        match r {
            Ok(j) => json_parse(bytes@) == Ok::<JsonV, Seq<char>>(j@),
            Err(e) => json_parse(bytes@) == Err::<JsonV, Seq<char>>(e@),
        },
{
    match serde_json::from_slice::<Value>(bytes) {
        Ok(v) => Ok(from_value(&v)),
        Err(e) => Err(e.to_string()),
    }
}

/// Parses a JSON document, `None` on error.
pub fn parse_json(bytes: &[u8]) -> (r: Option<Json>)
    ensures
        opt_json(r) == parsed(bytes@),
{
    match parse_json_result(bytes) {
        Ok(j) => Some(j),
        Err(_) => None,
    }
}

/// `serde_json::to_vec`: serializes a value.
#[verifier::external_body]
pub(crate) fn to_json_bytes(j: &Json) -> (r: Vec<u8>)
    ensures
        r@ == json_bytes(j@),
{
    serde_json::to_vec(&to_value(j)).unwrap_or_default()
}

/// `Value::to_string`: serializes a value as text.
#[verifier::external_body]
pub(crate) fn to_json_text(j: &Json) -> (r: String)
    ensures
        r@ == json_text(j@),
{
    to_value(j).to_string()
}

impl Json {
    /// A deep copy.
    pub fn copy(&self) -> (r: Json)
        ensures
            r@ == self@,
        decreases self,
    {
        match self {
            Json::Null => Json::Null,
            Json::Bool(b) => Json::Bool(*b),
            Json::Number(JsonNumber::PosInt(u)) => Json::Number(JsonNumber::PosInt(*u)),
            Json::Number(JsonNumber::NegInt(i)) => Json::Number(JsonNumber::NegInt(*i)),
            Json::Number(JsonNumber::Float(s)) => Json::Number(JsonNumber::Float(s.clone())),
            Json::Str(s) => Json::Str(s.clone()),
            Json::Array(a) => {
                let mut out: Vec<Json> = Vec::new();
                let mut i: usize = 0;
                while i < a.len()
                    invariant
                        *self == Json::Array(*a),
                        i <= a@.len(),
                        json_seq_view(out@) == json_seq_view(a@.subrange(0, i as int)),
                    decreases a@.len() - i,
                {
                    assert(decreases_to!(*self => (*self)->Array_0));
                    assert(decreases_to!(*a => a@));
                    assert(decreases_to!(a@ => a@[i as int]));
                    let x = a[i].copy();
                    proof {
                        lemma_seq_view_push(out@, x);
                        lemma_seq_view_push(a@.subrange(0, i as int), a@[i as int]);
                        assert(a@.subrange(0, i + 1) =~= a@.subrange(0, i as int).push(a@[i as int]));
                    }
                    out.push(x);
                    i = i + 1;
                }
                assert(a@.subrange(0, a@.len() as int) =~= a@);
                Json::Array(out)
            },
            Json::Object(m) => {
                let mut out: Vec<(String, Json)> = Vec::new();
                let mut i: usize = 0;
                while i < m.len()
                    invariant
                        *self == Json::Object(*m),
                        i <= m@.len(),
                        json_members_view(out@) == json_members_view(m@.subrange(0, i as int)),
                    decreases m@.len() - i,
                {
                    assert(decreases_to!(*self => (*self)->Object_0));
                    assert(decreases_to!(*m => m@));
                    assert(decreases_to!(m@ => m@[i as int]));
                    assert(decreases_to!(m@[i as int] => m@[i as int].1));
                    let x = m[i].1.copy();
                    let k = m[i].0.clone();
                    proof {
                        lemma_members_view_push(out@, k, x);
                        lemma_members_view_push(m@.subrange(0, i as int), m@[i as int].0, m@[i as int].1);
                        assert(m@.subrange(0, i + 1) =~= m@.subrange(0, i as int).push(m@[i as int]));
                    }
                    out.push((k, x));
                    i = i + 1;
                }
                assert(m@.subrange(0, m@.len() as int) =~= m@);
                Json::Object(out)
            },
        }
    }

    /// `Value::get(k)`.
    pub fn get(&self, k: &str) -> (r: Option<&Json>)
        ensures
            match r {
                Some(x) => get(self@, k@) == Some(x@),
                None => get(self@, k@) is None,
            },
    {
        match self {
            Json::Object(m) => {
                proof { lemma_members_view(m@); }
                let ghost mv = json_members_view(m@);
                assert(mv.subrange(0, mv.len() as int) =~= mv);
                let mut i: usize = 0;
                while i < m.len()
                    invariant
                        *self == Json::Object(*m),
                        i <= m@.len(),
                        mv == json_members_view(m@),
                        mv.len() == m@.len(),
                        forall|j: int| 0 <= j < m@.len() ==> #[trigger] mv[j] == (m@[j].0@, json_view(m@[j].1)),
                        member(mv, k@) == member(mv.subrange(i as int, mv.len() as int), k@),
                    decreases m@.len() - i,
                {
                    let ghost rest = mv.subrange(i as int, mv.len() as int);
                    assert(rest[0] == mv[i as int]);
                    if str_eq(m[i].0.as_str(), k) {
                        return Some(&m[i].1);
                    }
                    assert(rest.drop_first() =~= mv.subrange(i + 1, mv.len() as int));
                    i = i + 1;
                }
                None
            },
            _ => None,
        }
    }

    /// `Value::as_str`.
    pub fn as_str(&self) -> (r: Option<&String>)
        ensures
            match r {
                Some(s) => as_str(self@) == Some(s@),
                None => as_str(self@) is None,
            },
    {
        match self {
            Json::Str(s) => Some(s),
            _ => None,
        }
    }

    /// `Value::as_u64`.
    pub fn as_u64(&self) -> (r: Option<u64>)
        ensures
            r == as_u64(self@),
    {
        match self {
            Json::Number(JsonNumber::PosInt(u)) => Some(*u),
            _ => None,
        }
    }

    /// `Value::as_bool`.
    pub fn as_bool(&self) -> (r: Option<bool>)
        ensures
            r == as_bool(self@),
    {
        match self {
            Json::Bool(b) => Some(*b),
            _ => None,
        }
    }

    /// `Value::as_array`.
    pub fn as_array(&self) -> (r: Option<&Vec<Json>>)
        ensures
            match r {
                Some(a) => as_array(self@) == Some(json_seq_view(a@)),
                None => as_array(self@) is None,
            },
    {
        match self {
            Json::Array(a) => Some(a),
            _ => None,
        }
    }

    /// `Value::is_null`.
    pub fn is_null(&self) -> (r: bool)
        ensures
            r == (self@ == JsonV::Null),
    {
        match self {
            Json::Null => true,
            _ => false,
        }
    }
}

/// An object builder: members are appended in order.
pub fn obj_push(m: &mut Vec<(String, Json)>, k: &str, v: Json)
    ensures
        json_members_view(final(m)@) == json_members_view(old(m)@).push((k@, v@)),
{
    let key = crate::text::owned(k);
    proof { lemma_members_view_push(m@, key, v); }
    m.push((key, v));
}

/// Appends a member to the members of `m`.
/// The value of the first member named `k`.
pub fn members_get<'a>(m: &'a Vec<(String, Json)>, k: &str) -> (r: Option<&'a Json>)
    ensures
        match r {
            Some(x) => member(json_members_view(m@), k@) == Some(x@),
            None => member(json_members_view(m@), k@) is None,
        },
{
    proof { lemma_members_view(m@); }
    let ghost mv = json_members_view(m@);
    assert(mv.skip(0) =~= mv);
    let mut i: usize = 0;
    while i < m.len()
        invariant
            i <= m@.len(),
            mv == json_members_view(m@),
            mv.len() == m@.len(),
            forall|j: int| 0 <= j < m@.len() ==> #[trigger] mv[j] == (m@[j].0@, json_view(m@[j].1)),
            member(mv, k@) == member(mv.skip(i as int), k@),
        decreases m@.len() - i,
    {
        let ghost rest = mv.skip(i as int);
        assert(rest[0] == mv[i as int]);
        if crate::text::str_eq(m[i].0.as_str(), k) {
            return Some(&m[i].1);
        }
        assert(rest.drop_first() =~= mv.skip(i + 1));
        i = i + 1;
    }
    None
}

pub fn members_push(m: &mut Vec<(String, Json)>, k: String, v: Json)
    ensures
        json_members_view(final(m)@) == json_members_view(old(m)@).push((k@, v@)),
{
    proof { lemma_members_view_push(m@, k, v); }
    m.push((k, v));
}

/// Appends a value to an array.
pub fn arr_push(a: &mut Vec<Json>, v: Json)
    ensures
        json_seq_view(final(a)@) == json_seq_view(old(a)@).push(v@),
{
    proof { lemma_seq_view_push(a@, v); }
    a.push(v);
}

/// The members of an empty object.
pub fn members_new() -> (r: Vec<(String, Json)>)
    ensures
        json_members_view(r@) == Seq::<(Seq<char>, JsonV)>::empty(),
{
    let r: Vec<(String, Json)> = Vec::new();
    assert(json_members_view(r@) =~= Seq::<(Seq<char>, JsonV)>::empty());
    r
}

/// An empty array.
pub fn arr_new() -> (r: Vec<Json>)
    ensures
        json_seq_view(r@) == Seq::<JsonV>::empty(),
{
    let r: Vec<Json> = Vec::new();
    assert(json_seq_view(r@) =~= Seq::<JsonV>::empty());
    r
}

/// `Value::get(k)` cloned, `Null` when absent (`v.get(k).cloned().unwrap_or(Value::Null)`).
pub fn get_or_null(v: &Json, k: &str) -> (r: Json)
    ensures
        r@ == field(v@, k@),
{
    match v.get(k) {
        Some(x) => x.copy(),
        None => Json::Null,
    }
}

/// `v[k]` by reference: the member, or a `Null` to read from.
pub fn field_ref<'a>(v: &'a Json, k: &str, null: &'a Json) -> (r: &'a Json)
    requires
        null@ == JsonV::Null,
    ensures
        r@ == field(v@, k@),
{
    match v.get(k) {
        Some(x) => x,
        None => null,
    }
}

/// A `Null` value.
pub fn null_json() -> (r: Json)
    ensures
        r@ == JsonV::Null,
{
    Json::Null
}

/// A JSON string value.
pub fn jstr(s: &str) -> (r: Json)
    ensures
        r@ == JsonV::Str(s@),
{
    Json::Str(crate::text::owned(s))
}

// ---------------------------------------------------------------------------
// Objects written in a given member order
// ---------------------------------------------------------------------------

/// One member of an object as text: the key as a JSON string, `:`, and the
/// value's text.
pub open spec fn member_text(k: Seq<char>, t: Seq<char>) -> Seq<char> {
    json_text(JsonV::Str(k)) + seq![':'] + t
}

/// Members as text, separated by `,`, in the given order.
pub open spec fn members_joined(ms: Seq<(Seq<char>, Seq<char>)>) -> Seq<char>
    decreases ms.len(),
{
    if ms.len() == 0 {
        Seq::empty()
    } else if ms.len() == 1 {
        member_text(ms[0].0, ms[0].1)
    } else {
        members_joined(ms.drop_last()) + seq![','] + member_text(ms.last().0, ms.last().1)
    }
}

/// The compact text of an object whose members (keys and the texts of
/// their values) are written in the given order: the form serde gives a
/// struct, whose fields come in declaration order, where a `Value` object
/// would sort them.
pub open spec fn struct_text(ms: Seq<(Seq<char>, Seq<char>)>) -> Seq<char> {
    seq!['{'] + members_joined(ms) + seq!['}']
}

/// The members with each value replaced by its text.
pub open spec fn texts_of(ms: Seq<(Seq<char>, JsonV)>) -> Seq<(Seq<char>, Seq<char>)> {
    ms.map_values(|m: (Seq<char>, JsonV)| (m.0, json_text(m.1)))
}

pub open spec fn pairs_view(ps: Seq<(String, String)>) -> Seq<(Seq<char>, Seq<char>)> {
    ps.map_values(|p: (String, String)| (p.0@, p.1@))
}

/// The members of an object with each value written as text.
pub fn member_texts(ms: &Vec<(String, Json)>) -> (r: Vec<(String, String)>)
    ensures
        pairs_view(r@) == texts_of(json_members_view(ms@)),
{
    proof { lemma_members_view(ms@); }
    let ghost mv = json_members_view(ms@);
    let mut out: Vec<(String, String)> = Vec::new();
    let mut i: usize = 0;
    while i < ms.len()
        invariant
            i <= ms@.len(),
            mv == json_members_view(ms@),
            mv.len() == ms@.len(),
            forall|k: int| 0 <= k < ms@.len() ==> #[trigger] mv[k] == (ms@[k].0@, json_view(ms@[k].1)),
            out@.len() == i,
            pairs_view(out@) == texts_of(mv).subrange(0, i as int),
        decreases ms@.len() - i,
    {
        let t = to_json_text(&ms[i].1);
        let k = ms[i].0.clone();
        let ghost before = out@;
        out.push((k, t));
        assert(pairs_view(out@) =~= texts_of(mv).subrange(0, i + 1));
        i = i + 1;
    }
    assert(texts_of(mv).subrange(0, ms@.len() as int) =~= texts_of(mv));
    out
}

/// Writes members, given as keys and value texts, in order, separated by
/// `,`.
pub fn members_joined_of(ms: &Vec<(String, String)>) -> (r: String)
    ensures
        r@ == members_joined(pairs_view(ms@)),
{
    let ghost pv = pairs_view(ms@);
    let mut out = String::new();
    let mut i: usize = 0;
    assert(pv.subrange(0, 0) =~= Seq::<(Seq<char>, Seq<char>)>::empty());
    while i < ms.len()
        invariant
            i <= ms@.len(),
            pv == pairs_view(ms@),
            out@ == members_joined(pv.subrange(0, i as int)),
        decreases ms@.len() - i,
    {
        let ghost sub = pv.subrange(0, i + 1);
        assert(sub.drop_last() =~= pv.subrange(0, i as int));
        assert(sub.last() == (ms@[i as int].0@, ms@[i as int].1@));
        if i > 0 {
            crate::text::push_char(&mut out, ',');
        }
        let key = to_json_text(&Json::Str(ms[i].0.clone()));
        crate::text::push_str(&mut out, key.as_str());
        crate::text::push_char(&mut out, ':');
        crate::text::push_str(&mut out, ms[i].1.as_str());
        proof {
            if i == 0 {
                assert(sub.len() == 1 && sub[0] == sub.last());
                assert(pv.subrange(0, 0) =~= Seq::<(Seq<char>, Seq<char>)>::empty());
            }
        }
        assert(out@ =~= members_joined(sub));
        i = i + 1;
    }
    assert(pv.subrange(0, ms@.len() as int) =~= pv);
    out
}

/// Writes an object's members, given as keys and value texts, in order.
pub fn struct_text_of(ms: &Vec<(String, String)>) -> (r: String)
    ensures
        r@ == struct_text(pairs_view(ms@)),
{
    let joined = members_joined_of(ms);
    let mut out = String::new();
    crate::text::push_char(&mut out, '{');
    crate::text::push_str(&mut out, joined.as_str());
    crate::text::push_char(&mut out, '}');
    assert(out@ =~= struct_text(pairs_view(ms@)));
    out
}

} // verus!
