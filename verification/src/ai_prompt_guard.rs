//! The AI prompt guard: named profiles bound the number and length of chat
//! messages, reject blocked patterns, and inject a managed system prompt.

use vstd::prelude::*;
use crate::headers::{HeaderMap, map_get, opt_view};
use crate::http::{
    Action, Request, Response, body_view, one_header, json_text_response, problem_members, problem_object,
    with_body,
};
use crate::json::{
    Json, JsonV, as_array, as_str, field, field_ref, get, json_bytes, json_members_view, json_seq_view,
    json_text, jstr, lemma_seq_view, members_new, arr_new, arr_push, obj_push, null_json, parse_json, parsed,
    to_json_bytes,
};
use crate::pattern::{
    CompiledPattern, compile_pattern, pattern_is_match, pattern_views, regex_error, regex_match,
};
use crate::ai_proxy::responses::{set_member, set_member_exec};
use crate::text::{
    concat, decimal, first_index, owned, push_char, push_str, str_eq, u64_to_string, views, chars_of,
};
use vstd::utf8::encode_utf8;

verus! {

// ---------------------------------------------------------------------------
// Profiles
// ---------------------------------------------------------------------------

/// One named policy.
pub struct PromptProfile {
    pub max_messages: Option<usize>,
    pub max_message_length: Option<usize>,
    pub blocked_patterns: Vec<String>,
    pub system_template: Option<String>,
    /// The `{name}` substitutions of the template.
    pub template_vars: HeaderMap,
    pub reject_status: u16,
}

pub fn default_reject_status() -> (r: u16)
    ensures r == 400,
{
    400
}

pub fn default_context_key() -> (r: String)
    ensures r@ == "ai.policy"@,
{
    owned("ai.policy")
}

/// The profile registered under `name` (the first such row).
pub open spec fn profile_named<P>(ps: Seq<(String, P)>, name: Seq<char>) -> Option<P>
    decreases ps.len(),
{
    if ps.len() == 0 {
        None
    } else if ps[0].0@ == name {
        Some(ps[0].1)
    } else {
        profile_named(ps.drop_first(), name)
    }
}

/// The profile in force: the one the context names when it exists, else
/// the default.
pub open spec fn chosen_profile<P>(ps: Seq<(String, P)>, default: Seq<char>, policy: Option<Seq<char>>) -> Seq<char> {
    match policy {
        Some(n) => if profile_named(ps, n) is Some { n } else { default },
        None => default,
    }
}

/// Finds the profile named `name`.
pub fn find_profile<P>(ps: &Vec<(String, P)>, name: &str) -> (r: Option<usize>)
    ensures
        match r {
            Some(i) => i < ps@.len() && profile_named(ps@, name@) == Some(ps@[i as int].1),
            None => profile_named(ps@, name@) is None,
        },
{
    let ghost t = ps@;
    assert(t.skip(0) =~= t);
    let mut i: usize = 0;
    while i < ps.len()
        invariant
            t == ps@,
            i <= t.len(),
            profile_named(t, name@) == profile_named(t.skip(i as int), name@),
        decreases t.len() - i,
    {
        let ghost rest = t.skip(i as int);
        assert(rest[0] == t[i as int]);
        if str_eq(ps[i].0.as_str(), name) {
            return Some(i);
        }
        assert(rest.drop_first() =~= t.skip(i + 1));
        i = i + 1;
    }
    None
}

/// Picks the profile name: the context's when it names a profile, else
/// the default.
pub fn resolve_profile_name<P>(ps: &Vec<(String, P)>, default_profile: &str, policy: Option<&str>) -> (r: String)
    ensures
        r@ == chosen_profile(ps@, default_profile@, match policy { Some(n) => Some(n@), None => None }),
{
    match policy {
        Some(n) => match find_profile(ps, n) {
            Some(_) => owned(n),
            None => owned(default_profile),
        },
        None => owned(default_profile),
    }
}

// ---------------------------------------------------------------------------
// Pattern compilation
// ---------------------------------------------------------------------------

/// The patterns that compile, in order.
pub open spec fn valid_patterns(ps: Seq<Seq<char>>) -> Seq<Seq<char>>
    decreases ps.len(),
{
    if ps.len() == 0 {
        Seq::empty()
    } else {
        let prev = valid_patterns(ps.drop_last());
        if regex_error(ps.last()) is None { prev.push(ps.last()) } else { prev }
    }
}

/// The report of the first pattern that does not compile, in the words
/// `invalid <what> regex '<pattern>': <error>`.
pub open spec fn first_pattern_error(ps: Seq<Seq<char>>, what: Seq<char>) -> Option<Seq<char>>
    decreases ps.len(),
{
    if ps.len() == 0 {
        None
    } else {
        match first_pattern_error(ps.drop_last(), what) {
            Some(e) => Some(e),
            None => match regex_error(ps.last()) {
                Some(e) => Some("invalid "@ + what + " regex '"@ + ps.last() + "': "@ + e),
                None => None,
            },
        }
    }
}

/// Compiles the patterns: the ones that compile, and the report of the
/// first that does not.
pub fn compile_patterns(ps: &Vec<String>, what: &str) -> (r: (Vec<CompiledPattern>, Option<String>))
    ensures
        pattern_views(r.0@) == valid_patterns(views(ps@)),
        opt_view(r.1) == first_pattern_error(views(ps@), what@),
{
    let ghost pv = views(ps@);
    let mut out: Vec<CompiledPattern> = Vec::new();
    let mut first: Option<String> = None;
    let mut i: usize = 0;
    assert(pv.subrange(0, 0) =~= Seq::<Seq<char>>::empty());
    assert(pattern_views(out@) =~= Seq::<Seq<char>>::empty());
    while i < ps.len()
        invariant
            i <= ps@.len(),
            pv == views(ps@),
            pattern_views(out@) == valid_patterns(pv.subrange(0, i as int)),
            opt_view(first) == first_pattern_error(pv.subrange(0, i as int), what@),
        decreases ps@.len() - i,
    {
        assert(pv.subrange(0, i + 1).drop_last() =~= pv.subrange(0, i as int));
        assert(pv.subrange(0, i + 1).last() == ps@[i as int]@);
        match compile_pattern(ps[i].as_str()) {
            Ok(p) => {
                let ghost before = pattern_views(out@);
                out.push(p);
                assert(pattern_views(out@) =~= before.push(ps@[i as int]@));
            },
            Err(e) => {
                if first.is_none() {
                    let mut msg = owned("invalid ");
                    push_str(&mut msg, what);
                    push_str(&mut msg, " regex '");
                    push_str(&mut msg, ps[i].as_str());
                    push_str(&mut msg, "': ");
                    push_str(&mut msg, e.as_str());
                    first = Some(msg);
                }
            },
        }
        i = i + 1;
    }
    assert(pv.subrange(0, ps@.len() as int) =~= pv);
    (out, first)
}

// ---------------------------------------------------------------------------
// Message inspection
// ---------------------------------------------------------------------------

/// Texts of the `type: "text"` parts with a string `text`, each appended
/// after a newline once the text so far is non-empty.
pub open spec fn text_parts(parts: Seq<JsonV>) -> Seq<char>
    decreases parts.len(),
{
    if parts.len() == 0 {
        Seq::empty()
    } else {
        let acc = text_parts(parts.drop_last());
        let p = parts.last();
        if as_str(field(p, "type"@)) == Some("text"@) {
            match as_str(field(p, "text"@)) {
                Some(t) => if acc.len() == 0 { t } else { acc.push('\n') + t },
                None => acc,
            }
        } else {
            acc
        }
    }
}

/// The text of a message's `content`: the string itself, or the text
/// parts of a multimodal array.
pub open spec fn message_text(msg: JsonV) -> Seq<char> {
    match get(msg, "content"@) {
        Some(JsonV::Str(s)) => s,
        Some(JsonV::Array(parts)) => text_parts(parts),
        _ => Seq::empty(),
    }
}

/// Extracts the text of a message's `content`.
pub fn extract_message_text(msg: &Json) -> (r: String)
    ensures
        r@ == message_text(msg@),
{
    let content = match msg.get("content") {
        Some(c) => c,
        None => return String::new(),
    };
    match content {
        Json::Str(s) => s.clone(),
        Json::Array(parts) => {
            proof { lemma_seq_view(parts@); }
            let ghost pv = json_seq_view(parts@);
            let null = null_json();
            let mut out = String::new();
            let mut i: usize = 0;
            assert(pv.subrange(0, 0) =~= Seq::<JsonV>::empty());
            while i < parts.len()
                invariant
                    i <= parts@.len(),
                    null@ == JsonV::Null,
                    pv.len() == parts@.len(),
                    forall|k: int| 0 <= k < parts@.len() ==> #[trigger] pv[k] == parts@[k]@,
                    out@ == text_parts(pv.subrange(0, i as int)),
                decreases parts@.len() - i,
            {
                assert(pv.subrange(0, i + 1).drop_last() =~= pv.subrange(0, i as int));
                assert(pv.subrange(0, i + 1).last() == parts@[i as int]@);
                let p = &parts[i];
                let is_text = match field_ref(p, "type", &null).as_str() {
                    Some(t) => str_eq(t.as_str(), "text"),
                    None => false,
                };
                if is_text {
                    match field_ref(p, "text", &null).as_str() {
                        Some(t) => {
                            if !out.as_str().is_empty() {
                                push_char(&mut out, '\n');
                            }
                            push_str(&mut out, t.as_str());
                        },
                        None => {},
                    }
                }
                i = i + 1;
            }
            assert(pv.subrange(0, parts@.len() as int) =~= pv);
            out
        },
        _ => String::new(),
    }
}

/// Whether some pattern matches the text.
pub open spec fn any_match(ps: Seq<Seq<char>>, text: Seq<char>) -> bool {
    exists|i: int| 0 <= i < ps.len() && regex_match(ps[i], text)
}

/// Whether one of the compiled patterns matches the text.
pub fn any_pattern_matches(ps: &Vec<CompiledPattern>, text: &str) -> (r: bool)
    ensures
        r == any_match(pattern_views(ps@), text@),
{
    let ghost pv = pattern_views(ps@);
    let mut i: usize = 0;
    while i < ps.len()
        invariant
            i <= ps@.len(),
            pv == pattern_views(ps@),
            forall|j: int| 0 <= j < i ==> !regex_match(pv[j], text@),
        decreases ps@.len() - i,
    {
        if pattern_is_match(&ps[i], text) {
            assert(regex_match(pv[i as int], text@));
            return true;
        }
        i = i + 1;
    }
    false
}

/// What is wrong with message `idx`, if anything: its length first, then
/// the blocked patterns.
pub open spec fn violation_at(msg: JsonV, idx: nat, ps: Seq<Seq<char>>, max_len: Option<usize>) -> Option<Seq<char>> {
    let text = message_text(msg);
    match max_len {
        Some(m) if text.len() > m => Some("message["@ + decimal(idx) + "] exceeds max_message_length ("@ + decimal(m as nat) + " chars)"@),
        _ => if any_match(ps, text) { Some("prompt contains disallowed content"@) } else { None },
    }
}

/// The first violation among the messages.
pub open spec fn first_violation(msgs: Seq<JsonV>, ps: Seq<Seq<char>>, max_len: Option<usize>) -> Option<Seq<char>>
    decreases msgs.len(),
{
    if msgs.len() == 0 {
        None
    } else {
        match first_violation(msgs.drop_last(), ps, max_len) {
            Some(d) => Some(d),
            None => violation_at(msgs.last(), (msgs.len() - 1) as nat, ps, max_len),
        }
    }
}

/// Every message is checked, and the first offending one decides: the
/// request is let through only when no message breaks the length bound or
/// matches a blocked pattern; otherwise the detail is that of the first
/// message that does.
pub proof fn law_every_message_checked(msgs: Seq<JsonV>, ps: Seq<Seq<char>>, max_len: Option<usize>)
    ensures
        first_violation(msgs, ps, max_len) is None
            <==> forall|k: int| 0 <= k < msgs.len() ==> (#[trigger] violation_at(msgs[k], k as nat, ps, max_len)) is None,
        first_violation(msgs, ps, max_len) matches Some(d) ==> exists|k: int| 0 <= k < msgs.len()
            && violation_at(msgs[k], k as nat, ps, max_len) == Some(d)
            && forall|j: int| 0 <= j < k ==> (#[trigger] violation_at(msgs[j], j as nat, ps, max_len)) is None,
    decreases msgs.len(),
{
    if msgs.len() > 0 {
        let init = msgs.drop_last();
        let n = msgs.len() - 1;
        law_every_message_checked(init, ps, max_len);
        assert forall|k: int| 0 <= k < init.len() implies #[trigger] violation_at(init[k], k as nat, ps, max_len)
            == violation_at(msgs[k], k as nat, ps, max_len) by {
            assert(init[k] == msgs[k]);
        }
        assert(msgs.last() == msgs[n]);
        match first_violation(init, ps, max_len) {
            Some(d) => {
                let k = choose|k: int| 0 <= k < init.len() && violation_at(init[k], k as nat, ps, max_len) == Some(d)
                    && forall|j: int| 0 <= j < k ==> (#[trigger] violation_at(init[j], j as nat, ps, max_len)) is None;
                assert(violation_at(msgs[k], k as nat, ps, max_len) == Some(d));
                assert forall|j: int| 0 <= j < k implies (#[trigger] violation_at(msgs[j], j as nat, ps, max_len)) is None by {
                    assert(violation_at(init[j], j as nat, ps, max_len) is None);
                }
            },
            None => {
                assert forall|j: int| 0 <= j < n implies (#[trigger] violation_at(msgs[j], j as nat, ps, max_len)) is None by {
                    assert(violation_at(init[j], j as nat, ps, max_len) is None);
                }
            },
        }
    }
}

/// A message is a violation exactly when its text is longer than the
/// bound or some blocked pattern matches it.
pub proof fn law_violation_means_too_long_or_blocked(msg: JsonV, idx: nat, ps: Seq<Seq<char>>, max_len: Option<usize>)
    ensures
        violation_at(msg, idx, ps, max_len) is Some <==> (
            (max_len matches Some(m) && message_text(msg).len() > m)
            || exists|i: int| 0 <= i < ps.len() && #[trigger] regex_match(ps[i], message_text(msg))),
{
}

/// A request with a message, at any position, that a blocked pattern
/// matches or that is longer than the bound is rejected.
pub proof fn law_offending_message_anywhere_rejected(msgs: Seq<JsonV>, ps: Seq<Seq<char>>, max_len: Option<usize>, k: int)
    requires
        0 <= k < msgs.len(),
        (max_len matches Some(m) && message_text(msgs[k]).len() > m)
            || exists|i: int| 0 <= i < ps.len() && #[trigger] regex_match(ps[i], message_text(msgs[k])),
    ensures
        first_violation(msgs, ps, max_len) is Some,
{
    law_violation_means_too_long_or_blocked(msgs[k], k as nat, ps, max_len);
    law_every_message_checked(msgs, ps, max_len);
    assert(violation_at(msgs[k], k as nat, ps, max_len) is Some);
}

// ---------------------------------------------------------------------------
// Template rendering
// ---------------------------------------------------------------------------

/// `{name}` placeholders replaced by their values; an unknown placeholder
/// stays as it is, and an unclosed `{` keeps the rest of the text.
#[verifier::opaque]
pub open spec fn render(t: Seq<char>, vars: Map<Seq<char>, Seq<char>>) -> Seq<char>
    decreases t.len(),
{
    if t.len() == 0 {
        Seq::empty()
    } else if t[0] != '{' {
        seq![t[0]] + render(t.drop_first(), vars)
    } else {
        let rest = t.drop_first();
        match first_index(rest, '}') {
            None => seq!['{'] + rest,
            Some(k) => {
                proof { lemma_first_index_bound(rest, '}'); }
                let name = rest.subrange(0, k);
                placeholder(name, vars) + render(rest.skip(k + 1), vars)
            },
        }
    }
}

proof fn lemma_least_index(s: Seq<char>, c: char, i: int)
    requires
        0 <= i < s.len(),
        s[i] == c,
    ensures
        exists|k: int| 0 <= k < s.len() && s[k] == c && forall|j: int| 0 <= j < k ==> s[j] != c,
    decreases i,
{
    if exists|j: int| 0 <= j < i && s[j] == c {
        let j = choose|j: int| 0 <= j < i && s[j] == c;
        lemma_least_index(s, c, j);
    } else {
        assert(0 <= i < s.len() && s[i] == c && forall|j: int| 0 <= j < i ==> s[j] != c);
    }
}

/// A found index is in range, holds `c`, and no `c` precedes it.
pub proof fn lemma_first_index_bound(s: Seq<char>, c: char)
    ensures
        first_index(s, c) matches Some(k) ==> 0 <= k < s.len() && s[k] == c && forall|j: int| 0 <= j < k ==> s[j] != c,
{
    if exists|i: int| 0 <= i < s.len() && s[i] == c {
        let i = choose|i: int| 0 <= i < s.len() && s[i] == c;
        lemma_least_index(s, c, i);
    }
}

proof fn lemma_first_index_at(s: Seq<char>, c: char, k: int)
    requires
        0 <= k < s.len(),
        s[k] == c,
        forall|j: int| 0 <= j < k ==> s[j] != c,
    ensures
        first_index(s, c) == Some(k),
{
    let w = choose|i: int| 0 <= i < s.len() && s[i] == c && forall|j: int| 0 <= j < i ==> s[j] != c;
    assert(0 <= w < s.len() && s[w] == c && forall|j: int| 0 <= j < w ==> s[j] != c);
    if w < k { assert(s[w] != c); }
    if w > k { assert(s[k] != c); }
}

/// The position of the first `}` at or after `start`, or the end.
fn closing_brace(cs: &Vec<char>, start: usize) -> (j: usize)
    requires
        start <= cs@.len(),
    ensures
        start <= j <= cs@.len(),
        forall|q: int| start <= q < j ==> cs@[q] != '}',
        j < cs@.len() ==> cs@[j as int] == '}',
{
    let mut j = start;
    while j < cs.len() && cs[j] != '}'
        invariant
            start <= j <= cs@.len(),
            forall|q: int| start <= q < j ==> cs@[q] != '}',
        decreases cs@.len() - j,
    {
        j = j + 1;
    }
    j
}

/// The output of a placeholder whose name is `name`.
pub open spec fn placeholder(name: Seq<char>, vars: Map<Seq<char>, Seq<char>>) -> Seq<char> {
    match map_get(vars, name) {
        Some(v) => v,
        None => seq!['{'] + name + seq!['}'],
    }
}

proof fn lemma_render_brace(t: Seq<char>, vars: Map<Seq<char>, Seq<char>>, j: int)
    requires
        t.len() > 0,
        t[0] == '{',
        1 <= j <= t.len(),
        forall|q: int| 1 <= q < j ==> t[q] != '}',
        j < t.len() ==> t[j] == '}',
    ensures
        j == t.len() ==> render(t, vars) == seq!['{'] + t.subrange(1, j),
        j < t.len() ==> render(t, vars) == placeholder(t.subrange(1, j), vars) + render(t.skip(j + 1), vars),
{
    reveal(render);
    let rest = t.drop_first();
    if j == t.len() {
        assert forall|q: int| 0 <= q < rest.len() implies rest[q] != '}' by {
            assert(rest[q] == t[q + 1]);
        }
        lemma_first_index_bound(rest, '}');
        assert(rest =~= t.subrange(1, j));
    } else {
        assert forall|q: int| 0 <= q < j - 1 implies rest[q] != '}' by {
            assert(rest[q] == t[q + 1]);
        }
        lemma_first_index_at(rest, '}', j - 1);
        assert(rest.subrange(0, j - 1) =~= t.subrange(1, j));
        assert(rest.skip(j) =~= t.skip(j + 1));
    }
}

proof fn lemma_render_plain(t: Seq<char>, vars: Map<Seq<char>, Seq<char>>)
    requires
        t.len() > 0,
        t[0] != '{',
    ensures
        render(t, vars) == seq![t[0]] + render(t.drop_first(), vars),
{
    reveal(render);
}

proof fn lemma_render_empty(vars: Map<Seq<char>, Seq<char>>)
    ensures
        render(Seq::empty(), vars) == Seq::<char>::empty(),
{
    reveal(render);
}

/// With no variables, rendering gives the template back: every
/// placeholder is unknown and stays as written, and an unclosed `{` keeps
/// the rest of the text.
pub proof fn law_render_without_vars_is_identity(t: Seq<char>)
    ensures
        render(t, Map::empty()) == t,
    decreases t.len(),
{
    reveal(render);
    if t.len() == 0 {
    } else if t[0] != '{' {
        law_render_without_vars_is_identity(t.drop_first());
        assert(seq![t[0]] + t.drop_first() =~= t);
    } else {
        let rest = t.drop_first();
        lemma_first_index_bound(rest, '}');
        match first_index(rest, '}') {
            None => {
                assert(seq!['{'] + rest =~= t);
            },
            Some(k) => {
                let name = rest.subrange(0, k);
                assert(map_get(Map::<Seq<char>, Seq<char>>::empty(), name) is None);
                law_render_without_vars_is_identity(rest.skip(k + 1));
                assert(seq!['{'] + name + seq!['}'] + rest.skip(k + 1) =~= t);
            },
        }
    }
}

/// Renders a template.
pub fn render_template(template: &str, vars: &HeaderMap) -> (r: String)
    ensures
        r@ == render(template@, vars@),
{
    let cs = chars_of(template);
    let n = cs.len();
    let mut out = String::new();
    let mut i: usize = 0;
    assert(template@.skip(0) =~= template@);
    while i < n
        invariant
            i <= n,
            n == cs@.len(),
            cs@ == template@,
            out@ + render(template@.skip(i as int), vars@) == render(template@, vars@),
        decreases n - i,
    {
        let ghost t = template@.skip(i as int);
        let c = cs[i];
        assert(t[0] == c);
        if c != '{' {
            proof { lemma_render_plain(t, vars@); }
            push_char(&mut out, c);
            assert(t.drop_first() =~= template@.skip(i + 1));
            i = i + 1;
            assert(out@ + render(template@.skip(i as int), vars@) =~= render(template@, vars@));
        } else {
            let j = closing_brace(&cs, i + 1);
            let name = crate::text::string_from(&crate::text::slice_of(&cs, i + 1, j));
            proof {
                assert forall|q: int| 1 <= q < j - i implies t[q] != '}' by {
                    assert(t[q] == cs@[i + q]);
                }
                lemma_render_brace(t, vars@, j - i);
                assert(t.subrange(1, j - i) =~= name@);
            }
            if j >= n {
                push_char(&mut out, '{');
                push_str(&mut out, name.as_str());
                assert(template@.skip(n as int) =~= Seq::<char>::empty());
                proof { lemma_render_empty(vars@); }
                i = n;
                assert(out@ + render(template@.skip(i as int), vars@) =~= render(template@, vars@));
            } else {
                match vars.get(name.as_str()) {
                    Some(v) => push_str(&mut out, v.as_str()),
                    None => {
                        push_char(&mut out, '{');
                        push_str(&mut out, name.as_str());
                        push_char(&mut out, '}');
                    },
                }
                assert(t.skip(j - i + 1) =~= template@.skip(j + 1));
                i = j + 1;
                assert(out@ + render(template@.skip(i as int), vars@) =~= render(template@, vars@));
            }
        }
    }
    assert(template@.skip(n as int) =~= Seq::<char>::empty());
    proof { lemma_render_empty(vars@); }
    assert(out@ =~= out@ + Seq::<char>::empty());
    out
}

// ---------------------------------------------------------------------------
// The guard
// ---------------------------------------------------------------------------

/// What the guard does with a request.
pub enum GuardOutcome {
    /// The request goes on unchanged.
    Pass,
    /// The request goes on with this body.
    Rewrite(Seq<u8>),
    /// The request is answered with this status and problem object.
    Reject(u16, JsonV),
}

/// The 500 for a profile name that names no profile.
pub open spec fn misconfig_json(name: Seq<char>) -> JsonV {
    JsonV::Object(problem_members("urn:barbacane:error:ai-prompt-guard-misconfigured"@, "Internal Server Error"@, 500,
        "ai-prompt-guard default_profile '"@ + name + "' does not exist in the profiles map; fix the plugin configuration."@))
}

/// The 500 for a profile with a pattern that does not compile.
pub open spec fn regex_error_json(name: Seq<char>, detail: Seq<char>) -> JsonV {
    JsonV::Object(problem_members("urn:barbacane:error:ai-prompt-guard-misconfigured"@, "Internal Server Error"@, 500,
        "ai-prompt-guard profile '"@ + name + "' has an invalid regex: "@ + detail))
}

/// The rejection of a request that breaks the profile.
pub open spec fn reject_json(status: u16, detail: Seq<char>) -> JsonV {
    JsonV::Object(problem_members("urn:barbacane:error:ai-prompt-guard"@, "Bad Request"@, status, detail))
}

/// The managed system message.
pub open spec fn system_message(content: Seq<char>) -> JsonV {
    JsonV::Object(seq![("role"@, JsonV::Str("system"@)), ("content"@, JsonV::Str(content))])
}

/// The messages whose role is not `system`.
pub open spec fn non_system(msgs: Seq<JsonV>) -> Seq<JsonV>
    decreases msgs.len(),
{
    if msgs.len() == 0 {
        Seq::empty()
    } else {
        let prev = non_system(msgs.drop_last());
        if as_str(field(msgs.last(), "role"@)) != Some("system"@) { prev.push(msgs.last()) } else { prev }
    }
}

/// What the guard does for the profiles, the default profile, the context's
/// policy and the request body.
pub open spec fn prompt_outcome(
    profiles: Seq<(String, PromptProfile)>,
    default_profile: Seq<char>,
    policy: Option<Seq<char>>,
    body: Option<Seq<u8>>,
) -> GuardOutcome {
    let name = chosen_profile(profiles, default_profile, policy);
    match profile_named(profiles, name) {
        None => GuardOutcome::Reject(500, misconfig_json(name)),
        Some(p) => {
            let ps = views(p.blocked_patterns@);
            match first_pattern_error(ps, "blocked_patterns"@) {
                Some(e) => GuardOutcome::Reject(500, regex_error_json(name, e)),
                None => match body {
                    None => GuardOutcome::Pass,
                    Some(b) => match parsed(b) {
                        Some(JsonV::Object(root)) => match member_array(root, "messages"@) {
                            None => GuardOutcome::Pass,
                            Some(msgs) => match p.max_messages {
                                Some(m) if msgs.len() > m => GuardOutcome::Reject(p.reject_status, reject_json(p.reject_status,
                                    "request has "@ + decimal(msgs.len()) + " messages, max allowed is "@ + decimal(m as nat))),
                                _ => match first_violation(msgs, ps, p.max_message_length) {
                                    Some(d) => GuardOutcome::Reject(p.reject_status, reject_json(p.reject_status, d)),
                                    None => match p.system_template {
                                        Some(t) => GuardOutcome::Rewrite(json_bytes(JsonV::Object(set_member(root, "messages"@,
                                            JsonV::Array(seq![system_message(render(t@, p.template_vars@))] + non_system(msgs)))))),
                                        None => GuardOutcome::Pass,
                                    },
                                },
                            },
                        },
                        _ => GuardOutcome::Pass,
                    },
                },
            }
        },
    }
}

/// With a usable profile, a request whose `messages` are within the count
/// bound but hold a message (at any position) that a blocked pattern
/// matches, or that is longer than the bound, is rejected with the
/// profile's status.
pub proof fn law_guard_rejects_offending_message(
    profiles: Seq<(String, PromptProfile)>,
    default_profile: Seq<char>,
    policy: Option<Seq<char>>,
    b: Seq<u8>,
    root: Seq<(Seq<char>, JsonV)>,
    msgs: Seq<JsonV>,
    k: int,
)
    requires
        profile_named(profiles, chosen_profile(profiles, default_profile, policy)) matches Some(p)
            && first_pattern_error(views(p.blocked_patterns@), "blocked_patterns"@) is None
            && !(p.max_messages matches Some(m) && msgs.len() > m)
            && ((p.max_message_length matches Some(m) && message_text(msgs[k]).len() > m)
                || exists|i: int| 0 <= i < p.blocked_patterns@.len() && #[trigger] regex_match(views(p.blocked_patterns@)[i], message_text(msgs[k]))),
        parsed(b) == Some(JsonV::Object(root)),
        member_array(root, "messages"@) == Some(msgs),
        0 <= k < msgs.len(),
    ensures
        prompt_outcome(profiles, default_profile, policy, Some(b)) matches GuardOutcome::Reject(status, _)
            && status == profile_named(profiles, chosen_profile(profiles, default_profile, policy))->0.reject_status,
{
    let p = profile_named(profiles, chosen_profile(profiles, default_profile, policy))->0;
    let ps = views(p.blocked_patterns@);
    assert(ps.len() == p.blocked_patterns@.len());
    law_offending_message_anywhere_rejected(msgs, ps, p.max_message_length, k);
}

/// The array member `k` of an object's members.
pub open spec fn member_array(root: Seq<(Seq<char>, JsonV)>, k: Seq<char>) -> Option<Seq<JsonV>> {
    match crate::json::member(root, k) {
        Some(v) => as_array(v),
        None => None,
    }
}

pub proof fn lemma_no_error_all_valid(ps: Seq<Seq<char>>, what: Seq<char>)
    requires
        first_pattern_error(ps, what) is None,
    ensures
        valid_patterns(ps) == ps,
    decreases ps.len(),
{
    if ps.len() > 0 {
        lemma_no_error_all_valid(ps.drop_last(), what);
        assert(ps.drop_last().push(ps.last()) =~= ps);
    }
}

/// `names` with `n` added at the end unless it is there already.
pub open spec fn with_name(names: Seq<Seq<char>>, n: Seq<char>) -> Seq<Seq<char>> {
    if names.contains(n) { names } else { names.push(n) }
}

/// The compiled patterns of one profile, and the first compile error.
pub struct CompiledProfile {
    name: String,
    patterns: Vec<CompiledPattern>,
    error: Option<String>,
}

/// AI prompt-guard middleware.
pub struct AiPromptGuard {
    context_key: String,
    default_profile: String,
    profiles: Vec<(String, PromptProfile)>,
    compiled: Vec<CompiledProfile>,
}

impl AiPromptGuard {
    /// Every cached compilation is that of the profile of its name.
    #[verifier::type_invariant]
    spec fn cache_coherent(&self) -> bool {
        forall|i: int| 0 <= i < self.compiled@.len() ==> match profile_named(self.profiles@, #[trigger] self.compiled@[i].name@) {
            Some(p) => pattern_views(self.compiled@[i].patterns@) == valid_patterns(views(p.blocked_patterns@))
                && opt_view(self.compiled@[i].error) == first_pattern_error(views(p.blocked_patterns@), "blocked_patterns"@),
            None => false,
        }
    }

    pub closed spec fn context_key_spec(&self) -> Seq<char> {
        self.context_key@
    }

    pub closed spec fn default_profile_spec(&self) -> Seq<char> {
        self.default_profile@
    }

    pub closed spec fn profiles_spec(&self) -> Seq<(String, PromptProfile)> {
        self.profiles@
    }

    /// The names of the profiles whose patterns are compiled, in the order
    /// they were first used.
    pub closed spec fn compiled_names(&self) -> Seq<Seq<char>> {
        self.compiled@.map_values(|c: CompiledProfile| c.name@)
    }

    /// Whether the patterns of profile `name` are compiled already.
    pub fn is_compiled(&self, name: &str) -> (r: bool)
        ensures
            r == self.compiled_names().contains(name@),
    {
        let mut i: usize = 0;
        while i < self.compiled.len()
            invariant
                i <= self.compiled@.len(),
                forall|j: int| 0 <= j < i ==> self.compiled@[j].name@ != name@,
            decreases self.compiled@.len() - i,
        {
            if str_eq(self.compiled[i].name.as_str(), name) {
                assert(self.compiled_names()[i as int] == name@);
                return true;
            }
            i = i + 1;
        }
        assert(!self.compiled_names().contains(name@)) by {
            if self.compiled_names().contains(name@) {
                let k = choose|k: int| 0 <= k < self.compiled_names().len() && self.compiled_names()[k] == name@;
                assert(self.compiled@[k].name@ == name@);
            }
        }
        false
    }

    /// A guard with no compiled patterns yet.
    pub fn new(context_key: String, default_profile: String, profiles: Vec<(String, PromptProfile)>) -> (r: AiPromptGuard)
        ensures
            r.context_key_spec() == context_key@,
            r.default_profile_spec() == default_profile@,
            r.profiles_spec() == profiles@,
    {
        AiPromptGuard { context_key, default_profile, profiles, compiled: Vec::new() }
    }

    /// The context key naming the profile.
    pub fn context_key(&self) -> (r: &str)
        ensures
            r@ == self.context_key_spec(),
    {
        self.context_key.as_str()
    }

    /// The profile used when the context names none.
    pub fn default_profile(&self) -> (r: &str)
        ensures
            r@ == self.default_profile_spec(),
    {
        self.default_profile.as_str()
    }

    /// The configured profiles, by name.
    pub fn profiles(&self) -> (r: &Vec<(String, PromptProfile)>)
        ensures
            r@ == self.profiles_spec(),
    {
        &self.profiles
    }

    /// Responses pass untouched.
    pub fn on_response(&mut self, resp: Response) -> (r: Response)
        ensures
            r == resp,
    {
        resp
    }

    /// The cache slot of the profile `name`, compiling it on first use.
    fn ensure_compiled(&mut self, name: &str, idx: usize) -> (r: usize)
        requires
            idx < old(self).profiles@.len(),
            profile_named(old(self).profiles@, name@) == Some(old(self).profiles@[idx as int].1),
        ensures
            final(self).profiles@ == old(self).profiles@,
            final(self).context_key == old(self).context_key,
            final(self).default_profile == old(self).default_profile,
            r < final(self).compiled@.len(),
            final(self).compiled@[r as int].name@ == name@,
            final(self).compiled_names() == with_name(old(self).compiled_names(), name@),
    {
        proof { use_type_invariant(&*self); }
        let mut i: usize = 0;
        while i < self.compiled.len()
            invariant
                i <= self.compiled@.len(),
                forall|j: int| 0 <= j < i ==> self.compiled@[j].name@ != name@,
            decreases self.compiled@.len() - i,
        {
            if str_eq(self.compiled[i].name.as_str(), name) {
                assert(self.compiled_names()[i as int] == name@);
                assert(self.compiled_names().contains(name@));
                return i;
            }
            i = i + 1;
        }
        assert(!self.compiled_names().contains(name@)) by {
            if self.compiled_names().contains(name@) {
                let k = choose|k: int| 0 <= k < self.compiled_names().len() && self.compiled_names()[k] == name@;
                assert(self.compiled@[k].name@ == name@);
            }
        }
        let ghost before = self.compiled_names();
        let (patterns, error) = compile_patterns(&self.profiles[idx].1.blocked_patterns, "blocked_patterns");
        let entry = CompiledProfile { name: owned(name), patterns, error };
        let n = self.compiled.len();
        let mut cache: Vec<CompiledProfile> = Vec::new();
        std::mem::swap(&mut cache, &mut self.compiled);
        cache.push(entry);
        self.compiled = cache;
        assert(self.compiled_names() =~= before.push(name@));
        n
    }

    /// Applies the profile in force (`policy` is the context's value): a
    /// missing profile or a pattern that does not compile answers 500; a
    /// JSON body with a `messages` array is checked for its count, each
    /// message's length and the blocked patterns; a profile with a system
    /// template replaces the system messages with the rendered template.
    pub fn on_request(&mut self, req: Request, policy: Option<&str>) -> (r: Action)
        ensures
            final(self).context_key_spec() == old(self).context_key_spec(),
            final(self).default_profile_spec() == old(self).default_profile_spec(),
            final(self).profiles_spec() == old(self).profiles_spec(),
            final(self).compiled_names() == ({
                let name = chosen_profile(old(self).profiles_spec(), old(self).default_profile_spec(),
                    match policy { Some(n) => Some(n@), None => None });
                if profile_named(old(self).profiles_spec(), name) is Some {
                    with_name(old(self).compiled_names(), name)
                } else {
                    old(self).compiled_names()
                }
            }),
            match prompt_outcome(old(self).profiles_spec(), old(self).default_profile_spec(),
                match policy { Some(n) => Some(n@), None => None }, body_view(req.body)) {
                GuardOutcome::Pass => r matches Action::Continue(out) && with_body(out, req, body_view(req.body)),
                GuardOutcome::Rewrite(b) => r matches Action::Continue(out) && with_body(out, req, Some(b)),
                GuardOutcome::Reject(status, v) => r matches Action::ShortCircuit(resp) && resp.status == status
                    && resp.headers@ == one_header("content-type"@, "application/problem+json"@)
                    && body_view(resp.body) == Some(encode_utf8(json_text(v))),
            },
    {
        proof { use_type_invariant(&*self); }
        let ghost pol = match policy { Some(n) => Some(n@), None => None::<Seq<char>> };
        let name = resolve_profile_name(&self.profiles, self.default_profile.as_str(), policy);
        let idx = match find_profile(&self.profiles, name.as_str()) {
            Some(i) => i,
            None => {
                let detail = crate::text::concat3("ai-prompt-guard default_profile '", name.as_str(),
                    "' does not exist in the profiles map; fix the plugin configuration.");
                let body = Json::Object(problem_object("urn:barbacane:error:ai-prompt-guard-misconfigured",
                    "Internal Server Error", 500, detail.as_str()));
                return Action::ShortCircuit(json_text_response(500, "application/problem+json", &body));
            },
        };
        let slot = self.ensure_compiled(name.as_str(), idx);
        proof { use_type_invariant(&*self); }
        let ghost p = self.profiles@[idx as int].1;
        assert(profile_named(self.profiles@, name@) == Some(p));
        let ghost ps = views(p.blocked_patterns@);
        assert(self.compiled@[slot as int].name@ == name@);
        match &self.compiled[slot].error {
            Some(e) => {
                let detail = crate::text::concat3("ai-prompt-guard profile '", name.as_str(), "' has an invalid regex: ");
                let detail = concat(detail.as_str(), e.as_str());
                let body = Json::Object(problem_object("urn:barbacane:error:ai-prompt-guard-misconfigured",
                    "Internal Server Error", 500, detail.as_str()));
                return Action::ShortCircuit(json_text_response(500, "application/problem+json", &body));
            },
            None => {},
        }
        proof { lemma_no_error_all_valid(ps, "blocked_patterns"@); }
        let profile = &self.profiles[idx].1;
        let patterns = &self.compiled[slot].patterns;
        assert(*profile == p);
        assert(pattern_views(patterns@) == ps);
        let v = match &req.body {
            Some(b) => match parse_json(b.as_slice()) {
                Some(v) => v,
                None => return Action::Continue(req),
            },
            None => return Action::Continue(req),
        };
        let msgs: &Vec<Json> = match v.get("messages") {
            Some(x) => match x.as_array() {
                Some(a) => a,
                None => return Action::Continue(req),
            },
            None => return Action::Continue(req),
        };
        proof { lemma_seq_view(msgs@); }
        let ghost mv = json_seq_view(msgs@);
        match profile.max_messages {
            Some(m) => if msgs.len() > m {
                let mut detail = owned("request has ");
                push_str(&mut detail, u64_to_string(msgs.len() as u64).as_str());
                push_str(&mut detail, " messages, max allowed is ");
                push_str(&mut detail, u64_to_string(m as u64).as_str());
                let body = Json::Object(problem_object("urn:barbacane:error:ai-prompt-guard", "Bad Request",
                    profile.reject_status, detail.as_str()));
                return Action::ShortCircuit(json_text_response(profile.reject_status, "application/problem+json", &body));
            },
            None => {},
        }
        match first_message_violation(msgs, patterns, profile.max_message_length) {
            Some(d) => {
                let body = Json::Object(problem_object("urn:barbacane:error:ai-prompt-guard", "Bad Request",
                    profile.reject_status, d.as_str()));
                return Action::ShortCircuit(json_text_response(profile.reject_status, "application/problem+json", &body));
            },
            None => {},
        }
        let template = match &profile.system_template {
            Some(t) => t,
            None => return Action::Continue(req),
        };
        let rendered = render_template(template.as_str(), &profile.template_vars);
        let mut new_messages = arr_new();
        let mut sm = members_new();
        obj_push(&mut sm, "role", jstr("system"));
        obj_push(&mut sm, "content", Json::Str(rendered));
        assert(json_members_view(sm@) =~= system_message(render(template@, profile.template_vars@))->Object_0);
        arr_push(&mut new_messages, Json::Object(sm));
        let kept = non_system_messages(msgs);
        proof { lemma_seq_view(new_messages@); lemma_seq_view(kept@); }
        let ghost nm0 = new_messages@;
        let mut kept = kept;
        let ghost kv = json_seq_view(kept@);
        new_messages.append(&mut kept);
        proof { lemma_seq_view(new_messages@); lemma_seq_view(nm0); }
        assert(json_seq_view(new_messages@) =~= seq![system_message(render(template@, profile.template_vars@))] + kv);
        let mut members = match v {
            Json::Object(m) => m,
            _ => return Action::Continue(req),
        };
        set_member_exec(&mut members, "messages", Json::Array(new_messages));
        let new_body = to_json_bytes(&Json::Object(members));
        let Request { method, path, query, headers, body: _, client_ip, path_params } = req;
        Action::Continue(Request { method, path, query, headers, body: Some(new_body), client_ip, path_params })
    }
}

/// The messages whose role is not `system`, copied.
fn non_system_messages(msgs: &Vec<Json>) -> (r: Vec<Json>)
    ensures
        json_seq_view(r@) == non_system(json_seq_view(msgs@)),
{
    proof { lemma_seq_view(msgs@); }
    let ghost mv = json_seq_view(msgs@);
    let null = null_json();
    let mut out = arr_new();
    let mut i: usize = 0;
    assert(mv.subrange(0, 0) =~= Seq::<JsonV>::empty());
    while i < msgs.len()
        invariant
            i <= msgs@.len(),
            null@ == JsonV::Null,
            mv.len() == msgs@.len(),
            forall|k: int| 0 <= k < msgs@.len() ==> #[trigger] mv[k] == msgs@[k]@,
            json_seq_view(out@) == non_system(mv.subrange(0, i as int)),
        decreases msgs@.len() - i,
    {
        assert(mv.subrange(0, i + 1).drop_last() =~= mv.subrange(0, i as int));
        assert(mv.subrange(0, i + 1).last() == msgs@[i as int]@);
        let is_system = match field_ref(&msgs[i], "role", &null).as_str() {
            Some(r) => str_eq(r.as_str(), "system"),
            None => false,
        };
        if !is_system {
            arr_push(&mut out, msgs[i].copy());
        }
        i = i + 1;
    }
    assert(mv.subrange(0, msgs@.len() as int) =~= mv);
    out
}

/// The first message that breaks the length bound or matches a blocked
/// pattern, as the rejection detail.
fn first_message_violation(msgs: &Vec<Json>, patterns: &Vec<CompiledPattern>, max_len: Option<usize>) -> (r: Option<String>)
    ensures
        opt_view(r) == first_violation(json_seq_view(msgs@), pattern_views(patterns@), max_len),
{
    proof { lemma_seq_view(msgs@); }
    let ghost mv = json_seq_view(msgs@);
    let ghost ps = pattern_views(patterns@);
    let mut i: usize = 0;
    assert(mv.subrange(0, 0) =~= Seq::<JsonV>::empty());
    while i < msgs.len()
        invariant
            i <= msgs@.len(),
            mv.len() == msgs@.len(),
            mv == json_seq_view(msgs@),
            ps == pattern_views(patterns@),
            forall|k: int| 0 <= k < msgs@.len() ==> #[trigger] mv[k] == msgs@[k]@,
            first_violation(mv.subrange(0, i as int), ps, max_len) is None,
        decreases msgs@.len() - i,
    {
        assert(mv.subrange(0, i + 1).drop_last() =~= mv.subrange(0, i as int));
        assert(mv.subrange(0, i + 1).last() == msgs@[i as int]@);
        let content = extract_message_text(&msgs[i]);
        match max_len {
            Some(m) => {
                let n = chars_of(content.as_str()).len();
                if n > m {
                    let mut d = owned("message[");
                    push_str(&mut d, u64_to_string(i as u64).as_str());
                    push_str(&mut d, "] exceeds max_message_length (");
                    push_str(&mut d, u64_to_string(m as u64).as_str());
                    push_str(&mut d, " chars)");
                    assert(first_violation(mv.subrange(0, i + 1), ps, max_len) == Some(d@));
                    assert(mv.subrange(0, i + 1) =~= mv.subrange(0, i + 1));
                    proof { lemma_first_violation_prefix(mv, ps, max_len, i + 1); }
                    return Some(d);
                }
            },
            None => {},
        }
        if any_pattern_matches(patterns, content.as_str()) {
            let d = owned("prompt contains disallowed content");
            assert(first_violation(mv.subrange(0, i + 1), ps, max_len) == Some(d@));
            proof { lemma_first_violation_prefix(mv, ps, max_len, i + 1); }
            return Some(d);
        }
        i = i + 1;
    }
    assert(mv.subrange(0, msgs@.len() as int) =~= mv);
    None
}

/// A violation in a prefix is the first violation of the whole list.
proof fn lemma_first_violation_prefix(msgs: Seq<JsonV>, ps: Seq<Seq<char>>, max_len: Option<usize>, n: int)
    requires
        0 <= n <= msgs.len(),
        first_violation(msgs.subrange(0, n), ps, max_len) is Some,
    ensures
        first_violation(msgs, ps, max_len) == first_violation(msgs.subrange(0, n), ps, max_len),
    decreases msgs.len() - n,
{
    if n < msgs.len() {
        assert(msgs.subrange(0, n + 1).drop_last() =~= msgs.subrange(0, n));
        lemma_first_violation_prefix(msgs, ps, max_len, n + 1);
    } else {
        assert(msgs.subrange(0, n) =~= msgs);
    }
}

/// A guard whose profile in force is missing fails closed: every request,
/// whatever its body, is answered 500.
pub proof fn law_missing_profile_fails_closed(profiles: Seq<(String, PromptProfile)>, default_profile: Seq<char>,
    policy: Option<Seq<char>>, body: Option<Seq<u8>>)
    requires
        profile_named(profiles, chosen_profile(profiles, default_profile, policy)) is None,
    ensures
        prompt_outcome(profiles, default_profile, policy, body) matches GuardOutcome::Reject(status, _) && status == 500,
{
}

/// A blocked pattern that does not compile fails closed: the profile is
/// never applied with the rule silently dropped.
pub proof fn law_invalid_pattern_fails_closed(profiles: Seq<(String, PromptProfile)>, default_profile: Seq<char>,
    policy: Option<Seq<char>>, body: Option<Seq<u8>>, p: PromptProfile)
    requires
        profile_named(profiles, chosen_profile(profiles, default_profile, policy)) == Some(p),
        first_pattern_error(views(p.blocked_patterns@), "blocked_patterns"@) is Some,
    ensures
        prompt_outcome(profiles, default_profile, policy, body) matches GuardOutcome::Reject(status, _) && status == 500,
{
}

/// The context selects a profile only when it names one that exists;
/// otherwise the default applies.
pub proof fn law_unknown_policy_falls_back_to_default<P>(profiles: Seq<(String, P)>, default_profile: Seq<char>, n: Seq<char>)
    requires
        profile_named(profiles, n) is None,
    ensures
        chosen_profile(profiles, default_profile, Some(n)) == default_profile,
        chosen_profile(profiles, default_profile, None) == default_profile,
{
}

} // verus!
