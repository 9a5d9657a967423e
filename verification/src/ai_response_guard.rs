//! The AI response guard: named profiles redact patterns from the choices
//! of an LLM response and replace responses that match blocked patterns.

use vstd::prelude::*;
use crate::ai_prompt_guard::{lemma_no_error_all_valid, any_match, any_pattern_matches, chosen_profile, find_profile, first_pattern_error, profile_named,
    resolve_profile_name, valid_patterns, compile_patterns, with_name};
use crate::ai_proxy::responses::{set_member, set_member_exec};
use crate::headers::opt_view;
use crate::http::{Response, body_view, one_header, json_text_response, problem_members, problem_object};
use crate::json::{
    Json, JsonV, json_bytes, json_seq_view, json_text, lemma_seq_view, member, parse_json, parsed,
    to_json_bytes,
};
use crate::pattern::{
    CompiledPattern, compile_pattern, pattern_replace_all, pattern_views, regex_error, regex_replace,
};
use crate::text::{concat, concat3, owned, str_eq, string_from_utf8, views};
use vstd::utf8::{decode_utf8, encode_utf8, valid_utf8};

verus! {

/// A redaction: matches of `pattern` become `replacement`.
pub struct RedactRule {
    pub pattern: String,
    pub replacement: String,
}

pub fn default_replacement() -> (r: String)
    ensures r@ == "[REDACTED]"@,
{
    owned("[REDACTED]")
}

/// One named policy.
pub struct GuardProfile {
    pub redact: Vec<RedactRule>,
    pub blocked_patterns: Vec<String>,
}

pub open spec fn rule_patterns(rules: Seq<RedactRule>) -> Seq<Seq<char>> {
    rules.map_values(|r: RedactRule| r.pattern@)
}

/// The redactions that compile, as (pattern, replacement) pairs.
pub open spec fn valid_rules(rules: Seq<RedactRule>) -> Seq<(Seq<char>, Seq<char>)>
    decreases rules.len(),
{
    if rules.len() == 0 {
        Seq::empty()
    } else {
        let prev = valid_rules(rules.drop_last());
        if regex_error(rules.last().pattern@) is None { prev.push((rules.last().pattern@, rules.last().replacement@)) } else { prev }
    }
}

/// The first compile error of a profile: redactions first, then blocked
/// patterns.
pub open spec fn profile_error(p: GuardProfile) -> Option<Seq<char>> {
    match first_pattern_error(rule_patterns(p.redact@), "redact"@) {
        Some(e) => Some(e),
        None => first_pattern_error(views(p.blocked_patterns@), "blocked"@),
    }
}

/// The text after applying every redaction in order.
pub open spec fn redact_text(rules: Seq<(Seq<char>, Seq<char>)>, s: Seq<char>) -> Seq<char>
    decreases rules.len(),
{
    if rules.len() == 0 {
        s
    } else {
        let prev = redact_text(rules.drop_last(), s);
        regex_replace(rules.last().0, prev, rules.last().1)
    }
}

/// `v` with the string at `k`/`content` redacted, when there is one.
pub open spec fn redact_at(v: JsonV, k: Seq<char>, rules: Seq<(Seq<char>, Seq<char>)>) -> JsonV {
    match v {
        JsonV::Object(m) => match member(m, k) {
            Some(JsonV::Object(inner)) => match member(inner, "content"@) {
                Some(JsonV::Str(s)) => JsonV::Object(set_member(m, k,
                    JsonV::Object(set_member(inner, "content"@, JsonV::Str(redact_text(rules, s)))))),
                _ => v,
            },
            _ => v,
        },
        _ => v,
    }
}

/// A choice with its `message.content` and `delta.content` redacted.
pub open spec fn redact_choice(c: JsonV, rules: Seq<(Seq<char>, Seq<char>)>) -> JsonV {
    redact_at(redact_at(c, "message"@, rules), "delta"@, rules)
}

/// The response document with every choice redacted.
pub open spec fn redact_root(root: JsonV, rules: Seq<(Seq<char>, Seq<char>)>) -> JsonV {
    match root {
        JsonV::Object(m) => match member(m, "choices"@) {
            Some(JsonV::Array(cs)) => JsonV::Object(set_member(m, "choices"@,
                JsonV::Array(cs.map_values(|c: JsonV| redact_choice(c, rules))))),
            _ => root,
        },
        _ => root,
    }
}

/// A compiled redaction.
pub struct CompiledRedact {
    pub re: CompiledPattern,
    pub replacement: String,
}

pub open spec fn compiled_rules(rs: Seq<CompiledRedact>) -> Seq<(Seq<char>, Seq<char>)> {
    rs.map_values(|r: CompiledRedact| (r.re@, r.replacement@))
}

/// Compiles the redactions: the ones that compile, and the first error.
pub fn compile_redactions(rules: &Vec<RedactRule>) -> (r: (Vec<CompiledRedact>, Option<String>))
    ensures
        compiled_rules(r.0@) == valid_rules(rules@),
        opt_view(r.1) == first_pattern_error(rule_patterns(rules@), "redact"@),
{
    let ghost pv = rule_patterns(rules@);
    let mut out: Vec<CompiledRedact> = Vec::new();
    let mut first: Option<String> = None;
    let mut i: usize = 0;
    assert(pv.subrange(0, 0) =~= Seq::<Seq<char>>::empty());
    assert(rules@.subrange(0, 0) =~= Seq::<RedactRule>::empty());
    assert(compiled_rules(out@) =~= Seq::<(Seq<char>, Seq<char>)>::empty());
    while i < rules.len()
        invariant
            i <= rules@.len(),
            pv == rule_patterns(rules@),
            compiled_rules(out@) == valid_rules(rules@.subrange(0, i as int)),
            opt_view(first) == first_pattern_error(pv.subrange(0, i as int), "redact"@),
        decreases rules@.len() - i,
    {
        assert(pv.subrange(0, i + 1).drop_last() =~= pv.subrange(0, i as int));
        assert(pv.subrange(0, i + 1).last() == rules@[i as int].pattern@);
        assert(rules@.subrange(0, i + 1).drop_last() =~= rules@.subrange(0, i as int));
        let rule = &rules[i];
        match compile_pattern(rule.pattern.as_str()) {
            Ok(p) => {
                let ghost before = compiled_rules(out@);
                out.push(CompiledRedact { re: p, replacement: rule.replacement.clone() });
                assert(compiled_rules(out@) =~= before.push((rule.pattern@, rule.replacement@)));
            },
            Err(e) => {
                if first.is_none() {
                    let mut msg = owned("invalid ");
                    crate::text::push_str(&mut msg, "redact");
                    crate::text::push_str(&mut msg, " regex '");
                    crate::text::push_str(&mut msg, rule.pattern.as_str());
                    crate::text::push_str(&mut msg, "': ");
                    crate::text::push_str(&mut msg, e.as_str());
                    first = Some(msg);
                    assert(first->0@ =~= "invalid "@ + "redact"@ + " regex '"@ + rule.pattern@ + "': "@ + e@);
                }
            },
        }
        i = i + 1;
    }
    assert(pv.subrange(0, rules@.len() as int) =~= pv);
    assert(rules@.subrange(0, rules@.len() as int) =~= rules@);
    (out, first)
}

/// Applies the redactions in order.
pub fn apply_redactions(input: &str, rules: &Vec<CompiledRedact>) -> (r: String)
    ensures
        r@ == redact_text(compiled_rules(rules@), input@),
{
    let ghost rv = compiled_rules(rules@);
    let mut current = owned(input);
    let mut i: usize = 0;
    assert(rv.subrange(0, 0) =~= Seq::<(Seq<char>, Seq<char>)>::empty());
    while i < rules.len()
        invariant
            i <= rules@.len(),
            rv == compiled_rules(rules@),
            current@ == redact_text(rv.subrange(0, i as int), input@),
        decreases rules@.len() - i,
    {
        assert(rv.subrange(0, i + 1).drop_last() =~= rv.subrange(0, i as int));
        current = pattern_replace_all(&rules[i].re, current.as_str(), rules[i].replacement.as_str());
        i = i + 1;
    }
    assert(rv.subrange(0, rules@.len() as int) =~= rv);
    current
}

fn redact_at_exec(v: Json, k: &str, rules: &Vec<CompiledRedact>) -> (r: Json)
    ensures
        r@ == redact_at(v@, k@, compiled_rules(rules@)),
{
    let ghost vv = v@;
    let content: Option<String> = match v.get(k) {
        Some(Json::Object(_)) => match v.get(k) {
            Some(inner) => match inner.get("content") {
                Some(Json::Str(s)) => Some(s.clone()),
                _ => None,
            },
            None => None,
        },
        _ => None,
    };
    let s = match content {
        Some(s) => s,
        None => return v,
    };
    let red = apply_redactions(s.as_str(), rules);
    let inner_members = match v.get(k) {
        Some(x) => x.copy(),
        _ => return v,
    };
    match inner_members {
        Json::Object(mut im) => {
            set_member_exec(&mut im, "content", Json::Str(red));
            match v {
                Json::Object(mut m) => {
                    set_member_exec(&mut m, k, Json::Object(im));
                    Json::Object(m)
                },
                other => other,
            }
        },
        _ => v,
    }
}

/// Redacts the contents of every choice of a response document.
pub fn redact_choices_content(root: Json, rules: &Vec<CompiledRedact>) -> (r: Json)
    ensures
        r@ == redact_root(root@, compiled_rules(rules@)),
{
    let ghost rv = compiled_rules(rules@);
    let choices: Vec<Json> = match root.get("choices") {
        Some(Json::Array(cs)) => {
            let mut out: Vec<Json> = Vec::new();
            proof { lemma_seq_view(cs@); }
            let ghost cv = json_seq_view(cs@);
            let mut i: usize = 0;
            assert(json_seq_view(out@) =~= cv.subrange(0, 0).map_values(|c: JsonV| redact_choice(c, rv)));
            while i < cs.len()
                invariant
                    i <= cs@.len(),
                    rv == compiled_rules(rules@),
                    cv.len() == cs@.len(),
                    forall|k: int| 0 <= k < cs@.len() ==> #[trigger] cv[k] == cs@[k]@,
                    json_seq_view(out@) == cv.subrange(0, i as int).map_values(|c: JsonV| redact_choice(c, rv)),
                decreases cs@.len() - i,
            {
                let c = redact_at_exec(redact_at_exec(cs[i].copy(), "message", rules), "delta", rules);
                let ghost before = json_seq_view(out@);
                proof { crate::json::lemma_seq_view_push(out@, c); }
                out.push(c);
                assert(cv.subrange(0, i + 1).map_values(|c: JsonV| redact_choice(c, rv)) =~= before.push(redact_choice(cv[i as int], rv)));
                i = i + 1;
            }
            assert(cv.subrange(0, cs@.len() as int) =~= cv);
            out
        },
        _ => return root,
    };
    match root {
        Json::Object(mut m) => {
            set_member_exec(&mut m, "choices", Json::Array(choices));
            Json::Object(m)
        },
        other => other,
    }
}

// ---------------------------------------------------------------------------
// The guard
// ---------------------------------------------------------------------------

/// The 500 for a profile name that names no profile.
pub open spec fn misconfig_json(name: Seq<char>) -> JsonV {
    JsonV::Object(problem_members("urn:barbacane:error:ai-response-guard-misconfigured"@, "Internal Server Error"@, 500,
        "ai-response-guard default_profile '"@ + name + "' does not exist in the profiles map; fix the plugin configuration."@))
}

/// The 500 for a profile with a pattern that does not compile.
pub open spec fn regex_error_json(name: Seq<char>, detail: Seq<char>) -> JsonV {
    JsonV::Object(problem_members("urn:barbacane:error:ai-response-guard-misconfigured"@, "Internal Server Error"@, 500,
        "ai-response-guard profile '"@ + name + "' has an invalid regex: "@ + detail))
}

/// The 502 that replaces a blocked response.
pub open spec fn blocked_json() -> JsonV {
    JsonV::Object(problem_members("urn:barbacane:error:ai-response-blocked"@, "Bad Gateway"@, 502,
        "Upstream response was blocked by content policy."@))
}

/// What the guard does with a response.
pub enum ResponseGuardOutcome {
    /// The response passes as it is.
    Keep,
    /// The response passes with this body (status and headers kept).
    Replace(Seq<u8>),
    /// The response is replaced by this status and problem object.
    Answer(u16, JsonV),
}

/// What the guard does for the profiles, the default, the context's policy
/// and the response; and whether a streamed response skipped redactions.
pub open spec fn response_outcome(
    profiles: Seq<(String, GuardProfile)>,
    default_profile: Seq<char>,
    policy: Option<Seq<char>>,
    status: u16,
    body: Option<Seq<u8>>,
) -> (ResponseGuardOutcome, bool) {
    let name = chosen_profile(profiles, default_profile, policy);
    match profile_named(profiles, name) {
        None => (if status == 0 { ResponseGuardOutcome::Keep } else { ResponseGuardOutcome::Answer(500, misconfig_json(name)) }, false),
        Some(p) => if status == 0 {
            (ResponseGuardOutcome::Keep, p.redact@.len() > 0)
        } else if p.redact@.len() == 0 && p.blocked_patterns@.len() == 0 {
            (ResponseGuardOutcome::Keep, false)
        } else {
            match profile_error(p) {
                Some(e) => (ResponseGuardOutcome::Answer(500, regex_error_json(name, e)), false),
                None => match body {
                    None => (ResponseGuardOutcome::Keep, false),
                    Some(b) => match parsed(b) {
                        None => (ResponseGuardOutcome::Keep, false),
                        Some(root) => {
                            let red = if p.redact@.len() > 0 { redact_root(root, valid_rules(p.redact@)) } else { root };
                            let bytes = json_bytes(red);
                            if p.blocked_patterns@.len() > 0 && valid_utf8(bytes)
                                && any_match(views(p.blocked_patterns@), decode_utf8(bytes)) {
                                (ResponseGuardOutcome::Answer(502, blocked_json()), false)
                            } else {
                                (ResponseGuardOutcome::Replace(bytes), false)
                            }
                        },
                    },
                },
            }
        },
    }
}

proof fn lemma_no_error_all_rules(rules: Seq<RedactRule>)
    requires
        first_pattern_error(rule_patterns(rules), "redact"@) is None,
    ensures
        valid_rules(rules).len() == rules.len(),
    decreases rules.len(),
{
    if rules.len() > 0 {
        assert(rule_patterns(rules).drop_last() =~= rule_patterns(rules.drop_last()));
        lemma_no_error_all_rules(rules.drop_last());
    }
}

/// The compiled patterns of one profile, and the first compile error.
pub struct CompiledGuardProfile {
    name: String,
    redact: Vec<CompiledRedact>,
    blocked: Vec<CompiledPattern>,
    error: Option<String>,
}

/// AI response-guard middleware.
pub struct AiResponseGuard {
    context_key: String,
    default_profile: String,
    profiles: Vec<(String, GuardProfile)>,
    compiled: Vec<CompiledGuardProfile>,
}

/// The guard's answer and whether redactions were skipped on a stream.
pub struct GuardedResponse {
    pub response: Response,
    pub redaction_skipped: bool,
}

impl AiResponseGuard {
    /// Every cached compilation is that of the profile of its name.
    #[verifier::type_invariant]
    spec fn cache_coherent(&self) -> bool {
        forall|i: int| 0 <= i < self.compiled@.len() ==> match profile_named(self.profiles@, #[trigger] self.compiled@[i].name@) {
            Some(p) => compiled_rules(self.compiled@[i].redact@) == valid_rules(p.redact@)
                && pattern_views(self.compiled@[i].blocked@) == valid_patterns(views(p.blocked_patterns@))
                && opt_view(self.compiled@[i].error) == profile_error(p),
            None => false,
        }
    }

    pub closed spec fn context_key_spec(&self) -> Seq<char> {
        self.context_key@
    }

    pub closed spec fn default_profile_spec(&self) -> Seq<char> {
        self.default_profile@
    }

    pub closed spec fn profiles_spec(&self) -> Seq<(String, GuardProfile)> {
        self.profiles@
    }

    /// The names of the profiles whose rules are compiled, in the order
    /// they were first used.
    pub closed spec fn compiled_names(&self) -> Seq<Seq<char>> {
        self.compiled@.map_values(|c: CompiledGuardProfile| c.name@)
    }

    /// Whether the rules of profile `name` are compiled already.
    pub fn is_compiled(&self, name: &str) -> (r: bool)
        ensures
            r == self.compiled_names().contains(name@),
    {
        let mut i: usize = 0;
        while i < self.compiled.len()
            invariant
                i <= self.compiled@.len(),
                forall|j: int| 0 <= j < i ==> self.compiled@[j].name@ != name@,
            decreases self.compiled@.len() - i,
        {
            if str_eq(self.compiled[i].name.as_str(), name) {
                assert(self.compiled_names()[i as int] == name@);
                return true;
            }
            i = i + 1;
        }
        assert(!self.compiled_names().contains(name@)) by {
            if self.compiled_names().contains(name@) {
                let k = choose|k: int| 0 <= k < self.compiled_names().len() && self.compiled_names()[k] == name@;
                assert(self.compiled@[k].name@ == name@);
            }
        }
        false
    }

    /// A guard with no compiled patterns yet.
    pub fn new(context_key: String, default_profile: String, profiles: Vec<(String, GuardProfile)>) -> (r: AiResponseGuard)
        ensures
            r.context_key_spec() == context_key@,
            r.default_profile_spec() == default_profile@,
            r.profiles_spec() == profiles@,
    {
        AiResponseGuard { context_key, default_profile, profiles, compiled: Vec::new() }
    }

    /// The context key naming the profile.
    pub fn context_key(&self) -> (r: &str)
        ensures
            r@ == self.context_key_spec(),
    {
        self.context_key.as_str()
    }

    /// The profile used when the context names none.
    pub fn default_profile(&self) -> (r: &str)
        ensures
            r@ == self.default_profile_spec(),
    {
        self.default_profile.as_str()
    }

    /// The configured profiles, by name.
    pub fn profiles(&self) -> (r: &Vec<(String, GuardProfile)>)
        ensures
            r@ == self.profiles_spec(),
    {
        &self.profiles
    }

    fn ensure_compiled(&mut self, name: &str, idx: usize) -> (r: usize)
        requires
            idx < old(self).profiles@.len(),
            profile_named(old(self).profiles@, name@) == Some(old(self).profiles@[idx as int].1),
        ensures
            final(self).profiles@ == old(self).profiles@,
            final(self).context_key == old(self).context_key,
            final(self).default_profile == old(self).default_profile,
            r < final(self).compiled@.len(),
            final(self).compiled@[r as int].name@ == name@,
            final(self).compiled_names() == with_name(old(self).compiled_names(), name@),
    {
        proof { use_type_invariant(&*self); }
        let mut i: usize = 0;
        while i < self.compiled.len()
            invariant
                i <= self.compiled@.len(),
                forall|j: int| 0 <= j < i ==> self.compiled@[j].name@ != name@,
            decreases self.compiled@.len() - i,
        {
            if str_eq(self.compiled[i].name.as_str(), name) {
                assert(self.compiled_names()[i as int] == name@);
                assert(self.compiled_names().contains(name@));
                return i;
            }
            i = i + 1;
        }
        assert(!self.compiled_names().contains(name@)) by {
            if self.compiled_names().contains(name@) {
                let k = choose|k: int| 0 <= k < self.compiled_names().len() && self.compiled_names()[k] == name@;
                assert(self.compiled@[k].name@ == name@);
            }
        }
        let ghost before = self.compiled_names();
        let (redact, redact_error) = compile_redactions(&self.profiles[idx].1.redact);
        let (blocked, blocked_error) = compile_patterns(&self.profiles[idx].1.blocked_patterns, "blocked");
        let error = match redact_error {
            Some(e) => Some(e),
            None => blocked_error,
        };
        let entry = CompiledGuardProfile { name: owned(name), redact, blocked, error };
        let n = self.compiled.len();
        let mut cache: Vec<CompiledGuardProfile> = Vec::new();
        std::mem::swap(&mut cache, &mut self.compiled);
        cache.push(entry);
        self.compiled = cache;
        assert(self.compiled_names() =~= before.push(name@));
        n
    }

    /// Requests pass untouched.
    pub fn on_request(&mut self, req: crate::http::Request) -> (r: crate::http::Action)
        ensures
            r == crate::http::Action::Continue(req),
    {
        crate::http::Action::Continue(req)
    }

    /// Applies the profile in force (`policy` is the context's value) to a
    /// response: a streamed response passes (noting skipped redactions); a
    /// missing profile or a pattern that does not compile answers 500; a
    /// JSON body has its choices redacted and is replaced by a 502 when a
    /// blocked pattern matches its serialization.
    pub fn on_response(&mut self, resp: Response, policy: Option<&str>) -> (r: GuardedResponse)
        ensures
            final(self).context_key_spec() == old(self).context_key_spec(),
            final(self).default_profile_spec() == old(self).default_profile_spec(),
            final(self).profiles_spec() == old(self).profiles_spec(),
            final(self).compiled_names() == ({
                let name = chosen_profile(old(self).profiles_spec(), old(self).default_profile_spec(),
                    match policy { Some(n) => Some(n@), None => None });
                match profile_named(old(self).profiles_spec(), name) {
                    Some(p) => if resp.status != 0 && (p.redact@.len() > 0 || p.blocked_patterns@.len() > 0) {
                        with_name(old(self).compiled_names(), name)
                    } else {
                        old(self).compiled_names()
                    },
                    None => old(self).compiled_names(),
                }
            }),
            ({
                let (o, skipped) = response_outcome(old(self).profiles_spec(), old(self).default_profile_spec(),
                    match policy { Some(n) => Some(n@), None => None }, resp.status, body_view(resp.body));
                &&& r.redaction_skipped == skipped
                &&& match o {
                    ResponseGuardOutcome::Keep => r.response.status == resp.status && r.response.headers@ == resp.headers@
                        && body_view(r.response.body) == body_view(resp.body),
                    ResponseGuardOutcome::Replace(b) => r.response.status == resp.status && r.response.headers@ == resp.headers@
                        && body_view(r.response.body) == Some(b),
                    ResponseGuardOutcome::Answer(status, v) => r.response.status == status
                        && r.response.headers@ == one_header("content-type"@, "application/problem+json"@)
                        && body_view(r.response.body) == Some(encode_utf8(json_text(v))),
                }
            }),
    {
        proof { use_type_invariant(&*self); }
        let name = resolve_profile_name(&self.profiles, self.default_profile.as_str(), policy);
        let idx = match find_profile(&self.profiles, name.as_str()) {
            Some(i) => i,
            None => {
                if resp.status == 0 {
                    return GuardedResponse { response: resp, redaction_skipped: false };
                }
                let detail = concat3("ai-response-guard default_profile '", name.as_str(),
                    "' does not exist in the profiles map; fix the plugin configuration.");
                let body = Json::Object(problem_object("urn:barbacane:error:ai-response-guard-misconfigured",
                    "Internal Server Error", 500, detail.as_str()));
                return GuardedResponse { response: json_text_response(500, "application/problem+json", &body), redaction_skipped: false };
            },
        };
        let n_redact = self.profiles[idx].1.redact.len();
        let n_blocked = self.profiles[idx].1.blocked_patterns.len();
        if resp.status == 0 {
            return GuardedResponse { response: resp, redaction_skipped: n_redact > 0 };
        }
        if n_redact == 0 && n_blocked == 0 {
            return GuardedResponse { response: resp, redaction_skipped: false };
        }
        let slot = self.ensure_compiled(name.as_str(), idx);
        proof { use_type_invariant(&*self); }
        let ghost p = self.profiles@[idx as int].1;
        assert(self.compiled@[slot as int].name@ == name@);
        match &self.compiled[slot].error {
            Some(e) => {
                let detail = concat3("ai-response-guard profile '", name.as_str(), "' has an invalid regex: ");
                let detail = concat(detail.as_str(), e.as_str());
                let body = Json::Object(problem_object("urn:barbacane:error:ai-response-guard-misconfigured",
                    "Internal Server Error", 500, detail.as_str()));
                return GuardedResponse { response: json_text_response(500, "application/problem+json", &body), redaction_skipped: false };
            },
            None => {},
        }
        proof {
            lemma_no_error_all_rules(p.redact@);
            lemma_no_error_all_valid(views(p.blocked_patterns@), "blocked"@);
        }
        let root = match &resp.body {
            Some(b) => match parse_json(b.as_slice()) {
                Some(v) => v,
                None => return GuardedResponse { response: resp, redaction_skipped: false },
            },
            None => return GuardedResponse { response: resp, redaction_skipped: false },
        };
        let compiled = &self.compiled[slot];
        let red = if compiled.redact.len() > 0 { redact_choices_content(root, &compiled.redact) } else { root };
        let serialized = to_json_bytes(&red);
        if compiled.blocked.len() > 0 {
            match string_from_utf8(serialized.clone()) {
                Some(text) => {
                    if any_pattern_matches(&compiled.blocked, text.as_str()) {
                        let body = Json::Object(problem_object("urn:barbacane:error:ai-response-blocked", "Bad Gateway", 502,
                            "Upstream response was blocked by content policy."));
                        return GuardedResponse { response: json_text_response(502, "application/problem+json", &body), redaction_skipped: false };
                    }
                },
                None => {},
            }
        }
        GuardedResponse {
            response: Response { status: resp.status, headers: resp.headers, body: Some(serialized) },
            redaction_skipped: false,
        }
    }
}

/// A streamed response is never altered, whatever the profile.
pub proof fn law_streamed_response_untouched(profiles: Seq<(String, GuardProfile)>, default_profile: Seq<char>,
    policy: Option<Seq<char>>, body: Option<Seq<u8>>)
    ensures
        response_outcome(profiles, default_profile, policy, 0, body).0 is Keep,
{
}

/// A profile without rules passes the response through byte for byte.
pub proof fn law_empty_profile_keeps_bytes(profiles: Seq<(String, GuardProfile)>, default_profile: Seq<char>,
    policy: Option<Seq<char>>, status: u16, body: Option<Seq<u8>>, p: GuardProfile)
    requires
        profile_named(profiles, chosen_profile(profiles, default_profile, policy)) == Some(p),
        p.redact@.len() == 0,
        p.blocked_patterns@.len() == 0,
    ensures
        response_outcome(profiles, default_profile, policy, status, body).0 is Keep,
{
}

/// A non-streamed response under a missing profile is replaced by a 500:
/// the guard fails closed.
pub proof fn law_missing_profile_fails_closed(profiles: Seq<(String, GuardProfile)>, default_profile: Seq<char>,
    policy: Option<Seq<char>>, status: u16, body: Option<Seq<u8>>)
    requires
        profile_named(profiles, chosen_profile(profiles, default_profile, policy)) is None,
        status != 0,
    ensures
        response_outcome(profiles, default_profile, policy, status, body).0 matches ResponseGuardOutcome::Answer(s, _) && s == 500,
{
}

} // verus!
