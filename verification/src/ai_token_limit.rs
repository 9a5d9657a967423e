//! The AI token limit: per-profile sliding-window token budgets, charged
//! through the host's rate limiter.

use vstd::prelude::*;
use crate::ai_prompt_guard::{chosen_profile, find_profile, profile_named, resolve_profile_name};
use crate::headers::{map_get, opt_view};
use crate::http::{
    Action, Request, Response, body_view, json_text_response, one_header, problem_members, problem_object,
};
use crate::json::{Json, JsonV, json_text, jstr, obj_push};
use crate::text::{concat, concat3, decimal, is_prefix, owned, parse_u32, parse_unsigned, push_str, skip_chars, split,
    split_char, starts_with, str_eq, to_lowercase, trim, trimmed, u64_to_string, unicode_lower};
use vstd::utf8::encode_utf8;

verus! {

/// Which token counts charge against the budget.
pub enum CountMode {
    Prompt,
    Completion,
    Total,
}

/// One named budget.
pub struct TokenProfile {
    /// Tokens allowed per window.
    pub quota: u32,
    /// Window length in seconds.
    pub window: u32,
}

/// What the host's rate limiter answered.
pub struct RateLimitResult {
    pub allowed: bool,
    pub reset: u64,
    pub limit: u32,
    pub retry_after: Option<u64>,
}

/// AI token-limit configuration.
pub struct AiTokenLimit {
    /// Context key naming the profile.
    pub context_key: String,
    /// Profile used when the context names none that exists.
    pub default_profile: String,
    pub profiles: Vec<(String, TokenProfile)>,
    /// Prefix of the bucket keys and name in `ratelimit-policy`.
    pub policy_name: String,
    /// Partition source: `client_ip`, `header:<name>`, `context:<key>`, or a literal.
    pub partition_key: String,
    pub count: CountMode,
}

pub fn default_context_key() -> (r: String)
    ensures r@ == "ai.policy"@,
{
    owned("ai.policy")
}

pub fn default_partition_key() -> (r: String)
    ensures r@ == "client_ip"@,
{
    owned("client_ip")
}

pub fn default_policy_name() -> (r: String)
    ensures r@ == "ai-tokens"@,
{
    owned("ai-tokens")
}

/// The partition of a request.
pub open spec fn partition_spec(h: Map<Seq<char>, Seq<char>>, client_ip: Seq<char>, source: Seq<char>, ctx: Option<Seq<char>>) -> Seq<char> {
    if source == "client_ip"@ {
        match map_get(h, "x-forwarded-for"@) {
            Some(v) => trimmed(split_char(v, ',')[0]),
            None => match map_get(h, "x-real-ip"@) {
                Some(v) => v,
                None => if client_ip.len() > 0 { client_ip } else { "unknown"@ },
            },
        }
    } else if is_prefix("header:"@, source) {
        let name = source.skip(7);
        match map_get(h, name) {
            Some(v) => v,
            None => match map_get(h, unicode_lower(name)) {
                Some(v) => v,
                None => "unknown"@,
            },
        }
    } else if is_prefix("context:"@, source) {
        match ctx { Some(v) => v, None => "unknown"@ }
    } else {
        source
    }
}

/// The partition when no request is at hand: context sources only.
pub open spec fn context_partition_spec(source: Seq<char>, ctx: Option<Seq<char>>) -> Seq<char> {
    if is_prefix("context:"@, source) {
        match ctx { Some(v) => v, None => "unknown"@ }
    } else if is_prefix("header:"@, source) || source == "client_ip"@ {
        "unknown"@
    } else {
        source
    }
}

/// The context key a `context:<key>` source reads.
pub open spec fn context_source(source: Seq<char>) -> Option<Seq<char>> {
    if is_prefix("context:"@, source) { Some(source.skip(8)) } else { None }
}

/// A token count read from the context; 0 when absent or not a `u32`.
pub open spec fn count_of(v: Option<Seq<char>>) -> u32 {
    match v {
        Some(s) => match parse_unsigned(s, u32::MAX as nat) { Some(n) => n as u32, None => 0 },
        None => 0,
    }
}

/// The tokens charged, per the count mode (a total saturates).
pub open spec fn tokens_spec(count: CountMode, prompt: Option<Seq<char>>, completion: Option<Seq<char>>) -> u32 {
    match count {
        CountMode::Prompt => count_of(prompt),
        CountMode::Completion => count_of(completion),
        CountMode::Total => if count_of(prompt) + count_of(completion) > u32::MAX { u32::MAX } else { (count_of(prompt) + count_of(completion)) as u32 },
    }
}

/// The 500 for a default profile that is not configured.
pub open spec fn misconfig_json(name: Seq<char>) -> JsonV {
    JsonV::Object(problem_members("urn:barbacane:error:ai-token-limit-misconfigured"@, "Internal Server Error"@, 500,
        "ai-token-limit default_profile '"@ + name + "' does not exist in the profiles map; fix the plugin configuration."@))
}

/// The 429 body of an exhausted budget.
pub open spec fn exhausted_json(name: Seq<char>, p: TokenProfile) -> JsonV {
    JsonV::Object(problem_members("urn:barbacane:error:ai-token-limit-exceeded"@, "Too Many Requests"@, 429,
        "Token budget exhausted under profile '"@ + name + "' (quota: "@ + decimal(p.quota as nat) + " tokens per "@
            + decimal(p.window as nat) + " seconds)."@).push(("profile"@, JsonV::Str(name))))
}

/// The 429 headers of an exhausted budget.
pub open spec fn exhausted_headers(policy: Seq<char>, name: Seq<char>, p: TokenProfile, r: RateLimitResult) -> Map<Seq<char>, Seq<char>> {
    let h = one_header("content-type"@, "application/problem+json"@)
        .insert("ratelimit-policy"@, policy + seq!['-'] + name + ";q="@ + decimal(p.quota as nat) + ";w="@ + decimal(p.window as nat))
        .insert("ratelimit"@, "limit="@ + decimal(r.limit as nat) + ", remaining=0, reset="@ + decimal(r.reset as nat));
    match r.retry_after {
        Some(s) => h.insert("retry-after"@, decimal(s as nat)),
        None => h,
    }
}

impl AiTokenLimit {
    /// The profile in force for the context's value, if it exists.
    pub fn resolve_profile(&self, policy: Option<&str>) -> (r: Option<(String, &TokenProfile)>)
        ensures
            ({
                let name = chosen_profile(self.profiles@, self.default_profile@, match policy { Some(n) => Some(n@), None => None });
                match r {
                    Some((n, p)) => n@ == name && profile_named(self.profiles@, name) == Some(*p),
                    None => profile_named(self.profiles@, name) is None,
                }
            }),
    {
        let name = resolve_profile_name(&self.profiles, self.default_profile.as_str(), policy);
        match find_profile(&self.profiles, name.as_str()) {
            Some(i) => Some((name, &self.profiles[i].1)),
            None => None,
        }
    }

    /// The context key carrying the partition from request to response.
    pub fn partition_context_key(&self) -> (r: String)
        ensures
            r@ == "__ai_token_limit."@ + self.policy_name@ + ".partition"@,
    {
        concat3("__ai_token_limit.", self.policy_name.as_str(), ".partition")
    }

    /// The rate-limit bucket of a profile and partition.
    pub fn bucket_key(&self, profile_name: &str, partition: &str) -> (r: String)
        ensures
            r@ == self.policy_name@ + seq![':'] + profile_name@ + seq![':'] + partition@,
    {
        let mut k = self.policy_name.clone();
        crate::text::push_char(&mut k, ':');
        push_str(&mut k, profile_name);
        crate::text::push_char(&mut k, ':');
        push_str(&mut k, partition);
        k
    }

    /// The tokens to charge from the context's counts.
    pub fn tokens_from_context(&self, prompt: Option<&str>, completion: Option<&str>) -> (r: u32)
        ensures
            r == tokens_spec(self.count, match prompt { Some(s) => Some(s@), None => None },
                match completion { Some(s) => Some(s@), None => None }),
    {
        let p: u32 = match prompt {
            Some(s) => match parse_u32(s) { Some(n) => n, None => 0 },
            None => 0,
        };
        let c: u32 = match completion {
            Some(s) => match parse_u32(s) { Some(n) => n, None => 0 },
            None => 0,
        };
        match self.count {
            CountMode::Prompt => p,
            CountMode::Completion => c,
            CountMode::Total => p.saturating_add(c),
        }
    }

    /// The 429 of an exhausted budget.
    pub fn too_many_requests_response(&self, profile_name: &str, profile: &TokenProfile, result: &RateLimitResult) -> (r: Response)
        ensures
            r.status == 429,
            r.headers@ == exhausted_headers(self.policy_name@, profile_name@, *profile, *result),
            body_view(r.body) == Some(encode_utf8(json_text(exhausted_json(profile_name@, *profile)))),
    {
        let q = u64_to_string(profile.quota as u64);
        let w = u64_to_string(profile.window as u64);
        let mut detail = concat3("Token budget exhausted under profile '", profile_name, "' (quota: ");
        push_str(&mut detail, q.as_str());
        push_str(&mut detail, " tokens per ");
        push_str(&mut detail, w.as_str());
        push_str(&mut detail, " seconds).");
        let mut m = problem_object("urn:barbacane:error:ai-token-limit-exceeded", "Too Many Requests", 429, detail.as_str());
        obj_push(&mut m, "profile", jstr(profile_name));
        let mut resp = json_text_response(429, "application/problem+json", &Json::Object(m));
        let mut policy = self.policy_name.clone();
        crate::text::push_char(&mut policy, '-');
        push_str(&mut policy, profile_name);
        push_str(&mut policy, ";q=");
        push_str(&mut policy, q.as_str());
        push_str(&mut policy, ";w=");
        push_str(&mut policy, w.as_str());
        assert(policy@ =~= self.policy_name@ + seq!['-'] + profile_name@ + ";q="@ + decimal(profile.quota as nat) + ";w="@
            + decimal(profile.window as nat));
        resp.headers.insert(owned("ratelimit-policy"), policy);
        let mut rl = concat("limit=", u64_to_string(result.limit as u64).as_str());
        push_str(&mut rl, ", remaining=0, reset=");
        push_str(&mut rl, u64_to_string(result.reset).as_str());
        assert(rl@ =~= "limit="@ + decimal(result.limit as nat) + ", remaining=0, reset="@ + decimal(result.reset as nat));
        resp.headers.insert(owned("ratelimit"), rl);
        if let Some(s) = result.retry_after {
            resp.headers.insert(owned("retry-after"), u64_to_string(s));
        }
        resp
    }

    /// The 500 for a missing default profile.
    pub fn misconfig_response(&self) -> (r: Response)
        ensures
            r.status == 500,
            r.headers@ == one_header("content-type"@, "application/problem+json"@),
            body_view(r.body) == Some(encode_utf8(json_text(misconfig_json(self.default_profile@)))),
    {
        let detail = concat3("ai-token-limit default_profile '", self.default_profile.as_str(),
            "' does not exist in the profiles map; fix the plugin configuration.");
        let m = problem_object("urn:barbacane:error:ai-token-limit-misconfigured", "Internal Server Error", 500, detail.as_str());
        json_text_response(500, "application/problem+json", &Json::Object(m))
    }

    /// What a request gets once the limiter answered (`None` when it is
    /// unavailable, which lets the request through).
    pub fn request_verdict(&self, req: Request, profile_name: &str, profile: &TokenProfile, result: Option<RateLimitResult>) -> (r: Action)
        ensures
            match result {
                Some(res) if !res.allowed => r matches Action::ShortCircuit(resp) && resp.status == 429
                    && resp.headers@ == exhausted_headers(self.policy_name@, profile_name@, *profile, res)
                    && body_view(resp.body) == Some(encode_utf8(json_text(exhausted_json(profile_name@, *profile)))),
                _ => r == Action::Continue(req),
            },
    {
        match result {
            Some(res) => if res.allowed {
                Action::Continue(req)
            } else {
                Action::ShortCircuit(self.too_many_requests_response(profile_name, profile, &res))
            },
            None => Action::Continue(req),
        }
    }
}

/// The context key a `context:<key>` partition source reads.
pub fn partition_context_source(source: &str) -> (r: Option<String>)
    ensures
        opt_view(r) == context_source(source@),
{
    proof { reveal_strlit("context:"); }
    if starts_with(source, "context:") { Some(skip_chars(source, 8)) } else { None }
}

/// The partition of a request (`ctx` is the context value a `context:`
/// source names).
pub fn extract_partition(req: &Request, source: &str, ctx: Option<&str>) -> (r: String)
    ensures
        r@ == partition_spec(req.headers@, req.client_ip@, source@, match ctx { Some(v) => Some(v@), None => None }),
{
    proof { reveal_strlit("header:"); reveal_strlit("context:"); }
    if str_eq(source, "client_ip") {
        if let Some(v) = req.headers.get("x-forwarded-for") {
            proof { crate::text::lemma_split_nonempty(v@, ','); }
            let parts = split(v.as_str(), ',');
            return trim(parts[0].as_str());
        }
        if let Some(v) = req.headers.get("x-real-ip") {
            return v;
        }
        if !req.client_ip.as_str().is_empty() {
            return req.client_ip.clone();
        }
        return owned("unknown");
    }
    if starts_with(source, "header:") {
        let name = skip_chars(source, 7);
        if let Some(v) = req.headers.get(name.as_str()) {
            return v;
        }
        let lower = to_lowercase(name.as_str());
        return match req.headers.get(lower.as_str()) {
            Some(v) => v,
            None => owned("unknown"),
        };
    }
    if starts_with(source, "context:") {
        return match ctx {
            Some(v) => owned(v),
            None => owned("unknown"),
        };
    }
    owned(source)
}

/// The partition from context sources only.
pub fn partition_from_context_only(source: &str, ctx: Option<&str>) -> (r: String)
    ensures
        r@ == context_partition_spec(source@, match ctx { Some(v) => Some(v@), None => None }),
{
    if starts_with(source, "context:") {
        return match ctx {
            Some(v) => owned(v),
            None => owned("unknown"),
        };
    }
    if starts_with(source, "header:") || str_eq(source, "client_ip") {
        return owned("unknown");
    }
    owned(source)
}

/// How many more units a response charges: one was charged with the
/// request.
pub open spec fn extra_charge_count(tokens: u32) -> u32 {
    if tokens == 0 { 0 } else { (tokens - 1) as u32 }
}

/// The units still to charge after a response of `tokens` tokens.
pub fn extra_charges(tokens: u32) -> (r: u32)
    ensures
        r == extra_charge_count(tokens),
{
    tokens.saturating_sub(1)
}

/// Whether the limiter allowed a charge: an answer that says so. A missing
/// answer (the limiter is unavailable) is no permission.
pub open spec fn charge_allowed(answer: Option<RateLimitResult>) -> bool {
    match answer {
        Some(r) => r.allowed,
        None => false,
    }
}

/// The units left to charge after one charge with `left` to go, given the
/// limiter's answer: one fewer while it allows them, none once it refuses
/// one or cannot be reached.
pub open spec fn charges_left_after(left: u32, answer: Option<RateLimitResult>) -> u32 {
    if charge_allowed(answer) && left > 0 { (left - 1) as u32 } else { 0 }
}

/// The step of the response hook's charging loop: what is left to charge
/// after the limiter answered one charge.
pub fn charges_left(left: u32, answer: &Option<RateLimitResult>) -> (r: u32)
    ensures
        r == charges_left_after(left, *answer),
{
    match answer {
        Some(res) => if res.allowed && left > 0 { left - 1 } else { 0 },
        None => 0,
    }
}

/// How many charges the hook makes with `left` to make, when the limiter
/// gives `answers` in turn.
pub open spec fn charges_made(left: u32, answers: Seq<Option<RateLimitResult>>) -> nat
    decreases answers.len(),
{
    if left == 0 || answers.len() == 0 {
        0
    } else {
        1 + charges_made(charges_left_after(left, answers[0]), answers.drop_first())
    }
}

/// Charging stops at the first refusal: when the limiter allows the first
/// `k` charges and refuses (or cannot answer) the next, exactly `k + 1`
/// charges are made, however many were left.
pub proof fn law_charging_stops_at_first_refusal(left: u32, answers: Seq<Option<RateLimitResult>>, k: int)
    requires
        0 <= k < answers.len(),
        k < left,
        forall|j: int| 0 <= j < k ==> charge_allowed(#[trigger] answers[j]),
        !charge_allowed(answers[k]),
    ensures
        charges_made(left, answers) == k + 1,
    decreases k,
{
    if k == 0 {
        assert(charges_left_after(left, answers[0]) == 0);
        assert(charges_made(0, answers.drop_first()) == 0);
    } else {
        let rest = answers.drop_first();
        assert forall|j: int| 0 <= j < k - 1 implies charge_allowed(#[trigger] rest[j]) by {
            assert(rest[j] == answers[j + 1]);
        }
        assert(rest[k - 1] == answers[k]);
        assert(charge_allowed(answers[0]));
        assert(charges_left_after(left, answers[0]) == left - 1);
        law_charging_stops_at_first_refusal((left - 1) as u32, rest, k - 1);
    }
}

/// While the limiter allows every charge, every unit left is charged.
pub proof fn law_allowed_charges_are_all_made(left: u32, answers: Seq<Option<RateLimitResult>>)
    requires
        left <= answers.len(),
        forall|j: int| 0 <= j < left ==> charge_allowed(#[trigger] answers[j]),
    ensures
        charges_made(left, answers) == left,
    decreases left,
{
    if left > 0 {
        let rest = answers.drop_first();
        assert forall|j: int| 0 <= j < left - 1 implies charge_allowed(#[trigger] rest[j]) by {
            assert(rest[j] == answers[j + 1]);
        }
        assert(charge_allowed(answers[0]));
        law_allowed_charges_are_all_made((left - 1) as u32, rest);
    }
}

/// A response's tokens are charged in full: the one unit charged when the
/// request came in and the extra units charged after the response add up
/// to the token count.
pub proof fn law_request_and_response_charges_sum_to_tokens(tokens: u32)
    requires
        tokens > 0,
    ensures
        1 + extra_charge_count(tokens) == tokens,
{
}

/// The bucket key separates policies, profiles and partitions whose names
/// hold no `:`: two requests share a bucket only when all three agree.
pub proof fn law_bucket_keys_separate(p1: Seq<char>, n1: Seq<char>, q1: Seq<char>, p2: Seq<char>, n2: Seq<char>, q2: Seq<char>)
    requires
        !p1.contains(':'), !n1.contains(':'), !p2.contains(':'), !n2.contains(':'),
        p1 + seq![':'] + n1 + seq![':'] + q1 == p2 + seq![':'] + n2 + seq![':'] + q2,
    ensures
        p1 == p2 && n1 == n2 && q1 == q2,
{
    let k1 = p1 + seq![':'] + n1 + seq![':'] + q1;
    let k2 = p2 + seq![':'] + n2 + seq![':'] + q2;
    assert(k1[p1.len() as int] == ':');
    assert(k2[p2.len() as int] == ':');
    if p1.len() < p2.len() {
        assert(k2[p1.len() as int] == p2[p1.len() as int]);
        assert(p2.contains(':'));
    } else if p2.len() < p1.len() {
        assert(k1[p2.len() as int] == p1[p2.len() as int]);
        assert(p1.contains(':'));
    }
    assert(p1 =~= k1.subrange(0, p1.len() as int));
    assert(p2 =~= k2.subrange(0, p2.len() as int));
    let r1 = n1 + seq![':'] + q1;
    let r2 = n2 + seq![':'] + q2;
    assert(r1 =~= k1.skip(p1.len() + 1int));
    assert(r2 =~= k2.skip(p2.len() + 1int));
    assert(r1[n1.len() as int] == ':');
    assert(r2[n2.len() as int] == ':');
    if n1.len() < n2.len() {
        assert(r2[n1.len() as int] == n2[n1.len() as int]);
        assert(n2.contains(':'));
    } else if n2.len() < n1.len() {
        assert(r1[n2.len() as int] == n1[n2.len() as int]);
        assert(n1.contains(':'));
    }
    assert(n1 =~= r1.subrange(0, n1.len() as int));
    assert(n2 =~= r2.subrange(0, n2.len() as int));
    assert(q1 =~= r1.skip(n1.len() + 1int));
    assert(q2 =~= r2.skip(n2.len() + 1int));
}

} // verus!
