//! Blocks known bots and scrapers by their `User-Agent`.

use vstd::prelude::*;
use crate::headers::map_get;
use crate::http::{
    Action, Request, Response, body_view, one_header, problem_members, problem_object, json_response,
};
use crate::json::{Json, JsonV, json_bytes, obj_push, jstr};
use crate::text::{contains, contains_seq, owned, to_lowercase, unicode_lower};

verus! {

/// Bot detection middleware configuration.
pub struct BotDetection {
    /// User-Agent substrings to block (case-insensitive).
    pub deny: Vec<String>,
    /// User-Agent substrings let through even when denied (case-insensitive).
    pub allow: Vec<String>,
    /// Block requests without a `User-Agent`.
    pub block_empty_ua: bool,
    /// The detail message of the blocked response.
    pub message: String,
    /// The status of the blocked response.
    pub status: u16,
}

/// The default detail message.
pub fn default_message() -> (r: String)
    ensures
        r@ == "Access denied"@,
{
    owned("Access denied")
}

/// The default status of a blocked response.
pub fn default_status() -> (r: u16)
    ensures
        r == 403,
{
    403
}

/// Some pattern occurs in the value, both lowercased.
pub open spec fn matches_any(value: Seq<char>, patterns: Seq<String>) -> bool {
    exists|i: int| 0 <= i < patterns.len() && contains_seq(unicode_lower(value), unicode_lower(#[trigger] patterns[i]@))
}

impl BotDetection {
    /// Whether the request is blocked, and with which user agent reported.
    pub open spec fn blocks(&self, headers: Map<Seq<char>, Seq<char>>) -> Option<Option<Seq<char>>> {
        match map_get(headers, "user-agent"@) {
            None => if self.block_empty_ua { Some(None) } else { None },
            Some(ua) => if matches_any(ua, self.allow@) {
                None
            } else if matches_any(ua, self.deny@) {
                Some(Some(ua))
            } else {
                None
            },
        }
    }

    /// The body of the blocked response.
    pub open spec fn blocked_json(&self, ua: Option<Seq<char>>) -> JsonV {
        let base = problem_members("urn:barbacane:error:bot-detected"@, "Forbidden"@, self.status, self.message@);
        JsonV::Object(match ua { Some(u) => base.push(("user_agent"@, JsonV::Str(u))), None => base })
    }

    /// Blocks requests whose user agent matches the deny list and not the
    /// allow list.
    pub fn on_request(&self, req: Request) -> (r: Action)
        ensures
            match r {
                Action::Continue(out) => self.blocks(req.headers@) is None && out == req,
                Action::ShortCircuit(resp) => {
                    &&& self.blocks(req.headers@) matches Some(ua)
                    &&& resp.status == self.status
                    &&& resp.headers@ == one_header("content-type"@, "application/problem+json"@)
                    &&& body_view(resp.body) == Some(json_bytes(self.blocked_json(ua)))
                },
            },
    {
        match req.headers.get("user-agent") {
            None => {
                if self.block_empty_ua {
                    Action::ShortCircuit(self.blocked_response(None))
                } else {
                    Action::Continue(req)
                }
            },
            Some(ua) => {
                if matches_any_exec(ua.as_str(), &self.allow) {
                    return Action::Continue(req);
                }
                if matches_any_exec(ua.as_str(), &self.deny) {
                    return Action::ShortCircuit(self.blocked_response(Some(ua.as_str())));
                }
                Action::Continue(req)
            },
        }
    }

    /// Passes responses through unchanged.
    pub fn on_response(&self, resp: Response) -> (r: Response)
        ensures
            r == resp,
    {
        resp
    }

    /// The blocked response in problem+json format.
    pub fn blocked_response(&self, user_agent: Option<&str>) -> (r: Response)
        ensures
            r.status == self.status,
            r.headers@ == one_header("content-type"@, "application/problem+json"@),
            body_view(r.body) == Some(json_bytes(self.blocked_json(match user_agent { Some(u) => Some(u@), None => None }))),
    {
        let mut m = problem_object("urn:barbacane:error:bot-detected", "Forbidden", self.status, self.message.as_str());
        if let Some(ua) = user_agent {
            obj_push(&mut m, "user_agent", jstr(ua));
        }
        json_response(self.status, "application/problem+json", &Json::Object(m))
    }
}

/// Whether `value` contains any of the patterns, ignoring case.
pub fn matches_any_exec(value: &str, patterns: &Vec<String>) -> (r: bool)
    ensures
        r == matches_any(value@, patterns@),
{
    let lower = to_lowercase(value);
    let mut i: usize = 0;
    while i < patterns.len()
        invariant
            i <= patterns@.len(),
            lower@ == unicode_lower(value@),
            forall|j: int| 0 <= j < i ==> !contains_seq(unicode_lower(value@), unicode_lower(#[trigger] patterns@[j]@)),
        decreases patterns@.len() - i,
    {
        let p = to_lowercase(patterns[i].as_str());
        if contains(lower.as_str(), p.as_str()) {
            return true;
        }
        i = i + 1;
    }
    false
}

/// An allow-list match lets the request through whatever the deny list
/// holds.
pub proof fn law_allow_overrides_deny(b: BotDetection, headers: Map<Seq<char>, Seq<char>>, ua: Seq<char>)
    requires
        map_get(headers, "user-agent"@) == Some(ua),
        matches_any(ua, b.allow@),
    ensures
        b.blocks(headers) is None,
{
}

/// A present user agent is judged by the lists alone: `block_empty_ua`
/// only concerns requests without the header.
pub proof fn law_empty_ua_flag_only_for_missing_header(b: BotDetection, headers: Map<Seq<char>, Seq<char>>, flag: bool)
    requires
        map_get(headers, "user-agent"@) is Some,
    ensures
        b.blocks(headers) == (BotDetection { block_empty_ua: flag, ..b }).blocks(headers),
{
}

} // verus!
