//! Propagates or generates a correlation ID for distributed tracing.
//!
//! Generating an ID and storing it in the request context are host calls;
//! the plugin decides when they are needed and what is forwarded.

use vstd::prelude::*;
use crate::headers::map_get;
use crate::http::{Action, Request, Response, with_headers, resp_with_headers};
use crate::text::{owned, to_lowercase, unicode_lower};

verus! {

/// Correlation ID middleware configuration.
pub struct CorrelationId {
    /// Header carrying the ID (matched lowercased).
    pub header_name: String,
    /// Generate an ID when the request carries none.
    pub generate_if_missing: bool,
    /// Keep an ID the request already carries.
    pub trust_incoming: bool,
    /// Echo the ID in the response.
    pub include_in_response: bool,
}

pub fn default_header_name() -> (r: String)
    ensures r@ == "x-correlation-id"@,
{
    owned("x-correlation-id")
}

pub fn default_generate_if_missing() -> (r: bool) ensures r, { true }
pub fn default_trust_incoming() -> (r: bool) ensures r, { true }
pub fn default_include_in_response() -> (r: bool) ensures r, { true }

/// What `on_request` decided: the action, and the ID to store in the
/// request context (under `correlation-id`), if any.
pub struct CorrelationOutcome {
    pub action: Action,
    pub context_id: Option<String>,
}

impl CorrelationId {
    /// The incoming ID that is kept, if any.
    pub open spec fn kept_id(&self, h: Map<Seq<char>, Seq<char>>) -> Option<Seq<char>> {
        if self.trust_incoming { map_get(h, unicode_lower(self.header_name@)) } else { None }
    }

    /// Whether the host must be asked for a fresh ID.
    pub open spec fn wants_generated(&self, h: Map<Seq<char>, Seq<char>>) -> bool {
        self.kept_id(h) is None && self.generate_if_missing
    }

    /// Whether `on_request` needs a freshly generated ID for this request.
    pub fn needs_generated_id(&self, req: &Request) -> (r: bool)
        ensures
            r == self.wants_generated(req.headers@),
    {
        self.existing_id(req).is_none() && self.generate_if_missing
    }

    fn existing_id(&self, req: &Request) -> (r: Option<String>)
        ensures
            match r { Some(s) => self.kept_id(req.headers@) == Some(s@), None => self.kept_id(req.headers@) is None },
    {
        if self.trust_incoming {
            let lower = to_lowercase(self.header_name.as_str());
            req.headers.get(lower.as_str())
        } else {
            None
        }
    }

    /// Propagates the incoming ID or uses `generated` (the host's fresh ID,
    /// consulted only when `needs_generated_id` holds; `None` when the host
    /// failed to produce one). The chosen ID is forwarded in the header and
    /// returned for the request context.
    pub fn on_request(&self, req: Request, generated: Option<String>) -> (r: CorrelationOutcome)
        ensures
            ({
                let chosen = match self.kept_id(req.headers@) {
                    Some(id) => Some(id),
                    None => if self.generate_if_missing {
                        match generated { Some(g) => Some(g@), None => None }
                    } else {
                        None
                    },
                };
                match chosen {
                    None => r.action == Action::Continue(req) && r.context_id is None,
                    Some(id) => {
                        &&& r.action matches Action::Continue(out)
                            && with_headers(out, req, req.headers@.insert(unicode_lower(self.header_name@), id))
                        &&& r.context_id matches Some(c) && c@ == id
                    },
                }
            }),
    {
        let id = match self.existing_id(&req) {
            Some(id) => id,
            None => {
                if !self.generate_if_missing {
                    return CorrelationOutcome { action: Action::Continue(req), context_id: None };
                }
                match generated {
                    Some(g) => g,
                    None => return CorrelationOutcome { action: Action::Continue(req), context_id: None },
                }
            },
        };
        let lower = to_lowercase(self.header_name.as_str());
        let mut req = req;
        req.headers.insert(lower, id.clone());
        CorrelationOutcome { action: Action::Continue(req), context_id: Some(id) }
    }

    /// Adds the stored ID (read from the request context) to the response.
    pub fn on_response(&self, resp: Response, stored: Option<String>) -> (r: Response)
        ensures
            if self.include_in_response && stored is Some {
                resp_with_headers(r, resp, resp.headers@.insert(unicode_lower(self.header_name@), stored.unwrap()@))
            } else {
                r == resp
            },
    {
        if !self.include_in_response {
            return resp;
        }
        match stored {
            Some(id) => {
                let mut resp = resp;
                resp.headers.insert(to_lowercase(self.header_name.as_str()), id);
                resp
            },
            None => resp,
        }
    }
}

/// A trusted incoming ID is kept as it is: no new one is asked for.
pub proof fn law_trusted_incoming_id_kept(c: CorrelationId, h: Map<Seq<char>, Seq<char>>, id: Seq<char>)
    requires
        c.trust_incoming,
        map_get(h, unicode_lower(c.header_name@)) == Some(id),
    ensures
        c.kept_id(h) == Some(id),
        !c.wants_generated(h),
{
}

/// An untrusted incoming ID is never propagated.
pub proof fn law_untrusted_incoming_id_ignored(c: CorrelationId, h: Map<Seq<char>, Seq<char>>)
    requires
        !c.trust_incoming,
    ensures
        c.kept_id(h) is None,
        c.wants_generated(h) == c.generate_if_missing,
{
}

} // verus!
