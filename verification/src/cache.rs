//! The response cache middleware: which requests are cached, under which
//! key, and which responses are stored.

use vstd::prelude::*;
use crate::headers::{HeaderMap, map_get, opt_view};
use crate::http::{Action, Request, Response, body_view};
use crate::text::{
    ascii_lower, contains, contains_seq, eq_ignore_ascii_case, owned, push_char, push_str, to_lowercase,
    unicode_lower, views,
};

verus! {

/// Cache configuration and the state carried from request to response.
pub struct Cache {
    /// Time-to-live of stored responses, in seconds.
    pub ttl: u32,
    /// Headers whose values are part of the key.
    pub vary: Vec<String>,
    /// Methods that are cached.
    pub methods: Vec<String>,
    /// Statuses that are stored.
    pub cacheable_status: Vec<u16>,
    /// The key of the request being handled.
    pub current_cache_key: Option<String>,
    /// Whether the request being handled is cacheable.
    pub is_cacheable: bool,
}

pub fn default_ttl() -> (r: u32)
    ensures r == 300,
{
    300
}

pub fn default_methods() -> (r: Vec<String>)
    ensures views(r@) == seq!["GET"@, "HEAD"@],
{
    let mut v: Vec<String> = Vec::new();
    v.push(owned("GET"));
    v.push(owned("HEAD"));
    assert(views(v@) =~= seq!["GET"@, "HEAD"@]);
    v
}

pub fn default_cacheable_status() -> (r: Vec<u16>)
    ensures r@ == seq![200u16, 301u16, 404u16],
{
    let mut v: Vec<u16> = Vec::new();
    v.push(200);
    v.push(301);
    v.push(404);
    assert(v@ =~= seq![200u16, 301u16, 404u16]);
    v
}

/// A stored response.
pub struct CacheEntry {
    pub status: u16,
    pub headers: HeaderMap,
    pub body: Option<Vec<u8>>,
}

/// What the host's cache answered.
pub struct CacheResult {
    pub hit: bool,
    pub entry: Option<CacheEntry>,
}

/// Whether a method is cached (compared ignoring ASCII case).
pub open spec fn method_cached(methods: Seq<Seq<char>>, m: Seq<char>) -> bool {
    exists|i: int| 0 <= i < methods.len() && ascii_lower(methods[i]) == ascii_lower(m)
}

/// The vary part of the key: `|name=value` for each vary header (name
/// lowercased) the request carries.
pub open spec fn vary_part(vary: Seq<Seq<char>>, h: Map<Seq<char>, Seq<char>>) -> Seq<char>
    decreases vary.len(),
{
    if vary.len() == 0 {
        Seq::empty()
    } else {
        let prev = vary_part(vary.drop_last(), h);
        let name = unicode_lower(vary.last());
        match map_get(h, name) {
            Some(v) => prev + seq!['|'] + name + seq!['='] + v,
            None => prev,
        }
    }
}

/// The cache key: `method:path`, `?query` when there is a query, then the
/// vary part.
pub open spec fn cache_key_spec(method: Seq<char>, path: Seq<char>, query: Option<Seq<char>>, vary: Seq<Seq<char>>,
    h: Map<Seq<char>, Seq<char>>) -> Seq<char>
{
    let base = method + seq![':'] + path;
    let with_query = match query { Some(q) => base + seq!['?'] + q, None => base };
    with_query + vary_part(vary, h)
}

/// Whether a `cache-control` value forbids storing.
pub open spec fn forbids_store(h: Map<Seq<char>, Seq<char>>) -> bool {
    match map_get(h, "cache-control"@) {
        Some(cc) => contains_seq(unicode_lower(cc), "no-store"@) || contains_seq(unicode_lower(cc), "private"@),
        None => false,
    }
}

/// Whether a response is stored: the request was cacheable under a key, the
/// status is a cacheable one, and `cache-control` does not forbid it.
pub open spec fn stores(c: Cache, resp: Response) -> bool {
    c.is_cacheable && c.current_cache_key is Some && c.cacheable_status@.contains(resp.status)
        && !forbids_store(resp.headers@)
}

/// `e` holds the status, headers and body of `resp`.
pub open spec fn entry_of(e: CacheEntry, resp: Response) -> bool {
    e.status == resp.status && e.headers@ == resp.headers@ && body_view(e.body) == body_view(resp.body)
}

/// `answer` is the hit answer served from entry `e`: its status and body,
/// its headers with `x-cache: HIT`.
pub open spec fn serves(answer: Response, e: CacheEntry) -> bool {
    answer.status == e.status && answer.headers@ == e.headers@.insert("x-cache"@, "HIT"@) && answer.body == e.body
}

/// What to do after a response: the response passed on, and the entry to
/// store under a key, if any.
pub struct ResponseStep {
    pub response: Response,
    pub store: Option<(String, CacheEntry)>,
}

impl Cache {
    /// Builds the cache key of a request.
    pub fn build_cache_key(&self, req: &Request) -> (r: String)
        ensures
            r@ == cache_key_spec(req.method@, req.path@, opt_view(req.query), views(self.vary@), req.headers@),
    {
        let mut key = req.method.clone();
        push_char(&mut key, ':');
        push_str(&mut key, req.path.as_str());
        if let Some(q) = &req.query {
            push_char(&mut key, '?');
            push_str(&mut key, q.as_str());
        }
        let ghost base = key@;
        let ghost vv = views(self.vary@);
        let mut i: usize = 0;
        assert(vv.subrange(0, 0) =~= Seq::<Seq<char>>::empty());
        assert(key@ =~= base + vary_part(vv.subrange(0, 0), req.headers@));
        while i < self.vary.len()
            invariant
                i <= self.vary@.len(),
                vv == views(self.vary@),
                key@ == base + vary_part(vv.subrange(0, i as int), req.headers@),
            decreases self.vary@.len() - i,
        {
            assert(vv.subrange(0, i + 1).drop_last() =~= vv.subrange(0, i as int));
            let lower = to_lowercase(self.vary[i].as_str());
            if let Some(v) = req.headers.get(lower.as_str()) {
                let ghost before = key@;
                push_char(&mut key, '|');
                push_str(&mut key, lower.as_str());
                push_char(&mut key, '=');
                push_str(&mut key, v.as_str());
                assert(key@ =~= before + seq!['|'] + lower@ + seq!['='] + v@);
            }
            i = i + 1;
        }
        assert(vv.subrange(0, vv.len() as int) =~= vv);
        key
    }

    /// Whether the request's method is cached.
    pub fn method_is_cached(&self, method: &str) -> (r: bool)
        ensures
            r == method_cached(views(self.methods@), method@),
    {
        let ghost mv = views(self.methods@);
        let mut i: usize = 0;
        while i < self.methods.len()
            invariant
                i <= self.methods@.len(),
                mv == views(self.methods@),
                forall|j: int| 0 <= j < i ==> ascii_lower(mv[j]) != ascii_lower(method@),
            decreases self.methods@.len() - i,
        {
            if eq_ignore_ascii_case(self.methods[i].as_str(), method) {
                assert(ascii_lower(mv[i as int]) == ascii_lower(method@));
                return true;
            }
            i = i + 1;
        }
        false
    }

    /// Starts a request: records whether it is cacheable and under which
    /// key, and gives the key to look up.
    pub fn begin_request(&mut self, req: &Request) -> (r: Option<String>)
        ensures
            final(self).ttl == old(self).ttl,
            final(self).vary == old(self).vary,
            final(self).methods == old(self).methods,
            final(self).cacheable_status == old(self).cacheable_status,
            final(self).is_cacheable == method_cached(views(old(self).methods@), req.method@),
            method_cached(views(old(self).methods@), req.method@) ==> (r matches Some(k)
                && k@ == cache_key_spec(req.method@, req.path@, opt_view(req.query), views(old(self).vary@), req.headers@)
                && opt_view(final(self).current_cache_key) == Some(k@)),
            !method_cached(views(old(self).methods@), req.method@) ==> r is None
                && final(self).current_cache_key == old(self).current_cache_key,
    {
        if !self.method_is_cached(req.method.as_str()) {
            self.is_cacheable = false;
            return None;
        }
        let key = self.build_cache_key(req);
        self.current_cache_key = Some(key.clone());
        self.is_cacheable = true;
        Some(key)
    }

    /// The request after the lookup: a hit with an entry answers with the
    /// entry (and `x-cache: HIT`); anything else goes on.
    pub fn after_lookup(&self, req: Request, result: Option<CacheResult>) -> (r: Action)
        ensures
            match result {
                Some(CacheResult { hit: true, entry: Some(e) }) => r matches Action::ShortCircuit(resp) && serves(resp, e),
                _ => r == Action::Continue(req),
            },
    {
        match result {
            Some(res) => if res.hit {
                match res.entry {
                    Some(e) => {
                        let mut headers = e.headers;
                        headers.insert(owned("x-cache"), owned("HIT"));
                        Action::ShortCircuit(Response { status: e.status, headers, body: e.body })
                    },
                    None => Action::Continue(req),
                }
            } else {
                Action::Continue(req)
            },
            None => Action::Continue(req),
        }
    }

    /// Decides about a response: a cacheable request's response with a
    /// cacheable status and no `no-store`/`private` is stored and marked
    /// `x-cache: MISS`; any other passes unchanged.
    pub fn on_response(&self, resp: Response) -> (r: ResponseStep)
        ensures
            if stores(*self, resp) {
                &&& r.response.status == resp.status
                &&& r.response.headers@ == resp.headers@.insert("x-cache"@, "MISS"@)
                &&& r.response.body == resp.body
                &&& r.store matches Some((k, e)) && k == self.current_cache_key->0 && entry_of(e, resp)
            } else {
                r.response == resp && r.store is None
            },
    {
        if !self.is_cacheable {
            return ResponseStep { response: resp, store: None };
        }
        let key = match &self.current_cache_key {
            Some(k) => k.clone(),
            None => return ResponseStep { response: resp, store: None },
        };
        let mut listed = false;
        let mut i: usize = 0;
        while i < self.cacheable_status.len()
            invariant
                i <= self.cacheable_status@.len(),
                listed == exists|j: int| 0 <= j < i && self.cacheable_status@[j] == resp.status,
            decreases self.cacheable_status@.len() - i,
        {
            if self.cacheable_status[i] == resp.status {
                listed = true;
            }
            i = i + 1;
        }
        assert(listed == self.cacheable_status@.contains(resp.status));
        if !listed {
            return ResponseStep { response: resp, store: None };
        }
        if let Some(cc) = resp.headers.get("cache-control") {
            let lower = to_lowercase(cc.as_str());
            if contains(lower.as_str(), "no-store") || contains(lower.as_str(), "private") {
                return ResponseStep { response: resp, store: None };
            }
        }
        let entry = CacheEntry {
            status: resp.status,
            headers: resp.headers.copy(),
            body: match &resp.body { Some(b) => Some(b.clone()), None => None },
        };
        let Response { status, headers, body } = resp;
        let mut headers = headers;
        headers.insert(owned("x-cache"), owned("MISS"));
        ResponseStep { response: Response { status, headers, body }, store: Some((key, entry)) }
    }
}

/// What a hit gives back is what was stored: when a response was stored as
/// entry `e`, a later hit on `e` answers with the response's status and body
/// and its headers marked `x-cache: HIT`.
pub proof fn law_hit_returns_stored_response(resp: Response, e: CacheEntry, answer: Response)
    requires
        entry_of(e, resp),
        serves(answer, e),
    ensures
        answer.status == resp.status,
        answer.headers@ == resp.headers@.insert("x-cache"@, "HIT"@),
        body_view(answer.body) == body_view(resp.body),
{
}

/// A response that forbids storing is never stored, and one with a status
/// outside the cacheable list neither.
pub proof fn law_uncacheable_responses_not_stored(c: Cache, resp: Response)
    requires
        forbids_store(resp.headers@) || !c.cacheable_status@.contains(resp.status) || !c.is_cacheable,
    ensures
        !stores(c, resp),
{
}

} // verus!
