//! Access control by consumer identity and group membership.
//!
//! Reads the `x-auth-consumer` and `x-auth-consumer-groups` headers set by
//! the authentication plugins.

use vstd::prelude::*;
use crate::headers::map_get;
use crate::http::{
    Action, Request, Response, body_view, one_header, problem_members, problem_object, json_response,
};
use crate::json::{Json, JsonV, json_bytes, obj_push, jstr};
use crate::text::{has_str, owned, split, split_char, str_eq, trim, trimmed, vec_contains, views};

verus! {

/// ACL middleware configuration.
pub struct Acl {
    /// Groups allowed access; when non-empty the consumer must be in one.
    pub allow: Vec<String>,
    /// Groups denied access (checked before `allow`).
    pub deny: Vec<String>,
    /// Consumers allowed regardless of groups.
    pub allow_consumers: Vec<String>,
    /// Consumers always denied (checked first).
    pub deny_consumers: Vec<String>,
    /// Static consumer-to-groups table, merged with the groups header.
    pub consumer_groups: Vec<(String, Vec<String>)>,
    /// The 403 detail message.
    pub message: String,
    /// Leave the consumer out of the 403 body.
    pub hide_consumer_in_errors: bool,
}

/// The default 403 detail message.
pub fn default_message() -> (r: String)
    ensures
        r@ == "Access denied by ACL policy"@,
{
    owned("Access denied by ACL policy")
}

/// The groups the static table lists for consumer `c` (first matching row).
pub open spec fn table_groups(t: Seq<(String, Vec<String>)>, c: Seq<char>) -> Seq<Seq<char>>
    decreases t.len(),
{
    if t.len() == 0 {
        Seq::empty()
    } else if t[0].0@ == c {
        views(t[0].1@)
    } else {
        table_groups(t.drop_first(), c)
    }
}

/// `g` is one of the comma-separated, trimmed, non-empty entries of the
/// groups header.
pub open spec fn in_header_groups(h: Option<Seq<char>>, g: Seq<char>) -> bool {
    match h {
        Some(v) => g.len() > 0 && exists|i: int| 0 <= i < split_char(v, ',').len() && #[trigger] trimmed(split_char(v, ',')[i]) == g,
        None => false,
    }
}

/// Some of the first `n` pieces trims to `g`.
pub open spec fn pieces_have(pieces: Seq<Seq<char>>, n: int, g: Seq<char>) -> bool {
    exists|k: int| 0 <= k < n && #[trigger] trimmed(pieces[k]) == g
}

/// Some of the first `n` strings of `row` is `g`.
pub open spec fn row_has(row: Seq<String>, n: int, g: Seq<char>) -> bool {
    exists|k: int| 0 <= k < n && #[trigger] row[k]@ == g
}

proof fn lemma_pieces_have_step(pieces: Seq<Seq<char>>, n: int)
    requires
        0 <= n < pieces.len(),
    ensures
        forall|g: Seq<char>| pieces_have(pieces, n + 1, g) <==> (pieces_have(pieces, n, g) || trimmed(pieces[n]) == g),
{
    assert forall|g: Seq<char>| pieces_have(pieces, n + 1, g) <==> (pieces_have(pieces, n, g) || trimmed(pieces[n]) == g) by {
        if pieces_have(pieces, n + 1, g) {
            let k = choose|k: int| 0 <= k < n + 1 && #[trigger] trimmed(pieces[k]) == g;
            if k < n {
                assert(pieces_have(pieces, n, g));
            }
        }
    }
}

proof fn lemma_row_has_step(row: Seq<String>, n: int)
    requires
        0 <= n < row.len(),
    ensures
        forall|g: Seq<char>| row_has(row, n + 1, g) <==> (row_has(row, n, g) || row[n]@ == g),
{
    assert forall|g: Seq<char>| row_has(row, n + 1, g) <==> (row_has(row, n, g) || row[n]@ == g) by {
        if row_has(row, n + 1, g) {
            let k = choose|k: int| 0 <= k < n + 1 && #[trigger] row[k]@ == g;
            if k < n {
                assert(row_has(row, n, g));
            }
        }
    }
}

proof fn lemma_has_str_push(v: Seq<String>, x: String)
    ensures
        forall|g: Seq<char>| has_str(v.push(x), g) <==> (has_str(v, g) || x@ == g),
{
    assert forall|g: Seq<char>| has_str(v.push(x), g) <==> (has_str(v, g) || x@ == g) by {
        if has_str(v.push(x), g) {
            let k = choose|k: int| 0 <= k < v.len() + 1 && #[trigger] v.push(x)[k]@ == g;
            if k < v.len() {
                assert(v[k]@ == g);
            }
        }
        if has_str(v, g) {
            let k = choose|k: int| 0 <= k < v.len() && #[trigger] v[k]@ == g;
            assert(v.push(x)[k]@ == g);
        }
        if x@ == g {
            assert(v.push(x)[v.len() as int]@ == g);
        }
    }
}

/// Why the ACL rejected a request: the consumer to report, if any.
pub enum AclVerdict {
    Allow,
    Deny(Option<Seq<char>>),
}

impl Acl {
    /// Consumer `c` belongs to group `g`, by the groups header or by the
    /// static table.
    pub open spec fn in_group(&self, c: Seq<char>, headers: Map<Seq<char>, Seq<char>>, g: Seq<char>) -> bool {
        in_header_groups(map_get(headers, "x-auth-consumer-groups"@), g)
            || table_groups(self.consumer_groups@, c).contains(g)
    }

    /// The ACL policy, in order of precedence.
    pub open spec fn verdict(&self, headers: Map<Seq<char>, Seq<char>>) -> AclVerdict {
        let consumer = map_get(headers, "x-auth-consumer"@);
        match consumer {
            None => AclVerdict::Deny(None),
            Some(c) => if c.len() == 0 {
                AclVerdict::Deny(None)
            } else if has_str(self.deny_consumers@, c) {
                AclVerdict::Deny(Some(c))
            } else if has_str(self.allow_consumers@, c) {
                AclVerdict::Allow
            } else if exists|i: int| 0 <= i < self.deny@.len() && self.in_group(c, headers, #[trigger] self.deny@[i]@) {
                AclVerdict::Deny(Some(c))
            } else if self.allow@.len() > 0 && !exists|i: int| 0 <= i < self.allow@.len() && self.in_group(c, headers, #[trigger] self.allow@[i]@) {
                AclVerdict::Deny(Some(c))
            } else {
                AclVerdict::Allow
            },
        }
    }

    /// The 403 problem object for a denial.
    pub open spec fn forbidden_json(&self, consumer: Option<Seq<char>>) -> JsonV {
        let base = problem_members("urn:barbacane:error:acl-denied"@, "Forbidden"@, 403, self.message@);
        JsonV::Object(
            match consumer {
                Some(c) => if !self.hide_consumer_in_errors { base.push(("consumer"@, JsonV::Str(c))) } else { base },
                None => base,
            },
        )
    }

    /// Enforces the ACL policy.
    pub fn on_request(&self, req: Request) -> (r: Action)
        ensures
            match r {
                Action::Continue(out) => self.verdict(req.headers@) is Allow && out == req,
                Action::ShortCircuit(resp) => {
                    &&& self.verdict(req.headers@) matches AclVerdict::Deny(c)
                    &&& resp.status == 403
                    &&& resp.headers@ == one_header("content-type"@, "application/problem+json"@)
                    &&& body_view(resp.body) == Some(json_bytes(self.forbidden_json(c)))
                },
            },
    {
        let consumer = match req.headers.get("x-auth-consumer") {
            Some(c) => {
                if c.as_str().is_empty() {
                    return Action::ShortCircuit(self.forbidden_response(None));
                }
                c
            },
            None => return Action::ShortCircuit(self.forbidden_response(None)),
        };
        proof {
            assert(consumer@.len() > 0) by {
                if consumer@.len() == 0 {
                    assert(consumer@ =~= ""@) by { reveal_strlit(""); }
                }
            }
        }
        assert(map_get(req.headers@, "x-auth-consumer"@) == Some(consumer@));
        if vec_contains(&self.deny_consumers, consumer.as_str()) {
            assert(self.verdict(req.headers@) == AclVerdict::Deny(Some(consumer@)));
            let resp = self.forbidden_response(Some(consumer.as_str()));
            assert(body_view(resp.body) == Some(json_bytes(self.forbidden_json(Some(consumer@)))));
            return Action::ShortCircuit(resp);
        }
        if vec_contains(&self.allow_consumers, consumer.as_str()) {
            return Action::Continue(req);
        }
        let groups = self.resolve_groups(consumer.as_str(), &req);
        let mut i: usize = 0;
        while i < self.deny.len()
            invariant
                i <= self.deny@.len(),
                consumer@.len() > 0,
                map_get(req.headers@, "x-auth-consumer"@) == Some(consumer@),
                !has_str(self.deny_consumers@, consumer@),
                !has_str(self.allow_consumers@, consumer@),
                forall|g: Seq<char>| has_str(groups@, g) <==> self.in_group(consumer@, req.headers@, g),
                forall|j: int| 0 <= j < i ==> !self.in_group(consumer@, req.headers@, #[trigger] self.deny@[j]@),
            decreases self.deny@.len() - i,
        {
            if vec_contains(&groups, self.deny[i].as_str()) {
                assert(self.in_group(consumer@, req.headers@, self.deny@[i as int]@));
                return Action::ShortCircuit(self.forbidden_response(Some(consumer.as_str())));
            }
            i = i + 1;
        }
        if self.allow.len() > 0 {
            let mut found = false;
            let mut j: usize = 0;
            while j < self.allow.len() && !found
                invariant
                    j <= self.allow@.len(),
                    forall|g: Seq<char>| has_str(groups@, g) <==> self.in_group(consumer@, req.headers@, g),
                    found ==> exists|k: int| 0 <= k < self.allow@.len() && self.in_group(consumer@, req.headers@, #[trigger] self.allow@[k]@),
                    !found ==> forall|k: int| 0 <= k < j ==> !self.in_group(consumer@, req.headers@, #[trigger] self.allow@[k]@),
                decreases self.allow@.len() - j,
            {
                if vec_contains(&groups, self.allow[j].as_str()) {
                    assert(self.in_group(consumer@, req.headers@, self.allow@[j as int]@));
                    found = true;
                }
                j = j + 1;
            }
            if !found {
                return Action::ShortCircuit(self.forbidden_response(Some(consumer.as_str())));
            }
        }
        Action::Continue(req)
    }

    /// Passes responses through unchanged.
    pub fn on_response(&self, resp: Response) -> (r: Response)
        ensures
            r == resp,
    {
        resp
    }

    /// The groups of the static table for `consumer`, if it has a row.
    fn table_row(&self, consumer: &str) -> (r: Option<&Vec<String>>)
        ensures
            match r {
                Some(v) => views(v@) == table_groups(self.consumer_groups@, consumer@),
                None => table_groups(self.consumer_groups@, consumer@) == Seq::<Seq<char>>::empty(),
            },
    {
        let ghost t = self.consumer_groups@;
        assert(t.subrange(0, t.len() as int) =~= t);
        let mut i: usize = 0;
        while i < self.consumer_groups.len()
            invariant
                t == self.consumer_groups@,
                i <= t.len(),
                table_groups(t, consumer@) == table_groups(t.subrange(i as int, t.len() as int), consumer@),
            decreases t.len() - i,
        {
            let ghost rest = t.subrange(i as int, t.len() as int);
            assert(rest[0] == t[i as int]);
            if str_eq(self.consumer_groups[i].0.as_str(), consumer) {
                return Some(&self.consumer_groups[i].1);
            }
            assert(rest.drop_first() =~= t.subrange(i + 1, t.len() as int));
            i = i + 1;
        }
        None
    }

    /// All groups of a consumer: the groups header merged with the static
    /// table, without duplicates.
    pub fn resolve_groups(&self, consumer: &str, req: &Request) -> (r: Vec<String>)
        ensures
            forall|g: Seq<char>| has_str(r@, g) <==> self.in_group(consumer@, req.headers@, g),
    {
        let mut groups: Vec<String> = Vec::new();
        let hv = req.headers.get("x-auth-consumer-groups");
        let ghost hopt = map_get(req.headers@, "x-auth-consumer-groups"@);
        match hv {
            Some(h) => {
                assert(hopt == Some(h@));
                let parts = split(h.as_str(), ',');
                let ghost pieces = split_char(h@, ',');
                let mut i: usize = 0;
                while i < parts.len()
                    invariant
                        i <= parts@.len(),
                        parts@.len() == pieces.len(),
                        forall|k: int| 0 <= k < parts@.len() ==> #[trigger] parts@[k]@ == pieces[k],
                        forall|g: Seq<char>| has_str(groups@, g) <==> (g.len() > 0 && pieces_have(pieces, i as int, g)),
                    decreases parts@.len() - i,
                {
                    let t = trim(parts[i].as_str());
                    let ghost old_groups = groups@;
                    proof { lemma_pieces_have_step(pieces, i as int); }
                    if !t.as_str().is_empty() && !vec_contains(&groups, t.as_str()) {
                        groups.push(t);
                        proof { lemma_has_str_push(old_groups, t); }
                    }
                    proof {
                        assert(t@ == trimmed(pieces[i as int]));
                        assert(forall|g: Seq<char>| has_str(old_groups, g) <==> (g.len() > 0 && pieces_have(pieces, i as int, g)));
                        assert forall|g: Seq<char>| has_str(groups@, g) <==> (g.len() > 0 && pieces_have(pieces, i + 1, g)) by {
                            assert(pieces_have(pieces, i + 1, g) <==> (pieces_have(pieces, i as int, g) || trimmed(pieces[i as int]) == g));
                            assert(has_str(old_groups, g) <==> (g.len() > 0 && pieces_have(pieces, i as int, g)));
                            if g == t@ && g.len() == 0 {
                                assert(g =~= ""@) by { reveal_strlit(""); }
                            }
                        }
                    }
                    i = i + 1;
                }
                assert forall|g: Seq<char>| has_str(groups@, g) <==> in_header_groups(hopt, g) by {
                    if pieces_have(pieces, pieces.len() as int, g) {
                        let k = choose|k: int| 0 <= k < pieces.len() && #[trigger] trimmed(pieces[k]) == g;
                        assert(trimmed(split_char(h@, ',')[k]) == g);
                    }
                    if in_header_groups(hopt, g) {
                        let k = choose|k: int| 0 <= k < split_char(h@, ',').len() && #[trigger] trimmed(split_char(h@, ',')[k]) == g;
                        assert(trimmed(pieces[k]) == g);
                    }
                }
            },
            None => {
                assert forall|g: Seq<char>| has_str(groups@, g) <==> in_header_groups(hopt, g) by {}
            },
        }
        let ghost tg = table_groups(self.consumer_groups@, consumer@);
        let ghost base = groups@;
        match self.table_row(consumer) {
            Some(row) => {
                let mut i: usize = 0;
                while i < row.len()
                    invariant
                        i <= row@.len(),
                        views(row@) == tg,
                        forall|g: Seq<char>| has_str(base, g) <==> in_header_groups(hopt, g),
                        forall|g: Seq<char>| has_str(groups@, g) <==> (has_str(base, g) || row_has(row@, i as int, g)),
                    decreases row@.len() - i,
                {
                    let ghost old_groups = groups@;
                    proof { lemma_row_has_step(row@, i as int); }
                    if !vec_contains(&groups, row[i].as_str()) {
                        let x = row[i].clone();
                        groups.push(x);
                        proof { lemma_has_str_push(old_groups, x); }
                    }
                    let ghost pi = i as int;
                    i = i + 1;
                    proof {
                        assert(forall|g: Seq<char>| has_str(old_groups, g) <==> (has_str(base, g) || row_has(row@, pi, g)));
                        assert forall|g: Seq<char>| has_str(groups@, g) <==> (has_str(base, g) || row_has(row@, i as int, g)) by {
                            assert(row_has(row@, pi + 1, g) <==> (row_has(row@, pi, g) || row@[pi]@ == g));
                            assert(has_str(old_groups, g) <==> (has_str(base, g) || row_has(row@, pi, g)));
                            assert(has_str(groups@, g) <==> (has_str(old_groups, g) || row@[pi]@ == g));
                        }
                    }
                }
                assert forall|g: Seq<char>| has_str(groups@, g) <==> self.in_group(consumer@, req.headers@, g) by {
                    assert(has_str(groups@, g) <==> (has_str(base, g) || row_has(row@, row@.len() as int, g)));
                    assert(has_str(base, g) <==> in_header_groups(hopt, g));
                    if tg.contains(g) {
                        let k = choose|k: int| 0 <= k < tg.len() && tg[k] == g;
                        assert(row@[k]@ == g);
                    }
                    if row_has(row@, row@.len() as int, g) {
                        let k = choose|k: int| 0 <= k < row@.len() && #[trigger] row@[k]@ == g;
                        assert(tg[k] == g);
                    }
                }
            },
            None => {
                assert forall|g: Seq<char>| has_str(groups@, g) <==> self.in_group(consumer@, req.headers@, g) by {
                    assert(has_str(base, g) <==> in_header_groups(hopt, g));
                    assert(!tg.contains(g));
                }
            },
        }
        groups
    }

    /// The 403 response in RFC 9457 problem+json format.
    pub fn forbidden_response(&self, consumer: Option<&str>) -> (r: Response)
        ensures
            r.status == 403,
            r.headers@ == one_header("content-type"@, "application/problem+json"@),
            body_view(r.body) == Some(json_bytes(self.forbidden_json(
                match consumer { Some(c) => Some(c@), None => None },
            ))),
    {
        let mut m = problem_object("urn:barbacane:error:acl-denied", "Forbidden", 403, self.message.as_str());
        if !self.hide_consumer_in_errors {
            if let Some(c) = consumer {
                obj_push(&mut m, "consumer", jstr(c));
            }
        }
        let body = Json::Object(m);
        json_response(403, "application/problem+json", &body)
    }
}

/// A request without a consumer, or with an empty one, is denied.
pub proof fn law_unidentified_request_denied(acl: Acl, headers: Map<Seq<char>, Seq<char>>)
    requires
        map_get(headers, "x-auth-consumer"@) matches Some(c) ==> c.len() == 0,
    ensures
        acl.verdict(headers) == AclVerdict::Deny(None),
{
}

/// A consumer on the deny list is denied, whatever the allow lists and the
/// groups say: the consumer deny list has the highest precedence.
pub proof fn law_denied_consumer_always_rejected(acl: Acl, headers: Map<Seq<char>, Seq<char>>, c: Seq<char>)
    requires
        map_get(headers, "x-auth-consumer"@) == Some(c),
        has_str(acl.deny_consumers@, c),
    ensures
        acl.verdict(headers) is Deny,
{
}

/// A consumer on the allow list (and not on the deny list) passes without
/// any group check.
pub proof fn law_allowed_consumer_bypasses_groups(acl: Acl, headers: Map<Seq<char>, Seq<char>>, c: Seq<char>)
    requires
        map_get(headers, "x-auth-consumer"@) == Some(c),
        c.len() > 0,
        has_str(acl.allow_consumers@, c),
        !has_str(acl.deny_consumers@, c),
    ensures
        acl.verdict(headers) == AclVerdict::Allow,
{
}

/// A consumer in a denied group is rejected even when it is also in an
/// allowed group: group denial takes precedence over group allowance.
pub proof fn law_deny_group_beats_allow_group(acl: Acl, headers: Map<Seq<char>, Seq<char>>, c: Seq<char>, i: int)
    requires
        map_get(headers, "x-auth-consumer"@) == Some(c),
        c.len() > 0,
        !has_str(acl.allow_consumers@, c),
        0 <= i < acl.deny@.len(),
        acl.in_group(c, headers, acl.deny@[i]@),
    ensures
        acl.verdict(headers) == AclVerdict::Deny(Some(c)),
{
}

/// With no rule configured, every identified consumer passes.
pub proof fn law_no_rules_allow_identified(acl: Acl, headers: Map<Seq<char>, Seq<char>>, c: Seq<char>)
    requires
        map_get(headers, "x-auth-consumer"@) == Some(c),
        c.len() > 0,
        acl.allow@.len() == 0,
        acl.deny@.len() == 0,
        acl.allow_consumers@.len() == 0,
        acl.deny_consumers@.len() == 0,
    ensures
        acl.verdict(headers) == AclVerdict::Allow,
{
}

/// The groups of consumer `c`: the trimmed, non-empty entries of the
/// groups header together with the static table's row for `c`.
pub open spec fn groups_of(acl: Acl, c: Seq<char>, headers: Map<Seq<char>, Seq<char>>) -> Set<Seq<char>> {
    Set::new(|g: Seq<char>| acl.in_group(c, headers, g))
}

/// The whole policy, in order of precedence: a request passes exactly when
/// it names a non-empty consumer that is not on the consumer deny list and
/// that is either on the consumer allow list, or in no denied group and (when
/// allowed groups are configured) in one of them.
pub proof fn law_acl_policy_order(acl: Acl, headers: Map<Seq<char>, Seq<char>>)
    ensures
        acl.verdict(headers) == AclVerdict::Allow <==> ({
            let c = map_get(headers, "x-auth-consumer"@);
            &&& c is Some
            &&& c->0.len() > 0
            &&& !has_str(acl.deny_consumers@, c->0)
            &&& (has_str(acl.allow_consumers@, c->0) || {
                &&& !exists|i: int| 0 <= i < acl.deny@.len() && groups_of(acl, c->0, headers).contains(#[trigger] acl.deny@[i]@)
                &&& (acl.allow@.len() == 0
                    || exists|i: int| 0 <= i < acl.allow@.len() && groups_of(acl, c->0, headers).contains(#[trigger] acl.allow@[i]@))
            })
        }),
{
    let c = map_get(headers, "x-auth-consumer"@);
    if c is Some {
        let cc = c->0;
        let gs = groups_of(acl, cc, headers);
        assert(forall|g: Seq<char>| gs.contains(g) == acl.in_group(cc, headers, g));
    }
}

} // verus!
