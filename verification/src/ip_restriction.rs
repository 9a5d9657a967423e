//! Allows or denies requests by client IP address or CIDR range.
//!
//! A list entry is split here into its address text and prefix; the
//! address texts themselves are parsed by the caller (std's parser). This
//! module then resolves the client address and applies the rules.

use vstd::prelude::*;
use crate::http::{Action, Request, Response, body_view, one_header};
use crate::json::{Json, JsonV, json_bytes, json_members_view, obj_push, jstr};
use crate::sdk::{problem_details, problem_details_json, resolve_client_ip, resolved_ip};
use crate::text::{owned, parse_u32, parse_unsigned, split_once, split_once_char, trim, trimmed};

verus! {

/// An IP address, as the bytes of its family.
pub enum IpAddress {
    V4([u8; 4]),
    V6([u8; 16]),
}

/// One entry of an allow or deny list.
pub enum IpRule {
    /// A single address.
    Single(IpAddress),
    /// A network and a prefix length.
    Cidr(IpAddress, u8),
    /// An entry that does not parse; it never matches.
    Invalid,
}

/// A list entry as text: one address, or a network and its prefix (the
/// prefix `None` when it is not a number from 0 to 255).
pub enum RuleText {
    Single(String),
    Cidr(String, Option<u8>),
}

/// A list entry as text, as plain values.
pub enum RuleTextV {
    Single(Seq<char>),
    Cidr(Seq<char>, Option<u8>),
}

pub open spec fn rule_text_view(r: RuleText) -> RuleTextV {
    match r {
        RuleText::Single(a) => RuleTextV::Single(a@),
        RuleText::Cidr(n, p) => RuleTextV::Cidr(n@, p),
    }
}

/// How an entry splits: at its first `/` into a network and a prefix, each
/// trimmed, the prefix read as a `u8`; without `/`, the trimmed address.
pub open spec fn split_rule_spec(entry: Seq<char>) -> RuleTextV {
    match split_once(entry, '/') {
        Some((n, p)) => RuleTextV::Cidr(trimmed(n), match parse_unsigned(trimmed(p), 255) {
            Some(v) => Some(v as u8),
            None => None,
        }),
        None => RuleTextV::Single(trimmed(entry)),
    }
}

/// Splits a configured list entry into its address text and prefix.
pub fn split_rule(entry: &str) -> (r: RuleText)
    ensures
        rule_text_view(r) == split_rule_spec(entry@),
{
    match split_once_char(entry, '/') {
        Some((n, p)) => {
            let pt = trim(p.as_str());
            let prefix = match parse_u32(pt.as_str()) {
                Some(v) => if v <= 255 { Some(v as u8) } else { None },
                None => None,
            };
            RuleText::Cidr(trim(n.as_str()), prefix)
        },
        None => RuleText::Single(trim(entry)),
    }
}

/// The address text of an entry, the one the caller parses.
pub fn rule_address(r: &RuleText) -> (a: &str)
    ensures
        a@ == match rule_text_view(*r) { RuleTextV::Single(x) => x, RuleTextV::Cidr(x, _) => x },
{
    match r {
        RuleText::Single(a) => a.as_str(),
        RuleText::Cidr(n, _) => n.as_str(),
    }
}

/// The rule of an entry whose address text parsed as `parsed` (`None`
/// when it does not parse): an entry that does not parse, or whose prefix
/// is not a number, matches nothing.
pub fn rule_from_text(r: &RuleText, parsed: Option<IpAddress>) -> (out: IpRule)
    ensures
        out == match (rule_text_view(*r), parsed) {
            (RuleTextV::Single(_), Some(a)) => IpRule::Single(a),
            (RuleTextV::Cidr(_, Some(p)), Some(a)) => IpRule::Cidr(a, p),
            _ => IpRule::Invalid,
        },
{
    match (r, parsed) {
        (RuleText::Single(_), Some(a)) => IpRule::Single(a),
        (RuleText::Cidr(_, Some(p)), Some(a)) => IpRule::Cidr(a, *p),
        _ => IpRule::Invalid,
    }
}

/// IP restriction middleware configuration.
pub struct IpRestriction {
    /// When non-empty, only these addresses are allowed.
    pub allow: Vec<IpRule>,
    /// These addresses are denied (checked first).
    pub deny: Vec<IpRule>,
    /// Exact addresses of trusted reverse proxies.
    pub trusted_proxies: Vec<String>,
    /// The detail message of the denial.
    pub message: String,
    /// The status of the denial.
    pub status: u16,
}

pub fn default_message() -> (r: String)
    ensures r@ == "Access denied"@,
{
    owned("Access denied")
}

pub fn default_status() -> (r: u16)
    ensures r == 403,
{
    403
}

// ---------------------------------------------------------------------------
// Prefix matching
// ---------------------------------------------------------------------------

/// The first `p` bits of `a` and `b` agree (over the bytes both have).
pub open spec fn prefix_eq(a: Seq<u8>, b: Seq<u8>, p: int) -> bool {
    forall|i: int| 0 <= i < a.len() && i < b.len() && 8 * i < p ==> #[trigger] byte_prefix_eq(a[i], b[i], p - 8 * i)
}

/// The first `n` bits of two bytes agree (all of them when `n >= 8`).
pub open spec fn byte_prefix_eq(x: u8, y: u8, n: int) -> bool {
    if n >= 8 { x == y } else { (x >> ((8 - n) as u8)) == (y >> ((8 - n) as u8)) }
}

proof fn lemma_mask(x: u8, y: u8, s: u8)
    by (bit_vector)
    requires
        1 <= s <= 7,
    ensures
        ((x & (0xffu8 << s)) == (y & (0xffu8 << s))) == ((x >> s) == (y >> s)),
{
}

proof fn lemma_full_mask(x: u8, y: u8)
    by (bit_vector)
    ensures
        ((x & 0xffu8) == (y & 0xffu8)) == (x == y),
{
}

/// Whether the first `prefix_len` bits of `a` and `b` agree; `false` when
/// the prefix is longer than `max_bits`.
pub fn bits_match(a: &[u8], b: &[u8], prefix_len: u8, max_bits: u8) -> (r: bool)
    ensures
        r == (prefix_len <= max_bits && prefix_eq(a@, b@, prefix_len as int)),
{
    if prefix_len > max_bits {
        return false;
    }
    let mut remaining: usize = prefix_len as usize;
    let mut i: usize = 0;
    while i < a.len() && i < b.len()
        invariant
            i <= a@.len(),
            remaining as int == if prefix_len as int - 8 * i >= 0 { prefix_len as int - 8 * i } else { 0 },
            forall|j: int| 0 <= j < i && 8 * j < prefix_len ==> #[trigger] byte_prefix_eq(a@[j], b@[j], prefix_len - 8 * j),
        ensures
            remaining == 0 || !(i < a@.len() && i < b@.len()),
            i <= a@.len(),
            remaining as int == if prefix_len as int - 8 * i >= 0 { prefix_len as int - 8 * i } else { 0 },
            forall|j: int| 0 <= j < i && 8 * j < prefix_len ==> #[trigger] byte_prefix_eq(a@[j], b@[j], prefix_len - 8 * j),
        decreases a@.len() - i,
    {
        if remaining == 0 {
            break;
        }
        let take: usize = if remaining < 8 { remaining } else { 8 };
        let x = a[i];
        let y = b[i];
        if take == 8 {
            proof { lemma_full_mask(x, y); }
            if (x & 0xFFu8) != (y & 0xFFu8) {
                assert(!byte_prefix_eq(a@[i as int], b@[i as int], prefix_len - 8 * i));
                return false;
            }
        } else {
            let s: u8 = (8 - take) as u8;
            proof { lemma_mask(x, y, s); }
            let mask: u8 = 0xFFu8 << s;
            if (x & mask) != (y & mask) {
                assert(!byte_prefix_eq(a@[i as int], b@[i as int], prefix_len - 8 * i));
                return false;
            }
        }
        remaining = remaining - take;
        i = i + 1;
    }
    assert forall|j: int| 0 <= j < a@.len() && j < b@.len() && 8 * j < prefix_len implies #[trigger] byte_prefix_eq(a@[j], b@[j], prefix_len - 8 * j) by {
        if j >= i {
            assert(remaining == 0 || !(i < a@.len() && i < b@.len()));
        }
    }
    true
}

/// Both addresses are of one family and hold the same bytes.
pub open spec fn same_address(a: IpAddress, b: IpAddress) -> bool {
    match (a, b) {
        (IpAddress::V4(x), IpAddress::V4(y)) => x@ == y@,
        (IpAddress::V6(x), IpAddress::V6(y)) => x@ == y@,
        _ => false,
    }
}

/// `ip` lies in `network/prefix` (same family only).
pub open spec fn in_cidr(ip: IpAddress, network: IpAddress, prefix: u8) -> bool {
    match (ip, network) {
        (IpAddress::V4(x), IpAddress::V4(y)) => prefix <= 32 && prefix_eq(x@, y@, prefix as int),
        (IpAddress::V6(x), IpAddress::V6(y)) => prefix <= 128 && prefix_eq(x@, y@, prefix as int),
        _ => false,
    }
}

/// `client` matches a list entry.
pub open spec fn rule_matches(client: IpAddress, rule: IpRule) -> bool {
    match rule {
        IpRule::Single(a) => same_address(a, client),
        IpRule::Cidr(n, p) => in_cidr(client, n, p),
        IpRule::Invalid => false,
    }
}

/// Some entry of the list matches `client`.
pub open spec fn in_list(client: IpAddress, list: Seq<IpRule>) -> bool {
    exists|i: int| 0 <= i < list.len() && rule_matches(client, #[trigger] list[i])
}

fn bytes_eq(a: &[u8], b: &[u8]) -> (r: bool)
    ensures
        r == (a@ == b@),
{
    if a.len() != b.len() {
        return false;
    }
    let mut i: usize = 0;
    while i < a.len()
        invariant
            a@.len() == b@.len(),
            i <= a@.len(),
            forall|j: int| 0 <= j < i ==> a@[j] == b@[j],
        decreases a@.len() - i,
    {
        if a[i] != b[i] {
            return false;
        }
        i = i + 1;
    }
    assert(a@ =~= b@);
    true
}

/// Whether `ip` lies in `network/prefix_len`.
pub fn ip_in_cidr(ip: &IpAddress, network: &IpAddress, prefix_len: u8) -> (r: bool)
    ensures
        r == in_cidr(*ip, *network, prefix_len),
{
    match (ip, network) {
        (IpAddress::V4(x), IpAddress::V4(y)) => bits_match(x.as_slice(), y.as_slice(), prefix_len, 32),
        (IpAddress::V6(x), IpAddress::V6(y)) => bits_match(x.as_slice(), y.as_slice(), prefix_len, 128),
        _ => false,
    }
}

/// Whether `client` matches the list entry `rule`.
pub fn ip_matches(client: &IpAddress, rule: &IpRule) -> (r: bool)
    ensures
        r == rule_matches(*client, *rule),
{
    match rule {
        IpRule::Single(a) => match (a, client) {
            (IpAddress::V4(x), IpAddress::V4(y)) => bytes_eq(x.as_slice(), y.as_slice()),
            (IpAddress::V6(x), IpAddress::V6(y)) => bytes_eq(x.as_slice(), y.as_slice()),
            _ => false,
        },
        IpRule::Cidr(n, p) => ip_in_cidr(client, n, *p),
        IpRule::Invalid => false,
    }
}

// ---------------------------------------------------------------------------
// Client address resolution
// ---------------------------------------------------------------------------

impl IpRestriction {
    /// The denial for a request from `ip`.
    pub open spec fn is_forbidden(&self, resp: Response, ip: Seq<char>) -> bool {
        &&& resp.status == self.status
        &&& resp.headers@ == one_header("content-type"@, "application/problem+json"@)
        &&& body_view(resp.body) == Some(json_bytes(problem_details_json(
            self.status, "urn:barbacane:error:ip-restricted"@, "Forbidden"@, Some(self.message@),
            seq![("client_ip"@, JsonV::Str(ip))])))
    }

    /// Whether a request is let through, given the client address text and
    /// its parse (`None` when it does not parse as an address).
    pub open spec fn allows(&self, parsed: Option<IpAddress>) -> bool {
        match parsed {
            None => self.allow@.len() == 0 && self.deny@.len() == 0,
            Some(ip) => !in_list(ip, self.deny@) && (self.allow@.len() == 0 || in_list(ip, self.allow@)),
        }
    }

    /// The client address the rules are checked against.
    pub fn client_ip(&self, req: &Request) -> (r: String)
        ensures
            r@ == resolved_ip(req.client_ip@, req.headers@, self.trusted_proxies@),
    {
        resolve_client_ip(req, &self.trusted_proxies)
    }

    /// Checks the client address against the deny list, then the allow list.
    /// `parsed` is the parse of `self.client_ip(&req)` (`None` when it does not
    /// parse); an address that does not parse is denied whenever any rule exists.
    pub fn on_request(&self, req: Request, parsed: Option<IpAddress>) -> (r: Action)
        ensures
            match r {
                Action::Continue(out) => self.allows(parsed) && out == req,
                Action::ShortCircuit(resp) => !self.allows(parsed)
                    && self.is_forbidden(resp, resolved_ip(req.client_ip@, req.headers@, self.trusted_proxies@)),
            },
    {
        let ip_text = self.client_ip(&req);
        let ip = match parsed {
            Some(ip) => ip,
            None => {
                if self.allow.len() == 0 && self.deny.len() == 0 {
                    return Action::Continue(req);
                }
                return Action::ShortCircuit(self.forbidden_response(ip_text.as_str()));
            },
        };
        if self.is_ip_in_list(&ip, &self.deny) {
            return Action::ShortCircuit(self.forbidden_response(ip_text.as_str()));
        }
        if self.allow.len() > 0 && !self.is_ip_in_list(&ip, &self.allow) {
            return Action::ShortCircuit(self.forbidden_response(ip_text.as_str()));
        }
        Action::Continue(req)
    }

    /// Passes responses through unchanged.
    pub fn on_response(&self, resp: Response) -> (r: Response)
        ensures
            r == resp,
    {
        resp
    }

    /// Whether some entry of `list` matches `ip`.
    pub fn is_ip_in_list(&self, ip: &IpAddress, list: &Vec<IpRule>) -> (r: bool)
        ensures
            r == in_list(*ip, list@),
    {
        let mut i: usize = 0;
        while i < list.len()
            invariant
                i <= list@.len(),
                forall|j: int| 0 <= j < i ==> !rule_matches(*ip, #[trigger] list@[j]),
            decreases list@.len() - i,
        {
            if ip_matches(ip, &list[i]) {
                return true;
            }
            i = i + 1;
        }
        false
    }

    /// The denial response.
    pub fn forbidden_response(&self, client_ip: &str) -> (r: Response)
        ensures
            self.is_forbidden(r, client_ip@),
    {
        let mut ext: Vec<(String, Json)> = Vec::new();
        obj_push(&mut ext, "client_ip", jstr(client_ip));
        assert(json_members_view(ext@) =~= seq![("client_ip"@, JsonV::Str(client_ip@))]);
        problem_details(self.status, "urn:barbacane:error:ip-restricted", "Forbidden", Some(self.message.as_str()), &ext)
    }
}

/// The deny list takes precedence: a denied address is rejected even when
/// the allow list names it too.
pub proof fn law_deny_takes_precedence(c: IpRestriction, ip: IpAddress)
    requires
        in_list(ip, c.deny@),
    ensures
        !c.allows(Some(ip)),
{
}

/// An address that does not parse is rejected whenever any rule exists: the
/// check fails closed.
pub proof fn law_unparsable_address_fails_closed(c: IpRestriction)
    requires
        c.allow@.len() > 0 || c.deny@.len() > 0,
    ensures
        !c.allows(None),
{
}

/// An IPv4 client never matches an IPv6 rule, and the other way round.
pub proof fn law_family_mismatch_never_matches(v4: [u8; 4], v6: [u8; 16], prefix: u8)
    ensures
        !rule_matches(IpAddress::V4(v4), IpRule::Cidr(IpAddress::V6(v6), prefix)),
        !rule_matches(IpAddress::V4(v4), IpRule::Single(IpAddress::V6(v6))),
        !rule_matches(IpAddress::V6(v6), IpRule::Cidr(IpAddress::V4(v4), prefix)),
        !rule_matches(IpAddress::V6(v6), IpRule::Single(IpAddress::V4(v4))),
{
}

/// A zero-length prefix matches every address of the network's family.
pub proof fn law_zero_prefix_matches_family(a: [u8; 4], n: [u8; 4])
    ensures
        rule_matches(IpAddress::V4(a), IpRule::Cidr(IpAddress::V4(n), 0)),
{
}

/// An address lies in every network of its own family that it starts, for
/// every prefix length the family allows.
pub proof fn law_address_in_own_network(a: [u8; 16], prefix: u8)
    requires
        prefix <= 128,
    ensures
        rule_matches(IpAddress::V6(a), IpRule::Cidr(IpAddress::V6(a), prefix)),
{
}

} // verus!
