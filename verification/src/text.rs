//! Text operations on `String`/`str`, stated over their character sequences.

use vstd::prelude::*;
use vstd::utf8::{decode_utf8, encode_utf8, valid_utf8};

verus! {

// ---------------------------------------------------------------------------
// Specifications
// ---------------------------------------------------------------------------

/// ASCII lowercase of one character; other characters are unchanged.
pub open spec fn ascii_lower_char(c: char) -> char {
    if 'A' <= c && c <= 'Z' {
        ((c as u32) + 32) as char
    } else {
        c
    }
}

/// ASCII lowercase of a character sequence.
pub open spec fn ascii_lower(s: Seq<char>) -> Seq<char> {
    s.map_values(|c: char| ascii_lower_char(c))
}

/// `p` is a prefix of `s`.
pub open spec fn is_prefix(p: Seq<char>, s: Seq<char>) -> bool {
    p.len() <= s.len() && s.subrange(0, p.len() as int) == p
}

/// `p` is a suffix of `s`.
pub open spec fn is_suffix(p: Seq<char>, s: Seq<char>) -> bool {
    p.len() <= s.len() && s.subrange(s.len() - p.len(), s.len() as int) == p
}

/// `t` occurs in `s` at position `i`.
pub open spec fn occurs_at(s: Seq<char>, t: Seq<char>, i: int) -> bool {
    0 <= i && i + t.len() <= s.len() && s.subrange(i, i + t.len()) == t
}

/// `t` occurs somewhere in `s` (the empty sequence occurs in every sequence).
pub open spec fn contains_seq(s: Seq<char>, t: Seq<char>) -> bool {
    exists|i: int| occurs_at(s, t, i)
}

/// The pieces of `s` between occurrences of `sep`, as `str::split` with a
/// character pattern yields them (always at least one piece).
pub open spec fn split_char(s: Seq<char>, sep: char) -> Seq<Seq<char>>
    decreases s.len(),
{
    if s.len() == 0 {
        seq![Seq::<char>::empty()]
    } else {
        let prev = split_char(s.drop_last(), sep);
        if s.last() == sep {
            prev.push(Seq::<char>::empty())
        } else {
            prev.update(prev.len() - 1, prev.last().push(s.last()))
        }
    }
}

/// A split always has at least one piece.
pub proof fn lemma_split_nonempty(s: Seq<char>, sep: char)
    ensures
        split_char(s, sep).len() >= 1,
    decreases s.len(),
{
    if s.len() > 0 {
        lemma_split_nonempty(s.drop_last(), sep);
    }
}

/// The index of the first occurrence of `c` in `s`, if any.
pub open spec fn first_index(s: Seq<char>, c: char) -> Option<int> {
    if exists|i: int| 0 <= i < s.len() && s[i] == c {
        Some(choose|i: int| 0 <= i < s.len() && s[i] == c && forall|j: int| 0 <= j < i ==> s[j] != c)
    } else {
        None
    }
}

/// `str::split_once` with a character pattern: the text before and after the
/// first occurrence of `c`.
pub open spec fn split_once(s: Seq<char>, c: char) -> Option<(Seq<char>, Seq<char>)> {
    match first_index(s, c) {
        Some(i) => Some((s.subrange(0, i), s.subrange(i + 1, s.len() as int))),
        None => None,
    }
}

/// Whether std's `char::is_whitespace` holds of `c`: the Unicode
/// `White_Space` property, 25 code points.
pub open spec fn char_is_whitespace(c: char) -> bool {
    ||| '\u{9}' <= c <= '\u{d}'
    ||| c == ' '
    ||| c == '\u{85}'
    ||| c == '\u{a0}'
    ||| c == '\u{1680}'
    ||| '\u{2000}' <= c <= '\u{200a}'
    ||| c == '\u{2028}'
    ||| c == '\u{2029}'
    ||| c == '\u{202f}'
    ||| c == '\u{205f}'
    ||| c == '\u{3000}'
}

/// `s` without its leading whitespace.
pub open spec fn trim_start(s: Seq<char>) -> Seq<char>
    decreases s.len(),
{
    if s.len() > 0 && char_is_whitespace(s[0]) {
        trim_start(s.drop_first())
    } else {
        s
    }
}

/// `s` without its trailing whitespace.
pub open spec fn trim_end(s: Seq<char>) -> Seq<char>
    decreases s.len(),
{
    if s.len() > 0 && char_is_whitespace(s.last()) {
        trim_end(s.drop_last())
    } else {
        s
    }
}

/// `s` without leading and trailing whitespace (`str::trim`).
pub open spec fn trimmed(s: Seq<char>) -> Seq<char> {
    trim_end(trim_start(s))
}

/// The pieces joined with `sep` between them.
pub open spec fn joined(parts: Seq<Seq<char>>, sep: Seq<char>) -> Seq<char>
    decreases parts.len(),
{
    if parts.len() == 0 {
        Seq::empty()
    } else if parts.len() == 1 {
        parts[0]
    } else {
        joined(parts.drop_last(), sep) + sep + parts.last()
    }
}

/// The decimal digit character for `d < 10`.
pub open spec fn digit_char(d: nat) -> char {
    (('0' as u32) + d) as char
}

/// The decimal representation of `n`, without leading zeros.
pub open spec fn decimal(n: nat) -> Seq<char>
    decreases n,
{
    if n < 10 {
        seq![digit_char(n)]
    } else {
        decimal(n / 10).push(digit_char(n % 10))
    }
}

/// The value of a non-empty run of ASCII digits.
pub open spec fn digits_value(s: Seq<char>) -> nat
    decreases s.len(),
{
    if s.len() == 0 {
        0
    } else {
        digits_value(s.drop_last()) * 10 + ((s.last() as u32) - ('0' as u32)) as nat
    }
}

pub open spec fn all_digits(s: Seq<char>) -> bool {
    forall|i: int| 0 <= i < s.len() ==> '0' <= #[trigger] s[i] && s[i] <= '9'
}

/// What `str::parse::<u64>` accepts: an optional `+`, then one or more ASCII
/// digits whose value fits in 64 bits.
pub open spec fn parse_unsigned(s: Seq<char>, max: nat) -> Option<nat> {
    let body = if s.len() > 0 && s[0] == '+' { s.drop_first() } else { s };
    if body.len() > 0 && all_digits(body) && digits_value(body) <= max {
        Some(digits_value(body))
    } else {
        None
    }
}

// ---------------------------------------------------------------------------
// Wrappers around std
// ---------------------------------------------------------------------------

/// `String::push`: appends one character.
#[verifier::external_body]
pub(crate) fn push_char(s: &mut String, c: char)
    ensures
        final(s)@ == old(s)@.push(c),
{
    s.push(c)
}

/// `String::push_str`: appends a string slice.
#[verifier::external_body]
pub(crate) fn push_str(s: &mut String, t: &str)
    ensures
        final(s)@ == old(s)@ + t@,
{
    s.push_str(t)
}

/// `str::chars`, collected: the characters of `s` in order.
#[verifier::external_body]
pub(crate) fn chars_of(s: &str) -> (r: Vec<char>)
    ensures
        r@ == s@,
{
    s.chars().collect()
}

/// `str::to_string`: an owned copy.
#[verifier::external_body]
pub(crate) fn owned(s: &str) -> (r: String)
    ensures
        r@ == s@,
{
    s.to_string()
}

/// `<str as PartialEq>::eq`: two string slices are equal exactly when they
/// hold the same characters.
#[verifier::external_body]
pub(crate) fn str_eq(a: &str, b: &str) -> (r: bool)
    ensures
        r == (a@ == b@),
{
    a == b
}

/// `char::is_whitespace`: membership in the `White_Space` set.
pub(crate) fn is_whitespace(c: char) -> (r: bool)
    ensures
        r == char_is_whitespace(c),
{
    ('\u{9}' <= c && c <= '\u{d}') || c == ' ' || c == '\u{85}' || c == '\u{a0}' || c == '\u{1680}'
        || ('\u{2000}' <= c && c <= '\u{200a}') || c == '\u{2028}' || c == '\u{2029}' || c == '\u{202f}'
        || c == '\u{205f}' || c == '\u{3000}'
}

/// `u64::to_string`: the decimal representation.
#[verifier::external_body]
pub(crate) fn u64_to_string(n: u64) -> (r: String)
    ensures
        r@ == decimal(n as nat),
{
    n.to_string()
}

/// `str::parse::<u64>`, as an `Option`.
#[verifier::external_body]
pub(crate) fn parse_u64(s: &str) -> (r: Option<u64>)
    ensures
        r matches Some(v) ==> parse_unsigned(s@, u64::MAX as nat) == Some(v as nat),
        r is None ==> parse_unsigned(s@, u64::MAX as nat) is None,
{
    s.parse::<u64>().ok()
}

/// `str::parse::<usize>`.
#[verifier::external_body]
pub(crate) fn parse_usize(s: &str) -> (r: Option<usize>)
    ensures
        r matches Some(v) ==> parse_unsigned(s@, usize::MAX as nat) == Some(v as nat),
        r is None ==> parse_unsigned(s@, usize::MAX as nat) is None,
{
    s.parse::<usize>().ok()
}

/// `str::parse::<u32>`, as an `Option`.
#[verifier::external_body]
pub(crate) fn parse_u32(s: &str) -> (r: Option<u32>)
    ensures
        r matches Some(v) ==> parse_unsigned(s@, u32::MAX as nat) == Some(v as nat),
        r is None ==> parse_unsigned(s@, u32::MAX as nat) is None,
{
    s.parse::<u32>().ok()
}

/// `str::to_lowercase` (Unicode lowercase mapping).
#[verifier::external_body]
pub(crate) fn to_lowercase(s: &str) -> (r: String)
    ensures
        r@ == unicode_lower(s@),
{
    s.to_lowercase()
}

/// What `str::to_lowercase` returns for a character sequence.
pub uninterp spec fn unicode_lower(s: Seq<char>) -> Seq<char>;

// ---------------------------------------------------------------------------
// Verified operations
// ---------------------------------------------------------------------------

/// A `String` holding the characters of `v`.
pub fn string_from(v: &[char]) -> (r: String)
    ensures
        r@ == v@,
{
    let mut out = String::new();
    let mut i: usize = 0;
    while i < v.len()
        invariant
            i <= v.len(),
            out@ == v@.subrange(0, i as int),
        decreases v.len() - i,
    {
        push_char(&mut out, v[i]);
        i = i + 1;
        assert(out@ =~= v@.subrange(0, i as int));
    }
    assert(v@.subrange(0, v.len() as int) =~= v@);
    out
}

/// The concatenation of two string slices.
pub fn concat(a: &str, b: &str) -> (r: String)
    ensures
        r@ == a@ + b@,
{
    let mut out = owned(a);
    push_str(&mut out, b);
    out
}

/// The concatenation of three string slices.
pub fn concat3(a: &str, b: &str, c: &str) -> (r: String)
    ensures
        r@ == a@ + b@ + c@,
{
    let mut out = owned(a);
    push_str(&mut out, b);
    push_str(&mut out, c);
    out
}

/// `str::to_ascii_lowercase`.
pub fn to_ascii_lowercase(s: &str) -> (r: String)
    ensures
        r@ == ascii_lower(s@),
{
    let cs = chars_of(s);
    let mut out = String::new();
    let mut i: usize = 0;
    while i < cs.len()
        invariant
            i <= cs.len(),
            cs@ == s@,
            out@ == ascii_lower(s@).subrange(0, i as int),
        decreases cs.len() - i,
    {
        let c = cs[i];
        let l = if 'A' <= c && c <= 'Z' {
            char_from_u32_ascii((c as u32) + 32)
        } else {
            c
        };
        push_char(&mut out, l);
        i = i + 1;
        assert(out@ =~= ascii_lower(s@).subrange(0, i as int));
    }
    assert(ascii_lower(s@).subrange(0, cs.len() as int) =~= ascii_lower(s@));
    out
}

/// The character with code `u`, for an ASCII lowercase letter code.
fn char_from_u32_ascii(u: u32) -> (c: char)
    requires
        ('a' as u32) <= u <= ('z' as u32),
    ensures
        c == u as char,
{
    let mut c = 'a';
    let mut k: u32 = 'a' as u32;
    while k < u
        invariant
            ('a' as u32) <= k <= u,
            u <= ('z' as u32),
            c == k as char,
        decreases u - k,
    {
        c = next_letter(c);
        k = k + 1;
    }
    c
}

/// The next lowercase letter.
fn next_letter(c: char) -> (r: char)
    requires
        'a' <= c < 'z',
    ensures
        r == ((c as u32) + 1) as char,
{
    match c {
        'a' => 'b', 'b' => 'c', 'c' => 'd', 'd' => 'e', 'e' => 'f', 'f' => 'g',
        'g' => 'h', 'h' => 'i', 'i' => 'j', 'j' => 'k', 'k' => 'l', 'l' => 'm',
        'm' => 'n', 'n' => 'o', 'o' => 'p', 'p' => 'q', 'q' => 'r', 'r' => 's',
        's' => 't', 't' => 'u', 'u' => 'v', 'v' => 'w', 'w' => 'x', _ => {
            if c == 'x' { 'y' } else { 'z' }
        },
    }
}

/// `str::eq_ignore_ascii_case`.
pub fn eq_ignore_ascii_case(a: &str, b: &str) -> (r: bool)
    ensures
        r == (ascii_lower(a@) == ascii_lower(b@)),
{
    let la = to_ascii_lowercase(a);
    let lb = to_ascii_lowercase(b);
    str_eq(la.as_str(), lb.as_str())
}

/// `str::starts_with` with a string pattern.
pub fn starts_with(s: &str, p: &str) -> (r: bool)
    ensures
        r == is_prefix(p@, s@),
{
    let cs = chars_of(s);
    let ps = chars_of(p);
    if ps.len() > cs.len() {
        return false;
    }
    let mut i: usize = 0;
    while i < ps.len()
        invariant
            ps.len() <= cs.len(),
            i <= ps.len(),
            cs@ == s@,
            ps@ == p@,
            forall|j: int| 0 <= j < i ==> cs@[j] == ps@[j],
        decreases ps.len() - i,
    {
        if cs[i] != ps[i] {
            assert(s@.subrange(0, p@.len() as int)[i as int] != p@[i as int]);
            return false;
        }
        i = i + 1;
    }
    assert(s@.subrange(0, p@.len() as int) =~= p@);
    true
}

/// `str::ends_with` with a string pattern.
pub fn ends_with(s: &str, p: &str) -> (r: bool)
    ensures
        r == is_suffix(p@, s@),
{
    let cs = chars_of(s);
    let ps = chars_of(p);
    if ps.len() > cs.len() {
        return false;
    }
    let off = cs.len() - ps.len();
    let mut i: usize = 0;
    while i < ps.len()
        invariant
            ps.len() <= cs.len(),
            off == cs.len() - ps.len(),
            i <= ps.len(),
            cs@ == s@,
            ps@ == p@,
            forall|j: int| 0 <= j < i ==> cs@[off + j] == ps@[j],
        decreases ps.len() - i,
    {
        if cs[off + i] != ps[i] {
            assert(s@.subrange(s@.len() - p@.len(), s@.len() as int)[i as int] != p@[i as int]);
            return false;
        }
        i = i + 1;
    }
    assert(s@.subrange(s@.len() - p@.len(), s@.len() as int) =~= p@);
    true
}

/// Whether `t` occurs in `cs` at position `i`.
fn occurs_at_exec(cs: &Vec<char>, ts: &Vec<char>, i: usize) -> (r: bool)
    requires
        i + ts.len() <= cs.len(),
    ensures
        r == occurs_at(cs@, ts@, i as int),
{
    let mut j: usize = 0;
    while j < ts.len()
        invariant
            i + ts.len() <= cs.len(),
            j <= ts.len(),
            forall|k: int| 0 <= k < j ==> cs@[i + k] == ts@[k],
        decreases ts.len() - j,
    {
        if cs[i + j] != ts[j] {
            assert(cs@.subrange(i as int, i + ts.len())[j as int] != ts@[j as int]);
            return false;
        }
        j = j + 1;
    }
    assert(cs@.subrange(i as int, i + ts@.len()) =~= ts@);
    true
}

/// `str::contains` with a string pattern.
pub fn contains(s: &str, t: &str) -> (r: bool)
    ensures
        r == contains_seq(s@, t@),
{
    let cs = chars_of(s);
    let ts = chars_of(t);
    if ts.len() == 0 {
        assert(s@.subrange(0, 0) =~= t@);
        assert(occurs_at(s@, t@, 0));
        return true;
    }
    let mut i: usize = 0;
    while i < cs.len() && ts.len() <= cs.len() - i
        invariant
            ts.len() >= 1,
            i <= cs.len(),
            cs@ == s@,
            ts@ == t@,
            forall|k: int| 0 <= k < i ==> !occurs_at(s@, t@, k),
        decreases cs.len() - i,
    {
        if occurs_at_exec(&cs, &ts, i) {
            return true;
        }
        i = i + 1;
    }
    proof { true_or_none(s@, t@, i as int); }
    false
}

proof fn true_or_none(s: Seq<char>, t: Seq<char>, n: int)
    requires
        n + t.len() > s.len(),
        forall|k: int| 0 <= k < n ==> !occurs_at(s, t, k),
    ensures
        !contains_seq(s, t),
{
}

/// `str::trim`.
pub fn trim(s: &str) -> (r: String)
    ensures
        r@ == trimmed(s@),
{
    let cs = chars_of(s);
    assert(s@.subrange(0, s@.len() as int) =~= s@);
    let mut lo: usize = 0;
    while lo < cs.len() && is_whitespace(cs[lo])
        invariant
            lo <= cs.len(),
            cs@ == s@,
            trim_start(s@) == trim_start(s@.subrange(lo as int, s@.len() as int)),
        decreases cs.len() - lo,
    {
        assert(s@.subrange(lo as int, s@.len() as int).drop_first() =~= s@.subrange(lo + 1, s@.len() as int));
        lo = lo + 1;
    }
    let ghost mid = s@.subrange(lo as int, s@.len() as int);
    assert(trim_start(mid) == mid);
    let mut hi: usize = cs.len();
    while hi > lo && is_whitespace(cs[hi - 1])
        invariant
            lo <= hi <= cs.len(),
            cs@ == s@,
            mid == s@.subrange(lo as int, s@.len() as int),
            trim_end(mid) == trim_end(s@.subrange(lo as int, hi as int)),
        decreases hi - lo,
    {
        assert(s@.subrange(lo as int, hi as int).drop_last() =~= s@.subrange(lo as int, hi - 1));
        hi = hi - 1;
    }
    assert(trim_end(s@.subrange(lo as int, hi as int)) == s@.subrange(lo as int, hi as int));
    let mut out = String::new();
    let mut i: usize = lo;
    while i < hi
        invariant
            lo <= i <= hi,
            hi <= cs.len(),
            cs@ == s@,
            out@ == s@.subrange(lo as int, i as int),
        decreases hi - i,
    {
        push_char(&mut out, cs[i]);
        i = i + 1;
        assert(out@ =~= s@.subrange(lo as int, i as int));
    }
    out
}

/// `str::split` on a character, each piece owned.
pub fn split(s: &str, sep: char) -> (r: Vec<String>)
    ensures
        r@.len() == split_char(s@, sep).len(),
        forall|i: int| 0 <= i < r@.len() ==> #[trigger] r@[i]@ == split_char(s@, sep)[i],
{
    let cs = chars_of(s);
    let mut out: Vec<String> = Vec::new();
    let mut cur = String::new();
    let mut i: usize = 0;
    assert(s@.subrange(0, 0) =~= Seq::<char>::empty());
    while i < cs.len()
        invariant
            i <= cs.len(),
            cs@ == s@,
            out@.len() + 1 == split_char(s@.subrange(0, i as int), sep).len(),
            forall|k: int| 0 <= k < out@.len() ==> #[trigger] out@[k]@ == split_char(s@.subrange(0, i as int), sep)[k],
            cur@ == split_char(s@.subrange(0, i as int), sep).last(),
        decreases cs.len() - i,
    {
        let ghost prev = s@.subrange(0, i as int);
        assert(s@.subrange(0, i + 1).drop_last() =~= prev);
        let c = cs[i];
        if c == sep {
            out.push(cur);
            cur = String::new();
        } else {
            push_char(&mut cur, c);
        }
        i = i + 1;
    }
    assert(s@.subrange(0, cs.len() as int) =~= s@);
    out.push(cur);
    out
}

/// `slice::join` with a string separator.
pub fn join_strings(parts: &Vec<String>, sep: &str) -> (r: String)
    ensures
        r@ == joined(parts@.map_values(|p: String| p@), sep@),
{
    let ghost views = parts@.map_values(|p: String| p@);
    let mut out = String::new();
    let mut i: usize = 0;
    while i < parts.len()
        invariant
            i <= parts.len(),
            views == parts@.map_values(|p: String| p@),
            out@ == joined(views.subrange(0, i as int), sep@),
        decreases parts.len() - i,
    {
        assert(views.subrange(0, i + 1).drop_last() =~= views.subrange(0, i as int));
        if i > 0 {
            push_str(&mut out, sep);
        } else {
            assert(views.subrange(0, 1) =~= seq![views[0]]);
        }
        push_str(&mut out, parts[i].as_str());
        i = i + 1;
    }
    assert(views.subrange(0, parts.len() as int) =~= views);
    out
}

/// Some element of `v` holds exactly the characters `s`.
pub open spec fn has_str(v: Seq<String>, s: Seq<char>) -> bool {
    exists|i: int| 0 <= i < v.len() && #[trigger] v[i]@ == s
}

/// `Vec::contains` on strings: some element equals `s`.
pub fn vec_contains(v: &Vec<String>, s: &str) -> (r: bool)
    ensures
        r == has_str(v@, s@),
{
    let mut i: usize = 0;
    while i < v.len()
        invariant
            i <= v@.len(),
            forall|j: int| 0 <= j < i ==> v@[j]@ != s@,
        decreases v@.len() - i,
    {
        if str_eq(v[i].as_str(), s) {
            return true;
        }
        i = i + 1;
    }
    false
}

/// The views of a sequence of strings.
pub open spec fn views(v: Seq<String>) -> Seq<Seq<char>> {
    v.map_values(|s: String| s@)
}

/// `s` without its trailing run of `c` (`str::trim_end_matches` on a char).
pub open spec fn trim_end_char(s: Seq<char>, c: char) -> Seq<char>
    decreases s.len(),
{
    if s.len() > 0 && s.last() == c {
        trim_end_char(s.drop_last(), c)
    } else {
        s
    }
}

/// Removes every trailing `c`.
pub fn trim_end_matches_char(s: &str, c: char) -> (r: String)
    ensures
        r@ == trim_end_char(s@, c),
{
    let cs = chars_of(s);
    let mut n: usize = cs.len();
    assert(s@.subrange(0, n as int) =~= s@);
    while n > 0 && cs[n - 1] == c
        invariant
            n <= cs@.len(),
            cs@ == s@,
            trim_end_char(s@, c) == trim_end_char(s@.subrange(0, n as int), c),
        decreases n,
    {
        assert(s@.subrange(0, n as int).drop_last() =~= s@.subrange(0, n - 1));
        n = n - 1;
    }
    assert(s@.subrange(0, n as int).len() == 0 || s@.subrange(0, n as int).last() != c);
    string_from(&slice_of(&cs, 0, n))
}

/// `s` with every non-overlapping occurrence of `p`, leftmost first,
/// replaced by `w` (`str::replace` for a non-empty pattern).
pub open spec fn replace_seq(s: Seq<char>, p: Seq<char>, w: Seq<char>) -> Seq<char>
    decreases s.len(),
{
    if p.len() == 0 || s.len() < p.len() {
        s
    } else if s.subrange(0, p.len() as int) == p {
        w + replace_seq(s.skip(p.len() as int), p, w)
    } else {
        seq![s[0]] + replace_seq(s.skip(1), p, w)
    }
}

/// Replaces every occurrence of a non-empty pattern.
pub fn replace_str(s: &str, p: &str, w: &str) -> (r: String)
    requires
        p@.len() > 0,
    ensures
        r@ == replace_seq(s@, p@, w@),
{
    let cs = chars_of(s);
    let ps = chars_of(p);
    let n = cs.len();
    let m = ps.len();
    let mut out = String::new();
    let mut i: usize = 0;
    assert(s@.skip(0) =~= s@);
    while i < n
        invariant
            i <= n,
            n == cs@.len(),
            m == ps@.len(),
            m > 0,
            cs@ == s@,
            ps@ == p@,
            out@ + replace_seq(s@.skip(i as int), p@, w@) == replace_seq(s@, p@, w@),
        decreases n - i,
    {
        let ghost t = s@.skip(i as int);
        let mut matched = n - i >= m;
        let mut j: usize = 0;
        while matched && j < m
            invariant
                j <= m,
                m == ps@.len(),
                n == cs@.len(),
                i + m <= n || !matched,
                matched ==> forall|q: int| 0 <= q < j ==> cs@[i + q] == ps@[q],
                !matched ==> (n - i < m || exists|q: int| 0 <= q < m && cs@[i + q] != ps@[q]),
                i < n,
            decreases m - j,
        {
            if cs[i + j] != ps[j] {
                matched = false;
            }
            j = j + 1;
        }
        if matched {
            assert(t.subrange(0, m as int) =~= p@);
            push_str(&mut out, w);
            assert(t.skip(m as int) =~= s@.skip(i + m));
            i = i + m;
        } else {
            assert(t.len() < m || t.subrange(0, m as int) != p@) by {
                if t.len() >= m {
                    let q = choose|q: int| 0 <= q < m && cs@[i + q] != ps@[q];
                    assert(t.subrange(0, m as int)[q] != p@[q]);
                }
            }
            push_char(&mut out, cs[i]);
            assert(t.skip(1) =~= s@.skip(i + 1));
            i = i + 1;
        }
        assert(out@ + replace_seq(s@.skip(i as int), p@, w@) =~= replace_seq(s@, p@, w@));
    }
    assert(s@.skip(n as int) =~= Seq::<char>::empty());
    assert(out@ + Seq::<char>::empty() =~= out@);
    out
}

/// A result of two strings as a result of two character sequences.
pub open spec fn str_result(r: Result<String, String>) -> Result<Seq<char>, Seq<char>> {
    match r {
        Ok(s) => Ok(s@),
        Err(e) => Err(e@),
    }
}

/// `String::from_utf8`, as an `Option`.
#[verifier::external_body]
pub(crate) fn string_from_utf8(bytes: Vec<u8>) -> (r: Option<String>)
    ensures
        r is Some <==> valid_utf8(bytes@),
        r matches Some(s) ==> s@ == decode_utf8(bytes@),
{
    String::from_utf8(bytes).ok()
}

/// `String::into_bytes`: the UTF-8 encoding.
#[verifier::external_body]
pub(crate) fn string_bytes(s: String) -> (r: Vec<u8>)
    ensures
        r@ == encode_utf8(s@),
{
    s.into_bytes()
}

/// `str::split_once` on a character.
pub fn split_once_char(s: &str, c: char) -> (r: Option<(String, String)>)
    ensures
        match r {
            Some((a, b)) => split_once(s@, c) == Some((a@, b@)),
            None => split_once(s@, c) is None,
        },
{
    let cs = chars_of(s);
    let mut i: usize = 0;
    while i < cs.len()
        invariant
            i <= cs@.len(),
            cs@ == s@,
            forall|j: int| 0 <= j < i ==> s@[j] != c,
        decreases cs@.len() - i,
    {
        if cs[i] == c {
            let ghost k = choose|k: int| 0 <= k < s@.len() && s@[k] == c && forall|j: int| 0 <= j < k ==> s@[j] != c;
            assert(k == i) by {
                if k < i { assert(s@[k] != c); }
                if k > i { assert(s@[i as int] != c); }
            }
            let a = string_from(&slice_of(&cs, 0, i));
            let b = string_from(&slice_of(&cs, i + 1, cs.len()));
            return Some((a, b));
        }
        i = i + 1;
    }
    None
}

/// The characters `v[lo..hi]`.
pub fn slice_of(v: &Vec<char>, lo: usize, hi: usize) -> (r: Vec<char>)
    requires
        lo <= hi <= v@.len(),
    ensures
        r@ == v@.subrange(lo as int, hi as int),
{
    let mut out: Vec<char> = Vec::new();
    let mut i = lo;
    while i < hi
        invariant
            lo <= i <= hi,
            hi <= v@.len(),
            out@ == v@.subrange(lo as int, i as int),
        decreases hi - i,
    {
        out.push(v[i]);
        i = i + 1;
        assert(out@ =~= v@.subrange(lo as int, i as int));
    }
    out
}

/// The characters of `s` from position `lo` on.
pub fn skip_chars(s: &str, lo: usize) -> (r: String)
    requires
        lo <= s@.len(),
    ensures
        r@ == s@.skip(lo as int),
{
    let cs = chars_of(s);
    let v = slice_of(&cs, lo, cs.len());
    string_from(&v)
}

} // verus!
