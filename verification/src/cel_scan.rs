//! The admission check on CEL sources: a scan of the expression's tokens
//! that turns away the forms the interpreter cannot evaluate without
//! aborting, and finds the ranges of the comprehensions it keeps.
//!
//! Turned away:
//! - message (struct) literals: a `{` right after a word;
//! - comprehension macros (`all`, `exists`, `exists_one`, `existsOne`,
//!   `map`, `filter`) whose range is not a member path rooted at the
//!   `request` variable (`request.f1.f2...`);
//! - `request` as a comprehension's variable, which would hide the root;
//! - a unary minus on anything but a bare number literal (negating the
//!   least 64-bit integer overflows);
//! - an index on anything but a string literal or a decimal literal of at
//!   most 18 digits (or a hexadecimal one of at most 15): indexing a
//!   string at the largest 64-bit integer overflows;
//! - calls of `duration` (adding up a long duration text overflows).
//!
//! The ranges kept are checked against each request before the program
//! runs (see `path_safe` in the policy module): a range must be a list or a
//! map when it is there.
//!
//! The scan follows the CEL lexer: whitespace and `//` comments separate
//! tokens; string literals (quoted with `"` or `'`, triple-quoted, with an
//! optional `r`/`b` prefix, escapes outside raw strings) and back-quoted
//! identifiers are single tokens; a number may hold a `.` followed by a
//! digit. A source whose literal does not end is turned away.

use vstd::prelude::*;
use crate::text::{chars_of, push_char};

verus! {

/// What a token is, as far as the admission check cares.
#[derive(PartialEq, Eq, Structural, Clone, Copy)]
pub enum TokClass {
    /// The identifier `request`.
    Request,
    /// A comprehension macro's name.
    Macro,
    /// The keyword `in`.
    In,
    /// The identifier `duration`.
    DurationFn,
    /// A number literal below 10^18: at most 18 decimal digits, or `0x`
    /// and at most 15 hexadecimal digits.
    SmallNum,
    /// Any other word that starts with a digit: a number literal.
    Num,
    /// Any other word: identifier or keyword.
    Ident,
    /// A back-quoted identifier.
    Quoted,
    Dot,
    LParen,
    LBrace,
    /// A `[` that opens a list.
    LBracket,
    /// A `[` right after a value: an index.
    IndexOpen,
    /// A `]`.
    RBracket,
    /// A string literal.
    StrLit,
    /// A `)` or a `}`.
    Close,
    /// A minus sign where no value precedes it.
    Neg,
    /// Any other token: operator or punctuation.
    Other,
}

/// Where the scan is.
#[derive(PartialEq, Eq, Structural, Clone, Copy)]
pub enum ScanMode {
    Normal,
    /// Inside a word that started at this index.
    Word(usize),
    /// Inside a string literal: its quote, whether it is raw and
    /// triple-quoted, whether the last character was a backslash, how many
    /// opening quotes are still to skip, and the closing quotes seen in a row.
    Str { quote: char, raw: bool, triple: bool, esc: bool, skip: u8, run: u8 },
    /// Inside a `//` comment.
    Comment,
    /// Inside a back-quoted identifier.
    Tick,
}

/// A member path rooted at `request`, as far as the tokens so far go: its
/// fields, and whether a `.` ends it.
pub enum PathState {
    Off,
    Fields(Seq<Seq<char>>),
    Dotted(Seq<Seq<char>>),
}

/// The scan's state: the mode, the last two tokens (`h1` the latest), the
/// rooted path being read, the comprehension ranges found, and whether the
/// source is still admissible.
pub struct Scan {
    pub mode: ScanMode,
    pub h1: TokClass,
    pub h2: TokClass,
    pub path: PathState,
    pub targets: Seq<Seq<Seq<char>>>,
    pub ok: bool,
}

pub open spec fn initial_scan() -> Scan {
    Scan { mode: ScanMode::Normal, h1: TokClass::Other, h2: TokClass::Other, path: PathState::Off, targets: Seq::empty(), ok: true }
}

pub open spec fn word_char(c: char) -> bool {
    ('a' <= c && c <= 'z') || ('A' <= c && c <= 'Z') || ('0' <= c && c <= '9') || c == '_'
}

pub open spec fn digit_char(c: char) -> bool {
    '0' <= c && c <= '9'
}

pub open spec fn hex_char(c: char) -> bool {
    digit_char(c) || ('a' <= c && c <= 'f') || ('A' <= c && c <= 'F')
}

/// A number literal whose value is below 10^18.
pub open spec fn small_number(w: Seq<char>) -> bool {
    ||| 0 < w.len() <= 18 && forall|i: int| 0 <= i < w.len() ==> digit_char(#[trigger] w[i])
    ||| 3 <= w.len() <= 17 && w[0] == '0' && (w[1] == 'x' || w[1] == 'X')
        && forall|i: int| 2 <= i < w.len() ==> hex_char(#[trigger] w[i])
}

pub open spec fn space_char(c: char) -> bool {
    c == ' ' || c == '\t' || c == '\r' || c == '\n' || c == '\x0c'
}

/// A word that makes the following quote a prefixed string literal, and
/// whether the prefix makes it raw.
pub open spec fn string_prefix(w: Seq<char>) -> Option<bool> {
    if w == seq!['r'] || w == seq!['R'] {
        Some(true)
    } else if w == seq!['b'] || w == seq!['B'] {
        Some(false)
    } else if w.len() == 2 && (w[0] == 'b' || w[0] == 'B') && (w[1] == 'r' || w[1] == 'R') {
        Some(true)
    } else {
        None
    }
}

/// The class of a word.
pub open spec fn classify(w: Seq<char>) -> TokClass {
    if w.len() > 0 && digit_char(w[0]) {
        if small_number(w) { TokClass::SmallNum } else { TokClass::Num }
    } else if w == "request"@ {
        TokClass::Request
    } else if w == "all"@ || w == "exists"@ || w == "exists_one"@ || w == "existsOne"@ || w == "map"@ || w == "filter"@ {
        TokClass::Macro
    } else if w == "in"@ {
        TokClass::In
    } else if w == "duration"@ {
        TokClass::DurationFn
    } else {
        TokClass::Ident
    }
}

/// A word token that can name a member.
pub open spec fn path_word(t: TokClass) -> bool {
    t == TokClass::Request || t == TokClass::Macro || t == TokClass::In || t == TokClass::DurationFn
        || t == TokClass::SmallNum || t == TokClass::Num || t == TokClass::Ident
}

/// A word token (identifier or keyword, not a number) after which `{`
/// opens a message literal.
pub open spec fn wordish(t: TokClass) -> bool {
    t == TokClass::Request || t == TokClass::Macro || t == TokClass::DurationFn || t == TokClass::Ident
        || t == TokClass::Quoted
}

/// A number literal.
pub open spec fn number(t: TokClass) -> bool {
    t == TokClass::SmallNum || t == TokClass::Num
}

/// A token that ends a value: after it a minus sign subtracts and a `[`
/// indexes.
pub open spec fn value_end(t: TokClass) -> bool {
    wordish(t) || number(t) || t == TokClass::StrLit || t == TokClass::RBracket || t == TokClass::Close
}

/// A `(` that opens the arguments of a comprehension macro called as a
/// method.
pub open spec fn opens_comprehension(st: Scan, t: TokClass) -> bool {
    t == TokClass::LParen && st.h1 == TokClass::Macro && st.h2 == TokClass::Dot
}

/// Whether the path read so far ends in a field.
pub open spec fn rooted(p: PathState) -> bool {
    p matches PathState::Fields(fs) && fs.len() > 0
}

/// Whether token `t` after `h2`, `h1` makes the source inadmissible (see
/// the module documentation); `rooted` tells whether a rooted path ends in
/// `h1`.
pub open spec fn bad_after(h1: TokClass, h2: TokClass, t: TokClass, rooted: bool) -> bool {
    ||| t == TokClass::LBrace && wordish(h1)
    ||| t == TokClass::LParen && h1 == TokClass::Macro && h2 == TokClass::Dot && !rooted
    ||| t == TokClass::Request && h1 == TokClass::LParen && h2 == TokClass::Macro
    ||| t == TokClass::LParen && h1 == TokClass::DurationFn
    ||| h1 == TokClass::Neg && !number(t)
    ||| h2 == TokClass::Neg && number(h1) && (t == TokClass::Dot || t == TokClass::IndexOpen || t == TokClass::LParen)
    ||| h1 == TokClass::IndexOpen && !(t == TokClass::StrLit || t == TokClass::SmallNum)
    ||| h2 == TokClass::IndexOpen && t != TokClass::RBracket
}

/// Whether appending token `t` makes the source inadmissible.
pub open spec fn bad_token(st: Scan, t: TokClass) -> bool {
    bad_after(st.h1, st.h2, t, rooted(st.path))
}

/// The path after token `t`, whose text is `w`.
pub open spec fn next_path(st: Scan, t: TokClass, w: Seq<char>) -> PathState {
    if path_word(t) {
        match st.path {
            PathState::Dotted(fs) => PathState::Fields(fs.push(w)),
            _ => if t == TokClass::Request && st.h1 != TokClass::Dot {
                PathState::Fields(Seq::empty())
            } else {
                PathState::Off
            },
        }
    } else if t == TokClass::Dot {
        match st.path {
            PathState::Fields(fs) => PathState::Dotted(fs),
            _ => PathState::Off,
        }
    } else {
        PathState::Off
    }
}

/// The comprehension ranges after token `t`: a comprehension on a rooted
/// path adds the path without the macro's name.
pub open spec fn next_targets(st: Scan, t: TokClass) -> Seq<Seq<Seq<char>>> {
    if opens_comprehension(st, t) && rooted(st.path) {
        st.targets.push(st.path->Fields_0.drop_last())
    } else {
        st.targets
    }
}

pub open spec fn push_tok(st: Scan, t: TokClass, w: Seq<char>) -> Scan {
    Scan {
        mode: ScanMode::Normal,
        h1: t,
        h2: st.h1,
        path: next_path(st, t, w),
        targets: next_targets(st, t),
        ok: st.ok && !bad_token(st, t),
    }
}

/// The class of a one-character token, given the token before it.
pub open spec fn punct_class(c: char, prev: TokClass) -> TokClass {
    if c == '.' {
        TokClass::Dot
    } else if c == '(' {
        TokClass::LParen
    } else if c == '{' {
        TokClass::LBrace
    } else if c == '[' {
        if value_end(prev) { TokClass::IndexOpen } else { TokClass::LBracket }
    } else if c == ']' {
        TokClass::RBracket
    } else if c == ')' || c == '}' {
        TokClass::Close
    } else if c == '-' && !value_end(prev) {
        TokClass::Neg
    } else {
        TokClass::Other
    }
}

pub open spec fn with_mode(st: Scan, m: ScanMode) -> Scan {
    Scan { mode: m, ..st }
}

/// The state after an opening quote at `i`.
pub open spec fn open_string(s: Seq<char>, i: int, st: Scan, raw: bool) -> Scan {
    let q = s[i];
    if i + 2 < s.len() && s[i + 1] == q && s[i + 2] == q {
        with_mode(st, ScanMode::Str { quote: q, raw, triple: true, esc: false, skip: 2, run: 0 })
    } else {
        with_mode(st, ScanMode::Str { quote: q, raw, triple: false, esc: false, skip: 0, run: 0 })
    }
}

/// One character in `Normal` mode.
pub open spec fn normal_step(s: Seq<char>, i: int, st: Scan) -> Scan {
    let c = s[i];
    if space_char(c) {
        st
    } else if c == '/' && i + 1 < s.len() && s[i + 1] == '/' {
        with_mode(st, ScanMode::Comment)
    } else if word_char(c) {
        with_mode(st, ScanMode::Word(i as usize))
    } else if c == '"' || c == '\'' {
        open_string(s, i, st, false)
    } else if c == '`' {
        with_mode(st, ScanMode::Tick)
    } else {
        push_tok(st, punct_class(c, st.h1), Seq::empty())
    }
}

/// One character inside a string literal.
pub open spec fn string_step(c: char, st: Scan, quote: char, raw: bool, triple: bool, esc: bool, skip: u8, run: u8) -> Scan {
    if skip > 0 {
        with_mode(st, ScanMode::Str { quote, raw, triple, esc, skip: (skip - 1) as u8, run })
    } else if esc {
        with_mode(st, ScanMode::Str { quote, raw, triple, esc: false, skip, run: 0 })
    } else if !raw && c == '\\' {
        with_mode(st, ScanMode::Str { quote, raw, triple, esc: true, skip, run: 0 })
    } else if triple {
        if c == quote {
            if run >= 2 {
                push_tok(st, TokClass::StrLit, Seq::empty())
            } else {
                with_mode(st, ScanMode::Str { quote, raw, triple, esc, skip, run: (run + 1) as u8 })
            }
        } else {
            with_mode(st, ScanMode::Str { quote, raw, triple, esc, skip, run: 0 })
        }
    } else if c == quote {
        push_tok(st, TokClass::StrLit, Seq::empty())
    } else if c == '\n' || c == '\r' {
        Scan { ok: false, ..st }
    } else {
        st
    }
}

/// A `.` at `i` inside a number that started at `start`: a digit follows.
pub open spec fn number_dot(s: Seq<char>, start: int, i: int) -> bool {
    s[i] == '.' && 0 <= start < s.len() && digit_char(s[start]) && i + 1 < s.len() && digit_char(s[i + 1])
}

/// One step of the scan, at index `i`.
pub open spec fn scan_step(s: Seq<char>, i: int, st: Scan) -> Scan {
    let c = s[i];
    match st.mode {
        ScanMode::Comment => if c == '\n' { with_mode(st, ScanMode::Normal) } else { st },
        ScanMode::Tick => if c == '`' {
            push_tok(st, TokClass::Quoted, Seq::empty())
        } else if c == '\n' {
            Scan { ok: false, ..st }
        } else {
            st
        },
        ScanMode::Str { quote, raw, triple, esc, skip, run } => string_step(c, st, quote, raw, triple, esc, skip, run),
        ScanMode::Word(start) => if word_char(c) || number_dot(s, start as int, i) {
            st
        } else if (c == '"' || c == '\'') && string_prefix(s.subrange(start as int, i)) is Some {
            open_string(s, i, st, string_prefix(s.subrange(start as int, i))->0)
        } else {
            let w = s.subrange(start as int, i);
            normal_step(s, i, push_tok(st, classify(w), w))
        },
        ScanMode::Normal => normal_step(s, i, st),
    }
}

/// The state once the source has been read: a pending word is pushed, an
/// unterminated literal turns the source away.
pub open spec fn scan_end(s: Seq<char>, st: Scan) -> Scan {
    match st.mode {
        ScanMode::Word(start) => push_tok(st, classify(s.subrange(start as int, s.len() as int)), s.subrange(start as int, s.len() as int)),
        ScanMode::Str { .. } => Scan { ok: false, ..st },
        ScanMode::Tick => Scan { ok: false, ..st },
        _ => st,
    }
}

pub open spec fn scan_from(s: Seq<char>, i: int, st: Scan) -> Scan
    decreases s.len() - i,
{
    if i < 0 || i >= s.len() {
        scan_end(s, st)
    } else {
        scan_from(s, i + 1, scan_step(s, i, st))
    }
}

/// Whether a CEL source passes the admission check.
pub open spec fn cel_admissible(source: Seq<char>) -> bool {
    scan_from(source, 0, initial_scan()).ok
}

/// The comprehension ranges of a source, each as the fields after
/// `request`, in source order.
pub open spec fn cel_targets(source: Seq<char>) -> Seq<Seq<Seq<char>>> {
    scan_from(source, 0, initial_scan()).targets
}

// ---------------------------------------------------------------------------
// The scan, executed
// ---------------------------------------------------------------------------

/// Where a rooted path stands; the fields are kept as index ranges.
#[derive(PartialEq, Eq, Structural, Clone, Copy)]
enum PathKind {
    Off,
    Fields,
    Dotted,
}

struct Scanner {
    mode: ScanMode,
    h1: TokClass,
    h2: TokClass,
    kind: PathKind,
    path: Vec<(usize, usize)>,
    targets: Vec<Vec<(usize, usize)>>,
    ok: bool,
}

spec fn ranges_view(v: Seq<char>, rs: Seq<(usize, usize)>) -> Seq<Seq<char>> {
    rs.map_values(|r: (usize, usize)| v.subrange(r.0 as int, r.1 as int))
}

spec fn targets_view(v: Seq<char>, ts: Seq<Vec<(usize, usize)>>) -> Seq<Seq<Seq<char>>> {
    ts.map_values(|t: Vec<(usize, usize)>| ranges_view(v, t@))
}

spec fn scanner_view(sc: Scanner, v: Seq<char>) -> Scan {
    Scan {
        mode: sc.mode,
        h1: sc.h1,
        h2: sc.h2,
        path: match sc.kind {
            PathKind::Off => PathState::Off,
            PathKind::Fields => PathState::Fields(ranges_view(v, sc.path@)),
            PathKind::Dotted => PathState::Dotted(ranges_view(v, sc.path@)),
        },
        targets: targets_view(v, sc.targets@),
        ok: sc.ok,
    }
}

spec fn ranges_within(rs: Seq<(usize, usize)>, n: int) -> bool {
    forall|j: int| 0 <= j < rs.len() ==> #[trigger] rs[j].0 <= rs[j].1 <= n
}

/// Every range the scanner holds lies within a source of length `n`.
spec fn scanner_within(sc: Scanner, n: int) -> bool {
    &&& ranges_within(sc.path@, n)
    &&& forall|j: int| 0 <= j < sc.targets@.len() ==> ranges_within(#[trigger] sc.targets@[j]@, n)
}

fn word_char_exec(c: char) -> (r: bool)
    ensures
        r == word_char(c),
{
    ('a' <= c && c <= 'z') || ('A' <= c && c <= 'Z') || ('0' <= c && c <= '9') || c == '_'
}

/// Whether `v[start..end]` spells `w`.
fn range_is(v: &Vec<char>, start: usize, end: usize, w: &str) -> (r: bool)
    requires
        start <= end <= v@.len(),
    ensures
        r == (v@.subrange(start as int, end as int) == w@),
{
    let wc = chars_of(w);
    if end - start != wc.len() {
        return false;
    }
    let mut k: usize = 0;
    while k < wc.len()
        invariant
            wc@ == w@,
            end - start == wc@.len(),
            start <= end <= v@.len(),
            k <= wc@.len(),
            forall|j: int| 0 <= j < k ==> v@[start + j] == wc@[j],
        decreases wc@.len() - k,
    {
        if v[start + k] != wc[k] {
            assert(v@.subrange(start as int, end as int)[k as int] != w@[k as int]);
            return false;
        }
        k = k + 1;
    }
    assert(v@.subrange(start as int, end as int) =~= w@);
    true
}

fn small_number_exec(v: &Vec<char>, start: usize, end: usize) -> (r: bool)
    requires
        start <= end <= v@.len(),
    ensures
        r == small_number(v@.subrange(start as int, end as int)),
{
    let ghost w = v@.subrange(start as int, end as int);
    let n = end - start;
    let mut all_digits = 0 < n && n <= 18;
    let mut k: usize = start;
    while k < end
        invariant
            start <= k <= end <= v@.len(),
            w == v@.subrange(start as int, end as int),
            all_digits == (0 < n <= 18 && forall|i: int| 0 <= i < k - start ==> digit_char(#[trigger] w[i])),
        decreases end - k,
    {
        let c = v[k];
        assert(w[k - start] == c);
        all_digits = all_digits && '0' <= c && c <= '9';
        k = k + 1;
    }
    if all_digits {
        return true;
    }
    assert(!(0 < w.len() <= 18 && forall|i: int| 0 <= i < w.len() ==> digit_char(#[trigger] w[i])));
    if n < 3 || n > 17 || v[start] != '0' || !(v[start + 1] == 'x' || v[start + 1] == 'X') {
        return false;
    }
    assert(w[0] == v@[start as int] && w[1] == v@[start + 1]);
    let mut k: usize = start + 2;
    while k < end
        invariant
            start + 2 <= k <= end <= v@.len(),
            w == v@.subrange(start as int, end as int),
            forall|i: int| 2 <= i < k - start ==> hex_char(#[trigger] w[i]),
        decreases end - k,
    {
        let c = v[k];
        assert(w[k - start] == c);
        if !(('0' <= c && c <= '9') || ('a' <= c && c <= 'f') || ('A' <= c && c <= 'F')) {
            assert(!hex_char(w[k - start]));
            return false;
        }
        k = k + 1;
    }
    true
}

fn classify_exec(v: &Vec<char>, start: usize, end: usize) -> (r: TokClass)
    requires
        start <= end <= v@.len(),
    ensures
        r == classify(v@.subrange(start as int, end as int)),
{
    if start < end && '0' <= v[start] && v[start] <= '9' {
        if small_number_exec(v, start, end) { TokClass::SmallNum } else { TokClass::Num }
    } else if range_is(v, start, end, "request") {
        TokClass::Request
    } else if range_is(v, start, end, "all") || range_is(v, start, end, "exists") || range_is(v, start, end, "exists_one")
        || range_is(v, start, end, "existsOne") || range_is(v, start, end, "map") || range_is(v, start, end, "filter") {
        TokClass::Macro
    } else if range_is(v, start, end, "in") {
        TokClass::In
    } else if range_is(v, start, end, "duration") {
        TokClass::DurationFn
    } else {
        TokClass::Ident
    }
}

fn string_prefix_exec(v: &Vec<char>, start: usize, end: usize) -> (r: Option<bool>)
    requires
        start <= end <= v@.len(),
    ensures
        r == string_prefix(v@.subrange(start as int, end as int)),
{
    let ghost w = v@.subrange(start as int, end as int);
    assert(seq!['r'].len() == 1 && seq!['R'].len() == 1 && seq!['b'].len() == 1 && seq!['B'].len() == 1);
    if end - start == 1 {
        let c = v[start];
        assert(w =~= seq![c]);
        if c == 'r' || c == 'R' {
            assert(w == seq!['r'] || w == seq!['R']);
            Some(true)
        } else if c == 'b' || c == 'B' {
            assert(w =~= seq!['b'] || w =~= seq!['B']);
            Some(false)
        } else {
            assert(w[0] != seq!['r'][0] && w[0] != seq!['R'][0] && w[0] != seq!['b'][0] && w[0] != seq!['B'][0]);
            None
        }
    } else if end - start == 2 {
        let a = v[start];
        let b = v[start + 1];
        assert(w[0] == a && w[1] == b);
        if (a == 'b' || a == 'B') && (b == 'r' || b == 'R') { Some(true) } else { None }
    } else {
        None
    }
}

fn path_word_exec(t: TokClass) -> (r: bool)
    ensures
        r == path_word(t),
{
    match t {
        TokClass::Request | TokClass::Macro | TokClass::In | TokClass::DurationFn | TokClass::SmallNum | TokClass::Num
        | TokClass::Ident => true,
        _ => false,
    }
}

fn wordish_exec(t: TokClass) -> (r: bool)
    ensures
        r == wordish(t),
{
    match t {
        TokClass::Request | TokClass::Macro | TokClass::DurationFn | TokClass::Ident | TokClass::Quoted => true,
        _ => false,
    }
}

fn value_end_exec(t: TokClass) -> (r: bool)
    ensures
        r == value_end(t),
{
    wordish_exec(t) || t == TokClass::SmallNum || t == TokClass::Num || t == TokClass::StrLit || t == TokClass::RBracket
        || t == TokClass::Close
}

fn punct_class_exec(c: char, prev: TokClass) -> (r: TokClass)
    ensures
        r == punct_class(c, prev),
{
    if c == '.' {
        TokClass::Dot
    } else if c == '(' {
        TokClass::LParen
    } else if c == '{' {
        TokClass::LBrace
    } else if c == '[' {
        if value_end_exec(prev) { TokClass::IndexOpen } else { TokClass::LBracket }
    } else if c == ']' {
        TokClass::RBracket
    } else if c == ')' || c == '}' {
        TokClass::Close
    } else if c == '-' && !value_end_exec(prev) {
        TokClass::Neg
    } else {
        TokClass::Other
    }
}

fn bad_after_exec(h1: TokClass, h2: TokClass, t: TokClass, rooted: bool) -> (r: bool)
    ensures
        r == bad_after(h1, h2, t, rooted),
{
    let num_t = t == TokClass::SmallNum || t == TokClass::Num;
    let num_h1 = h1 == TokClass::SmallNum || h1 == TokClass::Num;
    (t == TokClass::LBrace && wordish_exec(h1))
        || (t == TokClass::LParen && h1 == TokClass::Macro && h2 == TokClass::Dot && !rooted)
        || (t == TokClass::Request && h1 == TokClass::LParen && h2 == TokClass::Macro)
        || (t == TokClass::LParen && h1 == TokClass::DurationFn)
        || (h1 == TokClass::Neg && !num_t)
        || (h2 == TokClass::Neg && num_h1 && (t == TokClass::Dot || t == TokClass::IndexOpen || t == TokClass::LParen))
        || (h1 == TokClass::IndexOpen && !(t == TokClass::StrLit || t == TokClass::SmallNum))
        || (h2 == TokClass::IndexOpen && t != TokClass::RBracket)
}

/// The first `n` ranges of `p`.
fn ranges_prefix(p: &Vec<(usize, usize)>, n: usize) -> (r: Vec<(usize, usize)>)
    requires
        n <= p@.len(),
    ensures
        r@ == p@.subrange(0, n as int),
{
    let mut r: Vec<(usize, usize)> = Vec::new();
    let mut k: usize = 0;
    while k < n
        invariant
            k <= n <= p@.len(),
            r@ == p@.subrange(0, k as int),
        decreases n - k,
    {
        r.push(p[k]);
        k = k + 1;
        assert(r@ =~= p@.subrange(0, k as int));
    }
    r
}

proof fn lemma_ranges_push(v: Seq<char>, rs: Seq<(usize, usize)>, r: (usize, usize))
    ensures
        ranges_view(v, rs.push(r)) == ranges_view(v, rs).push(v.subrange(r.0 as int, r.1 as int)),
{
    assert(ranges_view(v, rs.push(r)) =~= ranges_view(v, rs).push(v.subrange(r.0 as int, r.1 as int)));
}

proof fn lemma_ranges_drop_last(v: Seq<char>, rs: Seq<(usize, usize)>)
    requires
        rs.len() > 0,
    ensures
        ranges_view(v, rs.subrange(0, rs.len() - 1)) == ranges_view(v, rs).drop_last(),
{
    assert(ranges_view(v, rs.subrange(0, rs.len() - 1)) =~= ranges_view(v, rs).drop_last());
}

proof fn lemma_targets_push(v: Seq<char>, ts: Seq<Vec<(usize, usize)>>, t: Vec<(usize, usize)>)
    ensures
        targets_view(v, ts.push(t)) == targets_view(v, ts).push(ranges_view(v, t@)),
{
    assert(targets_view(v, ts.push(t)) =~= targets_view(v, ts).push(ranges_view(v, t@)));
}

impl Scanner {
    /// Appends token `t`, whose text is `v[start..end]`.
    fn push_tok(&mut self, v: &Vec<char>, t: TokClass, start: usize, end: usize)
        requires
            start <= end <= v@.len(),
            scanner_within(*old(self), v@.len() as int),
        ensures
            scanner_view(*final(self), v@) == push_tok(scanner_view(*old(self), v@), t, v@.subrange(start as int, end as int)),
            scanner_within(*final(self), v@.len() as int),
    {
        let ghost st = scanner_view(*self, v@);
        let ghost w = v@.subrange(start as int, end as int);
        let opens = t == TokClass::LParen && self.h1 == TokClass::Macro && self.h2 == TokClass::Dot;
        let is_rooted = self.kind == PathKind::Fields && self.path.len() > 0;
        let bad = bad_after_exec(self.h1, self.h2, t, is_rooted);
        assert(is_rooted == rooted(st.path));
        assert(bad == bad_token(st, t));
        if opens && is_rooted {
            let target = ranges_prefix(&self.path, self.path.len() - 1);
            proof {
                lemma_ranges_drop_last(v@, self.path@);
                lemma_targets_push(v@, self.targets@, target);
            }
            self.targets.push(target);
        }
        assert(targets_view(v@, self.targets@) == next_targets(st, t));
        if path_word_exec(t) {
            if self.kind == PathKind::Dotted {
                proof {
                    lemma_ranges_push(v@, self.path@, (start, end));
                }
                self.path.push((start, end));
                self.kind = PathKind::Fields;
            } else if t == TokClass::Request && self.h1 != TokClass::Dot {
                self.path = Vec::new();
                self.kind = PathKind::Fields;
                assert(ranges_view(v@, self.path@) =~= Seq::<Seq<char>>::empty());
            } else {
                self.kind = PathKind::Off;
            }
        } else if t == TokClass::Dot {
            if self.kind == PathKind::Fields {
                self.kind = PathKind::Dotted;
            } else {
                self.kind = PathKind::Off;
            }
        } else {
            self.kind = PathKind::Off;
        }
        self.h2 = self.h1;
        self.h1 = t;
        self.mode = ScanMode::Normal;
        self.ok = self.ok && !bad;
    }

    fn open_string(&mut self, v: &Vec<char>, i: usize, raw: bool)
        requires
            i < v@.len(),
        ensures
            scanner_view(*final(self), v@) == open_string(v@, i as int, scanner_view(*old(self), v@), raw),
            final(self).path == old(self).path,
            final(self).targets == old(self).targets,
    {
        let q = v[i];
        if v.len() - i > 2 && v[i + 1] == q && v[i + 2] == q {
            self.mode = ScanMode::Str { quote: q, raw, triple: true, esc: false, skip: 2, run: 0 };
        } else {
            self.mode = ScanMode::Str { quote: q, raw, triple: false, esc: false, skip: 0, run: 0 };
        }
    }

    fn normal_step(&mut self, v: &Vec<char>, i: usize)
        requires
            i < v@.len(),
            scanner_within(*old(self), v@.len() as int),
            old(self).mode matches ScanMode::Word(start) ==> start <= i,
        ensures
            scanner_view(*final(self), v@) == normal_step(v@, i as int, scanner_view(*old(self), v@)),
            scanner_within(*final(self), v@.len() as int),
            final(self).mode matches ScanMode::Word(start) ==> start <= i,
    {
        let c = v[i];
        if c == ' ' || c == '\t' || c == '\r' || c == '\n' || c == '\x0c' {
        } else if c == '/' && v.len() - i > 1 && v[i + 1] == '/' {
            self.mode = ScanMode::Comment;
        } else if word_char_exec(c) {
            self.mode = ScanMode::Word(i);
        } else if c == '"' || c == '\'' {
            self.open_string(v, i, false);
        } else if c == '`' {
            self.mode = ScanMode::Tick;
        } else {
            let t = punct_class_exec(c, self.h1);
            self.push_tok(v, t, 0, 0);
        }
    }

    fn step(&mut self, v: &Vec<char>, i: usize)
        requires
            i < v@.len(),
            scanner_within(*old(self), v@.len() as int),
            old(self).mode matches ScanMode::Word(start) ==> start <= i,
        ensures
            scanner_view(*final(self), v@) == scan_step(v@, i as int, scanner_view(*old(self), v@)),
            scanner_within(*final(self), v@.len() as int),
            final(self).mode matches ScanMode::Word(start) ==> start <= i,
    {
        let c = v[i];
        match self.mode {
            ScanMode::Comment => {
                if c == '\n' {
                    self.mode = ScanMode::Normal;
                }
            },
            ScanMode::Tick => {
                if c == '`' {
                    self.push_tok(v, TokClass::Quoted, 0, 0);
                } else if c == '\n' {
                    self.ok = false;
                }
            },
            ScanMode::Str { quote, raw, triple, esc, skip, run } => {
                if skip > 0 {
                    self.mode = ScanMode::Str { quote, raw, triple, esc, skip: skip - 1, run };
                } else if esc {
                    self.mode = ScanMode::Str { quote, raw, triple, esc: false, skip, run: 0 };
                } else if !raw && c == '\\' {
                    self.mode = ScanMode::Str { quote, raw, triple, esc: true, skip, run: 0 };
                } else if triple {
                    if c == quote {
                        if run >= 2 {
                            self.push_tok(v, TokClass::StrLit, 0, 0);
                        } else {
                            self.mode = ScanMode::Str { quote, raw, triple, esc, skip, run: run + 1 };
                        }
                    } else {
                        self.mode = ScanMode::Str { quote, raw, triple, esc, skip, run: 0 };
                    }
                } else if c == quote {
                    self.push_tok(v, TokClass::StrLit, 0, 0);
                } else if c == '\n' || c == '\r' {
                    self.ok = false;
                }
            },
            ScanMode::Word(start) => {
                let in_number = c == '.' && '0' <= v[start] && v[start] <= '9' && v.len() - i > 1 && '0' <= v[i + 1]
                    && v[i + 1] <= '9';
                if !(word_char_exec(c) || in_number) {
                    let prefix = if c == '"' || c == '\'' { string_prefix_exec(v, start, i) } else { None };
                    match prefix {
                        Some(raw) => self.open_string(v, i, raw),
                        None => {
                            let t = classify_exec(v, start, i);
                            self.push_tok(v, t, start, i);
                            self.normal_step(v, i);
                        },
                    }
                }
            },
            ScanMode::Normal => self.normal_step(v, i),
        }
    }
}

/// The text of `v[start..end]`.
fn range_string(v: &Vec<char>, start: usize, end: usize) -> (r: String)
    requires
        start <= end <= v@.len(),
    ensures
        r@ == v@.subrange(start as int, end as int),
{
    let mut out = String::new();
    let mut k: usize = start;
    while k < end
        invariant
            start <= k <= end <= v@.len(),
            out@ == v@.subrange(start as int, k as int),
        decreases end - k,
    {
        push_char(&mut out, v[k]);
        k = k + 1;
        assert(out@ =~= v@.subrange(start as int, k as int));
    }
    out
}

/// The view of a path's fields.
pub open spec fn fields_view(p: Seq<String>) -> Seq<Seq<char>> {
    p.map_values(|f: String| f@)
}

/// The views of a list of paths.
pub open spec fn paths_view(ps: Seq<Vec<String>>) -> Seq<Seq<Seq<char>>> {
    ps.map_values(|p: Vec<String>| fields_view(p@))
}

/// The admission check: `None` for a source it turns away, else the
/// comprehension ranges found (see the module documentation).
pub fn cel_scan(source: &str) -> (r: Option<Vec<Vec<String>>>)
    ensures
        r is Some <==> cel_admissible(source@),
        r matches Some(ts) ==> paths_view(ts@) == cel_targets(source@),
{
    let v = chars_of(source);
    let mut sc = Scanner {
        mode: ScanMode::Normal,
        h1: TokClass::Other,
        h2: TokClass::Other,
        kind: PathKind::Off,
        path: Vec::new(),
        targets: Vec::new(),
        ok: true,
    };
    assert(scanner_view(sc, v@).targets =~= Seq::<Seq<Seq<char>>>::empty());
    assert(scanner_view(sc, v@) == initial_scan());
    let mut i: usize = 0;
    while i < v.len()
        invariant
            v@ == source@,
            i <= v@.len(),
            scan_from(v@, 0, initial_scan()) == scan_from(v@, i as int, scanner_view(sc, v@)),
            scanner_within(sc, v@.len() as int),
            sc.mode matches ScanMode::Word(start) ==> start <= i,
        decreases v@.len() - i,
    {
        sc.step(&v, i);
        i = i + 1;
    }
    match sc.mode {
        ScanMode::Word(start) => {
            let t = classify_exec(&v, start, v.len());
            sc.push_tok(&v, t, start, v.len());
        },
        ScanMode::Str { .. } => {
            sc.ok = false;
        },
        ScanMode::Tick => {
            sc.ok = false;
        },
        _ => {},
    }
    assert(scanner_view(sc, v@) == scan_from(v@, 0, initial_scan()));
    if !sc.ok {
        return None;
    }
    let mut out: Vec<Vec<String>> = Vec::new();
    let mut j: usize = 0;
    while j < sc.targets.len()
        invariant
            j <= sc.targets@.len(),
            scanner_within(sc, v@.len() as int),
            out@.len() == j,
            paths_view(out@) == targets_view(v@, sc.targets@).subrange(0, j as int),
        decreases sc.targets@.len() - j,
    {
        let t = &sc.targets[j];
        assert(ranges_within(t@, v@.len() as int));
        let mut fields: Vec<String> = Vec::new();
        let mut k: usize = 0;
        while k < t.len()
            invariant
                k <= t@.len(),
                ranges_within(t@, v@.len() as int),
                fields@.len() == k,
                fields_view(fields@) == ranges_view(v@, t@).subrange(0, k as int),
            decreases t@.len() - k,
        {
            let (a, b) = t[k];
            assert(t@[k as int].0 <= t@[k as int].1 <= v@.len());
            let f = range_string(&v, a, b);
            let ghost before = fields@;
            assert(ranges_view(v@, t@)[k as int] == f@);
            fields.push(f);
            assert(fields@ == before.push(f));
            assert(fields_view(fields@)[k as int] == f@);
            k = k + 1;
            assert(fields_view(fields@) =~= ranges_view(v@, t@).subrange(0, k as int));
        }
        assert(ranges_view(v@, t@).subrange(0, t@.len() as int) =~= ranges_view(v@, t@));
        assert(targets_view(v@, sc.targets@)[j as int] == ranges_view(v@, t@));
        let ghost before_out = out@;
        out.push(fields);
        assert(out@ == before_out.push(fields));
        assert(paths_view(out@)[j as int] == ranges_view(v@, t@));
        j = j + 1;
        assert(paths_view(out@) =~= targets_view(v@, sc.targets@).subrange(0, j as int));
    }
    assert(targets_view(v@, sc.targets@).subrange(0, sc.targets@.len() as int) =~= targets_view(v@, sc.targets@));
    Some(out)
}

/// Whether a CEL source passes the admission check.
pub fn cel_source_admissible(source: &str) -> (r: bool)
    ensures
        r == cel_admissible(source@),
{
    cel_scan(source).is_some()
}

} // verus!
