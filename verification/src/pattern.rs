//! Regular expressions, compiled by the regex crate.

use vstd::prelude::*;
use regex::Regex;

verus! {

/// The regex crate's compiled expression, carried through as it is.
#[verifier::external_type_specification]
#[verifier::external_body]
pub struct ExRegex(regex::Regex);

/// What `Regex::new` reports for a pattern: `None` when it compiles, else
/// the text of its error.
pub uninterp spec fn regex_error(pattern: Seq<char>) -> Option<Seq<char>>;

/// What `Regex::is_match` answers for a pattern and a text.
pub uninterp spec fn regex_match(pattern: Seq<char>, text: Seq<char>) -> bool;

/// What `Regex::replace_all` gives for a pattern, a text and a replacement.
pub uninterp spec fn regex_replace(pattern: Seq<char>, text: Seq<char>, replacement: Seq<char>) -> Seq<char>;

/// A compiled pattern together with its source. Only `compile_pattern`
/// builds one, so the expression is always the compilation of the source.
pub struct CompiledPattern {
    source: String,
    re: Regex,
}

impl View for CompiledPattern {
    type V = Seq<char>;

    closed spec fn view(&self) -> Seq<char> {
        self.source@
    }
}

/// `Regex::new`: compiles a pattern, or gives the error's text.
#[verifier::external_body]
pub(crate) fn compile_pattern(pattern: &str) -> (r: Result<CompiledPattern, String>)
    ensures
        match r {
            Ok(p) => regex_error(pattern@) is None && p@ == pattern@,
            Err(e) => regex_error(pattern@) == Some(e@),
        },
{
    match Regex::new(pattern) {
        Ok(re) => Ok(CompiledPattern { source: pattern.to_string(), re }),
        Err(e) => Err(e.to_string()),
    }
}

/// `Regex::is_match`: whether the pattern matches somewhere in the text.
#[verifier::external_body]
pub(crate) fn pattern_is_match(p: &CompiledPattern, text: &str) -> (r: bool)
    ensures
        r == regex_match(p@, text@),
{
    p.re.is_match(text)
}

/// `Regex::replace_all`: every match replaced (with `$name` expansion).
#[verifier::external_body]
pub(crate) fn pattern_replace_all(p: &CompiledPattern, text: &str, replacement: &str) -> (r: String)
    ensures
        r@ == regex_replace(p@, text@, replacement@),
{
    p.re.replace_all(text, replacement).into_owned()
}

/// The patterns' sources.
pub open spec fn pattern_views(ps: Seq<CompiledPattern>) -> Seq<Seq<char>> {
    ps.map_values(|p: CompiledPattern| p@)
}

} // verus!
