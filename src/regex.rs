pub mod parser;

use vstd::prelude::*;
use crate::regex::parser::{parse_complete, pattern, error_at, RegexError, Syntax};
use crate::render::{render, rendered};

verus! {

/// The regex crate's compiled regex, carried opaquely.
#[verifier::external_type_specification]
#[verifier::external_body]
pub struct ExRegex(::regex::Regex);

/// The regex crate's compile error, mapped to `PatternError::Compile`.
#[verifier::external_type_specification]
#[verifier::external_body]
pub struct ExRegexError(::regex::Error);

/// Whether the pattern-matching engine accepts the pattern text `p`.
pub uninterp spec fn compiles(p: Seq<char>) -> bool;

/// Whether the pattern `p` matches somewhere in `text`.
pub uninterp spec fn is_match_of(p: Seq<char>, text: Seq<char>) -> bool;

/// `text` with at most `limit` matches of `p` (all of them if `limit` is 0) replaced
/// by the expansion of the template `rep`.
pub uninterp spec fn replacen_of(p: Seq<char>, text: Seq<char>, limit: nat, rep: Seq<char>) -> Seq<char>;

/// Relies on `regex::Regex::new`: it accepts or rejects a pattern text by that text alone.
#[verifier::external_body]
fn compile_regex(p: &str) -> (r: Result<::regex::Regex, ::regex::Error>)
    ensures
        r is Ok <==> compiles(p@),
{
    ::regex::Regex::new(p)
}

/// A compiled pattern, with the text that it was compiled from. Only
/// `Pattern::compile` builds one, so `regex` is always the compilation of `source`.
#[derive(Debug)]
pub struct Pattern {
    source: String,
    regex: ::regex::Regex,
}

impl View for Pattern {
    type V = Seq<char>;

    /// The pattern text.
    closed spec fn view(&self) -> Seq<char> {
        self.source@
    }
}

/// Relies on `regex::Regex::is_match`, on the regex compiled from `p@`.
#[verifier::external_body]
fn regex_is_match(p: &Pattern, text: &str) -> (r: bool)
    ensures
        r == is_match_of(p@, text@),
{
    p.regex.is_match(text)
}

/// Relies on `regex::Regex::replacen`, on the regex compiled from `p@`; its documentation
/// says that a text with no match comes back unchanged.
#[verifier::external_body]
fn regex_replacen(p: &Pattern, text: &str, limit: usize, rep: &str) -> (r: String)
    ensures
        r@ == replacen_of(p@, text@, limit as nat, rep@),
        !is_match_of(p@, text@) ==> r@ == text@,
{
    p.regex.replacen(text, limit, rep).into_owned()
}

/// A pattern that could not be had.
#[derive(Clone, Copy, Debug, PartialEq, Eq, Structural)]
pub enum PatternError {
    /// The pattern text is not well formed in its dialect.
    Syntax(RegexError),
    /// The engine rejected the rendered pattern.
    Compile,
}

impl Pattern {
    /// Compiles the engine's pattern text `text`.
    pub fn compile(text: String) -> (r: Result<Pattern, PatternError>)
        ensures
            r is Ok <==> compiles(text@),
            r matches Ok(p) ==> p@ == text@,
            r matches Err(e) ==> e == PatternError::Compile,
    {
        match compile_regex(text.as_str()) {
            Ok(regex) => Ok(Pattern { source: text, regex }),
            Err(_) => Err(PatternError::Compile),
        }
    }

    /// The pattern text.
    pub fn as_str(&self) -> (r: &str)
        ensures
            r@ == self@,
    {
        self.source.as_str()
    }

    /// Whether the pattern matches somewhere in `text`.
    pub fn is_match(&self, text: &str) -> (r: bool)
        ensures
            r == is_match_of(self@, text@),
    {
        regex_is_match(self, text)
    }
}

/// Parses `s` as a Teal pattern delimited by `/` and compiles its rendering.
pub fn parse(s: &str) -> (r: Result<Pattern, PatternError>)
    ensures
        match pattern(s@, 0, '/', Syntax::Teal) {
            Ok((a, _, _)) => (r is Ok <==> compiles(rendered(a))) && (r matches Ok(p) ==> p@ == rendered(a))
                && (r matches Err(e) ==> e == PatternError::Compile),
            Err((e, k)) => r == Err::<Pattern, PatternError>(PatternError::Syntax(error_at(s@, e, k))),
        },
{
    match parse_complete('/', s) {
        Ok(ast) => Pattern::compile(render(&ast)),
        Err(e) => Err(PatternError::Syntax(e)),
    }
}

/// Appends to `destination` the text `source` with at most `limit` matches of `regex`
/// replaced by `rep` (all of them if `limit` is 0), and tells whether there was a match.
/// Without a match `destination` is left as it was.
pub fn replacen(regex: &Pattern, source: &str, destination: &mut String, limit: usize, rep: &str) -> (r: bool)
    ensures
        r == is_match_of(regex@, source@),
        r ==> final(destination)@ == old(destination)@ + replacen_of(regex@, source@, limit as nat, rep@),
        !r ==> final(destination)@ == old(destination)@,
{
    if !regex_is_match(regex, source) {
        return false;
    }
    let replaced = regex_replacen(regex, source, limit, rep);
    destination.append(replaced.as_str());
    true
}

/// `replacen` of the first match.
pub fn replace(regex: &Pattern, source: &str, destination: &mut String, rep: &str) -> (r: bool)
    ensures
        r == is_match_of(regex@, source@),
        r ==> final(destination)@ == old(destination)@ + replacen_of(regex@, source@, 1, rep@),
        !r ==> final(destination)@ == old(destination)@,
{
    replacen(regex, source, destination, 1, rep)
}

/// `replacen` of every match.
pub fn replace_all(regex: &Pattern, source: &str, destination: &mut String, rep: &str) -> (r: bool)
    ensures
        r == is_match_of(regex@, source@),
        r ==> final(destination)@ == old(destination)@ + replacen_of(regex@, source@, 0, rep@),
        !r ==> final(destination)@ == old(destination)@,
{
    replacen(regex, source, destination, 0, rep)
}

} // verus!
