//! Regular expressions, as the `regex` crate compiles and runs them.
//!
//! Nothing here is proved of the crate. What it answers is named, so that the
//! contracts of the filters can say exactly which pattern was asked about which
//! text. A pattern keeps its text beside its compiled form, and the two are
//! made together and never changed.
use regex::Regex;
use vstd::prelude::*;

verus! {

/// `regex::Regex`, a compiled regular expression. Nothing is known of what it
/// holds.
#[verifier::external_type_specification]
#[verifier::external_body]
pub struct ExRegex(regex::Regex);

/// Whether `Regex::new` accepts `pattern`: it is well formed and its compiled
/// form stays under the crate's default size limit.
pub uninterp spec fn pattern_compiles(pattern: Seq<char>) -> bool;

/// Whether the expression that `Regex::new` makes of `pattern` matches
/// somewhere in `text`, as `Regex::is_match` reports it.
pub uninterp spec fn pattern_matches(pattern: Seq<char>, text: Seq<char>) -> bool;

/// A pattern that compiled: its text, and the expression that `Regex::new`
/// made of that text.
#[derive(Debug)]
pub struct NamePattern {
    source: String,
    compiled: Regex,
}

impl View for NamePattern {
    type V = Seq<char>;

    closed spec fn view(&self) -> Seq<char> {
        self.source@
    }
}

/// `Regex::new` compiles a pattern. Whether it succeeds depends on the pattern
/// alone. The expression is kept together with the text it was made of; what
/// the crate says of a pattern that it refuses is dropped.
#[verifier::external_body]
fn compile(pattern: &str) -> (r: Option<NamePattern>)
    ensures
        r is Some <==> pattern_compiles(pattern@),
        r matches Some(p) ==> p@ == pattern@,
{
    match Regex::new(pattern) {
        Ok(compiled) => Some(NamePattern { source: pattern.to_string(), compiled }),
        Err(_) => None,
    }
}

/// `Regex::is_match` searches the whole of `text` for a match. The expression
/// was made by `Regex::new` of the pattern's own text, so the answer depends on
/// that text and on `text` alone.
#[verifier::external_body]
fn is_match(pattern: &NamePattern, text: &str) -> (b: bool)
    ensures
        b == pattern_matches(pattern@, text@),
{
    pattern.compiled.is_match(text)
}

impl NamePattern {
    /// The pattern, compiled, if it compiles.
    pub fn new(pattern: &str) -> (r: Option<NamePattern>)
        ensures
            r is Some <==> pattern_compiles(pattern@),
            r matches Some(p) ==> p@ == pattern@,
    {
        compile(pattern)
    }

    /// The text of the pattern.
    pub fn source(&self) -> (s: &str)
        ensures
            s@ == self@,
    {
        self.source.as_str()
    }

    /// Whether the pattern matches somewhere in `text`.
    pub fn matches(&self, text: &str) -> (b: bool)
        ensures
            b == pattern_matches(self@, text@),
    {
        is_match(self, text)
    }
}

} // verus!
