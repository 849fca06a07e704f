//! Regular expressions.
use vstd::prelude::*;
use vstd::string::*;
use crate::text;

verus! {

/// What `regex` makes of a text by replacing every match of a pattern; none
/// where the pattern does not compile.
pub uninterp spec fn regex_replaced(pattern: Seq<char>, text: Seq<char>, replacement: Seq<char>) -> Option<Seq<char>>;

/// Compiles a pattern with `regex::Regex::new` and replaces its matches with
/// `regex::Regex::replace_all`; none where the pattern does not compile.
#[verifier::external_body]
pub(crate) fn replace_all(pattern: &str, text: &str, replacement: &str) -> (r: Option<String>)
    ensures
        text::opt_text(r) == regex_replaced(pattern@, text@, replacement@),
{
    let re = regex::Regex::new(pattern).ok()?;
    Some(re.replace_all(text, replacement).into_owned())
}

/// What `regex` says against a pattern, if it does not compile.
pub uninterp spec fn regex_error(pattern: Seq<char>, ignore_case: bool) -> Option<Seq<char>>;

/// Whether `regex` finds a match of a pattern in a text; none where the pattern
/// does not compile.
pub uninterp spec fn regex_match(pattern: Seq<char>, ignore_case: bool, text: Seq<char>) -> Option<bool>;

/// Compiles a pattern with `regex::RegexBuilder::build`; the text of the error,
/// where there is one. On a 64-bit machine, as the limit on the size of a pattern
/// counts bytes.
#[verifier::external_body]
pub(crate) fn pattern_fault(pattern: &str, ignore_case: bool) -> (r: Option<String>)
    ensures
        text::opt_text(r) == regex_error(pattern@, ignore_case),
{
    let built = regex::RegexBuilder::new(pattern).case_insensitive(ignore_case).build();
    built.err().map(|e| e.to_string())
}

/// Compiles a pattern with `regex::RegexBuilder::build` and looks for a match
/// with `regex::Regex::is_match`; none where the pattern does not compile.
#[verifier::external_body]
pub(crate) fn is_match(pattern: &str, ignore_case: bool, text: &str) -> (r: Option<bool>)
    ensures
        r == regex_match(pattern@, ignore_case, text@),
        r is None <==> regex_error(pattern@, ignore_case) is Some,
{
    let built = regex::RegexBuilder::new(pattern).case_insensitive(ignore_case).build();
    built.ok().map(|re| re.is_match(text))
}

} // verus!
