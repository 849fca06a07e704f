//! Shell patterns.
use vstd::prelude::*;
use vstd::string::*;
use crate::text;

verus! {

/// What `glob` says against a pattern, if it does not compile.
pub uninterp spec fn glob_error(pattern: Seq<char>) -> Option<Seq<char>>;

/// Whether `glob` finds that a text fits a pattern; none where the pattern does
/// not compile.
pub uninterp spec fn glob_match(pattern: Seq<char>, text: Seq<char>) -> Option<bool>;

/// Compiles a pattern with `glob::Pattern::new`; the text of the error, where
/// there is one. On a platform whose only path separator is the slash.
#[verifier::external_body]
pub(crate) fn pattern_fault(pattern: &str) -> (r: Option<String>)
    ensures
        text::opt_text(r) == glob_error(pattern@),
{
    glob::Pattern::new(pattern).err().map(|e| e.to_string())
}

/// Compiles a pattern with `glob::Pattern::new` and holds a text against it with
/// `glob::Pattern::matches`; none where the pattern does not compile.
#[verifier::external_body]
pub(crate) fn is_match(pattern: &str, text: &str) -> (r: Option<bool>)
    ensures
        r == glob_match(pattern@, text@),
        r is None <==> glob_error(pattern@) is Some,
{
    glob::Pattern::new(pattern).ok().map(|p| p.matches(text))
}

} // verus!
