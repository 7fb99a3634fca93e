//! Glob patterns, through the `glob` crate.

use vstd::prelude::*;

verus! {

/// What `glob::Pattern::new` makes of a pattern: `None` when it compiles,
/// and otherwise the message of the `PatternError` it returns.
pub uninterp spec fn glob_error(pattern: Seq<char>) -> Option<Seq<char>>;

/// Whether the compiled `pattern` matches `name`, as
/// `glob::Pattern::matches` decides with the default match options.
pub uninterp spec fn glob_match(pattern: Seq<char>, name: Seq<char>) -> bool;

/// Compiles `pattern` with `glob::Pattern::new`, keeping only whether it
/// failed and, if so, the error's message (its `Display` text). The result
/// is named by `glob_error`.
#[verifier::external_body]
pub(crate) fn glob_check(pattern: &str) -> (r: Option<String>)
    ensures
        match glob_error(pattern@) {
            None => r is None,
            Some(m) => r is Some && r->0@ == m,
        },
{
    match glob::Pattern::new(pattern) {
        Ok(_) => None,
        Err(e) => Some(e.to_string()),
    }
}

/// Compiles `pattern` with `glob::Pattern::new` and tests `name` against it
/// with `glob::Pattern::matches`. The result is named by `glob_match`.
#[verifier::external_body]
pub(crate) fn glob_matches(pattern: &str, name: &str) -> (r: bool)
    requires
        glob_error(pattern@) is None,
    ensures
        r == glob_match(pattern@, name@),
{
    match glob::Pattern::new(pattern) {
        Ok(p) => p.matches(name),
        Err(_) => false,
    }
}

} // verus!
