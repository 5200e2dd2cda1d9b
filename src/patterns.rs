use vstd::prelude::*;

verus! {

/// Whether a glob pattern compiles.
pub uninterp spec fn glob_compiles(pattern: Seq<char>) -> bool;

/// Whether a compiled glob pattern matches a path (default match options).
pub uninterp spec fn glob_match(pattern: Seq<char>, path: Seq<char>) -> bool;

/// Relies on `glob::Pattern::new`: `None` where the pattern compiles, else the position
/// and message of its error.
#[verifier::external_body]
pub(crate) fn glob_error(pattern: &str) -> (r: Option<(usize, String)>)
    ensures
        r is None <==> glob_compiles(pattern@),
{
    match ::glob::Pattern::new(pattern) {
        Ok(_) => None,
        Err(e) => Some((e.pos, e.msg.to_string())),
    }
}

/// Relies on `glob::Pattern::new` and `glob::Pattern::matches`: whether the pattern
/// compiles and matches the path.
#[verifier::external_body]
pub(crate) fn glob_matches(pattern: &str, path: &str) -> (r: bool)
    ensures
        r == (glob_compiles(pattern@) && glob_match(pattern@, path@)),
{
    match ::glob::Pattern::new(pattern) {
        Ok(p) => p.matches(path),
        Err(_) => false,
    }
}

} // verus!
