//! The typed conditions the library reports, and user-regex validation.

use vstd::prelude::*;

verus! {

use crate::matcher::UserRegex;
use crate::matcher::regex_accepts;

/// The abstract conditions the core signals; mapping them to diagnostics
/// and exit codes is the caller's concern.
#[derive(Clone, Copy, Debug, PartialEq, Eq, Structural)]
pub enum Internal {
    ParseNum,
    ParseIgnore,
    GetPath,
    DirPermissions,
    NotDirectory,
    PathDoesNotExist,
    IoError,
}

/// Compile a user-supplied regex; `None` reports an invalid pattern, which
/// callers treat as fatal before any traversal starts.
pub fn check_regex(re: &str) -> (r: Option<UserRegex>)
    ensures
        r is Some <==> regex_accepts(re@),
        r matches Some(u) ==> u@ == re@,
{
    UserRegex::compile(re)
}

} // verus!
