//! What the library learns from its surroundings: the disk, the user's home
//! directory, the clock and fresh identifiers. None of these answers is a
//! function of the arguments, so none of them is named; callers state what
//! holds whatever came back.

use vstd::prelude::*;
use crate::paths::{is_absolute, no_dotdot};

verus! {

/// Relies on `Path::exists`: whether anything (after following symbolic
/// links) is on disk at `p` right now.
#[verifier::external_body]
pub(crate) fn path_exists(p: &str) -> (r: bool) {
    std::path::Path::new(p).exists()
}

/// Relies on `Path::is_dir`: whether a directory is on disk at `p` right now.
#[verifier::external_body]
pub(crate) fn path_is_dir(p: &str) -> (r: bool) {
    std::path::Path::new(p).is_dir()
}

/// Relies on `Path::canonicalize`, which returns the absolute form of `p`
/// with all intermediate components normalized (no `..` left) and
/// symbolic links resolved, or the OS error as text (Unix paths).
#[verifier::external_body]
pub(crate) fn canonicalize_path(p: &str) -> (r: Result<String, String>)
    ensures
        r matches Ok(c) ==> is_absolute(c@) && no_dotdot(c@),
{
    match std::path::Path::new(p).canonicalize() {
        Ok(c) => Ok(c.to_string_lossy().to_string()),
        Err(e) => Err(e.to_string()),
    }
}

/// Relies on `dirs::home_dir`: the current user's home directory, if known.
#[verifier::external_body]
pub(crate) fn home_dir() -> (r: Option<String>) {
    dirs::home_dir().map(|h| h.to_string_lossy().to_string())
}

/// Relies on `uuid::Uuid::new_v4` and its hyphenated text form.
#[verifier::external_body]
pub(crate) fn new_uuid() -> (r: String)
    ensures
        r@.len() == 36,
{
    uuid::Uuid::new_v4().to_string()
}

/// Relies on `chrono::Utc::now`: milliseconds since the Unix epoch.
#[verifier::external_body]
pub(crate) fn now_millis() -> (r: i64) {
    chrono::Utc::now().timestamp_millis()
}

} // verus!
