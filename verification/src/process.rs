//! What a finished child process reports.
use vstd::prelude::*;

verus! {

/// The outcome of a child process: whether it exited successfully, its exit
/// code if it had one, and its output decoded as text.
pub struct CommandOutput {
    pub success: bool,
    pub code: Option<i32>,
    pub stdout: String,
    pub stderr: String,
}

/// `format!("{:?}", s)` for a string: the string quoted, with Rust's escapes.
pub uninterp spec fn str_debug(s: Seq<char>) -> Seq<char>;

/// Writes `s` as `format!("{:?}", s)` does; the contract claims only that the
/// text is the one [`str_debug`] names for `s`.
#[verifier::external_body]
pub(crate) fn debug_str(s: &str) -> (r: String)
    ensures
        r@ == str_debug(s@),
{
    format!("{:?}", s)
}

} // verus!
