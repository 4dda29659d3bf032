//! File-system paths, kept as text (Unix conventions).
use vstd::prelude::*;

use crate::text::{concat, ends_with, starts_with, to_string};

verus! {

/// `base` joined with `comp` as `Path::join` does on Unix: an absolute
/// component replaces the base, an empty base adds nothing, and one `/` goes
/// between the two otherwise.
pub open spec fn path_join(base: Seq<char>, comp: Seq<char>) -> Seq<char> {
    if "/"@.is_prefix_of(comp) {
        comp
    } else if base.len() == 0 {
        comp
    } else if "/"@.is_suffix_of(base) {
        base + comp
    } else {
        base + "/"@ + comp
    }
}

/// `Path::join` on Unix.
pub fn join_path(base: &str, comp: &str) -> (r: String)
    ensures
        r@ == path_join(base@, comp@),
{
    if starts_with(comp, "/") {
        to_string(comp)
    } else if base.is_empty() {
        to_string(comp)
    } else if ends_with(base, "/") {
        concat(base, comp)
    } else {
        let b = concat(base, "/");
        concat(b.as_str(), comp)
    }
}

/// The home directory, or `.` when it is not known.
pub open spec fn home_or_dot(home: Option<Seq<char>>) -> Seq<char> {
    match home {
        Some(h) => h,
        None => "."@,
    }
}

/// The home directory, or `.` when it is not known.
pub fn home_or_current(home: Option<&str>) -> (r: String)
    ensures
        r@ == home_or_dot(
            match home {
                Some(h) => Some(h@),
                None => None,
            },
        ),
{
    match home {
        Some(h) => to_string(h),
        None => to_string("."),
    }
}

/// `Path::file_stem` of a path: its last component without the extension.
pub uninterp spec fn file_stem_of(path: Seq<char>) -> Option<Seq<char>>;

/// `Path::extension` of a path: what follows the last `.` of its last component.
pub uninterp spec fn extension_of(path: Seq<char>) -> Option<Seq<char>>;

/// Calls `Path::file_stem`; the contract claims that the result is the one
/// [`file_stem_of`] names for the path.
#[verifier::external_body]
pub(crate) fn file_stem(path: &str) -> (r: Option<String>)
    ensures
        match r {
            Some(s) => file_stem_of(path@) == Some(s@),
            None => file_stem_of(path@) is None,
        },
{
    std::path::Path::new(path).file_stem().and_then(|s| s.to_str()).map(|s| s.to_string())
}

/// Calls `Path::extension`; the contract claims that the result is the one
/// [`extension_of`] names for the path.
#[verifier::external_body]
pub(crate) fn extension(path: &str) -> (r: Option<String>)
    ensures
        match r {
            Some(s) => extension_of(path@) == Some(s@),
            None => extension_of(path@) is None,
        },
{
    std::path::Path::new(path).extension().and_then(|s| s.to_str()).map(|s| s.to_string())
}

/// The view of an optional string slice.
pub open spec fn opt_str_view(o: Option<&str>) -> Option<Seq<char>> {
    match o {
        Some(s) => Some(s@),
        None => None,
    }
}

} // verus!
