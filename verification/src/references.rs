//! `@path` references in a message: finding them, and appending the files
//! they name.
use vstd::prelude::*;

use crate::text::{concat, push_str, to_string, views};

verus! {

/// A file reference: `@` at the start or after whitespace, then a path made
/// of word characters, `.`, `/`, `-` and `~` (the path is group 1).
pub const FILE_REF_PATTERN: &'static str = "(?:^|\\s)@([\\w./\\-~]+)";

/// Files larger than this many bytes are not appended.
pub const MAX_FILE_SIZE: u64 = 102400;

/// What `regex` finds: for each successive non-overlapping match of `pattern`
/// in `text`, group `group` of the match (`None` when it did not take part);
/// `None` when the pattern does not compile.
pub uninterp spec fn regex_groups(pattern: Seq<char>, text: Seq<char>, group: usize) -> Option<
    Seq<Option<Seq<char>>>,
>;

pub open spec fn opt_views(v: Seq<Option<String>>) -> Seq<Option<Seq<char>>> {
    v.map_values(
        |o: Option<String>|
            match o {
                Some(s) => Some(s@),
                None => None,
            },
    )
}

/// Compiles `pattern` with `regex::Regex::new` and collects group `group` of
/// every match of `Regex::captures_iter` over `text`; the contract claims only
/// that the outcome is the one [`regex_groups`] names.
#[verifier::external_body]
fn capture_groups(pattern: &str, text: &str, group: usize) -> (r: Option<Vec<Option<String>>>)
    ensures
        match r {
            Some(v) => regex_groups(pattern@, text@, group) == Some(opt_views(v@)),
            None => regex_groups(pattern@, text@, group) is None,
        },
{
    match regex::Regex::new(pattern) {
        Ok(re) => Some(
            re.captures_iter(text).map(|c| c.get(group).map(|m| m.as_str().to_string())).collect(),
        ),
        Err(_) => None,
    }
}

/// The paths present among the groups, in order.
pub open spec fn present(gs: Seq<Option<Seq<char>>>) -> Seq<Seq<char>>
    decreases gs.len(),
{
    if gs.len() == 0 {
        Seq::empty()
    } else {
        match gs.last() {
            Some(p) => present(gs.drop_last()).push(p),
            None => present(gs.drop_last()),
        }
    }
}

/// The paths referred to in `input`, in order; `None` if the pattern does not
/// compile.
pub fn file_references(input: &str) -> (r: Option<Vec<String>>)
    ensures
        match r {
            Some(v) => regex_groups(FILE_REF_PATTERN@, input@, 1) matches Some(gs) && views(v@)
                == present(gs),
            None => regex_groups(FILE_REF_PATTERN@, input@, 1) is None,
        },
{
    let gs = match capture_groups(FILE_REF_PATTERN, input, 1) {
        Some(gs) => gs,
        None => return None,
    };
    let ghost gv = opt_views(gs@);
    let mut out: Vec<String> = Vec::new();
    let mut i: usize = 0;
    while i < gs.len()
        invariant
            i <= gs.len(),
            gv == opt_views(gs@),
            views(out@) =~= present(gv.take(i as int)),
        decreases gs.len() - i,
    {
        proof {
            assert(gv.take(i + 1).drop_last() =~= gv.take(i as int));
        }
        match &gs[i] {
            Some(p) => {
                out.push(p.clone());
            },
            None => {},
        }
        i = i + 1;
    }
    assert(gv.take(gs.len() as int) =~= gv);
    Some(out)
}

/// Whether a referenced path is appended: it is a file of at most
/// [`MAX_FILE_SIZE`] bytes.
pub fn accept_file(is_file: bool, len: u64) -> (r: bool)
    ensures
        r == (is_file && len <= MAX_FILE_SIZE),
{
    is_file && len <= MAX_FILE_SIZE
}

/// A file's contents as appended: `<file path="…">…</file>`.
pub open spec fn block_of(path: Seq<char>, contents: Seq<char>) -> Seq<char> {
    "<file path=\""@ + path + "\">"@ + contents + "</file>"@
}

pub fn file_block(path: &str, contents: &str) -> (r: String)
    ensures
        r@ == block_of(path@, contents@),
{
    let mut r = to_string("<file path=\"");
    push_str(&mut r, path);
    push_str(&mut r, "\">");
    push_str(&mut r, contents);
    push_str(&mut r, "</file>");
    r
}

/// `input` followed by each block after a blank line.
pub open spec fn expanded(input: Seq<char>, blocks: Seq<Seq<char>>) -> Seq<char>
    decreases blocks.len(),
{
    if blocks.len() == 0 {
        input
    } else {
        expanded(input, blocks.drop_last()) + "\n\n"@ + blocks.last()
    }
}

/// The message with the referenced files appended.
pub fn expand_with(input: &str, blocks: &Vec<String>) -> (r: String)
    ensures
        r@ == expanded(input@, views(blocks@)),
{
    let mut r = to_string(input);
    let mut i: usize = 0;
    while i < blocks.len()
        invariant
            i <= blocks.len(),
            r@ == expanded(input@, views(blocks@).take(i as int)),
        decreases blocks.len() - i,
    {
        push_str(&mut r, "\n\n");
        push_str(&mut r, blocks[i].as_str());
        proof {
            assert(views(blocks@).take(i + 1).drop_last() =~= views(blocks@).take(i as int));
        }
        i = i + 1;
    }
    assert(views(blocks@).take(blocks.len() as int) =~= views(blocks@));
    r
}

/// Expands `@path` references in user input.
pub struct FileReferenceExpander;

} // verus!
