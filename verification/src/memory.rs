//! The second session store: one session per project, in
//! `~/.agent-code-rs/projects/<slug>/session.json`.
use vstd::prelude::*;

use crate::errors::{AppError, AppErrorView};
use crate::paths::{join_path, path_join};
use crate::text::{to_chars, to_string, trim_start_char_seq, views};

verus! {

/// `char::is_alphanumeric`: the Unicode `Alphabetic` or `Numeric` property.
pub uninterp spec fn is_alnum(c: char) -> bool;

/// Calls `char::is_alphanumeric`; the contract claims that the answer is the
/// one [`is_alnum`] names for `c`.
#[verifier::external_body]
pub(crate) fn char_is_alphanumeric(c: char) -> (r: bool)
    ensures
        r == is_alnum(c),
{
    c.is_alphanumeric()
}

pub open spec fn is_ascii_alpha(c: char) -> bool {
    ('a' <= c <= 'z') || ('A' <= c <= 'Z')
}

/// `s` without its leading `/` and `\` characters.
pub open spec fn trim_start_seps(s: Seq<char>) -> Seq<char>
    decreases s.len(),
{
    if s.len() > 0 && (s[0] == '/' || s[0] == '\\') {
        trim_start_seps(s.drop_first())
    } else {
        s
    }
}

/// What a character of the path becomes in the slug.
pub open spec fn slug_char(c: char) -> char {
    if is_alnum(c) || c == '-' {
        c
    } else {
        '_'
    }
}

/// `s` starts with a drive prefix: a letter, `:` and a separator.
pub open spec fn has_drive_prefix(s: Seq<char>) -> bool {
    s.len() >= 3 && is_ascii_alpha(s[0]) && s[1] == ':' && (s[2] == '/' || s[2] == '\\')
}

/// The part of the working directory that names the project: without the
/// root `/` (Unix), or without a drive prefix such as `C:\` (Windows); the
/// separators that follow either are dropped too.
pub open spec fn slug_source(cwd: Seq<char>) -> Seq<char> {
    if cwd.len() > 0 && cwd[0] == '/' {
        trim_start_char_seq(cwd, '/')
    } else if has_drive_prefix(cwd) {
        trim_start_seps(cwd.skip(2))
    } else {
        cwd
    }
}

/// The directory name of a project: its path with every character other than
/// a letter, digit or `-` replaced by `_`, at most 80 characters long.
pub open spec fn slug_of(cwd: Seq<char>) -> Seq<char> {
    let s = slug_source(cwd).map_values(|c: char| slug_char(c));
    if s.len() > 80 {
        s.take(80)
    } else {
        s
    }
}

fn skip_while_char(v: &Vec<char>, from: usize, c: char) -> (i: usize)
    requires
        from <= v.len(),
    ensures
        from <= i <= v.len(),
        trim_start_char_seq(v@.skip(from as int), c) == v@.skip(i as int),
{
    let mut i = from;
    while i < v.len() && v[i] == c
        invariant
            from <= i <= v.len(),
            trim_start_char_seq(v@.skip(from as int), c) == trim_start_char_seq(v@.skip(i as int), c),
        decreases v.len() - i,
    {
        assert(v@.skip(i as int).drop_first() =~= v@.skip(i + 1));
        i = i + 1;
    }
    i
}

fn skip_while_sep(v: &Vec<char>, from: usize) -> (i: usize)
    requires
        from <= v.len(),
    ensures
        from <= i <= v.len(),
        trim_start_seps(v@.skip(from as int)) == v@.skip(i as int),
{
    let mut i = from;
    while i < v.len() && (v[i] == '/' || v[i] == '\\')
        invariant
            from <= i <= v.len(),
            trim_start_seps(v@.skip(from as int)) == trim_start_seps(v@.skip(i as int)),
        decreases v.len() - i,
    {
        assert(v@.skip(i as int).drop_first() =~= v@.skip(i + 1));
        i = i + 1;
    }
    i
}

/// The directory name of the project in `cwd`.
pub fn project_slug(cwd: &str) -> (r: String)
    ensures
        r@ == slug_of(cwd@),
{
    let v = to_chars(cwd);
    proof {
        assert(v@.skip(0) =~= v@);
    }
    let d: usize = if v.len() > 0 && v[0] == '/' {
        skip_while_char(&v, 0, '/')
    } else if v.len() >= 3 && ((v[0] >= 'a' && v[0] <= 'z') || (v[0] >= 'A' && v[0] <= 'Z'))
        && v[1] == ':' && (v[2] == '/' || v[2] == '\\') {
        skip_while_sep(&v, 2)
    } else {
        0
    };
    let ghost src = v@.skip(d as int);
    assert(src == slug_source(cwd@));
    let mut r = String::new();
    let mut i = d;
    while i < v.len() && i - d < 80
        invariant
            d <= i <= v.len(),
            i - d <= 80,
            src == v@.skip(d as int),
            r@ == src.take(i - d).map_values(|c: char| slug_char(c)),
        decreases v.len() - i,
    {
        let ch = v[i];
        let out = if char_is_alphanumeric(ch) || ch == '-' {
            ch
        } else {
            '_'
        };
        r.push(out);
        assert(src.take(i + 1 - d) =~= src.take(i - d).push(ch));
        assert(r@ =~= src.take(i + 1 - d).map_values(|c: char| slug_char(c)));
        i = i + 1;
    }
    proof {
        let m = src.map_values(|c: char| slug_char(c));
        if m.len() > 80 {
            assert(r@ =~= m.take(80));
        } else {
            assert(src.take(i - d) =~= src);
            assert(r@ =~= m);
        }
    }
    r
}

/// A project's store: one session file in its own directory.
pub struct FileSessionRepository {
    project_dir: String,
}

/// `<home>/.agent-code-rs/projects/<slug>`.
pub open spec fn project_dir_of(home: Seq<char>, cwd: Seq<char>) -> Seq<char> {
    path_join(path_join(path_join(home, ".agent-code-rs"@), "projects"@), slug_of(cwd))
}

impl FileSessionRepository {
    /// The directory that holds the session.
    pub closed spec fn dir(&self) -> Seq<char> {
        self.project_dir@
    }

    /// The store of the project in `cwd`, under the home directory; without a
    /// home directory there is none.
    pub fn new(cwd: &str, home: Option<&str>) -> (r: Result<FileSessionRepository, AppError>)
        ensures
            match home {
                Some(h) => r matches Ok(repo) && repo.dir() == project_dir_of(h@, cwd@),
                None => r matches Err(e) && e@ == AppErrorView::Internal(
                    "cannot determine home directory"@,
                ),
            },
    {
        match home {
            Some(h) => {
                let slug = project_slug(cwd);
                let a = join_path(h, ".agent-code-rs");
                let b = join_path(a.as_str(), "projects");
                Ok(FileSessionRepository { project_dir: join_path(b.as_str(), slug.as_str()) })
            },
            None => Err(AppError::Internal(to_string("cannot determine home directory"))),
        }
    }

    /// The store in the given directory.
    pub fn with_dir(project_dir: String) -> (r: FileSessionRepository)
        ensures
            r.dir() == project_dir@,
    {
        FileSessionRepository { project_dir }
    }

    /// The directory that holds the session.
    pub fn project_dir(&self) -> (r: &str)
        ensures
            r@ == self.dir(),
    {
        self.project_dir.as_str()
    }

    /// `<dir>/session.json`.
    pub fn session_path(&self) -> (r: String)
        ensures
            r@ == path_join(self.dir(), "session.json"@),
    {
        join_path(self.project_dir.as_str(), "session.json")
    }

    /// `<dir>/session.json.tmp`, written before it is renamed into place.
    pub fn tmp_path(&self) -> (r: String)
        ensures
            r@ == path_join(self.dir(), "session.json.tmp"@),
    {
        join_path(self.project_dir.as_str(), "session.json.tmp")
    }
}

/// The id under which a project's session is saved.
pub fn saved_id() -> (r: String)
    ensures
        r@ == "current"@,
{
    to_string("current")
}

/// The sessions of a project: `current` when its file exists.
pub fn list_ids(exists: bool) -> (r: Vec<String>)
    ensures
        exists ==> views(r@) == seq!["current"@],
        !exists ==> r@.len() == 0,
{
    let mut r: Vec<String> = Vec::new();
    if exists {
        r.push(to_string("current"));
        assert(views(r@) =~= seq!["current"@]);
    }
    r
}

/// A project's directory name is at most 80 characters long and made of
/// letters, digits, `-` and `_` only.
pub proof fn slug_laws(cwd: Seq<char>)
    ensures
        slug_of(cwd).len() <= 80,
        forall|i: int|
            0 <= i < slug_of(cwd).len() ==> is_alnum(#[trigger] slug_of(cwd)[i]) || slug_of(cwd)[i]
                == '-' || slug_of(cwd)[i] == '_',
{
}

} // verus!
