//! The first session store: one JSON file per saved session, named by the
//! time it was saved, in `~/.agent-code-rs/sessions`.
use vstd::prelude::*;

use crate::errors::{AppError, AppErrorView};
use crate::paths::{join_path, path_join};
use crate::sort::{sort_strings, sorted_strs};
use crate::text::{concat, dec, ends_with, fmt_u128, strip_suffix, to_string, views};

verus! {

/// Sessions saved as `<id>.json` files in one directory.
pub struct FileSessionRepository {
    sessions_dir: String,
}

/// `<home>/.agent-code-rs/sessions`.
pub open spec fn default_sessions_dir(home: Seq<char>) -> Seq<char> {
    path_join(path_join(home, ".agent-code-rs"@), "sessions"@)
}

impl FileSessionRepository {
    /// The directory that holds the sessions.
    pub closed spec fn dir(&self) -> Seq<char> {
        self.sessions_dir@
    }

    /// The store under the home directory; without a home directory there is none.
    pub fn new(home: Option<&str>) -> (r: Result<FileSessionRepository, AppError>)
        ensures
            match home {
                Some(h) => r matches Ok(repo) && repo.dir() == default_sessions_dir(h@),
                None => r matches Err(e) && e@ == AppErrorView::Internal("HOME not set"@),
            },
    {
        match home {
            Some(h) => {
                let a = join_path(h, ".agent-code-rs");
                Ok(FileSessionRepository { sessions_dir: join_path(a.as_str(), "sessions") })
            },
            None => Err(AppError::Internal(to_string("HOME not set"))),
        }
    }

    /// The store in the given directory.
    pub fn with_dir(sessions_dir: String) -> (r: FileSessionRepository)
        ensures
            r.dir() == sessions_dir@,
    {
        FileSessionRepository { sessions_dir }
    }

    /// The directory that holds the sessions.
    pub fn sessions_dir(&self) -> (r: &str)
        ensures
            r@ == self.dir(),
    {
        self.sessions_dir.as_str()
    }

    /// The file of session `id`: `<dir>/<id>.json`.
    pub fn session_path(&self, id: &str) -> (r: String)
        ensures
            r@ == path_join(self.dir(), id@ + ".json"@),
    {
        let f = concat(id, ".json");
        join_path(self.sessions_dir.as_str(), f.as_str())
    }

    /// The file a session is written to before it is renamed into place.
    pub fn tmp_path(&self, id: &str) -> (r: String)
        ensures
            r@ == path_join(self.dir(), id@ + ".json.tmp"@),
    {
        let f = concat(id, ".json.tmp");
        join_path(self.sessions_dir.as_str(), f.as_str())
    }
}

/// The id of a session saved at `millis` milliseconds since the epoch.
pub fn generate_id(millis: u128) -> (r: String)
    ensures
        r@ == dec(millis as nat),
{
    fmt_u128(millis)
}

/// The session id a directory entry names: a `.json` file whose stem does not
/// end in `.tmp`.
pub open spec fn id_of(name: Seq<char>) -> Option<Seq<char>> {
    if ".json"@.is_suffix_of(name) {
        let id = name.take(name.len() - 5);
        if ".tmp"@.is_suffix_of(id) {
            None
        } else {
            Some(id)
        }
    } else {
        None
    }
}

/// The session ids among directory entry names, in the order that the names
/// come in.
pub open spec fn ids_in(names: Seq<Seq<char>>) -> Seq<Seq<char>>
    decreases names.len(),
{
    if names.len() == 0 {
        Seq::empty()
    } else {
        let rest = ids_in(names.drop_last());
        match id_of(names.last()) {
            Some(id) => rest.push(id),
            None => rest,
        }
    }
}

/// The sessions in a directory, given the names of its entries: the ids, in
/// `str` order.
pub fn session_ids(names: Vec<String>) -> (r: Vec<String>)
    ensures
        sorted_strs(views(r@)),
        views(r@).to_multiset() == ids_in(views(names@)).to_multiset(),
{
    let mut ids: Vec<String> = Vec::new();
    let mut i: usize = 0;
    proof {
        reveal_strlit(".json");
        assert(views(names@).take(0) =~= Seq::<Seq<char>>::empty());
        assert(views(ids@) =~= Seq::<Seq<char>>::empty());
    }
    while i < names.len()
        invariant
            i <= names.len(),
            views(ids@) == ids_in(views(names@).take(i as int)),
            ".json"@.len() == 5,
        decreases names.len() - i,
    {
        proof {
            let s = views(names@);
            assert(s.take(i + 1).drop_last() =~= s.take(i as int));
            assert(s.take(i + 1).last() == names@[i as int]@);
        }
        if let Some(id) = strip_suffix(names[i].as_str(), ".json") {
            if !ends_with(id.as_str(), ".tmp") {
                let ghost before = ids@;
                ids.push(id);
                proof {
                    assert(views(ids@) =~= views(before).push(id@));
                }
            }
        }
        i = i + 1;
    }
    proof {
        assert(views(names@).take(names@.len() as int) =~= views(names@));
    }
    sort_strings(ids)
}

/// The most recent session: the last id in order.
pub fn latest_id(ids: &Vec<String>) -> (r: Option<String>)
    ensures
        ids@.len() == 0 ==> r is None,
        ids@.len() > 0 ==> (r matches Some(x) && x@ == ids@.last()@),
{
    if ids.len() == 0 {
        None
    } else {
        Some(ids[ids.len() - 1].clone())
    }
}

} // verus!
