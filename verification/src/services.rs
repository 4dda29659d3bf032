//! Background services: the local analytics log and the memories kept
//! between sessions.
use vstd::prelude::*;

use crate::errors::{AppError, AppErrorView};
use crate::paths::{extension, extension_of, home_or_current, home_or_dot, join_path, opt_str_view, path_join};
use crate::sort::{is_stable_order, stable_order};
use crate::strmap::StrMap;
use crate::text::{
    concat, copy_strings, dec, fmt_u64, lines, lines_seq, starts_with, strip_prefix, str_eq,
    to_chars, to_string, trim, trim_seq, views,
};

verus! {

/// The configuration directory under a home directory (`.` when unknown).
pub open spec fn config_dir(home: Option<Seq<char>>) -> Seq<char> {
    path_join(home_or_dot(home), ".agent"@)
}

fn config_dir_exec(home: Option<&str>) -> (r: String)
    ensures
        r@ == config_dir(opt_str_view(home)),
{
    let h = home_or_current(home);
    join_path(h.as_str(), ".agent")
}

/// An error raised while reading or writing the service files:
/// `<what>: <reason>`.
pub fn io_failure(what: &str, reason: &str) -> (e: AppError)
    ensures
        e@ == AppErrorView::Internal(what@ + ": "@ + reason@),
{
    let a = concat(what, ": ");
    AppError::Internal(concat(a.as_str(), reason))
}

// ---------------------------------------------------------------------------
// Analytics
// ---------------------------------------------------------------------------

/// One recorded event.
pub struct AnalyticsEvent {
    pub name: String,
    pub properties: StrMap,
    pub timestamp: u64,
}

impl AnalyticsEvent {
    /// The event `name` with these properties, recorded at `timestamp`
    /// (seconds since the Unix epoch).
    pub fn new(name: &str, properties: StrMap, timestamp: u64) -> (e: AnalyticsEvent)
        ensures
            e.name@ == name@,
            e.properties@ == properties@,
            e.timestamp == timestamp,
    {
        AnalyticsEvent { name: to_string(name), properties, timestamp }
    }
}

/// Analytics kept in a local JSON-lines file.
pub struct LocalAnalytics {
    path: String,
}

impl LocalAnalytics {
    /// Events go to `<home>/.agent/analytics.jsonl`.
    pub fn new(home: Option<&str>) -> (r: LocalAnalytics)
        ensures
            r.path_view() == path_join(config_dir(opt_str_view(home)), "analytics.jsonl"@),
    {
        let d = config_dir_exec(home);
        LocalAnalytics { path: join_path(d.as_str(), "analytics.jsonl") }
    }

    pub fn with_path(path: String) -> (r: LocalAnalytics)
        ensures
            r.path_view() == path@,
    {
        LocalAnalytics { path }
    }

    pub closed spec fn path_view(&self) -> Seq<char> {
        self.path@
    }

    /// The file the events are appended to.
    pub fn path(&self) -> (r: &str)
        ensures
            r@ == self.path_view(),
    {
        self.path.as_str()
    }
}

// ---------------------------------------------------------------------------
// Memories
// ---------------------------------------------------------------------------

/// Something remembered between sessions.
pub struct Memory {
    pub id: String,
    pub content: String,
    pub created_at: u64,
    pub tags: Vec<String>,
}

pub struct MemoryView {
    pub id: Seq<char>,
    pub content: Seq<char>,
    pub created_at: u64,
    pub tags: Seq<Seq<char>>,
}

impl View for Memory {
    type V = MemoryView;

    open spec fn view(&self) -> MemoryView {
        MemoryView {
            id: self.id@,
            content: self.content@,
            created_at: self.created_at,
            tags: views(self.tags@),
        }
    }
}

impl Memory {
    pub fn copy(&self) -> (r: Memory)
        ensures
            r@ == self@,
    {
        Memory {
            id: self.id.clone(),
            content: self.content.clone(),
            created_at: self.created_at,
            tags: copy_strings(&self.tags),
        }
    }
}

pub open spec fn memories_view(v: Seq<Memory>) -> Seq<MemoryView> {
    v.map_values(|m: Memory| m@)
}

/// The marker of a line to remember.
pub const REMEMBER: &'static str = "REMEMBER:";

/// `s` without as many leading copies of `p` as it starts with
/// (`str::trim_start_matches` with a string).
pub open spec fn strip_prefixes(s: Seq<char>, p: Seq<char>) -> Seq<char>
    decreases s.len(),
{
    if p.len() > 0 && p.is_prefix_of(s) {
        strip_prefixes(s.skip(p.len() as int), p)
    } else {
        s
    }
}

fn strip_prefixes_exec(s: &str, p: &str) -> (r: String)
    ensures
        r@ == strip_prefixes(s@, p@),
{
    let q = to_chars(p);
    let mut cur = to_string(s);
    if q.len() == 0 {
        return cur;
    }
    loop
        invariant
            p@.len() > 0,
            strip_prefixes(cur@, p@) == strip_prefixes(s@, p@),
        decreases cur@.len(),
    {
        match strip_prefix(cur.as_str(), p) {
            Some(t) => {
                cur = t;
            },
            None => {
                return cur;
            },
        }
    }
}

/// What is remembered of each line marked [`REMEMBER`], in order: the line
/// without the markers it starts with, trimmed.
pub open spec fn remembered(ls: Seq<Seq<char>>) -> Seq<Seq<char>>
    decreases ls.len(),
{
    if ls.len() == 0 {
        Seq::empty()
    } else {
        let l = ls.last();
        let rest = remembered(ls.drop_last());
        if "REMEMBER:"@.is_prefix_of(l) {
            rest.push(trim_seq(strip_prefixes(l, "REMEMBER:"@)))
        } else {
            rest
        }
    }
}

/// The memory made of `content` at time `now`.
pub open spec fn memory_at(content: Seq<char>, now: u64) -> MemoryView {
    MemoryView { id: "mem_"@ + dec(now as nat), content, created_at: now, tags: Seq::empty() }
}

/// Keeps memories in one JSON file each.
pub struct FileSessionMemory {
    dir: String,
}

impl FileSessionMemory {
    /// Memories live in `<home>/.agent/memories`.
    pub fn new(home: Option<&str>) -> (r: FileSessionMemory)
        ensures
            r.dir_view() == path_join(config_dir(opt_str_view(home)), "memories"@),
    {
        let d = config_dir_exec(home);
        FileSessionMemory { dir: join_path(d.as_str(), "memories") }
    }

    pub fn with_dir(dir: String) -> (r: FileSessionMemory)
        ensures
            r.dir_view() == dir@,
    {
        FileSessionMemory { dir }
    }

    pub closed spec fn dir_view(&self) -> Seq<char> {
        self.dir@
    }

    pub fn dir(&self) -> (r: &str)
        ensures
            r@ == self.dir_view(),
    {
        self.dir.as_str()
    }

    /// The file of memory `id`: `<dir>/<id>.json`.
    pub fn memory_path(&self, id: &str) -> (r: String)
        ensures
            r@ == path_join(self.dir_view(), id@ + ".json"@),
    {
        let f = concat(id, ".json");
        join_path(self.dir.as_str(), f.as_str())
    }

    /// The memories in a conversation's text: one for each line that starts
    /// with [`REMEMBER`], all made at time `now` (seconds since the Unix epoch).
    pub fn extract_memories(&self, conversation: &str, now: u64) -> (r: Vec<Memory>)
        ensures
            r.len() == remembered(lines_seq(conversation@)).len(),
            forall|i: int|
                0 <= i < r.len() ==> #[trigger] r@[i]@ == memory_at(
                    remembered(lines_seq(conversation@))[i],
                    now,
                ),
    {
        let ls = lines(conversation);
        let ghost lv = views(ls@);
        let id_num = fmt_u64(now);
        let id = concat("mem_", id_num.as_str());
        let mut out: Vec<Memory> = Vec::new();
        let mut i: usize = 0;
        while i < ls.len()
            invariant
                i <= ls.len(),
                lv == views(ls@),
                id@ == "mem_"@ + dec(now as nat),
                out.len() == remembered(lv.take(i as int)).len(),
                forall|k: int|
                    0 <= k < out.len() ==> #[trigger] out@[k]@ == memory_at(
                        remembered(lv.take(i as int))[k],
                        now,
                    ),
            decreases ls.len() - i,
        {
            let line = ls[i].as_str();
            let ghost before = out@;
            proof {
                assert(lv.take(i + 1).drop_last() =~= lv.take(i as int));
                assert(lv.take(i + 1).last() == line@);
            }
            if starts_with(line, REMEMBER) {
                let stripped = strip_prefixes_exec(line, REMEMBER);
                let content = trim(stripped.as_str());
                let m = Memory { id: id.clone(), content, created_at: now, tags: Vec::new() };
                proof {
                    assert(views(m.tags@) =~= Seq::<Seq<char>>::empty());
                }
                out.push(m);
                proof {
                    assert forall|k: int| 0 <= k < out.len() implies #[trigger] out@[k]@
                        == memory_at(remembered(lv.take(i + 1))[k], now) by {
                        if k < before.len() {
                            assert(out@[k] == before[k]);
                        }
                    }
                }
            }
            i = i + 1;
        }
        proof {
            assert(lv.take(ls.len() as int) =~= lv);
        }
        out
    }
}

/// Whether a file in the memories directory holds a memory: its extension is
/// `json`.
pub fn is_memory_file(path: &str) -> (r: bool)
    ensures
        r == (extension_of(path@) == Some("json"@)),
{
    match extension(path) {
        Some(e) => {
            proof {
                reveal_strlit("json");
            }
            str_eq(e.as_str(), "json")
        },
        None => false,
    }
}

/// The creation times of `ms`.
pub open spec fn created_keys(ms: Seq<MemoryView>) -> Seq<u128> {
    ms.map_values(|m: MemoryView| m.created_at as u128)
}

/// `ms` stably sorted by creation time, oldest first (`sort_by_key`).
pub fn sort_memories(ms: Vec<Memory>) -> (r: Vec<Memory>)
    ensures
        r.len() == ms.len(),
        exists|p: Seq<usize>|
            is_stable_order(p, created_keys(memories_view(ms@)), false) && forall|k: int|
                0 <= k < r.len() ==> #[trigger] r@[k]@ == ms@[p[k] as int]@,
{
    let mut keys: Vec<u128> = Vec::new();
    let mut i: usize = 0;
    while i < ms.len()
        invariant
            i <= ms.len(),
            keys@ =~= created_keys(memories_view(ms@)).take(i as int),
        decreases ms.len() - i,
    {
        keys.push(ms[i].created_at as u128);
        i = i + 1;
    }
    assert(keys@ =~= created_keys(memories_view(ms@)));
    let order = stable_order(&keys, false);
    let mut out: Vec<Memory> = Vec::new();
    let mut k: usize = 0;
    while k < order.len()
        invariant
            k <= order.len() == ms.len(),
            is_stable_order(order@, keys@, false),
            out.len() == k,
            forall|j: int| 0 <= j < k ==> #[trigger] out@[j]@ == ms@[order@[j] as int]@,
        decreases order.len() - k,
    {
        let m = ms[order[k]].copy();
        out.push(m);
        k = k + 1;
    }
    out
}

} // verus!
