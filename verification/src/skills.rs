//! Skills: markdown files with an optional front matter, found in the user's
//! and the project's skill and command directories.
use vstd::prelude::*;

use crate::errors::{AppError, AppErrorView};
use crate::paths::{
    extension, extension_of, file_stem, file_stem_of, home_or_dot, home_or_current, join_path,
    opt_str_view, path_join,
};
use crate::process::{debug_str, str_debug};
use crate::text::{
    concat, eq_ignore_ascii_case, eq_ignore_case_seq, find, find_seq, lines, lines_seq, lowercase,
    split_char, split_seq, starts_with, str_eq, strip_prefix, to_chars, to_lowercase, to_string,
    trim, trim_char, trim_char_seq, trim_seq, trim_start, trim_start_seq, views, range_to_string,
};

verus! {

/// Where a skill was found.
pub enum SkillSource {
    UserSkill(String),
    ProjectSkill(String),
    Bundled,
}

/// What the front matter says of a skill.
pub struct SkillMetadata {
    pub name: String,
    pub description: String,
    pub triggers: Vec<String>,
    pub model: Option<String>,
    pub is_hidden: bool,
}

/// A skill: its metadata, its instructions, and where it came from.
pub struct Skill {
    pub metadata: SkillMetadata,
    pub content: String,
    pub source: SkillSource,
}

pub enum SkillSourceView {
    UserSkill(Seq<char>),
    ProjectSkill(Seq<char>),
    Bundled,
}

pub struct SkillView {
    pub name: Seq<char>,
    pub description: Seq<char>,
    pub triggers: Seq<Seq<char>>,
    pub model: Option<Seq<char>>,
    pub is_hidden: bool,
    pub content: Seq<char>,
    pub source: SkillSourceView,
}

impl View for Skill {
    type V = SkillView;

    open spec fn view(&self) -> SkillView {
        SkillView {
            name: self.metadata.name@,
            description: self.metadata.description@,
            triggers: views(self.metadata.triggers@),
            model: match self.metadata.model {
                Some(m) => Some(m@),
                None => None,
            },
            is_hidden: self.metadata.is_hidden,
            content: self.content@,
            source: match self.source {
                SkillSource::UserSkill(p) => SkillSourceView::UserSkill(p@),
                SkillSource::ProjectSkill(p) => SkillSourceView::ProjectSkill(p@),
                SkillSource::Bundled => SkillSourceView::Bundled,
            },
        }
    }
}

pub open spec fn skills_view(v: Seq<Skill>) -> Seq<SkillView> {
    v.map_values(|s: Skill| s@)
}

/// Loads skills.
pub struct SkillLoader;

impl SkillLoader {
    pub fn new() -> (r: SkillLoader) {
        SkillLoader
    }
}

impl Default for SkillLoader {
    fn default() -> (r: SkillLoader) {
        SkillLoader::new()
    }
}

// ---------------------------------------------------------------------------
// Front matter
// ---------------------------------------------------------------------------

/// A text split into its front matter and its body: after leading whitespace,
/// a text that starts with `---` and has a later line starting with `---` has
/// the text between them as front matter and the rest after that `---` as
/// body; any other text has no front matter.
pub open spec fn frontmatter_split(content: Seq<char>) -> (Seq<char>, Seq<char>) {
    let c = trim_start_seq(content);
    if !"---"@.is_prefix_of(c) {
        (Seq::empty(), c)
    } else {
        let rest = c.skip(3);
        match find_seq(rest, "\n---"@) {
            Some(e) => (rest.take(e), rest.skip(e + 4)),
            None => (Seq::empty(), c),
        }
    }
}

/// Splits a skill file into front matter and body.
pub fn split_frontmatter(content: &str) -> (r: (String, String))
    ensures
        (r.0@, r.1@) == frontmatter_split(content@),
{
    let c = trim_start(content);
    proof {
        reveal_strlit("---");
        reveal_strlit("\n---");
    }
    if !starts_with(c.as_str(), "---") {
        return (String::new(), c);
    }
    let v = to_chars(c.as_str());
    let rest = range_to_string(&v, 3, v.len());
    assert(rest@ =~= c@.skip(3));
    match find(rest.as_str(), "\n---") {
        Some(end) => {
            let rv = to_chars(rest.as_str());
            proof {
                crate::text::lemma_find_seq_some(rest@, "\n---"@);
            }
            assert(rv@ =~= rest@);
            let fm = range_to_string(&rv, 0, end);
            let body = range_to_string(&rv, end + 4, rv.len());
            assert(fm@ =~= rest@.take(end as int));
            assert(body@ =~= rest@.skip(end + 4));
            (fm, body)
        },
        None => (String::new(), c),
    }
}

/// A field's raw value cleaned: whitespace, then double quotes, then single
/// quotes removed from both ends.
pub open spec fn clean_value(v: Seq<char>) -> Seq<char> {
    trim_char_seq(trim_char_seq(trim_seq(v), '"'), '\'')
}

/// The first line of `ls` that reads `key:` followed by a non-blank value,
/// and that value.
pub open spec fn field_in(ls: Seq<Seq<char>>, key: Seq<char>) -> Option<Seq<char>>
    decreases ls.len(),
{
    if ls.len() == 0 {
        None
    } else {
        let pre = key + ":"@;
        let l = ls[0];
        if pre.is_prefix_of(l) && clean_value(l.skip(pre.len() as int)).len() > 0 {
            Some(clean_value(l.skip(pre.len() as int)))
        } else {
            field_in(ls.drop_first(), key)
        }
    }
}

/// The value of `key` in a front matter.
pub open spec fn field_of(frontmatter: Seq<char>, key: Seq<char>) -> Option<Seq<char>> {
    field_in(lines_seq(frontmatter), key)
}

pub open spec fn opt_string_view(o: Option<String>) -> Option<Seq<char>> {
    match o {
        Some(s) => Some(s@),
        None => None,
    }
}

/// Reads `key: value` from a front matter.
pub fn extract_field(frontmatter: &str, key: &str) -> (r: Option<String>)
    ensures
        opt_string_view(r) == field_of(frontmatter@, key@),
{
    let ls = lines(frontmatter);
    let pre = concat(key, ":");
    let mut i: usize = 0;
    proof {
        assert(views(ls@).skip(0) =~= views(ls@));
    }
    while i < ls.len()
        invariant
            i <= ls.len(),
            pre@ == key@ + ":"@,
            field_in(views(ls@).skip(i as int), key@) == field_of(frontmatter@, key@),
        decreases ls.len() - i,
    {
        proof {
            assert(views(ls@).skip(i as int).drop_first() =~= views(ls@).skip(i + 1));
            assert(views(ls@).skip(i as int)[0] == ls@[i as int]@);
        }
        if let Some(rest) = strip_prefix(ls[i].as_str(), pre.as_str()) {
            let a = trim(rest.as_str());
            let b = trim_char(a.as_str(), '"');
            let val = trim_char(b.as_str(), '\'');
            if !val.as_str().is_empty() {
                return Some(val);
            }
        }
        i = i + 1;
    }
    None
}

/// Whether a flag's value means yes.
pub open spec fn truthy(v: Seq<char>) -> bool {
    let l = lowercase(v);
    l == "true"@ || l == "yes"@ || l == "1"@
}

/// The trigger words of a comma-separated list: trimmed, blanks dropped.
pub open spec fn trigger_list(v: Seq<char>) -> Seq<Seq<char>> {
    split_seq(v, ',').map_values(|t: Seq<char>| trim_seq(t)).filter(|t: Seq<char>| t.len() > 0)
}

/// The skill that the text `raw` of the file at `path` describes: the name
/// comes from the front matter or else from the file's stem; the description
/// defaults to empty, the flags `is_hidden` (or `hidden`) to false.
pub open spec fn skill_of(raw: Seq<char>, path: Seq<char>) -> Result<SkillView, AppErrorView> {
    let (fm, body) = frontmatter_split(raw);
    let name = match field_of(fm, "name"@) {
        Some(n) => Some(n),
        None => file_stem_of(path),
    };
    match name {
        None => Err(AppErrorView::BadRequest("Cannot determine name for "@ + str_debug(path))),
        Some(n) => Ok(
            SkillView {
                name: n,
                description: match field_of(fm, "description"@) {
                    Some(d) => d,
                    None => Seq::empty(),
                },
                triggers: match field_of(fm, "triggers"@) {
                    Some(t) => trigger_list(t),
                    None => Seq::empty(),
                },
                model: field_of(fm, "model"@),
                is_hidden: match field_of(fm, "is_hidden"@) {
                    Some(v) => truthy(v),
                    None => match field_of(fm, "hidden"@) {
                        Some(v) => truthy(v),
                        None => false,
                    },
                },
                content: trim_seq(body),
                source: SkillSourceView::UserSkill(path),
            },
        ),
    }
}

/// The trigger words of a comma-separated list.
fn parse_triggers(v: &str) -> (r: Vec<String>)
    ensures
        views(r@) == trigger_list(v@),
{
    let parts = split_char(v, ',');
    let mut out: Vec<String> = Vec::new();
    let mut i: usize = 0;
    let ghost f = |t: Seq<char>| t.len() > 0;
    let ghost m = views(parts@).map_values(|t: Seq<char>| trim_seq(t));
    proof {
        assert(m.take(0).filter(f) =~= Seq::<Seq<char>>::empty());
        assert(views(out@) =~= Seq::<Seq<char>>::empty());
    }
    while i < parts.len()
        invariant
            i <= parts.len(),
            m == views(parts@).map_values(|t: Seq<char>| trim_seq(t)),
            f == (|t: Seq<char>| t.len() > 0),
            views(out@) == m.take(i as int).filter(f),
        decreases parts.len() - i,
    {
        let t = trim(parts[i].as_str());
        proof {
            assert(m.take(i + 1).drop_last() =~= m.take(i as int));
            assert(m.take(i + 1).last() == t@);
            reveal_with_fuel(Seq::filter, 1);
        }
        if !t.as_str().is_empty() {
            let ghost before = out@;
            out.push(t);
            proof {
                assert(views(out@) =~= views(before).push(t@));
            }
        }
        i = i + 1;
    }
    proof {
        assert(m.take(parts@.len() as int) =~= m);
    }
    out
}

/// Whether a flag's value means yes.
fn is_truthy(v: &str) -> (r: bool)
    ensures
        r == truthy(v@),
{
    let l = to_lowercase(v);
    str_eq(l.as_str(), "true") || str_eq(l.as_str(), "yes") || str_eq(l.as_str(), "1")
}

pub open spec fn skill_result_view(r: Result<Skill, AppError>) -> Result<SkillView, AppErrorView> {
    match r {
        Ok(s) => Ok(s@),
        Err(e) => Err(e@),
    }
}

/// Reads a skill from the text of its file.
pub fn parse_skill(raw: &str, path: &str) -> (r: Result<Skill, AppError>)
    ensures
        skill_result_view(r) == skill_of(raw@, path@),
{
    let (frontmatter, body) = split_frontmatter(raw);
    let fm = frontmatter.as_str();
    let name = match extract_field(fm, "name") {
        Some(n) => n,
        None => match file_stem(path) {
            Some(s) => s,
            None => {
                let d = debug_str(path);
                return Err(AppError::BadRequest(concat("Cannot determine name for ", d.as_str())));
            },
        },
    };
    let description = match extract_field(fm, "description") {
        Some(d) => d,
        None => String::new(),
    };
    let triggers = match extract_field(fm, "triggers") {
        Some(t) => parse_triggers(t.as_str()),
        None => Vec::new(),
    };
    let model = extract_field(fm, "model");
    let is_hidden = match extract_field(fm, "is_hidden") {
        Some(v) => is_truthy(v.as_str()),
        None => match extract_field(fm, "hidden") {
            Some(v) => is_truthy(v.as_str()),
            None => false,
        },
    };
    let ghost tv = views(triggers@);
    let skill = Skill {
        metadata: SkillMetadata { name, description, triggers, model, is_hidden },
        content: trim(body.as_str()),
        source: SkillSource::UserSkill(to_string(path)),
    };
    proof {
        if field_of(frontmatter@, "triggers"@) is None {
            assert(tv =~= Seq::<Seq<char>>::empty());
        }
    }
    Ok(skill)
}

// ---------------------------------------------------------------------------
// Collections of skills
// ---------------------------------------------------------------------------

/// Some skill in `skills` has this name.
pub open spec fn has_name(skills: Seq<SkillView>, name: Seq<char>) -> bool {
    exists|i: int| 0 <= i < skills.len() && #[trigger] skills[i].name == name
}

/// No two skills share a name.
pub open spec fn names_unique(skills: Seq<SkillView>) -> bool {
    forall|i: int, j: int|
        0 <= i < j < skills.len() ==> #[trigger] skills[i].name != #[trigger] skills[j].name
}

/// Whether some skill in `skills` is named `name`.
pub fn contains_name(skills: &Vec<Skill>, name: &str) -> (r: bool)
    ensures
        r == has_name(skills_view(skills@), name@),
{
    let mut i: usize = 0;
    while i < skills.len()
        invariant
            i <= skills.len(),
            forall|k: int| 0 <= k < i ==> #[trigger] skills@[k].metadata.name@ != name@,
        decreases skills.len() - i,
    {
        if str_eq(skills[i].metadata.name.as_str(), name) {
            assert(skills_view(skills@)[i as int].name == name@);
            return true;
        }
        i = i + 1;
    }
    proof {
        assert forall|k: int| 0 <= k < skills@.len() implies #[trigger] skills_view(skills@)[k].name
            != name@ by {
            assert(skills_view(skills@)[k].name == skills@[k].metadata.name@);
        }
    }
    false
}

/// Adds `skill` unless a skill of that name is already there (the first one
/// found wins).
pub open spec fn add_unique(skills: Seq<SkillView>, skill: SkillView) -> Seq<SkillView> {
    if has_name(skills, skill.name) {
        skills
    } else {
        skills.push(skill)
    }
}

/// Adds a skill unless one of its name is already there.
pub fn push_unique(skills: &mut Vec<Skill>, skill: Skill)
    ensures
        skills_view(final(skills)@) == add_unique(skills_view(old(skills)@), skill@),
{
    if !contains_name(skills, skill.metadata.name.as_str()) {
        let ghost before = skills@;
        skills.push(skill);
        proof {
            assert(skills_view(skills@) =~= skills_view(before).push(skill@));
        }
    }
}

/// Adding skills this way keeps their names unique.
pub proof fn add_unique_keeps_names_unique(skills: Seq<SkillView>, skill: SkillView)
    requires
        names_unique(skills),
    ensures
        names_unique(add_unique(skills, skill)),
{
    if !has_name(skills, skill.name) {
        let r = skills.push(skill);
        assert forall|i: int, j: int| 0 <= i < j < r.len() implies #[trigger] r[i].name
            != #[trigger] r[j].name by {
            if j == skills.len() {
                assert(skills[i] == r[i]);
                if r[i].name == skill.name {
                    assert(has_name(skills, skill.name));
                }
            } else {
                assert(skills[i] == r[i] && skills[j] == r[j]);
            }
        }
    }
}

/// A skill found in a directory takes that directory as its source: a user
/// directory or a project directory.
pub open spec fn with_source(skill: SkillView, dir: Seq<char>, is_user: bool) -> SkillView {
    SkillView {
        source: if is_user {
            SkillSourceView::UserSkill(dir)
        } else {
            SkillSourceView::ProjectSkill(dir)
        },
        ..skill
    }
}

/// Adds a skill found in `dir` unless one of its name is already there.
pub fn push_from_dir(all: &mut Vec<Skill>, skill: Skill, dir: &str, is_user: bool)
    ensures
        skills_view(final(all)@) == add_unique(
            skills_view(old(all)@),
            with_source(skill@, dir@, is_user),
        ),
{
    let Skill { metadata, content, source: _ } = skill;
    let source = if is_user {
        SkillSource::UserSkill(to_string(dir))
    } else {
        SkillSource::ProjectSkill(to_string(dir))
    };
    let s = Skill { metadata, content, source };
    assert(s@ == with_source(skill@, dir@, is_user));
    push_unique(all, s);
}

/// The directories searched for skills, in priority order, with whether each
/// belongs to the user: `<home>/<config>/skills`, `<config>/skills`,
/// `<home>/<config>/commands`, `<config>/commands`.
pub open spec fn skill_dirs_of(home: Seq<char>) -> Seq<(Seq<char>, bool)> {
    seq![
        (home + "/"@ + ".agent"@ + "/skills"@, true),
        (".agent"@ + "/skills"@, false),
        (home + "/"@ + ".agent"@ + "/commands"@, true),
        (".agent"@ + "/commands"@, false),
    ]
}

pub open spec fn dirs_view(v: Seq<(String, bool)>) -> Seq<(Seq<char>, bool)> {
    v.map_values(|p: (String, bool)| (p.0@, p.1))
}

/// The directories searched for skills, given the home directory if it is
/// known.
pub fn skill_dirs(home: Option<&str>) -> (r: Vec<(String, bool)>)
    ensures
        dirs_view(r@) == skill_dirs_of(home_or_dot(opt_str_view(home))),
{
    let h = home_or_current(home);
    let base = concat(h.as_str(), "/");
    let user_conf = concat(base.as_str(), ".agent");
    let mut r: Vec<(String, bool)> = Vec::new();
    r.push((concat(user_conf.as_str(), "/skills"), true));
    r.push((concat(".agent", "/skills"), false));
    r.push((concat(user_conf.as_str(), "/commands"), true));
    r.push((concat(".agent", "/commands"), false));
    assert(dirs_view(r@) =~= skill_dirs_of(h@));
    r
}

/// The directories that may hold skills: `<home>/<config>/skills`,
/// `<config>/skills` and `<config>/commands`.
pub fn scan_skill_directories(home: Option<&str>) -> (r: Vec<String>)
    ensures
        views(r@) == seq![
            path_join(path_join(home_or_dot(opt_str_view(home)), ".agent"@), "skills"@),
            ".agent"@ + "/skills"@,
            ".agent"@ + "/commands"@,
        ],
{
    let h = home_or_current(home);
    let a = join_path(h.as_str(), ".agent");
    let mut r: Vec<String> = Vec::new();
    r.push(join_path(a.as_str(), "skills"));
    r.push(concat(".agent", "/skills"));
    r.push(concat(".agent", "/commands"));
    assert(views(r@) =~= seq![
        path_join(path_join(h@, ".agent"@), "skills"@),
        ".agent"@ + "/skills"@,
        ".agent"@ + "/commands"@,
    ]);
    r
}

/// Whether a file is a skill file: its extension is `md` in any case.
pub open spec fn is_skill_file(path: Seq<char>) -> bool {
    match extension_of(path) {
        Some(e) => eq_ignore_case_seq(e, "md"@),
        None => false,
    }
}

/// Whether a file is a skill file.
pub fn is_markdown(path: &str) -> (r: bool)
    ensures
        r == is_skill_file(path@),
{
    match extension(path) {
        Some(e) => eq_ignore_ascii_case(e.as_str(), "md"),
        None => false,
    }
}

/// Whether a directory entry is a standalone skill file: its extension is
/// exactly `md`.
pub fn is_standalone_skill(path: &str) -> (r: bool)
    ensures
        r == (extension_of(path@) == Some("md"@)),
{
    match extension(path) {
        Some(e) => str_eq(e.as_str(), "md"),
        None => false,
    }
}

/// The definition file of a skill directory: `SKILL.md` when it is a file,
/// else `skill.md` when that is, else none.
pub fn skill_file_in(dir: &str, has_upper: bool, has_lower: bool) -> (r: Option<String>)
    ensures
        has_upper ==> (r matches Some(p) && p@ == path_join(dir@, "SKILL.md"@)),
        !has_upper && has_lower ==> (r matches Some(p) && p@ == path_join(dir@, "skill.md"@)),
        !has_upper && !has_lower ==> r is None,
{
    if has_upper {
        Some(join_path(dir, "SKILL.md"))
    } else if has_lower {
        Some(join_path(dir, "skill.md"))
    } else {
        None
    }
}

/// The error when a skill file cannot be read.
pub fn read_failure(path: &str, reason: &str) -> (e: AppError)
    ensures
        e@ == AppErrorView::Internal("Failed to read "@ + str_debug(path@) + ": "@ + reason@),
{
    let d = debug_str(path);
    let a = concat("Failed to read ", d.as_str());
    let b = concat(a.as_str(), ": ");
    AppError::Internal(concat(b.as_str(), reason))
}

/// The error when a skills directory cannot be listed.
pub fn dir_failure(dir: &str, reason: &str) -> (e: AppError)
    ensures
        e@ == AppErrorView::Internal("Failed to read dir "@ + str_debug(dir@) + ": "@ + reason@),
{
    let d = debug_str(dir);
    let a = concat("Failed to read dir ", d.as_str());
    let b = concat(a.as_str(), ": ");
    AppError::Internal(concat(b.as_str(), reason))
}

/// `skills` with each of `more` added, in order, unless its name is already
/// there.
pub open spec fn add_all_unique(skills: Seq<SkillView>, more: Seq<SkillView>) -> Seq<SkillView>
    decreases more.len(),
{
    if more.len() == 0 {
        skills
    } else {
        add_unique(add_all_unique(skills, more.drop_last()), more.last())
    }
}

/// Adds each skill of `more` whose name is not there yet (the lower-priority
/// skills, such as the bundled ones).
pub fn push_all_unique(skills: &mut Vec<Skill>, more: Vec<Skill>)
    ensures
        skills_view(final(skills)@) == add_all_unique(skills_view(old(skills)@), skills_view(more@)),
{
    let ghost start = skills_view(skills@);
    let ghost mv = skills_view(more@);
    let mut rest = more;
    let mut taken: Vec<Skill> = Vec::new();
    while rest.len() > 0
        invariant
            skills_view(rest@) + skills_view(taken@).reverse() == mv,
        decreases rest.len(),
    {
        let ghost r0 = rest@;
        let ghost t0 = taken@;
        let x = rest.pop().unwrap();
        taken.push(x);
        proof {
            assert(skills_view(r0) =~= skills_view(rest@).push(x@));
            assert(skills_view(taken@) =~= skills_view(t0).push(x@));
            assert(skills_view(taken@).reverse() =~= seq![x@] + skills_view(t0).reverse());
            assert(skills_view(rest@) + skills_view(taken@).reverse() =~= skills_view(r0)
                + skills_view(t0).reverse());
        }
    }
    assert(skills_view(rest@) =~= Seq::<SkillView>::empty());
    assert(skills_view(taken@).reverse() =~= mv);
    let mut k: usize = 0;
    let n = taken.len();
    while taken.len() > 0
        invariant
            k + taken.len() == n,
            n == mv.len(),
            skills_view(taken@).reverse() =~= mv.skip(k as int),
            skills_view(skills@) == add_all_unique(start, mv.take(k as int)),
        decreases taken.len(),
    {
        let ghost t0 = taken@;
        let x = taken.pop().unwrap();
        proof {
            assert(skills_view(t0) =~= skills_view(taken@).push(x@));
            assert(skills_view(t0).reverse()[0] == x@);
            assert(mv.skip(k as int)[0] == mv[k as int]);
            assert(mv.take(k + 1).drop_last() =~= mv.take(k as int));
            assert(mv.take(k + 1).last() == mv[k as int]);
            assert(skills_view(t0).reverse() =~= seq![x@] + skills_view(taken@).reverse());
            assert(mv.skip(k as int).drop_first() =~= mv.skip(k + 1));
            assert((seq![x@] + skills_view(taken@).reverse()).drop_first() =~= skills_view(taken@).reverse());
            assert(skills_view(taken@).reverse() =~= mv.skip(k + 1));
        }
        push_unique(skills, x);
        k = k + 1;
    }
    assert(mv.take(k as int) =~= mv);
}

} // verus!
