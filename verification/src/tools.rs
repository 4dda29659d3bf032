//! The built-in tools: what they are called, what they take, and what they
//! make of what the shell or the file system hands back.
use vstd::prelude::*;

use crate::errors::{AppError, AppErrorView};
use crate::json::{push_item, push_member, jget_str, jget_u64, Json, JsonView};
use crate::provider::PermissionLevel;
use crate::strmap::StrMap;
use crate::text::{
    byte_cut, byte_prefix, concat, dec, fmt_pad_left, fmt_u64, is_boundary, lemma_byte_prefix, lines,
    lines_seq, pad_left, push_str, range_to_string, to_chars, to_string, utf8_len, views, ByteCut,
};

verus! {

// ---------------------------------------------------------------------------
// Input schemas
// ---------------------------------------------------------------------------

/// A schema property: `{"type": ty, "description": desc}`.
pub open spec fn prop_schema(ty: Seq<char>, desc: Seq<char>) -> JsonView {
    JsonView::Object(seq![("type"@, JsonView::Str(ty)), ("description"@, JsonView::Str(desc))])
}

/// An object schema with these properties and required names.
pub open spec fn object_schema(
    props: Seq<(Seq<char>, JsonView)>,
    required: Seq<Seq<char>>,
) -> JsonView {
    JsonView::Object(
        seq![
            ("type"@, JsonView::Str("object"@)),
            ("properties"@, JsonView::Object(props)),
            ("required"@, JsonView::Array(required.map_values(|r: Seq<char>| JsonView::Str(r)))),
        ],
    )
}

fn prop_json(ty: &str, desc: &str) -> (r: Json)
    ensures
        r@ == prop_schema(ty@, desc@),
{
    let mut m: Vec<(String, Json)> = Vec::new();
    assert(crate::json::json_members_view(m@) =~= Seq::empty());
    push_member(&mut m, "type", Json::string(ty));
    push_member(&mut m, "description", Json::string(desc));
    assert(crate::json::json_members_view(m@) =~= seq![
        ("type"@, JsonView::Str(ty@)),
        ("description"@, JsonView::Str(desc@)),
    ]);
    Json::Object(m)
}

fn object_json(props: Vec<(String, Json)>, required: &Vec<String>) -> (r: Json)
    ensures
        r@ == object_schema(crate::json::json_members_view(props@), views(required@)),
{
    let ghost pv = crate::json::json_members_view(props@);
    let mut req: Vec<Json> = Vec::new();
    assert(crate::json::json_seq_view(req@) =~= Seq::empty());
    let mut i: usize = 0;
    while i < required.len()
        invariant
            i <= required.len(),
            crate::json::json_seq_view(req@) =~= views(required@).take(i as int).map_values(
                |r: Seq<char>| JsonView::Str(r),
            ),
        decreases required.len() - i,
    {
        push_item(&mut req, Json::string(required[i].as_str()));
        i = i + 1;
        assert(views(required@).take(i as int) =~= views(required@).take(i - 1).push(
            required@[i - 1]@,
        ));
    }
    assert(views(required@).take(i as int) =~= views(required@));
    let ghost rv = crate::json::json_seq_view(req@);
    let mut m: Vec<(String, Json)> = Vec::new();
    assert(crate::json::json_members_view(m@) =~= Seq::empty());
    push_member(&mut m, "type", Json::string("object"));
    push_member(&mut m, "properties", Json::Object(props));
    push_member(&mut m, "required", Json::Array(req));
    assert(crate::json::json_members_view(m@) =~= seq![
        ("type"@, JsonView::Str("object"@)),
        ("properties"@, JsonView::Object(pv)),
        ("required"@, JsonView::Array(rv)),
    ]);
    Json::Object(m)
}

/// Member `key` of a tool's input when it is a string, or the tool error
/// `missing '<key>' field`.
pub open spec fn required_str(input: JsonView, key: Seq<char>) -> Result<Seq<char>, AppErrorView> {
    match jget_str(input, key) {
        Some(s) => Ok(s),
        None => Err(AppErrorView::Tool("missing '"@ + key + "' field"@)),
    }
}

fn get_required_str(input: &Json, key: &str) -> (r: Result<String, AppError>)
    ensures
        match r {
            Ok(s) => required_str(input@, key@) == Ok::<Seq<char>, AppErrorView>(s@),
            Err(e) => required_str(input@, key@) == Err::<Seq<char>, AppErrorView>(e@),
        },
{
    match input.get_str(key) {
        Some(s) => Ok(to_string(s)),
        None => {
            let a = concat("missing '", key);
            Err(AppError::Tool(concat(a.as_str(), "' field")))
        },
    }
}

// ---------------------------------------------------------------------------
// The bash tool
// ---------------------------------------------------------------------------

/// At most this many bytes of a command's output are kept.
pub const OUTPUT_LIMIT: usize = 100000;

/// A command's output before it is cut: its standard output, then, if there is
/// any, its standard error under a `STDERR:` line (on a line of its own when
/// something precedes it); `(no output)` when both are empty.
pub open spec fn bash_text(stdout: Seq<char>, stderr: Seq<char>) -> Seq<char> {
    let r = if stderr.len() == 0 {
        stdout
    } else if stdout.len() == 0 {
        "STDERR:\n"@ + stderr
    } else {
        stdout + "\n"@ + "STDERR:\n"@ + stderr
    };
    if r.len() == 0 {
        "(no output)"@
    } else {
        r
    }
}

/// The output can be cut at [`OUTPUT_LIMIT`] bytes: it is no longer, or that
/// byte count ends a character.
pub open spec fn bash_fits(stdout: Seq<char>, stderr: Seq<char>) -> bool {
    let t = bash_text(stdout, stderr);
    utf8_len(t) <= OUTPUT_LIMIT || is_boundary(t, OUTPUT_LIMIT as nat)
}

/// What the bash tool returns: the output, cut to [`OUTPUT_LIMIT`] bytes with a
/// `... (truncated)` line when it is longer.
pub open spec fn bash_output(stdout: Seq<char>, stderr: Seq<char>) -> Seq<char> {
    let t = bash_text(stdout, stderr);
    if utf8_len(t) > OUTPUT_LIMIT {
        byte_prefix(t, OUTPUT_LIMIT as nat) + "\n... (truncated)"@
    } else {
        t
    }
}

/// The bash tool's answer is never longer than [`OUTPUT_LIMIT`] bytes and the
/// truncation line.
pub proof fn bash_output_bounded(stdout: Seq<char>, stderr: Seq<char>)
    requires
        bash_fits(stdout, stderr),
    ensures
        utf8_len(bash_output(stdout, stderr)) <= OUTPUT_LIMIT + utf8_len("\n... (truncated)"@),
{
    let t = bash_text(stdout, stderr);
    if utf8_len(t) > OUTPUT_LIMIT {
        let k = choose|k: int| 0 <= k <= t.len() && #[trigger] utf8_len(t.take(k)) == OUTPUT_LIMIT as nat;
        crate::text::lemma_byte_prefix(t, OUTPUT_LIMIT as nat, k);
        crate::text::lemma_utf8_len_concat(byte_prefix(t, OUTPUT_LIMIT as nat), "\n... (truncated)"@);
    }
}

fn bash_text_exec(stdout: &str, stderr: &str) -> (r: String)
    ensures
        r@ == bash_text(stdout@, stderr@),
{
    let mut result = String::new();
    let so = to_chars(stdout);
    let se = to_chars(stderr);
    if so.len() > 0 {
        push_str(&mut result, stdout);
    }
    if se.len() > 0 {
        if so.len() > 0 {
            push_str(&mut result, "\n");
        }
        push_str(&mut result, "STDERR:\n");
        push_str(&mut result, stderr);
    }
    let rv = to_chars(result.as_str());
    if rv.len() == 0 {
        push_str(&mut result, "(no output)");
    }
    assert(result@ =~= bash_text(stdout@, stderr@));
    result
}

/// The shell tool.
pub struct BashTool;

impl BashTool {
    pub fn name(&self) -> (r: &'static str)
        ensures
            r@ == "bash"@,
    {
        "bash"
    }

    pub fn description(&self) -> (r: &'static str)
        ensures
            r@ == "Execute a bash command and return its output."@,
    {
        "Execute a bash command and return its output."
    }

    /// `{"type": "object", "properties": {"command": ...}, "required": ["command"]}`.
    pub fn input_schema(&self) -> (r: Json)
        ensures
            r@ == object_schema(
                seq![("command"@, prop_schema("string"@, "The bash command to execute"@))],
                seq!["command"@],
            ),
    {
        let mut props: Vec<(String, Json)> = Vec::new();
        push_member(&mut props, "command", prop_json("string", "The bash command to execute"));
        let mut req: Vec<String> = Vec::new();
        req.push(to_string("command"));
        let r = object_json(props, &req);
        assert(views(req@) =~= seq!["command"@]);
        r
    }

    pub fn permission_level(&self) -> (r: PermissionLevel)
        ensures
            r == PermissionLevel::Dangerous,
    {
        PermissionLevel::Dangerous
    }

    /// The command to run: the input's `command` string.
    pub fn command(input: &Json) -> (r: Result<String, AppError>)
        ensures
            match r {
                Ok(s) => required_str(input@, "command"@) == Ok::<Seq<char>, AppErrorView>(s@),
                Err(e) => required_str(input@, "command"@) == Err::<Seq<char>, AppErrorView>(e@),
            },
    {
        get_required_str(input, "command")
    }

    /// The error when the shell cannot be started.
    pub fn spawn_failure(reason: &str) -> (e: AppError)
        ensures
            e@ == AppErrorView::Tool("failed to spawn bash: "@ + reason@),
    {
        AppError::Tool(concat("failed to spawn bash: ", reason))
    }

    /// Whether [`BashTool::format_output`] can cut this output (the cut would
    /// otherwise fall inside a character).
    pub fn output_fits(stdout: &str, stderr: &str) -> (r: bool)
        ensures
            r == bash_fits(stdout@, stderr@),
    {
        let t = bash_text_exec(stdout, stderr);
        let v = to_chars(t.as_str());
        match byte_cut(&v, OUTPUT_LIMIT) {
            ByteCut::Fits => true,
            ByteCut::At(_) => true,
            ByteCut::Split => false,
        }
    }

    /// The tool's answer for a command's standard output and standard error.
    pub fn format_output(stdout: &str, stderr: &str) -> (r: String)
        requires
            bash_fits(stdout@, stderr@),
        ensures
            r@ == bash_output(stdout@, stderr@),
    {
        let t = bash_text_exec(stdout, stderr);
        let v = to_chars(t.as_str());
        match byte_cut(&v, OUTPUT_LIMIT) {
            ByteCut::At(k) => {
                let mut r = range_to_string(&v, 0, k);
                proof {
                    lemma_byte_prefix(v@, OUTPUT_LIMIT as nat, k as int);
                    assert(r@ =~= v@.take(k as int));
                }
                push_str(&mut r, "\n... (truncated)");
                r
            },
            _ => t,
        }
    }
}

// ---------------------------------------------------------------------------
// The read tool
// ---------------------------------------------------------------------------

/// Lines read when the input gives no limit.
pub const DEFAULT_LIMIT: u64 = 2000;

/// What the read tool takes: the file, the first line (counted from 1, at
/// least 1; 1 when absent) and how many lines at most ([`DEFAULT_LIMIT`] when
/// absent).
pub open spec fn read_args(input: JsonView) -> Result<(Seq<char>, u64, u64), AppErrorView> {
    match required_str(input, "file_path"@) {
        Err(e) => Err(e),
        Ok(p) => {
            let o = match jget_u64(input, "offset"@) {
                Some(o) => if o >= 1 { o } else { 1 },
                None => 1,
            };
            let l = match jget_u64(input, "limit"@) {
                Some(l) => l,
                None => DEFAULT_LIMIT,
            };
            Ok((p, o, l))
        },
    }
}

/// Lines `s..e` of `ls`, each as its number (from 1) right-aligned in six
/// columns, a tab, the line and a newline.
pub open spec fn numbered(ls: Seq<Seq<char>>, s: int, e: int) -> Seq<char>
    decreases e - s,
{
    if e <= s {
        Seq::empty()
    } else {
        numbered(ls, s, e - 1) + pad_left(dec(e as nat), 6) + "\t"@ + ls[e - 1] + "\n"@
    }
}

/// The first line shown, counted from 0: `offset - 1`, at most the number of lines.
pub open spec fn window_start(n: nat, offset: u64) -> int {
    let o: int = if offset >= 1 { offset - 1 } else { 0 };
    if o < n { o } else { n as int }
}

/// One past the last line shown: `limit` lines after the first, at most the
/// number of lines.
pub open spec fn window_end(n: nat, offset: u64, limit: u64) -> int {
    let s = window_start(n, offset);
    if s + limit < n { s + limit } else { n as int }
}

/// What the read tool returns for a file's text: the lines of the window,
/// numbered, or `(empty file)` when the window holds none.
pub open spec fn read_window(content: Seq<char>, offset: u64, limit: u64) -> Seq<char> {
    let ls = lines_seq(content);
    let r = numbered(ls, window_start(ls.len(), offset), window_end(ls.len(), offset, limit));
    if r.len() == 0 {
        "(empty file)"@
    } else {
        r
    }
}

/// The file reader.
pub struct ReadTool;

impl ReadTool {
    pub fn name(&self) -> (r: &'static str)
        ensures
            r@ == "read"@,
    {
        "read"
    }

    pub fn description(&self) -> (r: &'static str)
        ensures
            r@ == "Read the contents of a file. Returns numbered lines."@,
    {
        "Read the contents of a file. Returns numbered lines."
    }

    /// Properties `file_path` (string), `offset` and `limit` (integers);
    /// `file_path` required.
    pub fn input_schema(&self) -> (r: Json)
        ensures
            r@ == object_schema(
                seq![
                    ("file_path"@, prop_schema("string"@, "Absolute path to the file to read"@)),
                    ("offset"@, prop_schema("integer"@, "Line number to start reading from (1-based)"@)),
                    ("limit"@, prop_schema("integer"@, "Maximum number of lines to read"@)),
                ],
                seq!["file_path"@],
            ),
    {
        let mut props: Vec<(String, Json)> = Vec::new();
        assert(crate::json::json_members_view(props@) =~= Seq::empty());
        push_member(&mut props, "file_path", prop_json("string", "Absolute path to the file to read"));
        push_member(
            &mut props,
            "offset",
            prop_json("integer", "Line number to start reading from (1-based)"),
        );
        push_member(&mut props, "limit", prop_json("integer", "Maximum number of lines to read"));
        let ghost pv = crate::json::json_members_view(props@);
        let mut req: Vec<String> = Vec::new();
        req.push(to_string("file_path"));
        let r = object_json(props, &req);
        assert(views(req@) =~= seq!["file_path"@]);
        assert(pv =~= seq![
            ("file_path"@, prop_schema("string"@, "Absolute path to the file to read"@)),
            ("offset"@, prop_schema("integer"@, "Line number to start reading from (1-based)"@)),
            ("limit"@, prop_schema("integer"@, "Maximum number of lines to read"@)),
        ]);
        r
    }

    pub fn permission_level(&self) -> (r: PermissionLevel)
        ensures
            r == PermissionLevel::ReadOnly,
    {
        PermissionLevel::ReadOnly
    }

    /// The file, first line and line count that the input asks for.
    pub fn args(input: &Json) -> (r: Result<(String, u64, u64), AppError>)
        ensures
            match r {
                Ok((p, o, l)) => read_args(input@) == Ok::<(Seq<char>, u64, u64), AppErrorView>(
                    (p@, o, l),
                ),
                Err(e) => read_args(input@) == Err::<(Seq<char>, u64, u64), AppErrorView>(e@),
            },
    {
        let path = match get_required_str(input, "file_path") {
            Ok(p) => p,
            Err(e) => return Err(e),
        };
        let offset = match input.get_u64("offset") {
            Some(o) => if o >= 1 { o } else { 1 },
            None => 1,
        };
        let limit = match input.get_u64("limit") {
            Some(l) => l,
            None => DEFAULT_LIMIT,
        };
        Ok((path, offset, limit))
    }

    /// The error when the file cannot be read.
    pub fn read_failure(path: &str, reason: &str) -> (e: AppError)
        ensures
            e@ == AppErrorView::Tool("cannot read '"@ + path@ + "': "@ + reason@),
    {
        let a = concat("cannot read '", path);
        let b = concat(a.as_str(), "': ");
        AppError::Tool(concat(b.as_str(), reason))
    }

    /// The tool's answer for a file's text.
    pub fn format_lines(content: &str, offset: u64, limit: u64) -> (r: String)
        ensures
            r@ == read_window(content@, offset, limit),
    {
        let ls = lines(content);
        let ghost lv = views(ls@);
        let n = ls.len();
        let o: u64 = if offset >= 1 { offset - 1 } else { 0 };
        let start: usize = if o < n as u64 { o as usize } else { n };
        let end: usize = if limit < (n - start) as u64 { start + limit as usize } else { n };
        assert(start == window_start(lv.len(), offset));
        assert(end == window_end(lv.len(), offset, limit));
        let mut r = String::new();
        let mut i: usize = start;
        while i < end
            invariant
                start <= i <= end <= n == ls.len() == lv.len(),
                lv == views(ls@),
                r@ == numbered(lv, start as int, i as int),
            decreases end - i,
        {
            let num = fmt_u64((i + 1) as u64);
            let padded = fmt_pad_left(num.as_str(), 6);
            push_str(&mut r, padded.as_str());
            push_str(&mut r, "\t");
            push_str(&mut r, ls[i].as_str());
            push_str(&mut r, "\n");
            i = i + 1;
            assert(r@ =~= numbered(lv, start as int, i as int));
        }
        let rv = to_chars(r.as_str());
        if rv.len() == 0 {
            push_str(&mut r, "(empty file)");
            assert(r@ =~= "(empty file)"@);
        }
        r
    }
}

// ---------------------------------------------------------------------------
// The skill tool
// ---------------------------------------------------------------------------

/// Which of the search, read and list kinds a call belongs to.
pub struct SearchReadInfo {
    pub is_search: bool,
    pub is_read: bool,
    pub is_list: bool,
}

/// What the skill tool takes: the skill's name and its arguments (empty when
/// absent).
pub open spec fn skill_args(input: JsonView) -> Result<(Seq<char>, Seq<char>), AppErrorView> {
    match required_str(input, "skill"@) {
        Err(e) => Err(e),
        Ok(s) => Ok(
            (
                s,
                match jget_str(input, "args"@) {
                    Some(a) => a,
                    None => Seq::empty(),
                },
            ),
        ),
    }
}

/// Where a skill's definition is read from: `<home>/.agent/skills/<skill>/SKILL.md`.
pub open spec fn skill_file(home: Seq<char>, skill: Seq<char>) -> Seq<char> {
    home + "/.agent/skills/"@ + skill + "/SKILL.md"@
}

/// What the skill tool returns: the definition, followed by the arguments
/// under a rule when there are any.
pub open spec fn skill_answer(content: Seq<char>, args: Seq<char>) -> Seq<char> {
    if args.len() == 0 {
        content
    } else {
        content + "\n\n---\nArgs: "@ + args
    }
}

/// Runs a skill by reading its definition.
pub struct SkillTool;

impl SkillTool {
    pub fn new() -> (r: SkillTool) {
        SkillTool
    }

    pub fn name(&self) -> (r: &'static str)
        ensures
            r@ == "skill"@,
    {
        "skill"
    }

    pub fn description(&self) -> (r: &'static str)
        ensures
            r@ == "Invoke a skill by name. Reads the skill definition from ~/.agent/skills/{name}/SKILL.md."@,
    {
        "Invoke a skill by name. Reads the skill definition from ~/.agent/skills/{name}/SKILL.md."
    }

    /// Properties `skill` and `args` (strings); `skill` required.
    pub fn input_schema(&self) -> (r: Json)
        ensures
            r@ == object_schema(
                seq![
                    ("skill"@, prop_schema("string"@, "The skill name to invoke"@)),
                    ("args"@, prop_schema("string"@, "Optional arguments for the skill"@)),
                ],
                seq!["skill"@],
            ),
    {
        let mut props: Vec<(String, Json)> = Vec::new();
        assert(crate::json::json_members_view(props@) =~= Seq::empty());
        push_member(&mut props, "skill", prop_json("string", "The skill name to invoke"));
        push_member(&mut props, "args", prop_json("string", "Optional arguments for the skill"));
        let ghost pv = crate::json::json_members_view(props@);
        let mut req: Vec<String> = Vec::new();
        req.push(to_string("skill"));
        let r = object_json(props, &req);
        assert(views(req@) =~= seq!["skill"@]);
        assert(pv =~= seq![
            ("skill"@, prop_schema("string"@, "The skill name to invoke"@)),
            ("args"@, prop_schema("string"@, "Optional arguments for the skill"@)),
        ]);
        r
    }

    pub fn permission_level(&self) -> (r: PermissionLevel)
        ensures
            r == PermissionLevel::ReadOnly,
    {
        PermissionLevel::ReadOnly
    }

    pub fn is_read_only(&self, input: &Json) -> (r: bool)
        ensures
            r,
    {
        true
    }

    pub fn is_concurrent_safe(&self, input: &Json) -> (r: bool)
        ensures
            r,
    {
        true
    }

    /// A skill call reads, and neither searches nor lists.
    pub fn is_search_or_read_command(&self, input: &Json) -> (r: SearchReadInfo)
        ensures
            !r.is_search && r.is_read && !r.is_list,
    {
        SearchReadInfo { is_search: false, is_read: true, is_list: false }
    }

    /// The skill and arguments that the input asks for.
    pub fn args(input: &Json) -> (r: Result<(String, String), AppError>)
        ensures
            match r {
                Ok((s, a)) => skill_args(input@) == Ok::<(Seq<char>, Seq<char>), AppErrorView>(
                    (s@, a@),
                ),
                Err(e) => skill_args(input@) == Err::<(Seq<char>, Seq<char>), AppErrorView>(e@),
            },
    {
        let skill = match get_required_str(input, "skill") {
            Ok(s) => s,
            Err(e) => return Err(e),
        };
        let args = match input.get_str("args") {
            Some(a) => to_string(a),
            None => String::new(),
        };
        Ok((skill, args))
    }

    /// The file that holds the skill's definition, given the home directory;
    /// an error when there is none.
    pub fn locate(home: Option<&str>, skill: &str) -> (r: Result<String, AppError>)
        ensures
            match home {
                Some(h) => r matches Ok(p) && p@ == skill_file(h@, skill@),
                None => r matches Err(e) && e@ == AppErrorView::Tool(
                    "cannot determine home directory"@,
                ),
            },
    {
        match home {
            Some(h) => {
                let a = concat(h, "/.agent/skills/");
                let b = concat(a.as_str(), skill);
                Ok(concat(b.as_str(), "/SKILL.md"))
            },
            None => Err(AppError::Tool(to_string("cannot determine home directory"))),
        }
    }

    /// The error when the definition cannot be read.
    pub fn not_found(skill: &str, path: &str, reason: &str) -> (e: AppError)
        ensures
            e@ == AppErrorView::Tool(
                "skill '"@ + skill@ + "' not found at "@ + path@ + ": "@ + reason@,
            ),
    {
        let a = concat("skill '", skill);
        let b = concat(a.as_str(), "' not found at ");
        let c = concat(b.as_str(), path);
        let d = concat(c.as_str(), ": ");
        AppError::Tool(concat(d.as_str(), reason))
    }

    /// The tool's answer for a skill's definition and arguments.
    pub fn answer(content: &str, args: &str) -> (r: String)
        ensures
            r@ == skill_answer(content@, args@),
    {
        let v = to_chars(args);
        if v.len() == 0 {
            to_string(content)
        } else {
            let a = concat(content, "\n\n---\nArgs: ");
            concat(a.as_str(), args)
        }
    }
}

/// A tool's definition as the API takes it: its name, description and input
/// schema.
pub open spec fn definition_of(name: Seq<char>, description: Seq<char>, schema: JsonView) -> JsonView {
    JsonView::Object(
        seq![
            ("name"@, JsonView::Str(name)),
            ("description"@, JsonView::Str(description)),
            ("input_schema"@, schema),
        ],
    )
}

/// A tool's definition as the API takes it.
pub fn tool_definition(name: &str, description: &str, schema: Json) -> (r: Json)
    ensures
        r@ == definition_of(name@, description@, schema@),
{
    let ghost sv = schema@;
    let mut m: Vec<(String, Json)> = Vec::new();
    assert(crate::json::json_members_view(m@) =~= Seq::empty());
    push_member(&mut m, "name", Json::string(name));
    push_member(&mut m, "description", Json::string(description));
    push_member(&mut m, "input_schema", schema);
    assert(crate::json::json_members_view(m@) =~= definition_of(name@, description@, sv)->Object_0);
    Json::Object(m)
}

// ---------------------------------------------------------------------------
// MCP server configuration
// ---------------------------------------------------------------------------

/// How to start one MCP server.
pub struct McpServerEntry {
    pub command: String,
    pub args: Vec<String>,
    pub env: StrMap,
}

/// The servers of one configuration file, in the file's order.
pub struct McpConfig {
    pub mcp_servers: Vec<(String, McpServerEntry)>,
}

pub struct McpServerView {
    pub command: Seq<char>,
    pub args: Seq<Seq<char>>,
    pub env: Map<Seq<char>, Seq<char>>,
}

impl View for McpServerEntry {
    type V = McpServerView;

    open spec fn view(&self) -> McpServerView {
        McpServerView { command: self.command@, args: views(self.args@), env: self.env@ }
    }
}

pub open spec fn servers_view(s: Seq<(String, McpServerEntry)>) -> Seq<(Seq<char>, McpServerView)> {
    s.map_values(|p: (String, McpServerEntry)| (p.0@, p.1@))
}

/// Some server in `s` is named `name`.
pub open spec fn has_server(s: Seq<(Seq<char>, McpServerView)>, name: Seq<char>) -> bool {
    exists|i: int| 0 <= i < s.len() && #[trigger] s[i].0 == name
}

/// No two servers in `s` share a name.
pub open spec fn server_names_unique(s: Seq<(Seq<char>, McpServerView)>) -> bool {
    forall|i: int, j: int| 0 <= i < j < s.len() ==> #[trigger] s[i].0 != #[trigger] s[j].0
}

/// `acc` with the servers of `s` added in order, each only when no server of
/// that name is there yet.
pub open spec fn add_servers(
    acc: Seq<(Seq<char>, McpServerView)>,
    s: Seq<(Seq<char>, McpServerView)>,
) -> Seq<(Seq<char>, McpServerView)>
    decreases s.len(),
{
    if s.len() == 0 {
        acc
    } else {
        let next = if has_server(acc, s[0].0) {
            acc
        } else {
            acc.push(s[0])
        };
        add_servers(next, s.drop_first())
    }
}

/// Adding servers keeps names unique, keeps every server already there, and
/// leaves every added name present.
pub proof fn add_servers_laws(
    acc: Seq<(Seq<char>, McpServerView)>,
    s: Seq<(Seq<char>, McpServerView)>,
)
    requires
        server_names_unique(acc),
    ensures
        server_names_unique(add_servers(acc, s)),
        acc.is_prefix_of(add_servers(acc, s)),
        forall|i: int| 0 <= i < s.len() ==> has_server(add_servers(acc, s), #[trigger] s[i].0),
    decreases s.len(),
{
    if s.len() > 0 {
        let next = if has_server(acc, s[0].0) {
            acc
        } else {
            acc.push(s[0])
        };
        if !has_server(acc, s[0].0) {
            assert forall|i: int, j: int| 0 <= i < j < next.len() implies #[trigger] next[i].0
                != #[trigger] next[j].0 by {
                if j == acc.len() {
                    assert(acc[i].0 != s[0].0);
                }
            }
            assert(next[acc.len() as int] == s[0]);
        }
        add_servers_laws(next, s.drop_first());
        let r = add_servers(acc, s);
        assert(acc.is_prefix_of(next));
        assert forall|i: int| 0 <= i < s.len() implies has_server(r, #[trigger] s[i].0) by {
            if i == 0 {
                let k = choose|k: int| 0 <= k < next.len() && #[trigger] next[k].0 == s[0].0;
                assert(r[k] == next[k]);
            } else {
                assert(s.drop_first()[i - 1] == s[i]);
            }
        }
    }
}

fn copy_server(e: &McpServerEntry) -> (r: McpServerEntry)
    ensures
        r@ == e@,
{
    McpServerEntry { command: e.command.clone(), args: crate::text::copy_strings(&e.args), env: e.env.copy() }
}

fn has_server_named(servers: &Vec<(String, McpServerEntry)>, name: &str) -> (r: bool)
    ensures
        r == has_server(servers_view(servers@), name@),
{
    let mut i: usize = 0;
    while i < servers.len()
        invariant
            i <= servers.len(),
            forall|k: int| 0 <= k < i ==> #[trigger] servers@[k].0@ != name@,
        decreases servers.len() - i,
    {
        if crate::text::str_eq(servers[i].0.as_str(), name) {
            assert(servers_view(servers@)[i as int].0 == name@);
            return true;
        }
        i = i + 1;
    }
    assert forall|k: int| 0 <= k < servers@.len() implies #[trigger] servers_view(servers@)[k].0
        != name@ by {
        assert(servers_view(servers@)[k].0 == servers@[k].0@);
    }
    false
}

/// Adds the servers of one configuration file to those found so far; a server
/// whose name is already there keeps its first definition.
pub fn add_mcp_servers(found: &mut Vec<(String, McpServerEntry)>, cfg: &McpConfig)
    ensures
        servers_view(final(found)@) == add_servers(
            servers_view(old(found)@),
            servers_view(cfg.mcp_servers@),
        ),
{
    let ghost s = servers_view(cfg.mcp_servers@);
    let ghost acc0 = servers_view(found@);
    let mut i: usize = 0;
    assert(s.skip(0) =~= s);
    while i < cfg.mcp_servers.len()
        invariant
            i <= cfg.mcp_servers.len(),
            s == servers_view(cfg.mcp_servers@),
            add_servers(servers_view(found@), s.skip(i as int)) == add_servers(acc0, s),
        decreases cfg.mcp_servers.len() - i,
    {
        let ghost before = servers_view(found@);
        let name = cfg.mcp_servers[i].0.as_str();
        assert(s.skip(i as int)[0] == s[i as int]);
        assert(s.skip(i as int).drop_first() =~= s.skip(i + 1));
        if !has_server_named(found, name) {
            let e = copy_server(&cfg.mcp_servers[i].1);
            found.push((name.to_owned(), e));
            assert(servers_view(found@) =~= before.push(s[i as int]));
        }
        i = i + 1;
    }
    assert(s.skip(i as int) =~= Seq::<(Seq<char>, McpServerView)>::empty());
}

/// The configuration files, in the order in which they are read:
/// `<cwd>/.mcp.json`, `<cwd>/.agent/mcp.json` and `<home>/.agent/mcp.json`,
/// `.` standing for a home directory that cannot be found.
pub fn mcp_config_paths(cwd: &str, home: Option<&str>) -> (r: Vec<String>)
    ensures
        views(r@) == seq![
            cwd@ + "/.mcp.json"@,
            cwd@ + "/.agent/mcp.json"@,
            crate::paths::home_or_dot(crate::paths::opt_str_view(home)) + "/.agent/mcp.json"@,
        ],
{
    let h = crate::paths::home_or_current(home);
    let mut r: Vec<String> = Vec::new();
    r.push(concat(cwd, "/.mcp.json"));
    r.push(concat(cwd, "/.agent/mcp.json"));
    r.push(concat(h.as_str(), "/.agent/mcp.json"));
    assert(views(r@) =~= seq![
        cwd@ + "/.mcp.json"@,
        cwd@ + "/.agent/mcp.json"@,
        crate::paths::home_or_dot(crate::paths::opt_str_view(home)) + "/.agent/mcp.json"@,
    ]);
    r
}

} // verus!
