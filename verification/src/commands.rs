//! Slash commands: reading them from user input and what each one answers.
use vstd::prelude::*;

use crate::conversation::{Conversation, ConversationView};
use crate::paths::{home_or_dot, home_or_current, join_path, opt_str_view, path_join};
use crate::paths::{extension, extension_of, file_stem, file_stem_of};
use crate::process::CommandOutput;
use crate::sort::{is_stable_order, stable_order};
use crate::text::{
    concat, dec, fmt_u64, join, join_seq, lines, lines_seq, push_str, str_eq, strip_prefix,
    to_string, trim, trim_seq, views,
};

verus! {

/// A command typed after a `/`.
pub enum SlashCommand {
    Help,
    Clear,
    Compact,
    Model(String),
    Quit,
}

pub enum SlashCommandView {
    Help,
    Clear,
    Compact,
    Model(Seq<char>),
    Quit,
}

impl View for SlashCommand {
    type V = SlashCommandView;

    open spec fn view(&self) -> SlashCommandView {
        match self {
            SlashCommand::Help => SlashCommandView::Help,
            SlashCommand::Clear => SlashCommandView::Clear,
            SlashCommand::Compact => SlashCommandView::Compact,
            SlashCommand::Model(n) => SlashCommandView::Model(n@),
            SlashCommand::Quit => SlashCommandView::Quit,
        }
    }
}

/// What a command answers.
pub enum CommandResult {
    Output(String),
    ReplaceConversation(Conversation),
    Quit,
}

pub enum CommandResultView {
    Output(Seq<char>),
    ReplaceConversation(ConversationView),
    Quit,
}

impl View for CommandResult {
    type V = CommandResultView;

    open spec fn view(&self) -> CommandResultView {
        match self {
            CommandResult::Output(s) => CommandResultView::Output(s@),
            CommandResult::ReplaceConversation(c) => CommandResultView::ReplaceConversation(c@),
            CommandResult::Quit => CommandResultView::Quit,
        }
    }
}

/// The command that `input` names, if any: surrounding whitespace is ignored,
/// and `/model` needs a non-blank name after one space.
pub open spec fn command_of(input: Seq<char>) -> Option<SlashCommandView> {
    let t = trim_seq(input);
    if t == "/help"@ {
        Some(SlashCommandView::Help)
    } else if t == "/clear"@ {
        Some(SlashCommandView::Clear)
    } else if t == "/compact"@ {
        Some(SlashCommandView::Compact)
    } else if t == "/quit"@ || t == "/exit"@ {
        Some(SlashCommandView::Quit)
    } else if "/model "@.is_prefix_of(t) && trim_seq(t.skip(7)).len() > 0 {
        Some(SlashCommandView::Model(trim_seq(t.skip(7))))
    } else {
        None
    }
}

pub open spec fn opt_command_view(c: Option<SlashCommand>) -> Option<SlashCommandView> {
    match c {
        Some(x) => Some(x@),
        None => None,
    }
}

/// Reads a slash command from a line of input.
pub fn parse_command(input: &str) -> (r: Option<SlashCommand>)
    ensures
        opt_command_view(r) == command_of(input@),
{
    let trimmed = trim(input);
    let t = trimmed.as_str();
    if str_eq(t, "/help") {
        return Some(SlashCommand::Help);
    }
    if str_eq(t, "/clear") {
        return Some(SlashCommand::Clear);
    }
    if str_eq(t, "/compact") {
        return Some(SlashCommand::Compact);
    }
    if str_eq(t, "/quit") || str_eq(t, "/exit") {
        return Some(SlashCommand::Quit);
    }
    if let Some(rest) = strip_prefix(t, "/model ") {
        proof {
            reveal_strlit("/model ");
        }
        let name = trim(rest.as_str());
        if !name.as_str().is_empty() {
            return Some(SlashCommand::Model(name));
        }
    }
    proof {
        reveal_strlit("/model ");
    }
    None
}

/// Each command word of the help text names its command, whatever whitespace
/// surrounds it: `/help`, `/clear`, `/compact`, `/quit` and `/exit` (both of
/// which quit), and `/model` followed by a space and a non-blank name, which
/// sets that name. A line that does not start with `/` is no command.
pub proof fn command_words(input: Seq<char>, name: Seq<char>)
    ensures
        trim_seq(input) == "/help"@ ==> command_of(input) == Some(SlashCommandView::Help),
        trim_seq(input) == "/clear"@ ==> command_of(input) == Some(SlashCommandView::Clear),
        trim_seq(input) == "/compact"@ ==> command_of(input) == Some(SlashCommandView::Compact),
        trim_seq(input) == "/quit"@ ==> command_of(input) == Some(SlashCommandView::Quit),
        trim_seq(input) == "/exit"@ ==> command_of(input) == Some(SlashCommandView::Quit),
        trim_seq(input) == "/model "@ + name && trim_seq(name).len() > 0 ==> command_of(input) == Some(
            SlashCommandView::Model(trim_seq(name)),
        ),
        trim_seq(input).len() == 0 || trim_seq(input)[0] != '/' ==> command_of(input) is None,
{
    reveal_strlit("/help");
    reveal_strlit("/clear");
    reveal_strlit("/compact");
    reveal_strlit("/quit");
    reveal_strlit("/exit");
    reveal_strlit("/model ");
    let t = trim_seq(input);
    assert("/quit"@[1] != "/help"@[1]);
    assert("/quit"@ != "/help"@);
    assert("/exit"@[1] != "/help"@[1]);
    assert("/exit"@ != "/help"@);
    assert("/quit"@ != "/clear"@);
    assert("/quit"@ != "/compact"@);
    assert("/exit"@ != "/clear"@);
    assert("/exit"@ != "/compact"@);
    assert("/clear"@ != "/help"@);
    assert("/compact"@ != "/help"@);
    assert("/compact"@.len() != "/clear"@.len());
    if t == "/model "@ + name {
        assert(t[1] == 'm');
        assert(t != "/help"@ && t != "/clear"@ && t != "/compact"@ && t != "/quit"@ && t != "/exit"@);
        assert("/model "@.is_prefix_of(t));
        assert(t.skip(7) =~= name);
    }
    if t.len() == 0 || t[0] != '/' {
        assert(t != "/help"@ && t != "/clear"@ && t != "/compact"@ && t != "/quit"@ && t != "/exit"@);
        if "/model "@.is_prefix_of(t) {
            assert(t[0] == "/model "@[0]);
        }
    }
}

/// The answer to a command.
pub open spec fn command_result(c: SlashCommandView) -> CommandResultView {
    match c {
        SlashCommandView::Help => CommandResultView::Output(help_text()),
        SlashCommandView::Clear => CommandResultView::ReplaceConversation(
            ConversationView { system: None, messages: Seq::empty() },
        ),
        SlashCommandView::Compact => CommandResultView::Output(
            "Compact requires engine integration"@,
        ),
        SlashCommandView::Model(name) => CommandResultView::Output("Model set to: "@ + name),
        SlashCommandView::Quit => CommandResultView::Quit,
    }
}

/// Carries out a command.
pub fn execute_command(command: SlashCommand) -> (r: CommandResult)
    ensures
        r@ == command_result(command@),
{
    match command {
        SlashCommand::Help => handle_help(),
        SlashCommand::Clear => handle_clear(),
        SlashCommand::Compact => handle_compact(),
        SlashCommand::Model(name) => handle_model(name.as_str()),
        SlashCommand::Quit => CommandResult::Quit,
    }
}

/// The lines of the help text.
pub open spec fn help_lines() -> Seq<Seq<char>> {
    seq![
        "Available commands:"@,
        "  /help     - Show this help message"@,
        "  /clear    - Clear conversation history"@,
        "  /compact  - Compact conversation to save context"@,
        "  /model <name> - Switch to a different model"@,
        "  /quit     - Exit the application"@,
        "  /exit     - Exit the application"@,
    ]
}

/// The help text: its lines joined by newlines.
pub open spec fn help_text() -> Seq<char> {
    join_seq(help_lines(), "\n"@)
}

/// `/help`: the list of commands.
pub fn handle_help() -> (r: CommandResult)
    ensures
        r@ == CommandResultView::Output(help_text()),
{
    let mut lines: Vec<String> = Vec::new();
    lines.push(to_string("Available commands:"));
    lines.push(to_string("  /help     - Show this help message"));
    lines.push(to_string("  /clear    - Clear conversation history"));
    lines.push(to_string("  /compact  - Compact conversation to save context"));
    lines.push(to_string("  /model <name> - Switch to a different model"));
    lines.push(to_string("  /quit     - Exit the application"));
    lines.push(to_string("  /exit     - Exit the application"));
    assert(views(lines@) =~= help_lines());
    CommandResult::Output(join(&lines, "\n"))
}

/// `/clear`: an empty conversation replaces the current one.
pub fn handle_clear() -> (r: CommandResult)
    ensures
        r@ == CommandResultView::ReplaceConversation(
            ConversationView { system: None, messages: Seq::empty() },
        ),
{
    CommandResult::ReplaceConversation(Conversation::new())
}

/// `/compact`: not available without the engine.
pub fn handle_compact() -> (r: CommandResult)
    ensures
        r@ == CommandResultView::Output("Compact requires engine integration"@),
{
    CommandResult::Output(to_string("Compact requires engine integration"))
}

/// `/model <name>`: confirms the new model.
pub fn handle_model(name: &str) -> (r: CommandResult)
    ensures
        r@ == CommandResultView::Output("Model set to: "@ + name@),
{
    CommandResult::Output(concat("Model set to: ", name))
}

// ---------------------------------------------------------------------------
// Diagnostics and session listing
// ---------------------------------------------------------------------------

pub open spec fn green() -> Seq<char> {
    "\x1b[32m"@
}

pub open spec fn red() -> Seq<char> {
    "\x1b[31m"@
}

pub open spec fn bold() -> Seq<char> {
    "\x1b[1m"@
}

pub open spec fn dim() -> Seq<char> {
    "\x1b[2m"@
}

pub open spec fn reset() -> Seq<char> {
    "\x1b[0m"@
}

/// One line of the diagnostics report: a green check with the information, or
/// a red cross with the error.
pub open spec fn check_line(name: Seq<char>, result: Result<Seq<char>, Seq<char>>) -> Seq<char> {
    match result {
        Ok(info) => "  "@ + green() + "✓"@ + reset() + " "@ + name + ": "@ + dim() + info + reset()
            + "\n"@,
        Err(err) => "  "@ + red() + "✗"@ + reset() + " "@ + name + ": "@ + dim() + err + reset()
            + "\n"@,
    }
}

/// One line of the diagnostics report.
pub fn format_check(name: &str, result: &Result<String, String>) -> (r: String)
    ensures
        r@ == check_line(
            name@,
            match result {
                Ok(i) => Ok(i@),
                Err(e) => Err(e@),
            },
        ),
{
    let mut r = String::new();
    match result {
        Ok(info) => {
            push_str(&mut r, "  ");
            push_str(&mut r, "\x1b[32m");
            push_str(&mut r, "✓");
            push_str(&mut r, "\x1b[0m");
            push_str(&mut r, " ");
            push_str(&mut r, name);
            push_str(&mut r, ": ");
            push_str(&mut r, "\x1b[2m");
            push_str(&mut r, info.as_str());
            push_str(&mut r, "\x1b[0m");
            push_str(&mut r, "\n");
        },
        Err(err) => {
            push_str(&mut r, "  ");
            push_str(&mut r, "\x1b[31m");
            push_str(&mut r, "✗");
            push_str(&mut r, "\x1b[0m");
            push_str(&mut r, " ");
            push_str(&mut r, name);
            push_str(&mut r, ": ");
            push_str(&mut r, "\x1b[2m");
            push_str(&mut r, err.as_str());
            push_str(&mut r, "\x1b[0m");
            push_str(&mut r, "\n");
        },
    }
    r
}

/// Where sessions are kept: `<home>/.agent-code-rs/sessions`.
pub open spec fn session_dir_of(home: Option<Seq<char>>) -> Seq<char> {
    path_join(path_join(home_or_dot(home), ".agent-code-rs"@), "sessions"@)
}

/// Where sessions are kept, given the home directory if it is known.
pub fn session_directory(home: Option<&str>) -> (r: String)
    ensures
        r@ == session_dir_of(opt_str_view(home)),
{
    let h = home_or_current(home);
    let a = join_path(h.as_str(), ".agent-code-rs");
    join_path(a.as_str(), "sessions")
}

// ---------------------------------------------------------------------------
// Diagnostics
// ---------------------------------------------------------------------------

/// The first line of `s` (`str::lines().next()`), or nothing.
pub open spec fn first_line(s: Seq<char>) -> Seq<char> {
    let ls = lines_seq(s);
    if ls.len() > 0 {
        ls[0]
    } else {
        Seq::empty()
    }
}

/// What checking a program reports: its version line when it ran and
/// succeeded, its error output when it failed, and why it could not run.
pub open spec fn check_outcome(r: Result<(bool, Seq<char>, Seq<char>), Seq<char>>) -> Result<
    Seq<char>,
    Seq<char>,
> {
    match r {
        Ok((success, stdout, stderr)) => if success {
            Ok(first_line(stdout))
        } else {
            Err(stderr)
        },
        Err(e) => Err("not found: "@ + e),
    }
}

pub open spec fn output_view(r: Result<CommandOutput, String>) -> Result<
    (bool, Seq<char>, Seq<char>),
    Seq<char>,
> {
    match r {
        Ok(o) => Ok((o.success, o.stdout@, o.stderr@)),
        Err(e) => Err(e@),
    }
}

pub open spec fn result_view(r: Result<String, String>) -> Result<Seq<char>, Seq<char>> {
    match r {
        Ok(s) => Ok(s@),
        Err(e) => Err(e@),
    }
}

/// What running a program for a check reports.
pub fn check_result(out: &Result<CommandOutput, String>) -> (r: Result<String, String>)
    ensures
        result_view(r) == check_outcome(output_view(*out)),
{
    match out {
        Ok(o) => if o.success {
            let ls = lines(o.stdout.as_str());
            if ls.len() > 0 {
                Ok(ls[0].clone())
            } else {
                Ok(String::new())
            }
        } else {
            Err(o.stderr.clone())
        },
        Err(e) => Err(concat("not found: ", e.as_str())),
    }
}

/// The Keychain query that tells whether an OAuth login is stored.
pub fn keychain_probe_args() -> (r: Vec<String>)
    ensures
        views(r@) == seq!["find-generic-password"@, "-s"@, "agent-code-credentials"@],
{
    let mut r: Vec<String> = Vec::new();
    r.push(to_string("find-generic-password"));
    r.push(to_string("-s"));
    r.push(to_string("agent-code-credentials"));
    assert(views(r@) =~= seq!["find-generic-password"@, "-s"@, "agent-code-credentials"@]);
    r
}

/// The credentials check: an API key in the environment is enough; otherwise
/// the Keychain probe (`None` when it was not run) must have succeeded.
pub open spec fn credential_outcome(api_key_set: bool, probe: Option<Result<Seq<char>, Seq<char>>>) -> Result<
    Seq<char>,
    Seq<char>,
> {
    if api_key_set {
        Ok("API key set via ANTHROPIC_API_KEY"@)
    } else {
        match probe {
            Some(Ok(_)) => Ok("OAuth credential found in keychain"@),
            _ => Err("No ANTHROPIC_API_KEY or OAuth credential found"@),
        }
    }
}

pub fn credential_check(api_key_set: bool, probe: Option<&Result<String, String>>) -> (r: Result<String, String>)
    ensures
        result_view(r) == credential_outcome(
            api_key_set,
            match probe {
                Some(p) => Some(result_view(*p)),
                None => None,
            },
        ),
{
    if api_key_set {
        Ok(to_string("API key set via ANTHROPIC_API_KEY"))
    } else {
        match probe {
            Some(Ok(_)) => Ok(to_string("OAuth credential found in keychain")),
            _ => Err(to_string("No ANTHROPIC_API_KEY or OAuth credential found")),
        }
    }
}

/// The project settings file as the diagnostics look for it: under the
/// working directory, or under the empty path when it is unknown.
pub fn doctor_project_config(cwd: Option<&str>) -> (r: String)
    ensures
        r@ == path_join(
            path_join(
                match cwd {
                    Some(c) => c@,
                    None => Seq::empty(),
                },
                ".agent"@,
            ),
            "settings.json"@,
        ),
{
    proof {
        reveal_strlit("");
    }
    let c = match cwd {
        Some(c) => c,
        None => "",
    };
    let a = join_path(c, ".agent");
    join_path(a.as_str(), "settings.json")
}

/// The line about a configuration file: its path when it exists.
pub open spec fn config_line(label: Seq<char>, path: Seq<char>, exists: bool) -> Seq<char> {
    if exists {
        "  "@ + green() + "✓"@ + reset() + " "@ + label + " config: "@ + dim() + path + reset() + "\n"@
    } else {
        "  "@ + dim() + "○ "@ + label + " config: not found"@ + reset() + "\n"@
    }
}

fn config_line_exec(label: &str, path: &str, exists: bool) -> (r: String)
    ensures
        r@ == config_line(label@, path@, exists),
{
    let mut r = String::new();
    if exists {
        push_str(&mut r, "  ");
        push_str(&mut r, "\x1b[32m");
        push_str(&mut r, "✓");
        push_str(&mut r, "\x1b[0m");
        push_str(&mut r, " ");
        push_str(&mut r, label);
        push_str(&mut r, " config: ");
        push_str(&mut r, "\x1b[2m");
        push_str(&mut r, path);
        push_str(&mut r, "\x1b[0m");
        push_str(&mut r, "\n");
    } else {
        push_str(&mut r, "  ");
        push_str(&mut r, "\x1b[2m");
        push_str(&mut r, "○ ");
        push_str(&mut r, label);
        push_str(&mut r, " config: not found");
        push_str(&mut r, "\x1b[0m");
        push_str(&mut r, "\n");
    }
    assert(r@ =~= config_line(label@, path@, exists));
    r
}

/// The diagnostics report.
pub open spec fn doctor_text(
    git: Result<Seq<char>, Seq<char>>,
    rg: Result<Seq<char>, Seq<char>>,
    cred: Result<Seq<char>, Seq<char>>,
    global: (Seq<char>, bool),
    project: (Seq<char>, bool),
) -> Seq<char> {
    "  "@ + bold() + "Environment Diagnostics"@ + reset() + "\n\n"@ + check_line("git"@, git)
        + check_line("ripgrep (rg)"@, rg) + check_line("credentials"@, cred) + config_line(
        "Global"@,
        global.0,
        global.1,
    ) + config_line("Project"@, project.0, project.1)
}

/// The answer of `/doctor`, from the checks' results and whether each settings
/// file exists.
pub fn handle_doctor(
    git: &Result<String, String>,
    rg: &Result<String, String>,
    cred: &Result<String, String>,
    global: (&str, bool),
    project: (&str, bool),
) -> (r: CommandResult)
    ensures
        r@ == CommandResultView::Output(
            doctor_text(
                result_view(*git),
                result_view(*rg),
                result_view(*cred),
                (global.0@, global.1),
                (project.0@, project.1),
            ),
        ),
{
    let mut out = String::new();
    push_str(&mut out, "  ");
    push_str(&mut out, "\x1b[1m");
    push_str(&mut out, "Environment Diagnostics");
    push_str(&mut out, "\x1b[0m");
    push_str(&mut out, "\n\n");
    let a = format_check("git", git);
    push_str(&mut out, a.as_str());
    let b = format_check("ripgrep (rg)", rg);
    push_str(&mut out, b.as_str());
    let c = format_check("credentials", cred);
    push_str(&mut out, c.as_str());
    let d = config_line_exec("Global", global.0, global.1);
    push_str(&mut out, d.as_str());
    let e = config_line_exec("Project", project.0, project.1);
    push_str(&mut out, e.as_str());
    assert(out@ =~= doctor_text(
        result_view(*git),
        result_view(*rg),
        result_view(*cred),
        (global.0@, global.1),
        (project.0@, project.1),
    ));
    CommandResult::Output(out)
}

// ---------------------------------------------------------------------------
// Sessions
// ---------------------------------------------------------------------------

/// The name of a session file: its stem when its extension is `json`.
pub open spec fn session_name(path: Seq<char>) -> Option<Seq<char>> {
    if extension_of(path) == Some("json"@) {
        Some(
            match file_stem_of(path) {
                Some(s) => s,
                None => Seq::empty(),
            },
        )
    } else {
        None
    }
}

pub fn session_entry(path: &str) -> (r: Option<String>)
    ensures
        match r {
            Some(n) => session_name(path@) == Some(n@),
            None => session_name(path@) is None,
        },
{
    proof {
        reveal_strlit("json");
    }
    match extension(path) {
        Some(e) => if str_eq(e.as_str(), "json") {
            match file_stem(path) {
                Some(s) => Some(s),
                None => Some(String::new()),
            }
        } else {
            None
        },
        None => None,
    }
}

/// At most this many sessions are listed.
pub const LISTED_SESSIONS: usize = 10;

/// The numbered lines of the first names listed.
pub open spec fn session_lines(names: Seq<Seq<char>>) -> Seq<char>
    decreases names.len(),
{
    if names.len() == 0 {
        Seq::empty()
    } else {
        session_lines(names.drop_last()) + "  "@ + dim() + dec(names.len()) + "."@ + reset() + " "@
            + names.last() + "\n"@
    }
}

/// The session list for names in the order shown: nothing found, or a header,
/// the first [`LISTED_SESSIONS`] numbered, and how many more there are.
pub open spec fn session_listing(sorted: Seq<Seq<char>>) -> Seq<char> {
    if sorted.len() == 0 {
        "  "@ + dim() + "No sessions found."@ + reset()
    } else {
        "  "@ + bold() + "Sessions"@ + reset() + "\n\n"@ + session_lines(
            if sorted.len() > LISTED_SESSIONS {
                sorted.take(LISTED_SESSIONS as int)
            } else {
                sorted
            },
        ) + if sorted.len() > LISTED_SESSIONS {
            "  "@ + dim() + "... and "@ + dec((sorted.len() - LISTED_SESSIONS) as nat) + " more"@
                + reset() + "\n"@
        } else {
            Seq::empty()
        }
    }
}

/// `names` in the order `p` gives.
pub open spec fn permuted(names: Seq<Seq<char>>, p: Seq<usize>) -> Seq<Seq<char>> {
    Seq::new(p.len(), |k: int| names[p[k] as int])
}

/// The answer of `/session` without an argument: the sessions, most recently
/// modified first (`modified` holds each one's time).
pub fn list_sessions(names: &Vec<String>, modified: &Vec<u128>) -> (r: CommandResult)
    requires
        names.len() == modified.len(),
    ensures
        exists|p: Seq<usize>|
            is_stable_order(p, modified@, true) && r@ == CommandResultView::Output(
                session_listing(permuted(views(names@), p)),
            ),
{
    let order = stable_order(modified, true);
    let ghost sorted = permuted(views(names@), order@);
    if order.len() == 0 {
        let r = no_sessions();
        assert(sorted.len() == 0);
        return r;
    }
    let mut out = String::new();
    push_str(&mut out, "  ");
    push_str(&mut out, "\x1b[1m");
    push_str(&mut out, "Sessions");
    push_str(&mut out, "\x1b[0m");
    push_str(&mut out, "\n\n");
    let ghost head = out@;
    let n: usize = if order.len() > LISTED_SESSIONS { LISTED_SESSIONS } else { order.len() };
    let mut i: usize = 0;
    while i < n
        invariant
            i <= n <= order.len() == names.len(),
            is_stable_order(order@, modified@, true),
            sorted == permuted(views(names@), order@),
            out@ == head + session_lines(sorted.take(i as int)),
        decreases n - i,
    {
        let num = fmt_u64((i + 1) as u64);
        push_str(&mut out, "  ");
        push_str(&mut out, "\x1b[2m");
        push_str(&mut out, num.as_str());
        push_str(&mut out, ".");
        push_str(&mut out, "\x1b[0m");
        push_str(&mut out, " ");
        push_str(&mut out, names[order[i]].as_str());
        push_str(&mut out, "\n");
        proof {
            assert(sorted.take(i + 1).drop_last() =~= sorted.take(i as int));
            assert(sorted.take(i + 1).last() == names@[order@[i as int] as int]@);
            assert(sorted.take(i + 1).len() == i + 1);
        }
        i = i + 1;
    }
    if order.len() > LISTED_SESSIONS {
        assert(sorted.take(n as int) =~= sorted.take(LISTED_SESSIONS as int));
        let more = fmt_u64((order.len() - LISTED_SESSIONS) as u64);
        push_str(&mut out, "  ");
        push_str(&mut out, "\x1b[2m");
        push_str(&mut out, "... and ");
        push_str(&mut out, more.as_str());
        push_str(&mut out, " more");
        push_str(&mut out, "\x1b[0m");
        push_str(&mut out, "\n");
    } else {
        assert(sorted.take(n as int) =~= sorted);
    }
    assert(out@ =~= session_listing(sorted));
    CommandResult::Output(out)
}

/// The answer of `/session` when the sessions directory cannot be read.
pub fn no_sessions() -> (r: CommandResult)
    ensures
        r@ == CommandResultView::Output("  "@ + dim() + "No sessions found."@ + reset()),
{
    let mut r = String::new();
    push_str(&mut r, "  ");
    push_str(&mut r, "\x1b[2m");
    push_str(&mut r, "No sessions found.");
    push_str(&mut r, "\x1b[0m");
    assert(r@ =~= "  "@ + dim() + "No sessions found."@ + reset());
    CommandResult::Output(r)
}

/// The file of session `arg`: `<dir>/<arg>.json`.
pub fn session_file(dir: &str, arg: &str) -> (r: String)
    ensures
        r@ == path_join(dir@, arg@ + ".json"@),
{
    let f = concat(arg, ".json");
    join_path(dir, f.as_str())
}

/// The answer of `/session <arg>`: the file when it exists.
pub fn session_file_answer(path: &str, exists: bool, arg: &str) -> (r: CommandResult)
    ensures
        exists ==> r@ == CommandResultView::Output(
            "  "@ + dim() + "Session file: "@ + path@ + reset(),
        ),
        !exists ==> r@ == CommandResultView::Output(
            "  "@ + dim() + "Session not found: "@ + arg@ + reset(),
        ),
{
    let mut r = String::new();
    push_str(&mut r, "  ");
    push_str(&mut r, "\x1b[2m");
    if exists {
        push_str(&mut r, "Session file: ");
        push_str(&mut r, path);
    } else {
        push_str(&mut r, "Session not found: ");
        push_str(&mut r, arg);
    }
    push_str(&mut r, "\x1b[0m");
    assert(exists ==> r@ =~= "  "@ + dim() + "Session file: "@ + path@ + reset());
    assert(!exists ==> r@ =~= "  "@ + dim() + "Session not found: "@ + arg@ + reset());
    CommandResult::Output(r)
}

/// Whitespace around a command changes nothing: a trimmed line names the same
/// command as the line.
pub proof fn command_ignores_whitespace(input: Seq<char>)
    ensures
        command_of(trim_seq(input)) == command_of(input),
{
    crate::text::lemma_trim_idempotent(input);
}

} // verus!
