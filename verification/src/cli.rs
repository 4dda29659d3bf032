//! The terminal client's text: the system prompt, what a typed line means,
//! and how the engine's events are shown.
use vstd::prelude::*;

use crate::engine::{EngineEvent, EngineEventView};
use crate::errors::{error_text, AppError};
use crate::text::{
    byte_cut, byte_prefix, concat, is_boundary, lemma_byte_prefix, lines, lines_seq, push_str,
    range_to_string, str_eq, to_chars, to_string, trim, trim_seq, utf8_len, views, ByteCut,
};

verus! {

pub const BLUE: &'static str = "\x1b[34m";
pub const DIM: &'static str = "\x1b[2m";
pub const BOLD: &'static str = "\x1b[1m";
pub const RESET: &'static str = "\x1b[0m";
pub const GREEN: &'static str = "\x1b[32m";
pub const RED: &'static str = "\x1b[31m";
pub const YELLOW: &'static str = "\x1b[33m";

/// The system prompt for a session in directory `cwd`.
pub open spec fn system_prompt(cwd: Seq<char>) -> Seq<char> {
    "You are Agent Code, an interactive CLI assistant. The user's working directory is: "@ + cwd
        + ". You have access to `bash` and `read` tools. Be concise and helpful. Use tools when needed to answer questions."@
}

pub fn make_system_prompt(cwd: &str) -> (r: String)
    ensures
        r@ == system_prompt(cwd@),
{
    let a = concat("You are Agent Code, an interactive CLI assistant. The user's working directory is: ", cwd);
    concat(
        a.as_str(),
        ". You have access to `bash` and `read` tools. Be concise and helpful. Use tools when needed to answer questions.",
    )
}

/// The banner shown at start, the second form mentioning `/help`.
pub fn banner_text(mentions_help: bool) -> (r: String)
    ensures
        r@ == "\x1b[1m\x1b[34m╭─────────────────────────────────╮\x1b[0m\n"@
            + "\x1b[1m\x1b[34m│  Agent Code (Rust)  v0.1.0      │\x1b[0m\n"@
            + "\x1b[1m\x1b[34m╰─────────────────────────────────╯\x1b[0m\n"@ + (if mentions_help {
            "\x1b[2mType a message to chat. /help for commands. Ctrl+C to exit.\x1b[0m\n"@
        } else {
            "\x1b[2mType a message to chat. Ctrl+C to exit.\x1b[0m\n"@
        }) + "\n"@,
{
    let mut r = to_string("\x1b[1m\x1b[34m╭─────────────────────────────────╮\x1b[0m\n");
    push_str(&mut r, "\x1b[1m\x1b[34m│  Agent Code (Rust)  v0.1.0      │\x1b[0m\n");
    push_str(&mut r, "\x1b[1m\x1b[34m╰─────────────────────────────────╯\x1b[0m\n");
    if mentions_help {
        push_str(&mut r, "\x1b[2mType a message to chat. /help for commands. Ctrl+C to exit.\x1b[0m\n");
    } else {
        push_str(&mut r, "\x1b[2mType a message to chat. Ctrl+C to exit.\x1b[0m\n");
    }
    push_str(&mut r, "\n");
    r
}

/// What a line typed at the prompt asks for.
pub enum InputAction {
    /// Nothing was typed; ask again.
    Skip,
    /// End the session.
    Quit,
    /// Send this text.
    Send(String),
}

/// A typed line (without its end of line): blank asks again, `/quit` and
/// `/exit` end the session, anything else is sent trimmed. The end of input
/// (`None`) ends the session.
pub fn input_action(line: Option<&str>) -> (r: InputAction)
    ensures
        match line {
            None => r is Quit,
            Some(l) => {
                let t = trim_seq(l@);
                if t.len() == 0 {
                    r is Skip
                } else if t == "/quit"@ || t == "/exit"@ {
                    r is Quit
                } else {
                    r matches InputAction::Send(s) && s@ == t
                }
            },
        },
{
    match line {
        None => InputAction::Quit,
        Some(l) => {
            let t = trim(l);
            let v = to_chars(t.as_str());
            if v.len() == 0 {
                InputAction::Skip
            } else if str_eq(t.as_str(), "/quit") || str_eq(t.as_str(), "/exit") {
                InputAction::Quit
            } else {
                InputAction::Send(t)
            }
        },
    }
}

/// Whether the answer to the resume question is yes: trimmed, it starts with
/// `y`.
pub fn resume_answer(line: &str) -> (r: bool)
    ensures
        r == (trim_seq(line@).len() > 0 && trim_seq(line@)[0] == 'y'),
{
    let t = trim(line);
    let v = to_chars(t.as_str());
    v.len() > 0 && v[0] == 'y'
}

/// The resume question.
pub fn resume_question() -> (r: &'static str)
    ensures
        r@ == "\x1b[2mPrevious session found. Resume? [y/n]: \x1b[0m"@,
{
    "\x1b[2mPrevious session found. Resume? [y/n]: \x1b[0m"
}

// ---------------------------------------------------------------------------
// Showing the engine's events
// ---------------------------------------------------------------------------

/// At most this many bytes of a tool's output are shown.
pub const PREVIEW_BYTES: usize = 500;

/// At most this many lines of a tool's output are shown.
pub const PREVIEW_LINES: usize = 15;

/// The output can be cut for display: it is short enough, or its first
/// [`PREVIEW_BYTES`] bytes end a character.
pub open spec fn output_fits(o: Seq<char>) -> bool {
    utf8_len(o) <= PREVIEW_BYTES || is_boundary(o, PREVIEW_BYTES as nat)
}

/// The output as previewed: its first [`PREVIEW_BYTES`] bytes and `...` when
/// it is longer.
pub open spec fn output_preview(o: Seq<char>) -> Seq<char> {
    if utf8_len(o) > PREVIEW_BYTES {
        byte_prefix(o, PREVIEW_BYTES as nat) + "..."@
    } else {
        o
    }
}

/// Lines shown with a bar in front.
pub open spec fn barred(ls: Seq<Seq<char>>) -> Seq<char>
    decreases ls.len(),
{
    if ls.len() == 0 {
        Seq::empty()
    } else {
        barred(ls.drop_last()) + "  \x1b[2m| "@ + ls.last() + "\x1b[0m\n"@
    }
}

/// How a tool's successful output is shown: the first [`PREVIEW_LINES`]
/// lines of the preview, and a `...` line when there are more.
pub open spec fn result_lines(o: Seq<char>) -> Seq<char> {
    let ls = lines_seq(output_preview(o));
    let shown = if ls.len() > PREVIEW_LINES {
        ls.take(PREVIEW_LINES as int)
    } else {
        ls
    };
    barred(shown) + if ls.len() > PREVIEW_LINES {
        "  \x1b[2m| ...\x1b[0m\n"@
    } else {
        Seq::empty()
    }
}

/// What an event prints, to standard output and to standard error, and
/// whether text is being streamed afterwards.
pub open spec fn event_output(ev: EngineEventView, in_text: bool) -> (Seq<char>, Seq<char>, bool) {
    match ev {
        EngineEventView::TextDelta(t) => (
            (if in_text {
                Seq::empty()
            } else {
                "\n\x1b[1m"@
            }) + t,
            Seq::empty(),
            true,
        ),
        EngineEventView::ToolStart { name, .. } => (
            (if in_text {
                "\x1b[0m\n"@
            } else {
                Seq::empty()
            }) + "\n  \x1b[2m\x1b[33m[tool: "@ + name + "]\x1b[0m "@,
            Seq::empty(),
            false,
        ),
        EngineEventView::ToolInput { json_chunk } => (
            "\x1b[2m"@ + json_chunk + "\x1b[0m"@,
            Seq::empty(),
            in_text,
        ),
        EngineEventView::ToolResult { name, output, is_error } => (
            "\n"@ + if is_error {
                "  \x1b[31m["@ + name + " error]: "@ + output + "\x1b[0m\n"@
            } else {
                result_lines(output)
            },
            Seq::empty(),
            in_text,
        ),
        EngineEventView::TurnComplete => (
            (if in_text {
                "\x1b[0m"@
            } else {
                Seq::empty()
            }) + "\n\n"@,
            Seq::empty(),
            false,
        ),
        EngineEventView::Error(m) => (
            if in_text {
                "\x1b[0m"@
            } else {
                Seq::empty()
            },
            "\n\x1b[31merror: "@ + m + "\x1b[0m\n\n"@,
            false,
        ),
    }
}

/// An event can be shown: a successful tool output can be cut for display.
pub open spec fn event_fits(ev: EngineEventView) -> bool {
    match ev {
        EngineEventView::ToolResult { output, is_error, .. } => is_error || output_fits(output),
        _ => true,
    }
}

/// What an event prints.
pub struct Shown {
    pub stdout: String,
    pub stderr: String,
    pub in_text: bool,
}

fn result_text(output: &str) -> (r: Option<String>)
    ensures
        match r {
            Some(s) => output_fits(output@) && s@ == result_lines(output@),
            None => !output_fits(output@),
        },
{
    let v = to_chars(output);
    let preview = match byte_cut(&v, PREVIEW_BYTES) {
        ByteCut::Split => return None,
        ByteCut::At(k) => {
            let mut p = range_to_string(&v, 0, k);
            proof {
                lemma_byte_prefix(v@, PREVIEW_BYTES as nat, k as int);
                assert(p@ =~= v@.take(k as int));
            }
            push_str(&mut p, "...");
            p
        },
        ByteCut::Fits => to_string(output),
    };
    let ls = lines(preview.as_str());
    let ghost lv = views(ls@);
    let n: usize = if ls.len() > PREVIEW_LINES { PREVIEW_LINES } else { ls.len() };
    let mut r = String::new();
    let mut i: usize = 0;
    while i < n
        invariant
            i <= n <= ls.len(),
            lv == views(ls@),
            r@ == barred(lv.take(i as int)),
        decreases n - i,
    {
        push_str(&mut r, "  \x1b[2m| ");
        push_str(&mut r, ls[i].as_str());
        push_str(&mut r, "\x1b[0m\n");
        proof {
            assert(lv.take(i + 1).drop_last() =~= lv.take(i as int));
        }
        i = i + 1;
    }
    if ls.len() > PREVIEW_LINES {
        assert(lv.take(n as int) =~= lv.take(PREVIEW_LINES as int));
        push_str(&mut r, "  \x1b[2m| ...\x1b[0m\n");
    } else {
        assert(lv.take(n as int) =~= lv);
    }
    Some(r)
}

/// What an event prints, given whether text is being streamed; `None` where a
/// tool's output would be cut inside a character.
pub fn show_event(ev: &EngineEvent, in_text: bool) -> (r: Option<Shown>)
    ensures
        match r {
            Some(s) => event_fits(ev@) && (s.stdout@, s.stderr@, s.in_text) == event_output(
                ev@,
                in_text,
            ),
            None => !event_fits(ev@),
        },
{
    let mut out = String::new();
    let mut err = String::new();
    match ev {
        EngineEvent::TextDelta(t) => {
            if !in_text {
                push_str(&mut out, "\n\x1b[1m");
            }
            push_str(&mut out, t.as_str());
            Some(Shown { stdout: out, stderr: err, in_text: true })
        },
        EngineEvent::ToolStart { name, .. } => {
            if in_text {
                push_str(&mut out, "\x1b[0m\n");
            }
            push_str(&mut out, "\n  \x1b[2m\x1b[33m[tool: ");
            push_str(&mut out, name.as_str());
            push_str(&mut out, "]\x1b[0m ");
            Some(Shown { stdout: out, stderr: err, in_text: false })
        },
        EngineEvent::ToolInput { json_chunk } => {
            push_str(&mut out, "\x1b[2m");
            push_str(&mut out, json_chunk.as_str());
            push_str(&mut out, "\x1b[0m");
            Some(Shown { stdout: out, stderr: err, in_text })
        },
        EngineEvent::ToolResult { name, output, is_error } => {
            push_str(&mut out, "\n");
            if *is_error {
                push_str(&mut out, "  \x1b[31m[");
                push_str(&mut out, name.as_str());
                push_str(&mut out, " error]: ");
                push_str(&mut out, output.as_str());
                push_str(&mut out, "\x1b[0m\n");
            } else {
                match result_text(output.as_str()) {
                    Some(t) => push_str(&mut out, t.as_str()),
                    None => return None,
                }
            }
            Some(Shown { stdout: out, stderr: err, in_text })
        },
        EngineEvent::TurnComplete => {
            if in_text {
                push_str(&mut out, "\x1b[0m");
            }
            push_str(&mut out, "\n\n");
            Some(Shown { stdout: out, stderr: err, in_text: false })
        },
        EngineEvent::Error(m) => {
            if in_text {
                push_str(&mut out, "\x1b[0m");
            }
            push_str(&mut err, "\n\x1b[31merror: ");
            push_str(&mut err, m.as_str());
            push_str(&mut err, "\x1b[0m\n\n");
            Some(Shown { stdout: out, stderr: err, in_text: false })
        },
    }
}

/// What a failed run prints to standard error.
pub fn run_failure_text(e: &AppError) -> (r: String)
    ensures
        r@ == "\x1b[31merror: "@ + error_text(e@) + "\x1b[0m\n\n"@,
{
    let m = e.message();
    let a = concat("\x1b[31merror: ", m.as_str());
    concat(a.as_str(), "\x1b[0m\n\n")
}

} // verus!
