//! The second engine: its display events and the decisions of the hook runner,
//! which runs the configured shell commands around tool use.
use vstd::prelude::*;

use crate::config::{entries_view, HookEntry, HookEntryView};
use crate::process::CommandOutput;
use crate::text::{concat, contains, contains_seq, fmt_i32, idec, push_str, to_string, trim, trim_seq};

verus! {

/// Events emitted to callers for live display.
pub enum EngineEvent {
    TextDelta(String),
    ToolStart { name: String, id: String },
    ToolInput { json_chunk: String },
    ToolResult { name: String, output: String, is_error: bool },
    TurnComplete,
    Error(String),
}

/// What a hook command did: its exit code and its trimmed standard output.
pub struct Outcome {
    pub exit_code: i32,
    pub stdout: String,
}

pub struct OutcomeView {
    pub exit_code: i32,
    pub stdout: Seq<char>,
}

impl View for Outcome {
    type V = OutcomeView;

    open spec fn view(&self) -> OutcomeView {
        OutcomeView { exit_code: self.exit_code, stdout: self.stdout@ }
    }
}

pub open spec fn outcomes_view(v: Seq<Outcome>) -> Seq<OutcomeView> {
    v.map_values(|o: Outcome| o@)
}

/// The outcome of a hook process: a process that could not run counts as exit
/// code 1 with no output; one killed by a signal as exit code -1.
pub open spec fn outcome_of(r: Result<(Option<i32>, Seq<char>), Seq<char>>) -> OutcomeView {
    match r {
        Ok((code, stdout)) => OutcomeView {
            exit_code: match code {
                Some(c) => c,
                None => -1i32,
            },
            stdout: trim_seq(stdout),
        },
        Err(_) => OutcomeView { exit_code: 1, stdout: Seq::empty() },
    }
}

impl Outcome {
    /// The outcome of a hook process.
    pub fn from_output(r: &Result<CommandOutput, String>) -> (o: Outcome)
        ensures
            o@ == outcome_of(
                match r {
                    Ok(out) => Ok((out.code, out.stdout@)),
                    Err(e) => Err(e@),
                },
            ),
    {
        match r {
            Ok(out) => Outcome {
                exit_code: match out.code {
                    Some(c) => c,
                    None => -1,
                },
                stdout: trim(out.stdout.as_str()),
            },
            Err(_) => Outcome { exit_code: 1, stdout: String::new() },
        }
    }
}

/// Whether a hook applies to a tool: without a matcher, or with an empty one,
/// it applies to all; otherwise the tool's name must contain the matcher.
pub open spec fn hook_applies(e: HookEntryView, tool_name: Seq<char>) -> bool {
    match e.matcher {
        None => true,
        Some(m) => m.len() == 0 || contains_seq(tool_name, m),
    }
}

/// Whether a hook applies to a tool.
pub fn tool_matches(entry: &HookEntry, tool_name: &str) -> (r: bool)
    ensures
        r == hook_applies(entry@, tool_name@),
{
    match &entry.matcher {
        None => true,
        Some(m) => {
            if m.as_str().is_empty() {
                true
            } else {
                contains(tool_name, m.as_str())
            }
        },
    }
}

/// A copy of a hook entry.
pub fn copy_entry(e: &HookEntry) -> (r: HookEntry)
    ensures
        r@ == e@,
{
    HookEntry {
        matcher: match &e.matcher {
            Some(m) => Some(m.clone()),
            None => None,
        },
        command: e.command.clone(),
    }
}

/// The hooks among `entries` that apply to `tool_name`, in order.
pub fn matching_entries(entries: &Vec<HookEntry>, tool_name: &str) -> (r: Vec<HookEntry>)
    ensures
        entries_view(r@) == entries_view(entries@).filter(|e: HookEntryView| hook_applies(e, tool_name@)),
{
    let mut r: Vec<HookEntry> = Vec::new();
    let mut i: usize = 0;
    let ghost f = |e: HookEntryView| hook_applies(e, tool_name@);
    proof {
        assert(entries_view(entries@).take(0).filter(f) =~= Seq::<HookEntryView>::empty());
        assert(entries_view(r@) =~= Seq::<HookEntryView>::empty());
    }
    while i < entries.len()
        invariant
            i <= entries.len(),
            f == (|e: HookEntryView| hook_applies(e, tool_name@)),
            entries_view(r@) == entries_view(entries@).take(i as int).filter(f),
        decreases entries.len() - i,
    {
        let ghost s = entries_view(entries@);
        proof {
            assert(s.take(i + 1).drop_last() =~= s.take(i as int));
            assert(s.take(i + 1).last() == entries@[i as int]@);
            reveal_with_fuel(Seq::filter, 1);
        }
        if tool_matches(&entries[i], tool_name) {
            let c = copy_entry(&entries[i]);
            let ghost before = r@;
            r.push(c);
            proof {
                assert(entries_view(r@) =~= entries_view(before).push(c@));
            }
        }
        i = i + 1;
    }
    proof {
        assert(entries_view(entries@).take(entries@.len() as int) =~= entries_view(entries@));
    }
    r
}

/// The answer of the pre-tool-use hooks.
pub struct PreToolDecision {
    pub blocked: bool,
    pub reason: String,
    pub output: String,
}

pub struct PreToolDecisionView {
    pub blocked: bool,
    pub reason: Seq<char>,
    pub output: Seq<char>,
}

impl View for PreToolDecision {
    type V = PreToolDecisionView;

    open spec fn view(&self) -> PreToolDecisionView {
        PreToolDecisionView { blocked: self.blocked, reason: self.reason@, output: self.output@ }
    }
}

/// The decision one hook's outcome forces, if any: a failing hook blocks the
/// tool (its output, or its exit code, is the reason); a hook that prints
/// something lets the tool run with that output; a silent success decides
/// nothing.
pub open spec fn pre_step(o: OutcomeView) -> Option<PreToolDecisionView> {
    if o.exit_code != 0 {
        Some(
            PreToolDecisionView {
                blocked: true,
                reason: if o.stdout.len() == 0 {
                    "blocked by hook (exit "@ + idec(o.exit_code as int) + ")"@
                } else {
                    o.stdout
                },
                output: Seq::empty(),
            },
        )
    } else if o.stdout.len() > 0 {
        Some(PreToolDecisionView { blocked: false, reason: Seq::empty(), output: o.stdout })
    } else {
        None
    }
}

/// The decision of a run of hooks: the first hook that decides, else the tool
/// runs with no output.
pub open spec fn pre_decision(os: Seq<OutcomeView>) -> PreToolDecisionView
    decreases os.len(),
{
    if os.len() == 0 {
        PreToolDecisionView { blocked: false, reason: Seq::empty(), output: Seq::empty() }
    } else {
        match pre_step(os[0]) {
            Some(d) => d,
            None => pre_decision(os.drop_first()),
        }
    }
}

/// The decision one hook's outcome forces, if any.
pub fn pre_tool_step(o: Outcome) -> (r: Option<PreToolDecision>)
    ensures
        match r {
            Some(d) => pre_step(o@) == Some(d@),
            None => pre_step(o@) is None,
        },
{
    if o.exit_code != 0 {
        let reason = if o.stdout.as_str().is_empty() {
            let mut t = to_string("blocked by hook (exit ");
            let c = fmt_i32(o.exit_code);
            push_str(&mut t, c.as_str());
            push_str(&mut t, ")");
            t
        } else {
            o.stdout
        };
        Some(PreToolDecision { blocked: true, reason, output: String::new() })
    } else if !o.stdout.as_str().is_empty() {
        Some(PreToolDecision { blocked: false, reason: String::new(), output: o.stdout })
    } else {
        None
    }
}

/// The decision when no hook decided: the tool runs, with no output.
pub fn pre_tool_default() -> (d: PreToolDecision)
    ensures
        d@ == pre_decision(Seq::empty()),
{
    PreToolDecision { blocked: false, reason: String::new(), output: String::new() }
}

/// A hook's output joined to those before it: blank outputs are skipped and
/// the others are separated by newlines.
pub open spec fn out_step(acc: Seq<char>, s: Seq<char>) -> Seq<char> {
    if s.len() == 0 {
        acc
    } else if acc.len() == 0 {
        s
    } else {
        acc + "\n"@ + s
    }
}

pub open spec fn collected(os: Seq<OutcomeView>) -> Seq<char>
    decreases os.len(),
{
    if os.len() == 0 {
        Seq::empty()
    } else {
        out_step(collected(os.drop_last()), os.last().stdout)
    }
}

/// Adds one hook's output to the text collected so far.
pub fn append_hook_output(out: &mut String, stdout: &str)
    ensures
        final(out)@ == out_step(old(out)@, stdout@),
{
    proof {
        reveal_strlit("\n");
    }
    if !stdout.is_empty() {
        if !out.as_str().is_empty() {
            out.push('\n');
        }
        push_str(out, stdout);
    }
}

/// The text collected from the post-tool-use, stop or session-start hooks.
pub fn collect_outputs(outcomes: &Vec<Outcome>) -> (r: String)
    ensures
        r@ == collected(outcomes_view(outcomes@)),
{
    let mut out = String::new();
    let mut i: usize = 0;
    proof {
        assert(outcomes_view(outcomes@).take(0) =~= Seq::<OutcomeView>::empty());
    }
    while i < outcomes.len()
        invariant
            i <= outcomes.len(),
            out@ == collected(outcomes_view(outcomes@).take(i as int)),
        decreases outcomes.len() - i,
    {
        proof {
            let s = outcomes_view(outcomes@);
            assert(s.take(i + 1).drop_last() =~= s.take(i as int));
            assert(s.take(i + 1).last() == outcomes@[i as int]@);
        }
        append_hook_output(&mut out, outcomes[i].stdout.as_str());
        i = i + 1;
    }
    proof {
        assert(outcomes_view(outcomes@).take(outcomes@.len() as int) =~= outcomes_view(outcomes@));
    }
    out
}

/// The environment of a tool hook: the tool's name, its input and, after the
/// tool ran, its output.
pub fn hook_env(tool_name: &str, input_json: &str, tool_output: Option<&str>) -> (r: Vec<
    (String, String),
>)
    ensures
        r@.len() == if tool_output is Some {
            3nat
        } else {
            2nat
        },
        r@[0].0@ == "CLAUDE_TOOL_NAME"@ && r@[0].1@ == tool_name@,
        r@[1].0@ == "CLAUDE_TOOL_INPUT"@ && r@[1].1@ == input_json@,
        tool_output matches Some(o) ==> r@[2].0@ == "CLAUDE_TOOL_OUTPUT"@ && r@[2].1@ == o@,
{
    let mut r: Vec<(String, String)> = Vec::new();
    r.push((to_string("CLAUDE_TOOL_NAME"), to_string(tool_name)));
    r.push((to_string("CLAUDE_TOOL_INPUT"), to_string(input_json)));
    if let Some(o) = tool_output {
        r.push((to_string("CLAUDE_TOOL_OUTPUT"), to_string(o)));
    }
    r
}

} // verus!
