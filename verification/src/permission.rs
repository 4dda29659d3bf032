//! Asking the user before a dangerous tool runs: the prompt's text, its
//! layout on the terminal, the keys that answer it and the tools allowed for
//! the rest of a session.
use vstd::prelude::*;

use crate::engine::PermissionDecision;
use crate::json::{json_text, json_to_string, Json, JsonView};
use crate::text::{
    byte_cut, byte_prefix, char_utf8_width, concat, dec, fmt_u64, is_boundary, lemma_byte_prefix,
    lowercase, push_str, range_to_string, str_eq, to_chars, to_lowercase, to_string, trim,
    trim_seq, trim_start, trim_start_seq, utf8_len, utf8_width, views, ByteCut,
};

verus! {

// ---------------------------------------------------------------------------
// The question
// ---------------------------------------------------------------------------

/// At most this many bytes of a tool's input are shown.
pub const PREVIEW_LIMIT: usize = 200;

/// The input's text can be shown: it is short enough, or its first
/// [`PREVIEW_LIMIT`] bytes end a character.
pub open spec fn preview_fits(t: Seq<char>) -> bool {
    utf8_len(t) <= PREVIEW_LIMIT || is_boundary(t, PREVIEW_LIMIT as nat)
}

/// The input as shown: its first [`PREVIEW_LIMIT`] bytes and `...` when it is
/// longer.
pub open spec fn preview(t: Seq<char>) -> Seq<char> {
    if utf8_len(t) > PREVIEW_LIMIT {
        byte_prefix(t, PREVIEW_LIMIT as nat) + "..."@
    } else {
        t
    }
}

/// The question asked before tool `tool_name` runs on an input whose JSON text
/// is `input_text`.
pub open spec fn prompt_of(tool_name: Seq<char>, input_text: Seq<char>) -> Seq<char> {
    "[permission] Tool \""@ + tool_name + "\" wants to run: "@ + preview(input_text)
        + " Allow? [y/n] "@
}

/// The question for an input already written as JSON text.
pub fn prompt_text(tool_name: &str, input_text: &str) -> (r: String)
    requires
        preview_fits(input_text@),
    ensures
        r@ == prompt_of(tool_name@, input_text@),
{
    let v = to_chars(input_text);
    let shown = match byte_cut(&v, PREVIEW_LIMIT) {
        ByteCut::At(k) => {
            let mut p = range_to_string(&v, 0, k);
            proof {
                lemma_byte_prefix(v@, PREVIEW_LIMIT as nat, k as int);
                assert(p@ =~= v@.take(k as int));
            }
            push_str(&mut p, "...");
            p
        },
        _ => to_string(input_text),
    };
    let a = concat("[permission] Tool \"", tool_name);
    let b = concat(a.as_str(), "\" wants to run: ");
    let c = concat(b.as_str(), shown.as_str());
    concat(c.as_str(), " Allow? [y/n] ")
}

/// The question asked before tool `tool_name` runs on `input`; `None` where the
/// first [`PREVIEW_LIMIT`] bytes of the input's JSON text would end inside a
/// character.
pub fn format_permission_prompt(tool_name: &str, input: &Json) -> (r: Option<String>)
    ensures
        match r {
            Some(p) => preview_fits(json_text(input@)) && p@ == prompt_of(
                tool_name@,
                json_text(input@),
            ),
            None => !preview_fits(json_text(input@)),
        },
{
    let t = json_to_string(input);
    let v = to_chars(t.as_str());
    match byte_cut(&v, PREVIEW_LIMIT) {
        ByteCut::Split => None,
        _ => Some(prompt_text(tool_name, t.as_str())),
    }
}

/// A typed answer allows the tool when, trimmed and lower-cased, it starts
/// with `y`.
pub open spec fn answer_allows(answer: Seq<char>) -> bool {
    let a = lowercase(trim_seq(answer));
    a.len() > 0 && a[0] == 'y'
}

/// The decision for a typed answer to the question about `tool_name`.
pub fn decide_answer(tool_name: &str, answer: &str) -> (r: PermissionDecision)
    ensures
        answer_allows(answer@) ==> r is Allow,
        !answer_allows(answer@) ==> (r matches PermissionDecision::Deny(m) && m@
            == "user denied permission for tool \""@ + tool_name@ + "\""@),
{
    let t = trim(answer);
    let l = to_lowercase(t.as_str());
    let v = to_chars(l.as_str());
    if v.len() > 0 && v[0] == 'y' {
        PermissionDecision::Allow
    } else {
        let a = concat("user denied permission for tool \"", tool_name);
        PermissionDecision::Deny(concat(a.as_str(), "\""))
    }
}

// ---------------------------------------------------------------------------
// Tools allowed for the session
// ---------------------------------------------------------------------------

/// The tools the user allowed for the rest of the session.
pub struct SessionAllowList {
    names: Vec<String>,
}

/// No name occurs twice.
pub open spec fn distinct(s: Seq<Seq<char>>) -> bool {
    forall|i: int, j: int| 0 <= i < j < s.len() ==> #[trigger] s[i] != #[trigger] s[j]
}

impl View for SessionAllowList {
    type V = Set<Seq<char>>;

    closed spec fn view(&self) -> Set<Seq<char>> {
        views(self.names@).to_set()
    }
}

impl SessionAllowList {
    #[verifier::type_invariant]
    spec fn wf(&self) -> bool {
        distinct(views(self.names@))
    }

    /// Nothing allowed yet.
    pub fn new() -> (r: SessionAllowList)
        ensures
            r@ == Set::<Seq<char>>::empty(),
    {
        let r = SessionAllowList { names: Vec::new() };
        assert(views(r.names@) =~= Seq::<Seq<char>>::empty());
        assert(views(r.names@).to_set() =~= Set::<Seq<char>>::empty());
        r
    }

    /// Whether `name` was allowed.
    pub fn contains(&self, name: &str) -> (r: bool)
        ensures
            r == self@.contains(name@),
    {
        let mut i: usize = 0;
        while i < self.names.len()
            invariant
                i <= self.names.len(),
                forall|k: int| 0 <= k < i ==> #[trigger] self.names@[k]@ != name@,
            decreases self.names.len() - i,
        {
            if str_eq(self.names[i].as_str(), name) {
                assert(views(self.names@)[i as int] == name@);
                return true;
            }
            i = i + 1;
        }
        proof {
            if views(self.names@).contains(name@) {
                let k = choose|k: int| 0 <= k < views(self.names@).len() && views(self.names@)[k] == name@;
                assert(self.names@[k]@ == name@);
            }
        }
        false
    }

    /// Allows `name` for the rest of the session.
    pub fn insert(&mut self, name: &str)
        ensures
            final(self)@ == old(self)@.insert(name@),
    {
        proof {
            use_type_invariant(&*self);
        }
        if self.contains(name) {
            assert(old(self)@.insert(name@) =~= old(self)@);
            return;
        }
        let ghost before = views(self.names@);
        let mut names = Vec::new();
        std::mem::swap(&mut names, &mut self.names);
        names.push(to_string(name));
        proof {
            assert(views(names@) =~= before.push(name@));
            assert forall|i: int, j: int| 0 <= i < j < views(names@).len() implies #[trigger] views(
                names@,
            )[i] != #[trigger] views(names@)[j] by {
                if j == before.len() {
                    assert(!before.contains(name@));
                    assert(before[i] == views(names@)[i]);
                }
            }
            before.lemma_push_to_set_commute(name@);
            assert(views(names@).to_set() =~= before.to_set().insert(name@));
        }
        self.names = names;
    }
}

// ---------------------------------------------------------------------------
// The prompt on the terminal
// ---------------------------------------------------------------------------

/// How the user answered.
#[derive(Clone, Copy, PartialEq, Eq, Structural)]
pub enum SelectResult {
    AllowOnce,
    AllowAlways,
    Deny,
}

/// The number of choices offered.
pub const OPTION_COUNT: usize = 3;

/// The choices offered, in order: allow once, allow for the session, deny.
pub open spec fn option_labels(tool_name: Seq<char>) -> Seq<Seq<char>> {
    seq!["Yes"@, "Yes, and don't ask again for "@ + tool_name, "No"@]
}

/// What choosing option `i` means.
pub open spec fn option_result(i: int) -> SelectResult {
    if i == 0 {
        SelectResult::AllowOnce
    } else if i == 1 {
        SelectResult::AllowAlways
    } else {
        SelectResult::Deny
    }
}

/// The width of the prompt for a terminal `columns` wide (80 when unknown):
/// four columns less, but at least 24.
pub open spec fn prompt_width(columns: Option<u16>) -> int {
    let w: int = match columns {
        Some(c) => c as int,
        None => 80,
    };
    if w - 4 >= 24 {
        w - 4
    } else {
        24
    }
}

pub fn width_for(columns: Option<u16>) -> (r: usize)
    ensures
        r == prompt_width(columns),
{
    let w: usize = match columns {
        Some(c) => c as usize,
        None => 80,
    };
    if w >= 28 {
        w - 4
    } else {
        24
    }
}

/// The last position of `c` in `h`.
pub open spec fn last_index_of(h: Seq<char>, c: char) -> Option<int>
    decreases h.len(),
{
    if h.len() == 0 {
        None
    } else if h.last() == c {
        Some(h.len() - 1)
    } else {
        last_index_of(h.drop_last(), c)
    }
}

fn last_space(v: &Vec<char>, k: usize) -> (r: Option<usize>)
    requires
        k <= v.len(),
    ensures
        match r {
            Some(i) => last_index_of(v@.take(k as int), ' ') == Some(i as int),
            None => last_index_of(v@.take(k as int), ' ') is None,
        },
{
    let mut j: usize = k;
    while j > 0
        invariant
            j <= k <= v.len(),
            last_index_of(v@.take(k as int), ' ') == last_index_of(v@.take(j as int), ' '),
        decreases j,
    {
        assert(v@.take(j as int).drop_last() =~= v@.take(j - 1));
        if v[j - 1] == ' ' {
            return Some(j - 1);
        }
        j = j - 1;
    }
    None
}

/// The detail text broken into lines of at most `inner` bytes, at the last
/// space before the limit where there is one; each following line starts
/// after the whitespace at the break. `None` where a limit falls inside a
/// character.
pub open spec fn wrap_lines(s: Seq<char>, inner: nat) -> Option<Seq<Seq<char>>>
    decreases s.len(),
{
    if utf8_len(s) <= inner {
        if s.len() == 0 {
            Some(Seq::empty())
        } else {
            Some(seq![s])
        }
    } else if !is_boundary(s, inner) {
        None
    } else {
        let head = byte_prefix(s, inner);
        let b = match last_index_of(head, ' ') {
            Some(i) => i,
            None => head.len() as int,
        };
        let rest = trim_start_seq(s.skip(b));
        if rest.len() < s.len() {
            match wrap_lines(rest, inner) {
                Some(t) => Some(seq![head.take(b)] + t),
                None => None,
            }
        } else {
            None
        }
    }
}

/// The lines of the detail as shown: one empty line when there is no text.
pub open spec fn detail_lines(s: Seq<char>, inner: nat) -> Option<Seq<Seq<char>>> {
    match wrap_lines(s, inner) {
        Some(ls) => Some(
            if ls.len() == 0 {
                seq![Seq::empty()]
            } else {
                ls
            },
        ),
        None => None,
    }
}

pub open spec fn prepend(p: Seq<Seq<char>>, o: Option<Seq<Seq<char>>>) -> Option<Seq<Seq<char>>> {
    match o {
        Some(t) => Some(p + t),
        None => None,
    }
}

proof fn lemma_last_index_bound(h: Seq<char>, c: char)
    ensures
        last_index_of(h, c) matches Some(i) ==> 0 <= i < h.len() && h[i] == c,
    decreases h.len(),
{
    if h.len() > 0 && h.last() != c {
        lemma_last_index_bound(h.drop_last(), c);
    }
}

/// Every line of a wrapped detail fits in the prompt's width.
pub proof fn wrapped_lines_fit(s: Seq<char>, inner: nat)
    requires
        wrap_lines(s, inner) is Some,
    ensures
        forall|i: int|
            0 <= i < wrap_lines(s, inner)->0.len() ==> utf8_len(#[trigger] wrap_lines(s, inner)->0[i])
                <= inner,
    decreases s.len(),
{
    if utf8_len(s) <= inner {
    } else {
        let head = byte_prefix(s, inner);
        let k = choose|k: int| 0 <= k <= s.len() && #[trigger] utf8_len(s.take(k)) == inner;
        lemma_byte_prefix(s, inner, k);
        lemma_last_index_bound(head, ' ');
        let b = match last_index_of(head, ' ') {
            Some(i) => i,
            None => head.len() as int,
        };
        let rest = trim_start_seq(s.skip(b));
        assert(head.take(b) =~= s.take(b));
        if b < k {
            crate::text::lemma_utf8_take_strict(s, b, k);
        }
        wrapped_lines_fit(rest, inner);
        let t = wrap_lines(rest, inner)->0;
        let all = seq![head.take(b)] + t;
        assert forall|i: int| 0 <= i < all.len() implies utf8_len(#[trigger] all[i]) <= inner by {
            if i > 0 {
                assert(all[i] == t[i - 1]);
            }
        }
    }
}

/// Breaks the detail into the lines shown in a prompt `inner` bytes wide.
pub fn wrap_detail(detail: &str, inner: usize) -> (r: Option<Vec<String>>)
    requires
        inner > 0,
    ensures
        match r {
            Some(ls) => detail_lines(detail@, inner as nat) == Some(views(ls@)),
            None => detail_lines(detail@, inner as nat) is None,
        },
{
    let mut cur = to_chars(detail);
    let mut out: Vec<String> = Vec::new();
    assert(views(out@) =~= Seq::<Seq<char>>::empty());
    assert(prepend(views(out@), wrap_lines(cur@, inner as nat)) =~= wrap_lines(detail@, inner as nat));
    loop
        invariant_except_break
            inner > 0,
            prepend(views(out@), wrap_lines(cur@, inner as nat)) == wrap_lines(detail@, inner as nat),
        ensures
            wrap_lines(detail@, inner as nat) == Some(views(out@)),
        decreases cur@.len(),
    {
        match byte_cut(&cur, inner) {
            ByteCut::Fits => {
                if cur.len() > 0 {
                    let ghost before = views(out@);
                    out.push(range_to_string(&cur, 0, cur.len()));
                    assert(cur@.subrange(0, cur@.len() as int) =~= cur@);
                    assert(views(out@) =~= before + seq![cur@]);
                } else {
                    assert(views(out@) + Seq::<Seq<char>>::empty() =~= views(out@));
                }
                break ;
            },
            ByteCut::Split => {
                return None;
            },
            ByteCut::At(k) => {
                proof {
                    lemma_byte_prefix(cur@, inner as nat, k as int);
                    lemma_last_index_bound(cur@.take(k as int), ' ');
                    if k == 0 {
                        assert(cur@.take(0) =~= Seq::<char>::empty());
                    }
                }
                let b: usize = match last_space(&cur, k) {
                    Some(i) => i,
                    None => k,
                };
                let head = range_to_string(&cur, 0, b);
                let tail = range_to_string(&cur, b, cur.len());
                let rest = trim_start(tail.as_str());
                let ghost s = cur@;
                proof {
                    assert(head@ =~= s.take(k as int).take(b as int));
                    assert(tail@ =~= s.skip(b as int));
                    crate::text::lemma_trim_start_len(tail@);
                    if b == 0 {
                        assert(s.take(k as int)[0] == ' ');
                        assert(s[0] == ' ');
                        crate::text::lemma_trim_start_drops_space(tail@);
                    }
                }
                let ghost before = views(out@);
                out.push(head);
                cur = to_chars(rest.as_str());
                proof {
                    assert(views(out@) =~= before + seq![s.take(k as int).take(b as int)]);
                    match wrap_lines(cur@, inner as nat) {
                        Some(t) => {
                            assert(before + (seq![s.take(k as int).take(b as int)] + t) =~= views(
                                out@,
                            ) + t);
                        },
                        None => {},
                    }
                }
            },
        }
    }
    if out.len() == 0 {
        out.push(String::new());
        assert(views(out@) =~= seq![Seq::<char>::empty()]);
    }
    Some(out)
}

/// `s` written `n` times.
pub open spec fn repeat_seq(s: Seq<char>, n: nat) -> Seq<char>
    decreases n,
{
    if n == 0 {
        Seq::empty()
    } else {
        repeat_seq(s, (n - 1) as nat) + s
    }
}

fn repeat(s: &str, n: usize) -> (r: String)
    ensures
        r@ == repeat_seq(s@, n as nat),
{
    let mut r = String::new();
    let mut i: usize = 0;
    while i < n
        invariant
            i <= n,
            r@ == repeat_seq(s@, i as nat),
        decreases n - i,
    {
        push_str(&mut r, s);
        i = i + 1;
    }
    r
}

/// The start of the title rule: `─── <title> `.
pub open spec fn title_prefix(title: Seq<char>) -> Seq<char> {
    "─── "@ + title + " "@
}

/// How many `─` complete the title rule to `inner` bytes (none when the
/// title is already that wide).
pub open spec fn title_fill(title: Seq<char>, inner: nat) -> nat {
    let w = utf8_len(title_prefix(title));
    if w < inner {
        (inner - w) as nat
    } else {
        0
    }
}

/// The detail lines, dimmed.
pub open spec fn render_details(ls: Seq<Seq<char>>) -> Seq<char>
    decreases ls.len(),
{
    if ls.len() == 0 {
        Seq::empty()
    } else {
        render_details(ls.drop_last()) + "  \x1b[2m"@ + ls.last() + "\x1b[0m\r\n"@
    }
}

/// One choice: the selected one marked and bold, the others dimmed.
pub open spec fn render_option(label: Seq<char>, selected: bool) -> Seq<char> {
    if selected {
        "  \x1b[33m\x1b[1m❯\x1b[0m \x1b[1m"@ + label + "\x1b[0m\r\n"@
    } else {
        "    \x1b[2m"@ + label + "\x1b[0m\r\n"@
    }
}

/// The first `n` choices.
pub open spec fn render_options(labels: Seq<Seq<char>>, n: int, sel: int) -> Seq<char>
    decreases n,
{
    if n <= 0 {
        Seq::empty()
    } else {
        render_options(labels, n - 1, sel) + render_option(labels[n - 1], n - 1 == sel)
    }
}

/// What the prompt draws: a blank line, the title rule, the detail lines, a
/// rule, a blank line and the choices (each line ending in `\r\n`, as the
/// terminal is in raw mode).
pub open spec fn render(
    title: Seq<char>,
    details: Seq<Seq<char>>,
    tool_name: Seq<char>,
    inner: nat,
    sel: int,
) -> Seq<char> {
    "\r\n  \x1b[33m\x1b[1m"@ + title_prefix(title) + repeat_seq("─"@, title_fill(title, inner))
        + "\x1b[0m\r\n"@ + render_details(details) + "  \x1b[2m"@ + repeat_seq("─"@, inner)
        + "\x1b[0m\r\n"@ + "\r\n"@ + render_options(option_labels(tool_name), 3, sel)
}

fn utf8_len_capped(v: &Vec<char>, cap: usize) -> (r: Option<usize>)
    ensures
        match r {
            Some(n) => n == utf8_len(v@) && n <= cap,
            None => utf8_len(v@) > cap,
        },
{
    match byte_cut(v, cap) {
        ByteCut::Fits => {
            let mut i: usize = 0;
            let mut acc: usize = 0;
            assert(v@.take(0) =~= Seq::<char>::empty());
            while i < v.len()
                invariant
                    i <= v.len(),
                    acc == utf8_len(v@.take(i as int)),
                    utf8_len(v@) <= cap,
                decreases v.len() - i,
            {
                proof {
                    crate::text::lemma_utf8_take_step(v@, i as int);
                    crate::text::lemma_utf8_take_all(v@);
                    if i + 1 < v.len() {
                        crate::text::lemma_utf8_take_strict(v@, i + 1, v.len() as int);
                    }
                }
                acc = acc + char_utf8_width(v[i]);
                i = i + 1;
            }
            proof {
                crate::text::lemma_utf8_take_all(v@);
            }
            Some(acc)
        },
        _ => None,
    }
}

fn fill_count(title: &str, inner: usize) -> (r: usize)
    ensures
        r == title_fill(title@, inner as nat),
{
    let p = concat("─── ", title);
    let p = concat(p.as_str(), " ");
    let v = to_chars(p.as_str());
    match utf8_len_capped(&v, inner) {
        Some(w) => inner - w,
        None => 0,
    }
}

/// The labels of the choices.
pub fn labels(tool_name: &str) -> (r: Vec<String>)
    ensures
        views(r@) == option_labels(tool_name@),
{
    let mut r: Vec<String> = Vec::new();
    r.push(to_string("Yes"));
    r.push(concat("Yes, and don't ask again for ", tool_name));
    r.push(to_string("No"));
    assert(views(r@) =~= option_labels(tool_name@));
    r
}

/// What the prompt draws, with choice `sel` selected.
pub fn render_prompt(
    title: &str,
    details: &Vec<String>,
    tool_name: &str,
    inner: usize,
    sel: usize,
) -> (r: String)
    ensures
        r@ == render(title@, views(details@), tool_name@, inner as nat, sel as int),
{
    let mut out = String::new();
    push_str(&mut out, "\r\n  \x1b[33m\x1b[1m");
    push_str(&mut out, "─── ");
    push_str(&mut out, title);
    push_str(&mut out, " ");
    let fill = repeat("─", fill_count(title, inner));
    push_str(&mut out, fill.as_str());
    push_str(&mut out, "\x1b[0m\r\n");
    let ghost head = out@;
    let mut i: usize = 0;
    while i < details.len()
        invariant
            i <= details.len(),
            out@ == head + render_details(views(details@).take(i as int)),
        decreases details.len() - i,
    {
        push_str(&mut out, "  \x1b[2m");
        push_str(&mut out, details[i].as_str());
        push_str(&mut out, "\x1b[0m\r\n");
        proof {
            assert(views(details@).take(i + 1).drop_last() =~= views(details@).take(i as int));
        }
        i = i + 1;
    }
    assert(views(details@).take(details.len() as int) =~= views(details@));
    push_str(&mut out, "  \x1b[2m");
    let rule = repeat("─", inner);
    push_str(&mut out, rule.as_str());
    push_str(&mut out, "\x1b[0m\r\n");
    push_str(&mut out, "\r\n");
    let ghost mid = out@;
    let ls = labels(tool_name);
    assert(views(ls@).len() == 3);
    let mut j: usize = 0;
    while j < ls.len()
        invariant
            j <= ls.len() == 3,
            views(ls@) == option_labels(tool_name@),
            out@ == mid + render_options(option_labels(tool_name@), j as int, sel as int),
        decreases ls.len() - j,
    {
        if j == sel {
            push_str(&mut out, "  \x1b[33m\x1b[1m❯\x1b[0m \x1b[1m");
        } else {
            push_str(&mut out, "    \x1b[2m");
        }
        push_str(&mut out, ls[j].as_str());
        push_str(&mut out, "\x1b[0m\r\n");
        assert(views(ls@)[j as int] == ls@[j as int]@);
        j = j + 1;
    }
    assert(out@ =~= render(title@, views(details@), tool_name@, inner as nat, sel as int));
    out
}

/// The number of terminal lines the prompt takes, as the terminal counts it
/// (a 16-bit count).
pub open spec fn drawn_lines(detail_count: nat) -> nat {
    (4 + detail_count + 3) % 65536
}

/// Moves the cursor back over the prompt and clears the screen below it.
pub fn clear_sequence(detail_count: usize) -> (r: String)
    ensures
        r@ == "\x1b["@ + dec(drawn_lines(detail_count as nat)) + "A\r\x1b[J"@,
{
    let n: u64 = ((detail_count % 65536) as u64 + 7) % 65536;
    assert(n == drawn_lines(detail_count as nat)) by (nonlinear_arith)
        requires
            n == ((detail_count % 65536) + 7) % 65536,
    {
    }
    let t = fmt_u64(n);
    let a = concat("\x1b[", t.as_str());
    concat(a.as_str(), "A\r\x1b[J")
}

/// A key press, as far as the prompt tells keys apart.
pub enum Key {
    Up,
    Down,
    Enter,
    Esc,
    /// A character typed without modifiers.
    Plain(char),
    /// A character typed with Control alone.
    Ctrl(char),
    Other,
}

/// What a key press does to the prompt.
pub enum SelectStep {
    /// The selection moves to this choice; the prompt is drawn again.
    Move(usize),
    /// The user answered.
    Done(SelectResult),
    /// The user pressed Control-C.
    Interrupt,
    /// Nothing happens.
    Ignore,
}

/// The prompt's answer to a key press with choice `sel` selected: the arrows
/// move the selection round the three choices, Enter takes the selected one,
/// `y`, `a` and `n` (either case) or Escape answer directly.
pub open spec fn select_step_spec(sel: usize, key: Key) -> SelectStep {
    match key {
        Key::Up => SelectStep::Move(if sel == 0 { 2 } else { (sel - 1) as usize }),
        Key::Down => SelectStep::Move(((sel + 1) % 3) as usize),
        Key::Enter => SelectStep::Done(option_result(sel as int)),
        Key::Esc => SelectStep::Done(SelectResult::Deny),
        Key::Plain(c) => if c == 'y' || c == 'Y' {
            SelectStep::Done(SelectResult::AllowOnce)
        } else if c == 'a' || c == 'A' {
            SelectStep::Done(SelectResult::AllowAlways)
        } else if c == 'n' || c == 'N' {
            SelectStep::Done(SelectResult::Deny)
        } else {
            SelectStep::Ignore
        },
        Key::Ctrl(c) => if c == 'c' {
            SelectStep::Interrupt
        } else {
            SelectStep::Ignore
        },
        Key::Other => SelectStep::Ignore,
    }
}

pub fn select_step(sel: usize, key: Key) -> (r: SelectStep)
    requires
        sel < OPTION_COUNT,
    ensures
        r == select_step_spec(sel, key),
        key == Key::Enter ==> r == SelectStep::Done(option_result(sel as int)),
{
    match key {
        Key::Up => SelectStep::Move(if sel == 0 { 2 } else { sel - 1 }),
        Key::Down => SelectStep::Move((sel + 1) % 3),
        Key::Enter => SelectStep::Done(
            if sel == 0 {
                SelectResult::AllowOnce
            } else if sel == 1 {
                SelectResult::AllowAlways
            } else {
                SelectResult::Deny
            },
        ),
        Key::Esc => SelectStep::Done(SelectResult::Deny),
        Key::Plain(c) => if c == 'y' || c == 'Y' {
            SelectStep::Done(SelectResult::AllowOnce)
        } else if c == 'a' || c == 'A' {
            SelectStep::Done(SelectResult::AllowAlways)
        } else if c == 'n' || c == 'N' {
            SelectStep::Done(SelectResult::Deny)
        } else {
            SelectStep::Ignore
        },
        Key::Ctrl(c) => if c == 'c' {
            SelectStep::Interrupt
        } else {
            SelectStep::Ignore
        },
        Key::Other => SelectStep::Ignore,
    }
}

/// The selection stays on one of the three choices, and moving up then down
/// (or down then up) comes back to where it was.
pub proof fn selection_laws(sel: usize)
    requires
        sel < OPTION_COUNT,
    ensures
        select_step_spec(sel, Key::Up) matches SelectStep::Move(u) && u < 3
            && select_step_spec(u, Key::Down) == SelectStep::Move(sel),
        select_step_spec(sel, Key::Down) matches SelectStep::Move(d) && d < 3
            && select_step_spec(d, Key::Up) == SelectStep::Move(sel),
{
}

/// Enter answers with the choice that is selected: the first choice ("Yes",
/// selected when the prompt opens) allows once, the second allows for the rest
/// of the session, the third ("No") denies; Enter on a choice answers as typing
/// that choice's letter (`y`, `a`, `n`) does.
pub proof fn enter_takes_selected_choice(sel: usize, tool_name: Seq<char>)
    requires
        sel < OPTION_COUNT,
    ensures
        select_step_spec(sel, Key::Enter) == SelectStep::Done(option_result(sel as int)),
        sel == 0 ==> select_step_spec(sel, Key::Enter) == SelectStep::Done(SelectResult::AllowOnce)
            && option_labels(tool_name)[0] == "Yes"@,
        sel == 1 ==> select_step_spec(sel, Key::Enter) == SelectStep::Done(SelectResult::AllowAlways),
        sel == 2 ==> select_step_spec(sel, Key::Enter) == SelectStep::Done(SelectResult::Deny)
            && option_labels(tool_name)[2] == "No"@,
        select_step_spec(sel, Key::Enter) == select_step_spec(
            sel,
            Key::Plain(if sel == 0 { 'y' } else if sel == 1 { 'a' } else { 'n' }),
        ),
{
}

/// The other keys: Escape and `n` deny, `y` allows once and `a` allows for the
/// session (either case), Control-C interrupts, other keys do nothing; Down
/// moves to another choice and three presses come back round.
pub proof fn keys_answer(sel: usize, c: char)
    requires
        sel < OPTION_COUNT,
    ensures
        select_step_spec(sel, Key::Esc) == SelectStep::Done(SelectResult::Deny),
        select_step_spec(sel, Key::Ctrl('c')) == SelectStep::Interrupt,
        select_step_spec(sel, Key::Other) == SelectStep::Ignore,
        (c == 'y' || c == 'Y') ==> select_step_spec(sel, Key::Plain(c)) == SelectStep::Done(
            SelectResult::AllowOnce,
        ),
        (c == 'a' || c == 'A') ==> select_step_spec(sel, Key::Plain(c)) == SelectStep::Done(
            SelectResult::AllowAlways,
        ),
        (c == 'n' || c == 'N') ==> select_step_spec(sel, Key::Plain(c)) == SelectStep::Done(
            SelectResult::Deny,
        ),
        !(c == 'y' || c == 'Y' || c == 'a' || c == 'A' || c == 'n' || c == 'N') ==> select_step_spec(
            sel,
            Key::Plain(c),
        ) == SelectStep::Ignore,
        select_step_spec(sel, Key::Down) matches SelectStep::Move(d1) && d1 != sel && d1 < 3 && (
        select_step_spec(d1, Key::Down) matches SelectStep::Move(d2) && d2 != sel && d2 != d1 && d2 < 3
            && select_step_spec(d2, Key::Down) == SelectStep::Move(sel)),
{
}

/// The checker's decision for an answer to the prompt about `tool_name`, and
/// whether the tool is allowed for the rest of the session.
pub fn select_decision(result: SelectResult, tool_name: &str) -> (r: (PermissionDecision, bool))
    ensures
        result == SelectResult::AllowOnce ==> r.0 is Allow && !r.1,
        result == SelectResult::AllowAlways ==> r.0 is Allow && r.1,
        result == SelectResult::Deny ==> (r.0 matches PermissionDecision::Deny(m) && m@
            == "user denied permission for \""@ + tool_name@ + "\""@) && !r.1,
{
    match result {
        SelectResult::AllowOnce => (PermissionDecision::Allow, false),
        SelectResult::AllowAlways => (PermissionDecision::Allow, true),
        SelectResult::Deny => {
            let a = concat("user denied permission for \"", tool_name);
            (PermissionDecision::Deny(concat(a.as_str(), "\"")), false)
        },
    }
}

/// What the checker answers for `tool` before it asks: allow, for a tool allowed
/// for the rest of the session; nothing otherwise.
pub open spec fn precheck(allowed: Set<Seq<char>>, tool: Seq<char>) -> Option<PermissionDecision> {
    if allowed.contains(tool) {
        Some(PermissionDecision::Allow)
    } else {
        None
    }
}

/// The tools allowed for the session after `result` was answered for `tool`.
pub open spec fn recorded(allowed: Set<Seq<char>>, result: SelectResult, tool: Seq<char>) -> Set<Seq<char>> {
    if result == SelectResult::AllowAlways {
        allowed.insert(tool)
    } else {
        allowed
    }
}

/// Whether the checker answers without asking: only for a tool allowed for the
/// rest of the session, and then it allows it.
pub fn session_precheck(allowed: &SessionAllowList, tool_name: &str) -> (r: Option<PermissionDecision>)
    ensures
        r == precheck(allowed@, tool_name@),
{
    if allowed.contains(tool_name) {
        Some(PermissionDecision::Allow)
    } else {
        None
    }
}

/// The checker's decision for an answer to the prompt about `tool_name`; an
/// answer that allows the tool for the session adds it to the allowed tools.
pub fn record_answer(allowed: &mut SessionAllowList, result: SelectResult, tool_name: &str) -> (d: PermissionDecision)
    ensures
        result == SelectResult::Deny ==> (d matches PermissionDecision::Deny(m) && m@
            == "user denied permission for \""@ + tool_name@ + "\""@),
        result != SelectResult::Deny ==> d is Allow,
        final(allowed)@ == recorded(old(allowed)@, result, tool_name@),
{
    let (decision, remember) = select_decision(result, tool_name);
    if remember {
        allowed.insert(tool_name);
    }
    decision
}

/// After "allow always" for a tool, every later check of that tool allows it
/// without asking, and the check of any other tool answers as before. Any other
/// answer leaves the allowed tools as they were.
pub proof fn allow_always_remembered(
    allowed: Set<Seq<char>>,
    result: SelectResult,
    tool: Seq<char>,
    other: Seq<char>,
)
    ensures
        result == SelectResult::AllowAlways ==> precheck(recorded(allowed, result, tool), tool)
            == Some(PermissionDecision::Allow),
        other != tool ==> precheck(recorded(allowed, result, tool), other) == precheck(allowed, other),
        result != SelectResult::AllowAlways ==> recorded(allowed, result, tool) == allowed,
{
}

} // verus!
