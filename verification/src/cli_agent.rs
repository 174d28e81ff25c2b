//! Agents run as command-line programs: the text they are sent, how their
//! output is cleaned for a terminal, and the fenced JSON blocks their
//! answers are read from.
use vstd::prelude::*;
use crate::text::{
    chars_of, find_from, first_occurrence_from, has_prefix, join, join_with, lines, lines_of, occurs_at, occurs_at_exec,
    push_str, push_string, seqs, slice_range, starts_with, string_of, trim, trim_of,
};

use crate::analysis::AgentContext;
use crate::config::CliPluginConfig;
use crate::coordinator::CrossPollinationSynthesis;
use crate::report::{clone_strs, strs};
use crate::task_pack::{PromptTemplate, TaskPackRole};

verus! {

// ---------------------------------------------------------------------
// Truncation
// ---------------------------------------------------------------------

/// At most `max` characters; a longer text is cut there and marked with a
/// new line and an ellipsis.
pub open spec fn truncate_spec(input: Seq<char>, max: usize) -> Seq<char> {
    if input.len() <= max {
        input
    } else {
        input.take(max as int) + "\n…"@
    }
}

pub fn truncate(input: &str, max: usize) -> (r: String)
    ensures
        r@ == truncate_spec(input@, max),
{
    let c = chars_of(input);
    if c.len() <= max {
        return string_of(c.as_slice());
    }
    let head = slice_range(c.as_slice(), 0, max);
    let mut out = string_of(head.as_slice());
    push_str(&mut out, "\n…");
    assert(c@.subrange(0, max as int) =~= c@.take(max as int));
    out
}

// ---------------------------------------------------------------------
// Terminal escapes
// ---------------------------------------------------------------------

pub open spec fn esc() -> char {
    '\u{1b}'
}

pub open spec fn bel() -> char {
    '\u{07}'
}

pub open spec fn is_ascii_letter(c: char) -> bool {
    ('A' <= c && c <= 'Z') || ('a' <= c && c <= 'z')
}

/// Scanner states: plain text, after an escape, inside a control sequence
/// (`ESC [` .. letter), inside an operating-system command (`ESC ]` .. BEL
/// or `ESC \`), and after an escape inside such a command.
#[derive(Clone, Copy, Debug, PartialEq, Eq, Structural)]
pub enum EscState {
    Text,
    Escape,
    Control,
    Command,
    CommandEscape,
}

/// A character read in plain text (or after a lone escape).
pub open spec fn text_step(out: Seq<char>, c: char) -> (Seq<char>, EscState) {
    if c == esc() {
        (out, EscState::Escape)
    } else {
        (out.push(c), EscState::Text)
    }
}

pub open spec fn command_step(out: Seq<char>, c: char) -> (Seq<char>, EscState) {
    if c == bel() {
        (out, EscState::Text)
    } else if c == esc() {
        (out, EscState::CommandEscape)
    } else {
        (out, EscState::Command)
    }
}

pub open spec fn escape_step(st: (Seq<char>, EscState), c: char) -> (Seq<char>, EscState) {
    match st.1 {
        EscState::Text => text_step(st.0, c),
        EscState::Escape => if c == '[' {
            (st.0, EscState::Control)
        } else if c == ']' {
            (st.0, EscState::Command)
        } else {
            text_step(st.0, c)
        },
        EscState::Control => if is_ascii_letter(c) {
            (st.0, EscState::Text)
        } else {
            (st.0, EscState::Control)
        },
        EscState::Command => command_step(st.0, c),
        EscState::CommandEscape => if c == '\\' {
            (st.0, EscState::Text)
        } else {
            command_step(st.0, c)
        },
    }
}

pub open spec fn escape_scan(s: Seq<char>) -> (Seq<char>, EscState)
    decreases s.len(),
{
    if s.len() == 0 {
        (seq![], EscState::Text)
    } else {
        escape_step(escape_scan(s.drop_last()), s.last())
    }
}

/// The text without terminal escape sequences.
pub open spec fn sanitize_spec(s: Seq<char>) -> Seq<char> {
    escape_scan(s).0
}

proof fn lemma_escape_scan(s: Seq<char>)
    ensures
        escape_scan(s).0.len() <= s.len(),
        forall|k: int| 0 <= k < escape_scan(s).0.len() ==> #[trigger] escape_scan(s).0[k] != esc(),
        (forall|k: int| 0 <= k < s.len() ==> #[trigger] s[k] != esc()) ==> escape_scan(s) == (s, EscState::Text),
    decreases s.len(),
{
    if s.len() > 0 {
        lemma_escape_scan(s.drop_last());
        if forall|k: int| 0 <= k < s.len() ==> #[trigger] s[k] != esc() {
            assert forall|k: int| 0 <= k < s.drop_last().len() implies #[trigger] s.drop_last()[k] != esc() by {
                assert(s.drop_last()[k] == s[k]);
            }
            assert(s.last() == s[s.len() - 1]);
            assert(s.drop_last().push(s.last()) =~= s);
        }
    }
}

/// Sanitized output holds no escape character, is never longer than its
/// input, and text without escapes comes back unchanged.
pub proof fn law_sanitize_strips_escapes(s: Seq<char>)
    ensures
        sanitize_spec(s).len() <= s.len(),
        forall|k: int| 0 <= k < sanitize_spec(s).len() ==> #[trigger] sanitize_spec(s)[k] != esc(),
        (forall|k: int| 0 <= k < s.len() ==> #[trigger] s[k] != esc()) ==> sanitize_spec(s) == s,
{
    lemma_escape_scan(s);
}

pub fn sanitize_terminal_output(input: &str) -> (r: String)
    ensures
        r@ == sanitize_spec(input@),
{
    let c = chars_of(input);
    let mut out: Vec<char> = Vec::new();
    let mut st = EscState::Text;
    let mut i: usize = 0;
    while i < c.len()
        invariant
            i <= c@.len(),
            escape_scan(c@.take(i as int)) == (out@, st),
        decreases c.len() - i,
    {
        assert(c@.take(i + 1).drop_last() =~= c@.take(i as int));
        assert(c@.take(i + 1).last() == c@[i as int]);
        let x = c[i];
        let e = '\u{1b}';
        let b = '\u{07}';
        match st {
            EscState::Text => {
                if x == e {
                    st = EscState::Escape;
                } else {
                    out.push(x);
                }
            },
            EscState::Escape => {
                if x == '[' {
                    st = EscState::Control;
                } else if x == ']' {
                    st = EscState::Command;
                } else if x == e {
                    st = EscState::Escape;
                } else {
                    out.push(x);
                    st = EscState::Text;
                }
            },
            EscState::Control => {
                if ('A' <= x && x <= 'Z') || ('a' <= x && x <= 'z') {
                    st = EscState::Text;
                }
            },
            EscState::Command => {
                if x == b {
                    st = EscState::Text;
                } else if x == e {
                    st = EscState::CommandEscape;
                }
            },
            EscState::CommandEscape => {
                if x == '\\' {
                    st = EscState::Text;
                } else if x == b {
                    st = EscState::Text;
                } else if x == e {
                    st = EscState::CommandEscape;
                } else {
                    st = EscState::Command;
                }
            },
        }
        i += 1;
    }
    assert(c@.take(c@.len() as int) =~= c@);
    string_of(out.as_slice())
}

// ---------------------------------------------------------------------
// Fenced JSON blocks
// ---------------------------------------------------------------------

pub open spec fn fence() -> Seq<char> {
    seq!['`', '`', '`']
}

/// The last index at which `p` occurs in `s`.
pub open spec fn last_occurrence(s: Seq<char>, p: Seq<char>) -> Option<int> {
    if exists|i: int| 0 <= i && occurs_at(s, p, i) {
        Some(choose|i: int| 0 <= i && occurs_at(s, p, i) && forall|j: int| i < j ==> !occurs_at(s, p, j))
    } else {
        None
    }
}

fn rfind(s: &[char], p: &[char]) -> (r: Option<usize>)
    ensures
        match r {
            Some(i) => occurs_at(s@, p@, i as int) && forall|j: int| i < j ==> !occurs_at(s@, p@, j),
            None => forall|j: int| 0 <= j ==> !occurs_at(s@, p@, j),
        },
{
    let mut i: usize = s.len();
    loop
        invariant
            i <= s@.len(),
            forall|j: int| i < j ==> !occurs_at(s@, p@, j),
        decreases i,
    {
        if occurs_at_exec(s, p, i) {
            return Some(i);
        }
        if i == 0 {
            return None;
        }
        i -= 1;
    }
}

proof fn lemma_last_occurrence(s: Seq<char>, p: Seq<char>, i: int)
    requires
        0 <= i,
        occurs_at(s, p, i),
        forall|j: int| i < j ==> !occurs_at(s, p, j),
    ensures
        last_occurrence(s, p) == Some(i),
{
    let k = choose|k: int| 0 <= k && occurs_at(s, p, k) && forall|j: int| k < j ==> !occurs_at(s, p, j);
    if k < i {
    } else if i < k {
    }
}

/// The body of a fenced block: after the opening fence, the lines after the
/// first (the language tag) joined, cut at the last fence, trimmed; text
/// that does not start with a fence is only trimmed.
pub open spec fn strip_fenced_spec(input: Seq<char>) -> Seq<char> {
    let t = trim_of(input);
    if starts_with(t, fence()) {
        let rest = t.subrange(3, t.len() as int);
        let ls = lines_of(rest);
        let body = join_with(if ls.len() > 0 {
            ls.drop_first()
        } else {
            ls
        }, "\n"@);
        let cut = match last_occurrence(body, fence()) {
            Some(k) => body.take(k),
            None => body,
        };
        trim_of(cut)
    } else {
        t
    }
}

pub fn strip_fenced_json(input: &str) -> (r: String)
    ensures
        r@ == strip_fenced_spec(input@),
{
    let c = chars_of(input);
    let t = trim(c.as_slice());
    let mut f: Vec<char> = Vec::new();
    f.push('`');
    f.push('`');
    f.push('`');
    assert(f@ =~= fence());
    if !has_prefix(t.as_slice(), f.as_slice()) {
        return string_of(t.as_slice());
    }
    let rest = slice_range(t.as_slice(), 3, t.len());
    let ls = lines(rest.as_slice());
    let mut tail: Vec<Vec<char>> = Vec::new();
    let mut i: usize = 1;
    while i < ls.len()
        invariant
            1 <= i,
            i <= ls@.len() || ls@.len() == 0,
            tail@.len() == if ls@.len() == 0 {
                0
            } else {
                i - 1
            },
            forall|k: int| 0 <= k < tail@.len() ==> #[trigger] tail@[k]@ == ls@[k + 1]@,
        decreases ls.len() - i,
    {
        tail.push(ls[i].clone());
        i += 1;
    }
    proof {
        if ls@.len() > 0 {
            assert(seqs(tail@) =~= seqs(ls@).drop_first());
        } else {
            assert(seqs(tail@) =~= seqs(ls@));
        }
    }
    let nl = chars_of("\n");
    let body = join(&tail, nl.as_slice());
    let cut: Vec<char> = match rfind(body.as_slice(), f.as_slice()) {
        Some(k) => {
            proof {
                lemma_last_occurrence(body@, f@, k as int);
            }
            slice_range(body.as_slice(), 0, k)
        },
        None => body,
    };
    let out = trim(cut.as_slice());
    assert(body@.subrange(0, body@.len() as int) =~= body@);
    string_of(out.as_slice())
}

/// The fenced block of a text: the whole trimmed text when it starts with a
/// fence, else the span from the first fence through the next one; none when
/// there is no such pair.
pub open spec fn extract_fenced_spec(input: Seq<char>) -> Option<Seq<char>> {
    let t = trim_of(input);
    if starts_with(t, fence()) {
        Some(strip_fenced_spec(t))
    } else {
        match first_occurrence_from(t, fence(), 0) {
            None => None,
            Some(start) => {
                let rest = t.subrange(start, t.len() as int);
                match first_occurrence_from(rest.subrange(3, rest.len() as int), fence(), 0) {
                    None => None,
                    Some(end) => Some(strip_fenced_spec(rest.subrange(0, end + 6))),
                }
            },
        }
    }
}

pub fn extract_fenced_json_block(input: &str) -> (r: Option<String>)
    ensures
        match (r, extract_fenced_spec(input@)) {
            (Some(x), Some(y)) => x@ == y,
            (None, None) => true,
            _ => false,
        },
{
    let c = chars_of(input);
    let t = trim(c.as_slice());
    let mut f: Vec<char> = Vec::new();
    f.push('`');
    f.push('`');
    f.push('`');
    assert(f@ =~= fence());
    if has_prefix(t.as_slice(), f.as_slice()) {
        let ts = string_of(t.as_slice());
        return Some(strip_fenced_json(ts.as_str()));
    }
    let start = match find_from(t.as_slice(), f.as_slice(), 0) {
        Some(s) => s,
        None => {
            proof {
                lemma_first_none(t@, f@);
            }
            return None;
        },
    };
    proof {
        lemma_first_some(t@, f@, start as int);
    }
    let rest = slice_range(t.as_slice(), start, t.len());
    let after = slice_range(rest.as_slice(), 3, rest.len());
    let end = match find_from(after.as_slice(), f.as_slice(), 0) {
        Some(e) => e,
        None => {
            proof {
                lemma_first_none(after@, f@);
            }
            return None;
        },
    };
    proof {
        lemma_first_some(after@, f@, end as int);
    }
    let fenced = slice_range(rest.as_slice(), 0, end + 6);
    let fs = string_of(fenced.as_slice());
    Some(strip_fenced_json(fs.as_str()))
}

proof fn lemma_first_none(s: Seq<char>, p: Seq<char>)
    requires
        forall|j: int| 0 <= j ==> !occurs_at(s, p, j),
    ensures
        first_occurrence_from(s, p, 0) is None,
{
}

proof fn lemma_first_some(s: Seq<char>, p: Seq<char>, i: int)
    requires
        0 <= i,
        occurs_at(s, p, i),
        forall|j: int| 0 <= j < i ==> !occurs_at(s, p, j),
    ensures
        first_occurrence_from(s, p, 0) == Some(i),
{
    let k = choose|k: int| 0 <= k && occurs_at(s, p, k) && forall|j: int| 0 <= j < k ==> !occurs_at(s, p, j);
    if k < i {
    } else if i < k {
    }
}

// ---------------------------------------------------------------------
// One-line previews of what is sent and received
// ---------------------------------------------------------------------

/// A line of an outgoing prompt worth showing: not blank, not a section
/// header, not a round marker or bulk context, not part of the diff.
pub open spec fn outbound_shown(l: Seq<char>) -> bool {
    &&& l.len() > 0
    &&& l != "Diff to review:"@
    &&& l != "Review context:"@
    &&& l != "Prior round agent discussion:"@
    &&& !starts_with(l, "Round: "@)
    &&& !starts_with(l, "- Relevant references:"@)
    &&& !starts_with(l, "- Recent commit history:"@)
    &&& !starts_with(l, "- Deterministic precheck signals:"@)
    &&& !starts_with(l, "diff --git "@)
    &&& !starts_with(l, "@@"@)
    &&& !starts_with(l, "+"@)
    &&& !starts_with(l, "-"@)
}

/// The first `n` trimmed lines that `keep` accepts.
pub open spec fn kept_lines(ls: Seq<Seq<char>>, outbound: bool) -> Seq<Seq<char>>
    decreases ls.len(),
{
    if ls.len() == 0 {
        seq![]
    } else {
        let r = kept_lines(ls.drop_last(), outbound);
        let t = trim_of(ls.last());
        if (outbound && outbound_shown(t)) || (!outbound && t.len() > 0) {
            r.push(t)
        } else {
            r
        }
    }
}

pub open spec fn first_two(s: Seq<Seq<char>>) -> Seq<Seq<char>> {
    if s.len() > 2 {
        s.take(2)
    } else {
        s
    }
}

/// The first two shown lines of a prompt, or a fixed note when none is.
pub open spec fn preview_outbound_spec(user: Seq<char>) -> Seq<char> {
    let compact = join_with(first_two(kept_lines(lines_of(user), true)), " "@);
    if compact.len() == 0 {
        "sending review prompt"@
    } else {
        compact
    }
}

fn str_is(l: &[char], lit: &str) -> (r: bool)
    ensures
        r == (l@ == lit@),
{
    let c = chars_of(lit);
    crate::text::chars_eq(l, c.as_slice())
}

fn starts(l: &[char], lit: &str) -> (r: bool)
    ensures
        r == starts_with(l@, lit@),
{
    let c = chars_of(lit);
    has_prefix(l, c.as_slice())
}

fn shown(l: &[char]) -> (r: bool)
    ensures
        r == outbound_shown(l@),
{
    l.len() > 0 && !str_is(l, "Diff to review:") && !str_is(l, "Review context:") && !str_is(
        l,
        "Prior round agent discussion:",
    ) && !starts(l, "Round: ") && !starts(l, "- Relevant references:") && !starts(
        l,
        "- Recent commit history:",
    ) && !starts(l, "- Deterministic precheck signals:") && !starts(l, "diff --git ") && !starts(
        l,
        "@@",
    ) && !starts(l, "+") && !starts(l, "-")
}

fn compact_lines(text: &[char], outbound: bool) -> (r: Vec<char>)
    ensures
        r@ == join_with(first_two(kept_lines(lines_of(text@), outbound)), " "@),
{
    let ls = lines(text);
    let ghost lm = lines_of(text@);
    let mut kept: Vec<Vec<char>> = Vec::new();
    let mut i: usize = 0;
    while i < ls.len()
        invariant
            i <= ls@.len(),
            seqs(ls@) == lm,
            seqs(kept@) == kept_lines(lm.take(i as int), outbound),
        decreases ls.len() - i,
    {
        assert(lm.take(i + 1).drop_last() =~= lm.take(i as int));
        assert(lm.take(i + 1).last() == ls@[i as int]@);
        let t = trim(ls[i].as_slice());
        let keep = if outbound {
            shown(t.as_slice())
        } else {
            t.len() > 0
        };
        if keep {
            let ghost before = seqs(kept@);
            kept.push(t);
            assert(seqs(kept@) =~= before.push(t@));
        }
        i += 1;
    }
    assert(lm.take(ls@.len() as int) =~= lm);
    let ghost all = seqs(kept@);
    if kept.len() > 2 {
        kept.truncate(2);
        assert(seqs(kept@) =~= all.take(2));
    }
    let sp = chars_of(" ");
    join(&kept, sp.as_slice())
}

pub fn preview_outbound(user: &str) -> (r: String)
    ensures
        r@ == preview_outbound_spec(user@),
{
    let c = chars_of(user);
    let compact = compact_lines(c.as_slice(), true);
    if compact.len() == 0 {
        "sending review prompt".to_owned()
    } else {
        string_of(compact.as_slice())
    }
}

/// The fields of a JSON object that a preview reads: `narrative`, `summary`
/// and `explanation` when they are strings, and for a `findings` array its
/// length and the `message` of its first element when that is a string.
#[derive(Clone, Debug)]
pub struct PreviewFields {
    pub narrative: Option<String>,
    pub summary: Option<String>,
    pub explanation: Option<String>,
    pub findings: Option<(usize, Option<String>)>,
}

pub struct PreviewModel {
    pub narrative: Option<Seq<char>>,
    pub summary: Option<Seq<char>>,
    pub explanation: Option<Seq<char>>,
    pub findings: Option<(usize, Option<Seq<char>>)>,
}

pub open spec fn preview_model(f: PreviewFields) -> PreviewModel {
    PreviewModel {
        narrative: crate::report::opt_str(f.narrative),
        summary: crate::report::opt_str(f.summary),
        explanation: crate::report::opt_str(f.explanation),
        findings: match f.findings {
            Some((n, m)) => Some((n, crate::report::opt_str(m))),
            None => None,
        },
    }
}

/// What parsing `input` as JSON gives for the preview fields (none when it
/// is not JSON).
pub uninterp spec fn json_preview_fields(input: Seq<char>) -> Option<PreviewModel>;

/// Calls `serde_json::from_str` on `input` and reads the preview fields of
/// the value. Trusted: the result is the name `json_preview_fields` of the
/// input's characters.
#[verifier::external_body]
fn preview_fields(input: &str) -> (r: Option<PreviewFields>)
    ensures
        match r {
            Some(f) => json_preview_fields(input@) == Some(preview_model(f)),
            None => json_preview_fields(input@) is None,
        },
{
    let v: serde_json::Value = serde_json::from_str(input).ok()?;
    let text = |k: &str| v.get(k).and_then(|x| x.as_str()).map(|x| x.to_string());
    let findings = v.get("findings").and_then(|x| x.as_array()).map(
        |a| (a.len(), a.first().and_then(|i| i.get("message")).and_then(|m| m.as_str()).map(|m| m.to_string())),
    );
    Some(PreviewFields { narrative: text("narrative"), summary: text("summary"), explanation: text("explanation"), findings })
}

/// The preview of a reply's JSON fields: a non-blank narrative, summary or
/// explanation (trimmed), else the first finding's message or the count of
/// findings.
pub open spec fn fields_preview_spec(f: PreviewModel) -> Option<Seq<char>> {
    let n = match f.narrative {
        Some(t) => trim_of(t),
        None => seq![],
    };
    let s = match f.summary {
        Some(t) => trim_of(t),
        None => seq![],
    };
    let e = match f.explanation {
        Some(t) => trim_of(t),
        None => seq![],
    };
    if n.len() > 0 {
        Some(n)
    } else if s.len() > 0 {
        Some(s)
    } else if e.len() > 0 {
        Some(e)
    } else {
        match f.findings {
            Some((count, Some(m))) => Some(trim_of(m)),
            Some((count, None)) => Some(crate::text::decimal(count as nat) + " findings returned"@),
            None => None,
        }
    }
}

fn trimmed_text(o: &Option<String>) -> (r: Vec<char>)
    ensures
        r@ == match crate::report::opt_str(*o) {
            Some(t) => trim_of(t),
            None => seq![],
        },
{
    match o {
        Some(t) => {
            let c = chars_of(t.as_str());
            trim(c.as_slice())
        },
        None => Vec::new(),
    }
}

pub fn fields_preview(f: &PreviewFields) -> (r: Option<String>)
    ensures
        match (r, fields_preview_spec(preview_model(*f))) {
            (Some(x), Some(y)) => x@ == y,
            (None, None) => true,
            _ => false,
        },
{
    let n = trimmed_text(&f.narrative);
    if n.len() > 0 {
        return Some(string_of(n.as_slice()));
    }
    let s = trimmed_text(&f.summary);
    if s.len() > 0 {
        return Some(string_of(s.as_slice()));
    }
    let e = trimmed_text(&f.explanation);
    if e.len() > 0 {
        return Some(string_of(e.as_slice()));
    }
    match &f.findings {
        Some((count, Some(m))) => {
            let c = chars_of(m.as_str());
            let t = trim(c.as_slice());
            Some(string_of(t.as_slice()))
        },
        Some((count, None)) => {
            let mut out = String::new();
            crate::text::push_decimal(&mut out, *count as u64);
            push_str(&mut out, " findings returned");
            Some(out)
        },
        None => None,
    }
}

/// The preview of a reply: its JSON preview when it has one, else its first
/// two non-blank lines, else a fixed note; escapes removed first.
pub open spec fn preview_inbound_spec(stdout: Seq<char>) -> Seq<char> {
    let clean = sanitize_spec(stdout);
    let from_json = match json_preview_fields(clean) {
        Some(f) => fields_preview_spec(f),
        None => None,
    };
    match from_json {
        Some(v) => v,
        None => {
            let compact = join_with(first_two(kept_lines(lines_of(clean), false)), " "@);
            if compact.len() == 0 {
                "received empty response"@
            } else {
                compact
            }
        },
    }
}

pub fn preview_inbound(stdout: &str) -> (r: String)
    ensures
        r@ == preview_inbound_spec(stdout@),
{
    let clean = sanitize_terminal_output(stdout);
    let from_json = match preview_fields(clean.as_str()) {
        Some(f) => fields_preview(&f),
        None => None,
    };
    match from_json {
        Some(v) => v,
        None => {
            let c = chars_of(clean.as_str());
            let compact = compact_lines(c.as_slice(), false);
            if compact.len() == 0 {
                "received empty response".to_owned()
            } else {
                string_of(compact.as_slice())
            }
        },
    }
}

// ---------------------------------------------------------------------
// The agent and its review prompts
// ---------------------------------------------------------------------

/// An agent run as a command: its id and persona, the command and its
/// arguments, its focus, and the prompt template of its role.
#[derive(Clone, Debug)]
pub struct CliAgentPlugin {
    pub id: String,
    pub persona: String,
    pub command: String,
    pub args: Vec<String>,
    pub reviewer_focus: String,
    pub prompt_template: PromptTemplate,
}

/// The gathered context as JSON texts: focus areas (`null` when none),
/// references, history and precheck signals.
#[derive(Clone, Debug)]
pub struct ContextSections {
    pub focus: String,
    pub references: String,
    pub history: String,
    pub prechecks: String,
}

impl CliAgentPlugin {
    /// The agent for a role of a task pack, launched with `cfg`.
    pub fn from_role(id: &str, plugin_id: &str, cfg: &CliPluginConfig, role: &TaskPackRole) -> (r: Self)
        ensures
            r.id@ == id@,
            r.persona@ == role.persona@,
            r.command@ == cfg.command@,
            strs(r.args@) == strs(cfg.args@),
            r.reviewer_focus@ == role.focus@,
            r.prompt_template == role.prompt_template,
    {
        CliAgentPlugin {
            id: id.to_owned(),
            persona: role.persona.clone(),
            command: cfg.command.clone(),
            args: clone_strs(&cfg.args),
            reviewer_focus: role.focus.clone(),
            prompt_template: role.prompt_template,
        }
    }
}

/// The JSON shape a review answer must have.
pub open spec fn findings_schema(narrative_hint: Seq<char>) -> Seq<char> {
    "{\n  \"narrative\": \""@ + narrative_hint + "\",\n  \"findings\": [{\n    \"severity\": \"Critical | Warning | Info\",\n    \"category\": \"<correctness|security|performance|maintainability|testing|style>\",\n    \"file\": \"<relative path or null>\",\n    \"line_start\": <integer or null>,\n    \"line_end\": <integer or null>,\n    \"title\": \"<short issue title>\",\n    \"description\": \"<detailed issue description>\",\n    \"message\": \"<concise actionable issue>\",\n    \"suggested_fix\": \"<recommended fix or null>\",\n    \"evidence\": [{\"location\":\"<path:line>\",\"quote\":\"<short code excerpt>\"}],\n    \"confidence\": \"High | Medium | Low\"\n  }]\n}"@
}

fn push_findings_schema(out: &mut String, hint: &str)
    ensures
        final(out)@ == old(out)@ + findings_schema(hint@),
{
    push_str(out, "{\n  \"narrative\": \"");
    push_str(out, hint);
    push_str(
        out,
        "\",\n  \"findings\": [{\n    \"severity\": \"Critical | Warning | Info\",\n    \"category\": \"<correctness|security|performance|maintainability|testing|style>\",\n    \"file\": \"<relative path or null>\",\n    \"line_start\": <integer or null>,\n    \"line_end\": <integer or null>,\n    \"title\": \"<short issue title>\",\n    \"description\": \"<detailed issue description>\",\n    \"message\": \"<concise actionable issue>\",\n    \"suggested_fix\": \"<recommended fix or null>\",\n    \"evidence\": [{\"location\":\"<path:line>\",\"quote\":\"<short code excerpt>\"}],\n    \"confidence\": \"High | Medium | Low\"\n  }]\n}",
    );
    assert(final(out)@ =~= old(out)@ + findings_schema(hint@));
}

pub open spec fn evidence_rule() -> Seq<char> {
    "Every finding MUST include direct evidence with exact code location and short quote snippets.\n"@
}

pub open spec fn schema_intro() -> Seq<char> {
    "Respond ONLY with valid JSON matching this schema:\n"@
}

pub open spec fn pack_title_or(ctx: AgentContext, d: Seq<char>) -> Seq<char> {
    match ctx.review_pack {
        Some(p) => p.manifest.title@,
        None => d,
    }
}

pub open spec fn pack_prompt_or(ctx: AgentContext, d: Seq<char>) -> Seq<char> {
    match ctx.review_pack {
        Some(p) => p.reviewer_prompt@,
        None => d,
    }
}

pub open spec fn round1_default() -> Seq<char> {
    "You MUST review all changed files/functions and assess correctness, security, performance, error handling, edge cases, and maintainability."@
}

pub open spec fn round_n_default() -> Seq<char> {
    "You MUST use only prior-round discussion below (no same-round leakage), explicitly agree/disagree with prior points, and call out missed issues if any."@
}

pub open spec fn round1_label(t: PromptTemplate) -> Seq<char> {
    match t {
        PromptTemplate::Verify => "verification round-1"@,
        PromptTemplate::Challenge => "challenge round-1"@,
        _ => "exhaustive round-1"@,
    }
}

pub open spec fn round_n_label(t: PromptTemplate) -> Seq<char> {
    match t {
        PromptTemplate::Verify => "verification"@,
        _ => "adversarial"@,
    }
}

/// The context lines shared by the round prompts.
pub open spec fn context_lines(s: ContextSections) -> Seq<char> {
    "- Suggested focus areas: "@ + s.focus@ + "\n- Relevant references: "@ + s.references@ + "\n- Recent commit history: "@
        + s.history@ + "\n- Deterministic precheck signals: "@ + s.prechecks@
}

fn push_context_lines(out: &mut String, s: &ContextSections)
    ensures
        final(out)@ == old(out)@ + context_lines(*s),
{
    push_str(out, "- Suggested focus areas: ");
    push_string(out, &s.focus);
    push_str(out, "\n- Relevant references: ");
    push_string(out, &s.references);
    push_str(out, "\n- Recent commit history: ");
    push_string(out, &s.history);
    push_str(out, "\n- Deterministic precheck signals: ");
    push_string(out, &s.prechecks);
    assert(final(out)@ =~= old(out)@ + context_lines(*s));
}

/// The system prompt of round one.
pub open spec fn round1_system(a: CliAgentPlugin, ctx: AgentContext) -> Seq<char> {
    "You are a "@ + a.persona@ + " performing a "@ + round1_label(a.prompt_template) + " "@ + pack_title_or(
        ctx,
        "code review"@,
    ) + ".\n"@ + pack_prompt_or(ctx, round1_default()) + "\n"@ + "Your primary lens is: "@ + a.reviewer_focus@
        + ".\n"@ + evidence_rule() + schema_intro() + findings_schema("<concise analysis for terminal display>"@)
}

/// The user prompt of round one: the context and the whole diff.
pub open spec fn round1_user(s: ContextSections, diff: Seq<char>) -> Seq<char> {
    "Round: 1\nReview context:\n"@ + context_lines(s) + "\n\nDiff to review:\n"@ + diff
}

/// The system prompt of a later round.
pub open spec fn round_n_system(a: CliAgentPlugin, ctx: AgentContext, round: u8) -> Seq<char> {
    "You are a "@ + a.persona@ + " performing "@ + round_n_label(a.prompt_template) + " round-"@ + crate::text::decimal(
        round as nat,
    ) + " "@ + pack_title_or(ctx, "review"@) + ".\n"@ + pack_prompt_or(ctx, round_n_default()) + "\n"@
        + "Your primary lens is: "@ + a.reviewer_focus@ + ".\n"@ + evidence_rule() + schema_intro() + findings_schema(
        "<concise agreement/disagreement summary>"@,
    )
}

/// The file headers of a diff, one per line.
pub open spec fn diff_headers(diff: Seq<char>) -> Seq<char> {
    join_with(header_lines(lines_of(diff)), "\n"@)
}

pub open spec fn header_lines(ls: Seq<Seq<char>>) -> Seq<Seq<char>>
    decreases ls.len(),
{
    if ls.len() == 0 {
        seq![]
    } else {
        let r = header_lines(ls.drop_last());
        if starts_with(ls.last(), "diff --git "@) {
            r.push(ls.last())
        } else {
            r
        }
    }
}

/// The user prompt of a later round: the prior discussion, the context, and
/// the changed files only.
pub open spec fn round_n_user(s: ContextSections, round: u8, summary: Seq<char>, diff: Seq<char>) -> Seq<char> {
    "Round: "@ + crate::text::decimal(round as nat) + "\nPrior round agent discussion:\n"@ + summary
        + "\n\nReview context:\n"@ + context_lines(s)
        + "\n\nChanged files (for reference; full diff was provided in round 1):\n"@ + diff_headers(diff)
}

fn pack_title(ctx: &AgentContext, d: &str) -> (r: String)
    ensures
        r@ == pack_title_or(*ctx, d@),
{
    match &ctx.review_pack {
        Some(p) => p.manifest.title.clone(),
        None => d.to_owned(),
    }
}

fn pack_prompt(ctx: &AgentContext, d: &str) -> (r: String)
    ensures
        r@ == pack_prompt_or(*ctx, d@),
{
    match &ctx.review_pack {
        Some(p) => p.reviewer_prompt.clone(),
        None => d.to_owned(),
    }
}

fn diff_header_text(diff: &str) -> (r: Vec<char>)
    ensures
        r@ == diff_headers(diff@),
{
    let c = chars_of(diff);
    let ls = lines(c.as_slice());
    let ghost lm = lines_of(diff@);
    let h = chars_of("diff --git ");
    let mut kept: Vec<Vec<char>> = Vec::new();
    let mut i: usize = 0;
    while i < ls.len()
        invariant
            i <= ls@.len(),
            seqs(ls@) == lm,
            h@ == "diff --git "@,
            seqs(kept@) == header_lines(lm.take(i as int)),
        decreases ls.len() - i,
    {
        assert(lm.take(i + 1).drop_last() =~= lm.take(i as int));
        assert(lm.take(i + 1).last() == ls@[i as int]@);
        if has_prefix(ls[i].as_slice(), h.as_slice()) {
            let ghost before = seqs(kept@);
            kept.push(ls[i].clone());
            assert(seqs(kept@) =~= before.push(ls@[i as int]@));
        }
        i += 1;
    }
    assert(lm.take(ls@.len() as int) =~= lm);
    let nl = chars_of("\n");
    join(&kept, nl.as_slice())
}

impl CliAgentPlugin {
    /// The system and user prompts of round one.
    pub fn review_prompt_round1(&self, ctx: &AgentContext, sections: &ContextSections) -> (r: (String, String))
        ensures
            r.0@ == round1_system(*self, *ctx),
            r.1@ == round1_user(*sections, ctx.diff@),
    {
        let label = match self.prompt_template {
            PromptTemplate::Verify => "verification round-1",
            PromptTemplate::Challenge => "challenge round-1",
            _ => "exhaustive round-1",
        };
        let mut system = String::new();
        push_str(&mut system, "You are a ");
        push_string(&mut system, &self.persona);
        push_str(&mut system, " performing a ");
        push_str(&mut system, label);
        push_str(&mut system, " ");
        let title = pack_title(ctx, "code review");
        push_string(&mut system, &title);
        push_str(&mut system, ".\n");
        let prompt = pack_prompt(
            ctx,
            "You MUST review all changed files/functions and assess correctness, security, performance, error handling, edge cases, and maintainability.",
        );
        push_string(&mut system, &prompt);
        push_str(&mut system, "\n");
        push_str(&mut system, "Your primary lens is: ");
        push_string(&mut system, &self.reviewer_focus);
        push_str(&mut system, ".\n");
        push_str(&mut system, "Every finding MUST include direct evidence with exact code location and short quote snippets.\n");
        push_str(&mut system, "Respond ONLY with valid JSON matching this schema:\n");
        push_findings_schema(&mut system, "<concise analysis for terminal display>");
        assert(system@ =~= round1_system(*self, *ctx));
        let mut user = String::new();
        push_str(&mut user, "Round: 1\nReview context:\n");
        push_context_lines(&mut user, sections);
        push_str(&mut user, "\n\nDiff to review:\n");
        push_string(&mut user, &ctx.diff);
        assert(user@ =~= round1_user(*sections, ctx.diff@));
        (system, user)
    }

    /// The system and user prompts of a later round.
    pub fn review_prompt_round_n(
        &self,
        ctx: &AgentContext,
        round: u8,
        synthesis: &CrossPollinationSynthesis,
        sections: &ContextSections,
    ) -> (r: (String, String))
        ensures
            r.0@ == round_n_system(*self, *ctx, round),
            r.1@ == round_n_user(*sections, round, synthesis.summary@, ctx.diff@),
    {
        let label = match self.prompt_template {
            PromptTemplate::Verify => "verification",
            _ => "adversarial",
        };
        let mut system = String::new();
        push_str(&mut system, "You are a ");
        push_string(&mut system, &self.persona);
        push_str(&mut system, " performing ");
        push_str(&mut system, label);
        push_str(&mut system, " round-");
        crate::text::push_decimal(&mut system, round as u64);
        push_str(&mut system, " ");
        let title = pack_title(ctx, "review");
        push_string(&mut system, &title);
        push_str(&mut system, ".\n");
        let prompt = pack_prompt(
            ctx,
            "You MUST use only prior-round discussion below (no same-round leakage), explicitly agree/disagree with prior points, and call out missed issues if any.",
        );
        push_string(&mut system, &prompt);
        push_str(&mut system, "\n");
        push_str(&mut system, "Your primary lens is: ");
        push_string(&mut system, &self.reviewer_focus);
        push_str(&mut system, ".\n");
        push_str(&mut system, "Every finding MUST include direct evidence with exact code location and short quote snippets.\n");
        push_str(&mut system, "Respond ONLY with valid JSON matching this schema:\n");
        push_findings_schema(&mut system, "<concise agreement/disagreement summary>");
        assert(system@ =~= round_n_system(*self, *ctx, round));
        let mut user = String::new();
        push_str(&mut user, "Round: ");
        crate::text::push_decimal(&mut user, round as u64);
        push_str(&mut user, "\nPrior round agent discussion:\n");
        push_string(&mut user, &synthesis.summary);
        push_str(&mut user, "\n\nReview context:\n");
        push_context_lines(&mut user, sections);
        push_str(&mut user, "\n\nChanged files (for reference; full diff was provided in round 1):\n");
        let headers = diff_header_text(ctx.diff.as_str());
        let hs = string_of(headers.as_slice());
        push_string(&mut user, &hs);
        assert(user@ =~= round_n_user(*sections, round, synthesis.summary@, ctx.diff@));
        (system, user)
    }
}

// ---------------------------------------------------------------------
// How the command is invoked
// ---------------------------------------------------------------------

/// A command line to run: program, arguments, and what to write to its
/// standard input (nothing when the prompt goes in the arguments).
#[derive(Clone, Debug)]
pub struct CliInvocation {
    pub program: String,
    pub args: Vec<String>,
    pub stdin: Option<String>,
}

pub open spec fn is_gemini(cmd: Seq<char>) -> bool {
    cmd == "gemini"@
}

pub open spec fn is_opencode(cmd: Seq<char>) -> bool {
    cmd == "opencode"@
}

/// The prompt text a command receives: system and user prompts framed as
/// the command expects.
pub open spec fn framed_prompt(cmd: Seq<char>, system: Seq<char>, user: Seq<char>) -> Seq<char> {
    if is_gemini(cmd) {
        "System: "@ + system + "\n\nuser: "@ + user
    } else if is_opencode(cmd) {
        system + "\n\n---\n\n"@ + user
    } else {
        "[SYSTEM]\n"@ + system + "\n\n[USER]\n"@ + user + "\n"@
    }
}

pub open spec fn any_of(args: Seq<Seq<char>>, a: Seq<char>, b: Seq<char>) -> bool {
    args.contains(a) || args.contains(b)
}

/// The arguments: the configured ones, then for `gemini` the auto-approve
/// and JSON output flags unless given and the prompt; for `opencode` in run
/// mode the JSON format flag unless given and the prompt, otherwise the
/// prompt flag and the JSON format flag unless given.
pub open spec fn invocation_args(cmd: Seq<char>, args: Seq<Seq<char>>, prompt: Seq<char>) -> Seq<Seq<char>> {
    if is_gemini(cmd) {
        let a1 = if any_of(args, "-y"@, "--yes"@) {
            args
        } else {
            args.push("-y"@)
        };
        let a2 = if any_of(args, "-o"@, "--output"@) {
            a1
        } else {
            a1 + seq!["-o"@, "json"@]
        };
        a2.push(prompt)
    } else if is_opencode(cmd) {
        let has_format = args.contains("-f"@) || args.contains("--output-format"@) || args.contains("--format"@);
        if args.contains("run"@) {
            let a1 = if has_format {
                args
            } else {
                args + seq!["--format"@, "json"@]
            };
            a1.push(prompt)
        } else {
            let a1 = if any_of(args, "-p"@, "--prompt"@) {
                args
            } else {
                args + seq!["-p"@, prompt]
            };
            if has_format {
                a1
            } else {
                a1 + seq!["-f"@, "json"@]
            }
        }
    } else {
        args
    }
}

pub open spec fn invocation_spec(a: CliAgentPlugin, system: Seq<char>, user: Seq<char>) -> (Seq<char>, Seq<Seq<char>>, Option<Seq<char>>) {
    let cmd = a.command@;
    let prompt = framed_prompt(cmd, system, user);
    (
        cmd,
        invocation_args(cmd, strs(a.args@), prompt),
        if is_gemini(cmd) || is_opencode(cmd) {
            None
        } else {
            Some(prompt)
        },
    )
}

fn args_have(args: &Vec<String>, a: &str) -> (r: bool)
    ensures
        r == strs(args@).contains(a@),
{
    let mut i: usize = 0;
    while i < args.len()
        invariant
            i <= args@.len(),
            forall|k: int| 0 <= k < i ==> strs(args@)[k] != a@,
        decreases args.len() - i,
    {
        if crate::text::str_eq(args[i].as_str(), a) {
            assert(strs(args@)[i as int] == a@);
            return true;
        }
        i += 1;
    }
    false
}

fn push_arg(v: &mut Vec<String>, a: &str)
    ensures
        strs(final(v)@) == strs(old(v)@).push(a@),
{
    v.push(a.to_owned());
    assert(strs(final(v)@) =~= strs(old(v)@).push(a@));
}

impl CliAgentPlugin {
    /// The command line that sends this system and user prompt.
    pub fn build_invocation(&self, system: &str, user: &str) -> (r: CliInvocation)
        ensures
            (r.program@, strs(r.args@), crate::report::opt_str(r.stdin)) == invocation_spec(*self, system@, user@),
    {
        let gemini = crate::text::str_eq(self.command.as_str(), "gemini");
        let opencode = crate::text::str_eq(self.command.as_str(), "opencode");
        let mut prompt = String::new();
        if gemini {
            push_str(&mut prompt, "System: ");
            push_str(&mut prompt, system);
            push_str(&mut prompt, "\n\nuser: ");
            push_str(&mut prompt, user);
        } else if opencode {
            push_str(&mut prompt, system);
            push_str(&mut prompt, "\n\n---\n\n");
            push_str(&mut prompt, user);
        } else {
            push_str(&mut prompt, "[SYSTEM]\n");
            push_str(&mut prompt, system);
            push_str(&mut prompt, "\n\n[USER]\n");
            push_str(&mut prompt, user);
            push_str(&mut prompt, "\n");
        }
        assert(prompt@ =~= framed_prompt(self.command@, system@, user@));
        let mut args = clone_strs(&self.args);
        let ghost a0 = strs(self.args@);
        if gemini {
            if !(args_have(&self.args, "-y") || args_have(&self.args, "--yes")) {
                push_arg(&mut args, "-y");
            }
            if !(args_have(&self.args, "-o") || args_have(&self.args, "--output")) {
                let ghost b = strs(args@);
                push_arg(&mut args, "-o");
                push_arg(&mut args, "json");
                assert(strs(args@) =~= b + seq!["-o"@, "json"@]);
            }
            args.push(prompt.clone());
            assert(strs(args@) =~= invocation_args(self.command@, a0, prompt@));
        } else if opencode {
            let has_run = args_have(&self.args, "run");
            let has_format = args_have(&self.args, "-f") || args_have(&self.args, "--output-format") || args_have(
                &self.args,
                "--format",
            );
            if has_run {
                if !has_format {
                    let ghost b = strs(args@);
                    push_arg(&mut args, "--format");
                    push_arg(&mut args, "json");
                    assert(strs(args@) =~= b + seq!["--format"@, "json"@]);
                }
                args.push(prompt.clone());
            } else {
                if !(args_have(&self.args, "-p") || args_have(&self.args, "--prompt")) {
                    let ghost b = strs(args@);
                    push_arg(&mut args, "-p");
                    let ghost b2 = strs(args@);
                    let pc = prompt.clone();
                    args.push(pc);
                    assert(strs(args@) =~= b2.push(prompt@));
                    assert(strs(args@) =~= b + seq!["-p"@, prompt@]);
                }
                if !has_format {
                    let ghost b = strs(args@);
                    push_arg(&mut args, "-f");
                    push_arg(&mut args, "json");
                    assert(strs(args@) =~= b + seq!["-f"@, "json"@]);
                }
            }
            assert(strs(args@) =~= invocation_args(self.command@, a0, prompt@));
        }
        let stdin = if gemini || opencode {
            None
        } else {
            Some(prompt)
        };
        CliInvocation { program: self.command.clone(), args, stdin }
    }
}

} // verus!
