//! Reading the words agents answer with (severity, confidence and
//! importance names), matching found issues against expected ones, and
//! shortening text to one line.
use vstd::prelude::*;
use crate::consensus::ItemImportance;
use crate::report::{issue_models, opt_str, severity_name, severity_name_str, CanonicalIssue, Confidence, IssueModel, Severity};
use crate::text::{chars_of, contains_exec, contains_seq, push_char, push_str, spec_lowercase, str_eq, string_of, to_lowercase};

verus! {

/// `Critical` and `Warning` name those severities; anything else is Info.
pub open spec fn severity_from_spec(s: Seq<char>) -> Severity {
    if s == "Critical"@ {
        Severity::Critical
    } else if s == "Warning"@ {
        Severity::Warning
    } else {
        Severity::Info
    }
}

pub fn severity_from_text(s: &str) -> (r: Severity)
    ensures
        r == severity_from_spec(s@),
{
    if str_eq(s, "Critical") {
        Severity::Critical
    } else if str_eq(s, "Warning") {
        Severity::Warning
    } else {
        Severity::Info
    }
}

/// `High` and `Medium` name those confidences; anything else is Low.
pub open spec fn confidence_from_spec(s: Seq<char>) -> Confidence {
    if s == "High"@ {
        Confidence::High
    } else if s == "Medium"@ {
        Confidence::Medium
    } else {
        Confidence::Low
    }
}

pub fn confidence_from_text(s: &str) -> (r: Confidence)
    ensures
        r == confidence_from_spec(s@),
{
    if str_eq(s, "High") {
        Confidence::High
    } else if str_eq(s, "Medium") {
        Confidence::Medium
    } else {
        Confidence::Low
    }
}

/// Importance by its lowercased name: `high`, `medium`, else low.
pub open spec fn importance_from_spec(s: Seq<char>) -> ItemImportance {
    if spec_lowercase(s) == "high"@ {
        ItemImportance::High
    } else if spec_lowercase(s) == "medium"@ {
        ItemImportance::Medium
    } else {
        ItemImportance::Low
    }
}

pub fn importance_from_text(s: &str) -> (r: ItemImportance)
    ensures
        r == importance_from_spec(s@),
{
    let low = to_lowercase(s);
    if str_eq(low.as_str(), "high") {
        ItemImportance::High
    } else if str_eq(low.as_str(), "medium") {
        ItemImportance::Medium
    } else {
        ItemImportance::Low
    }
}

// ---------------------------------------------------------------------
// Expected issues
// ---------------------------------------------------------------------

/// The code of a character with ASCII letters lowered.
pub open spec fn ascii_lower(c: char) -> u32 {
    if 'A' <= c && c <= 'Z' {
        ((c as u32) + 32) as u32
    } else {
        c as u32
    }
}

/// Equal but for the case of ASCII letters (`str::eq_ignore_ascii_case`).
pub open spec fn eq_ignore_ascii_case(a: Seq<char>, b: Seq<char>) -> bool {
    a.len() == b.len() && forall|i: int| 0 <= i < a.len() ==> ascii_lower(#[trigger] a[i]) == ascii_lower(b[i])
}

fn ascii_lower_exec(c: char) -> (r: u32)
    ensures
        r == ascii_lower(c),
{
    if 'A' <= c && c <= 'Z' {
        (c as u32) + 32
    } else {
        c as u32
    }
}

pub fn eq_ignore_ascii_case_exec(a: &str, b: &str) -> (r: bool)
    ensures
        r == eq_ignore_ascii_case(a@, b@),
{
    let x = chars_of(a);
    let y = chars_of(b);
    if x.len() != y.len() {
        return false;
    }
    let mut i: usize = 0;
    while i < x.len()
        invariant
            i <= x@.len(),
            x@.len() == y@.len(),
            x@ == a@,
            y@ == b@,
            forall|k: int| 0 <= k < i ==> ascii_lower(#[trigger] x@[k]) == ascii_lower(y@[k]),
        decreases x.len() - i,
    {
        if ascii_lower_exec(x[i]) != ascii_lower_exec(y[i]) {
            return false;
        }
        i += 1;
    }
    true
}

/// What an evaluation case expects of an issue; absent fields match all.
#[derive(Clone, Debug)]
pub struct ExpectedIssue {
    pub severity: Option<String>,
    pub file: Option<String>,
    pub line_start: Option<u32>,
    pub title_contains: Option<String>,
}

pub open spec fn issue_matches_spec(e: ExpectedIssue, i: IssueModel) -> bool {
    &&& match e.severity {
        Some(s) => eq_ignore_ascii_case(severity_name(i.severity), s@),
        None => true,
    }
    &&& match e.file {
        Some(f) => match i.file {
            Some(x) => eq_ignore_ascii_case(x, f@),
            None => false,
        },
        None => true,
    }
    &&& match e.line_start {
        Some(l) => i.line_start == Some(l),
        None => true,
    }
    &&& match e.title_contains {
        Some(t) => contains_seq(spec_lowercase(i.title), spec_lowercase(t@)),
        None => true,
    }
}

/// An issue meets what is expected: the severity's name and the file,
/// ignoring ASCII case, the start line, and a title that contains the
/// expected words, both lowercased.
pub fn issue_matches(exp: &ExpectedIssue, issue: &CanonicalIssue) -> (r: bool)
    ensures
        r == issue_matches_spec(*exp, issue@),
{
    match &exp.severity {
        Some(s) => {
            if !eq_ignore_ascii_case_exec(severity_name_str(issue.severity), s.as_str()) {
                return false;
            }
        },
        None => {},
    }
    match &exp.file {
        Some(f) => match &issue.file {
            Some(x) => {
                if !eq_ignore_ascii_case_exec(x.as_str(), f.as_str()) {
                    return false;
                }
            },
            None => {
                return false;
            },
        },
        None => {},
    }
    match exp.line_start {
        Some(l) => {
            if issue.line_start != Some(l) {
                return false;
            }
        },
        None => {},
    }
    match &exp.title_contains {
        Some(t) => {
            let title = to_lowercase(issue.title.as_str());
            let want = to_lowercase(t.as_str());
            let tc = chars_of(title.as_str());
            let wc = chars_of(want.as_str());
            contains_exec(tc.as_slice(), wc.as_slice())
        },
        None => true,
    }
}

pub open spec fn found_any(e: ExpectedIssue, issues: Seq<IssueModel>) -> bool {
    exists|k: int| 0 <= k < issues.len() && issue_matches_spec(e, #[trigger] issues[k])
}

pub open spec fn count_found(expected: Seq<ExpectedIssue>, issues: Seq<IssueModel>) -> nat
    decreases expected.len(),
{
    if expected.len() == 0 {
        0
    } else {
        count_found(expected.drop_last(), issues) + if found_any(expected.last(), issues) {
            1nat
        } else {
            0nat
        }
    }
}

fn any_match(exp: &ExpectedIssue, actual: &[CanonicalIssue]) -> (r: bool)
    ensures
        r == found_any(*exp, issue_models(actual@)),
{
    let ghost im = issue_models(actual@);
    let mut i: usize = 0;
    while i < actual.len()
        invariant
            i <= actual@.len(),
            im == issue_models(actual@),
            forall|k: int| 0 <= k < i ==> !issue_matches_spec(*exp, #[trigger] im[k]),
        decreases actual.len() - i,
    {
        assert(im[i as int] == actual@[i as int]@);
        if issue_matches(exp, &actual[i]) {
            return true;
        }
        i += 1;
    }
    false
}

/// How many expected issues some found issue meets.
pub fn count_matches(expected: &[ExpectedIssue], actual: &[CanonicalIssue]) -> (r: usize)
    ensures
        r == count_found(expected@, issue_models(actual@)),
{
    let mut n: usize = 0;
    let mut i: usize = 0;
    while i < expected.len()
        invariant
            i <= expected@.len(),
            n == count_found(expected@.take(i as int), issue_models(actual@)),
            n <= i,
        decreases expected.len() - i,
    {
        assert(expected@.take(i + 1).drop_last() =~= expected@.take(i as int));
        assert(expected@.take(i + 1).last() == expected@[i as int]);
        if any_match(&expected[i], actual) {
            n += 1;
        }
        i += 1;
    }
    assert(expected@.take(expected@.len() as int) =~= expected@);
    n
}

// ---------------------------------------------------------------------
// One-line text
// ---------------------------------------------------------------------

/// The text with newlines as spaces, cut to `max` characters with `...`
/// added when longer.
pub open spec fn truncate_line_spec(input: Seq<char>, max: usize) -> Seq<char> {
    let one = input.map_values(|c: char| if c == '\n' { ' ' } else { c });
    if one.len() <= max {
        one
    } else {
        one.take(max as int) + "..."@
    }
}

pub fn truncate_line(input: &str, max: usize) -> (r: String)
    ensures
        r@ == truncate_line_spec(input@, max),
{
    let cs = chars_of(input);
    let ghost one = input@.map_values(|c: char| if c == '\n' { ' ' } else { c });
    let mut out = String::new();
    let mut i: usize = 0;
    while i < cs.len() && i < max
        invariant
            i <= cs@.len(),
            i <= max,
            cs@ == input@,
            one == input@.map_values(|c: char| if c == '\n' { ' ' } else { c }),
            out@ == one.take(i as int),
        decreases cs.len() - i,
    {
        let c = cs[i];
        push_char(&mut out, if c == '\n' { ' ' } else { c });
        assert(one.take(i + 1) =~= one.take(i as int).push(one[i as int]));
        i += 1;
    }
    assert(one.len() == cs@.len());
    if cs.len() > max {
        assert(i == max);
        push_str(&mut out, "...");
    } else {
        assert(one.take(i as int) =~= one);
    }
    out
}

} // verus!
