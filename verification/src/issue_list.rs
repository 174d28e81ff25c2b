//! The issue list a review prints and exports: one row per canonical issue,
//! or, when a report has none, one row per group of findings that agree on
//! severity, file, lines and message (file and message compared normalized),
//! most severe first, then by location and title.
use vstd::prelude::*;
use crate::order::{chars_lt, compare_strings, Order3, lemma_chars_lt_asym, lemma_chars_lt_irrefl};
use crate::report::{
    clone_evidence, clone_opt_str, clone_strs, evidence_models, finding_models, issue_models, opt_str,
    severity_rank, severity_rank_spec, strs, CanonicalIssue, EvidenceAnchor, EvidenceModel, Finding, FindingModel,
    IssueModel, LineSpan, Severity,
};
use crate::review_report::ReviewReport;
use crate::summary::severity_upper;
use crate::synthesis::{dedup_adj, dedup_strings, norm_text, normalize_text, opt_u32_lt};
use crate::text::{decimal, join_with, push_char, push_decimal, push_str, push_string, str_eq};
use crate::report::{join_strs, AutoFix, FinalActionPlan, Verdict};
use crate::synthesis::bullets;
use crate::tracker::{sort_seqs, sort_strings};

verus! {

/// One line of the issue list.
#[derive(Clone, Debug)]
pub struct IssueRow {
    pub severity: Severity,
    pub category: Option<String>,
    pub file: Option<String>,
    pub line_start: Option<u32>,
    pub line_end: Option<u32>,
    pub location: String,
    pub title: String,
    pub description: String,
    pub suggested_fix: Option<String>,
    pub raised_by: Vec<String>,
    pub evidence: Vec<EvidenceAnchor>,
}

pub struct RowModel {
    pub severity: Severity,
    pub category: Option<Seq<char>>,
    pub file: Option<Seq<char>>,
    pub line_start: Option<u32>,
    pub line_end: Option<u32>,
    pub location: Seq<char>,
    pub title: Seq<char>,
    pub description: Seq<char>,
    pub suggested_fix: Option<Seq<char>>,
    pub raised_by: Seq<Seq<char>>,
    pub evidence: Seq<EvidenceModel>,
}

impl View for IssueRow {
    type V = RowModel;

    open spec fn view(&self) -> RowModel {
        RowModel {
            severity: self.severity,
            category: opt_str(self.category),
            file: opt_str(self.file),
            line_start: self.line_start,
            line_end: self.line_end,
            location: self.location@,
            title: self.title@,
            description: self.description@,
            suggested_fix: opt_str(self.suggested_fix),
            raised_by: strs(self.raised_by@),
            evidence: evidence_models(self.evidence@),
        }
    }
}

pub open spec fn row_models(v: Seq<IssueRow>) -> Seq<RowModel> {
    v.map_values(|r: IssueRow| r@)
}

/// The upper-case name the list shows for a severity.
pub fn format_severity(s: &Severity) -> (r: &'static str)
    ensures
        r@ == severity_upper(*s),
{
    match s {
        Severity::Critical => "CRITICAL",
        Severity::Warning => "WARNING",
        Severity::Info => "INFO",
    }
}

/// Where a row is: `file:start-end` for a range, `file:start`, `file`, or
/// `<unknown>`.
pub open spec fn span_location(file: Option<Seq<char>>, start: Option<u32>, end: Option<u32>) -> Seq<char> {
    match (file, start, end) {
        (Some(f), Some(s), Some(e)) => if s != e {
            f + ":"@ + decimal(s as nat) + "-"@ + decimal(e as nat)
        } else {
            f + ":"@ + decimal(s as nat)
        },
        (Some(f), Some(s), None) => f + ":"@ + decimal(s as nat),
        (Some(f), None, _) => f,
        _ => "<unknown>"@,
    }
}

fn span_location_exec(file: &Option<String>, start: Option<u32>, end: Option<u32>) -> (r: String)
    ensures
        r@ == span_location(opt_str(*file), start, end),
{
    match (file, start, end) {
        (Some(f), Some(s), Some(e)) => {
            let mut out = f.clone();
            push_str(&mut out, ":");
            push_decimal(&mut out, s as u64);
            if s != e {
                push_str(&mut out, "-");
                push_decimal(&mut out, e as u64);
            }
            out
        },
        (Some(f), Some(s), None) => {
            let mut out = f.clone();
            push_str(&mut out, ":");
            push_decimal(&mut out, s as u64);
            out
        },
        (Some(f), None, _) => f.clone(),
        _ => "<unknown>".to_owned(),
    }
}

// ---------------------------------------------------------------------
// Row order
// ---------------------------------------------------------------------

/// Row order: more severe first, then by location, then by title, then
/// (when `by_lines`) by start and end line, a missing line first.
pub open spec fn row_lt(a: RowModel, b: RowModel, by_lines: bool) -> bool {
    severity_rank_spec(a.severity) > severity_rank_spec(b.severity) || (severity_rank_spec(a.severity)
        == severity_rank_spec(b.severity) && (chars_lt(a.location, b.location) || (a.location == b.location && (
    chars_lt(a.title, b.title) || (a.title == b.title && by_lines && (opt_u32_lt(a.line_start, b.line_start) || (
    a.line_start == b.line_start && opt_u32_lt(a.line_end, b.line_end))))))))
}

fn opt_u32_before(a: Option<u32>, b: Option<u32>) -> (r: bool)
    ensures
        r == opt_u32_lt(a, b),
{
    match (a, b) {
        (None, Some(_)) => true,
        (Some(x), Some(y)) => x < y,
        _ => false,
    }
}

fn row_before(a: &IssueRow, b: &IssueRow, by_lines: bool) -> (r: bool)
    ensures
        r == row_lt(a@, b@, by_lines),
{
    let sa = severity_rank(&a.severity);
    let sb = severity_rank(&b.severity);
    if sa != sb {
        return sa > sb;
    }
    match compare_strings(&a.location, &b.location) {
        Order3::Less => {
            return true;
        },
        Order3::Greater => {
            proof {
                lemma_chars_lt_asym(b.location@, a.location@);
            }
            return false;
        },
        Order3::Equal => {},
    }
    match compare_strings(&a.title, &b.title) {
        Order3::Less => {
            return true;
        },
        Order3::Greater => {
            proof {
                lemma_chars_lt_asym(b.title@, a.title@);
            }
            return false;
        },
        Order3::Equal => {},
    }
    if !by_lines {
        return false;
    }
    if opt_u32_before(a.line_start, b.line_start) {
        return true;
    }
    a.line_start == b.line_start && opt_u32_before(a.line_end, b.line_end)
}

/// Where `x` goes in `s[i..]`: before the first row it sorts before.
pub open spec fn row_ins_pos(s: Seq<RowModel>, x: RowModel, by_lines: bool, i: int) -> int
    decreases s.len() - i,
{
    if i < 0 || i >= s.len() {
        s.len() as int
    } else if row_lt(x, s[i], by_lines) {
        i
    } else {
        row_ins_pos(s, x, by_lines, i + 1)
    }
}

proof fn lemma_row_ins_pos_range(s: Seq<RowModel>, x: RowModel, t: bool, i: int)
    requires
        0 <= i <= s.len(),
    ensures
        i <= row_ins_pos(s, x, t, i) <= s.len(),
    decreases s.len() - i,
{
    if i < s.len() && !row_lt(x, s[i], t) {
        lemma_row_ins_pos_range(s, x, t, i + 1);
    }
}

/// The rows in row order; rows that neither precedes keep their relative
/// order (a stable sort).
pub open spec fn sort_rows_spec(s: Seq<RowModel>, by_lines: bool) -> Seq<RowModel>
    decreases s.len(),
{
    if s.len() == 0 {
        seq![]
    } else {
        let t = sort_rows_spec(s.drop_last(), by_lines);
        t.insert(row_ins_pos(t, s.last(), by_lines, 0), s.last())
    }
}

fn sort_rows(v: Vec<IssueRow>, by_lines: bool) -> (r: Vec<IssueRow>)
    ensures
        row_models(r@) == sort_rows_spec(row_models(v@), by_lines),
{
    let ghost orig = row_models(v@);
    let n = v.len();
    let mut src = v;
    let mut out: Vec<IssueRow> = Vec::new();
    let mut done: usize = 0;
    while src.len() > 0
        invariant
            done + src@.len() == orig.len(),
            orig.len() == n,
            forall|k: int| 0 <= k < src@.len() ==> #[trigger] src@[k]@ == orig[done + k],
            row_models(out@) == sort_rows_spec(orig.take(done as int), by_lines),
        decreases src.len(),
    {
        let ghost t = row_models(out@);
        let ghost s0 = src@;
        assert(s0[0]@ == orig[done as int]);
        let x = src.remove(0);
        proof {
            assert(orig.take(done + 1).drop_last() =~= orig.take(done as int));
            assert(orig.take(done + 1).last() == x@);
            assert forall|k: int| 0 <= k < src@.len() implies #[trigger] src@[k]@ == orig[done + 1 + k] by {
                assert(src@[k] == s0[k + 1]);
            }
        }
        let mut p: usize = 0;
        while p < out.len() && !row_before(&x, &out[p], by_lines)
            invariant
                p <= out@.len(),
                t == row_models(out@),
                row_ins_pos(t, x@, by_lines, 0) == row_ins_pos(t, x@, by_lines, p as int),
            decreases out.len() - p,
        {
            assert(t[p as int] == out@[p as int]@);
            p += 1;
        }
        proof {
            if p < out@.len() {
                assert(t[p as int] == out@[p as int]@);
            }
            lemma_row_ins_pos_range(t, x@, by_lines, 0);
        }
        let ghost xm = x@;
        out.insert(p, x);
        assert(row_models(out@) =~= t.insert(p as int, xm));
        done += 1;
    }
    assert(orig.take(done as int) =~= orig);
    out
}

// ---------------------------------------------------------------------
// Rows of canonical issues
// ---------------------------------------------------------------------

pub open spec fn canonical_row(i: IssueModel) -> RowModel {
    RowModel {
        severity: i.severity,
        category: Some(i.category),
        file: i.file,
        line_start: i.line_start,
        line_end: i.line_end,
        location: span_location(i.file, i.line_start, i.line_end),
        title: i.title,
        description: i.description,
        suggested_fix: i.suggested_fix,
        raised_by: i.raised_by,
        evidence: i.evidence,
    }
}

pub open spec fn canonical_rows_spec(issues: Seq<IssueModel>) -> Seq<RowModel> {
    sort_rows_spec(issues.map_values(|i: IssueModel| canonical_row(i)), false)
}

/// One row per canonical issue, in row order (ties keep the issues' order).
pub fn build_issue_rows_from_canonical(issues: &[CanonicalIssue]) -> (r: Vec<IssueRow>)
    ensures
        row_models(r@) == canonical_rows_spec(issue_models(issues@)),
{
    let ghost im = issue_models(issues@);
    let mut rows: Vec<IssueRow> = Vec::new();
    let mut i: usize = 0;
    while i < issues.len()
        invariant
            i <= issues@.len(),
            im == issue_models(issues@),
            row_models(rows@) == im.take(i as int).map_values(|x: IssueModel| canonical_row(x)),
        decreases issues.len() - i,
    {
        let issue = &issues[i];
        let ghost before = row_models(rows@);
        rows.push(
            IssueRow {
                severity: issue.severity,
                category: Some(issue.category.clone()),
                file: clone_opt_str(&issue.file),
                line_start: issue.line_start,
                line_end: issue.line_end,
                location: span_location_exec(&issue.file, issue.line_start, issue.line_end),
                title: issue.title.clone(),
                description: issue.description.clone(),
                suggested_fix: clone_opt_str(&issue.suggested_fix),
                raised_by: clone_strs(&issue.raised_by),
                evidence: clone_evidence(&issue.evidence),
            },
        );
        assert(row_models(rows@) =~= before.push(canonical_row(issues@[i as int]@)));
        assert(im.take(i + 1).map_values(|x: IssueModel| canonical_row(x)) =~= im.take(i as int).map_values(
            |x: IssueModel| canonical_row(x),
        ).push(canonical_row(im[i as int])));
        i += 1;
    }
    assert(im.take(im.len() as int) =~= im);
    sort_rows(rows, false)
}

// ---------------------------------------------------------------------
// Rows of grouped findings
// ---------------------------------------------------------------------

/// What groups findings: severity, file and message (normalized), and lines.
pub type RowKey = (Severity, Option<Seq<char>>, Option<u32>, Option<u32>, Seq<char>);

pub open spec fn opt_norm(f: Option<Seq<char>>) -> Option<Seq<char>> {
    match f {
        Some(x) => Some(norm_text(x)),
        None => None,
    }
}

pub open spec fn span_start_of(s: Option<LineSpan>) -> Option<u32> {
    match s {
        Some(x) => Some(x.start),
        None => None,
    }
}

pub open spec fn span_end_of(s: Option<LineSpan>) -> Option<u32> {
    match s {
        Some(x) => Some(x.end),
        None => None,
    }
}

pub open spec fn row_key(f: FindingModel) -> RowKey {
    (f.severity, opt_norm(f.file), span_start_of(f.span), span_end_of(f.span), norm_text(f.message))
}

/// A group: its first finding and the agents of all its findings.
pub type FindingGroup = (FindingModel, Seq<Seq<char>>);

pub open spec fn key_pos(gs: Seq<FindingGroup>, k: RowKey, i: int) -> Option<int>
    decreases gs.len() - i,
{
    if i < 0 || i >= gs.len() {
        None
    } else if row_key(gs[i].0) == k {
        Some(i)
    } else {
        key_pos(gs, k, i + 1)
    }
}

/// The findings grouped by key, groups in order of first appearance.
pub open spec fn finding_groups(fs: Seq<FindingModel>) -> Seq<FindingGroup>
    decreases fs.len(),
{
    if fs.len() == 0 {
        seq![]
    } else {
        let gs = finding_groups(fs.drop_last());
        let f = fs.last();
        match key_pos(gs, row_key(f), 0) {
            Some(p) => gs.update(p, (gs[p].0, gs[p].1.push(f.agent))),
            None => gs.push((f, seq![f.agent])),
        }
    }
}

/// A group's row: its first finding's place and message, raised by the
/// group's agents (sorted, each once).
pub open spec fn group_row(g: FindingGroup) -> RowModel {
    let f = g.0;
    RowModel {
        severity: f.severity,
        category: None,
        file: f.file,
        line_start: span_start_of(f.span),
        line_end: span_end_of(f.span),
        location: span_location(f.file, span_start_of(f.span), span_end_of(f.span)),
        title: f.message,
        description: f.message,
        suggested_fix: None,
        raised_by: dedup_adj(sort_seqs(g.1)),
        evidence: seq![],
    }
}

pub open spec fn issue_list_spec(findings: Seq<FindingModel>, issues: Seq<IssueModel>) -> Seq<RowModel> {
    if issues.len() > 0 {
        canonical_rows_spec(issues)
    } else {
        sort_rows_spec(finding_groups(findings).map_values(|g: FindingGroup| group_row(g)), true)
    }
}

proof fn lemma_key_pos_found(gs: Seq<FindingGroup>, k: RowKey, i: int)
    ensures
        key_pos(gs, k, i) matches Some(p) ==> i <= p < gs.len() && row_key(gs[p].0) == k,
    decreases gs.len() - i,
{
    if 0 <= i < gs.len() && row_key(gs[i].0) != k {
        lemma_key_pos_found(gs, k, i + 1);
    }
}

/// A finding's key, computed.
struct ExecKey {
    severity: Severity,
    file: Option<String>,
    start: Option<u32>,
    end: Option<u32>,
    message: String,
}

spec fn exec_key_model(k: ExecKey) -> RowKey {
    (k.severity, opt_str(k.file), k.start, k.end, k.message@)
}

fn key_of_finding(f: &Finding) -> (k: ExecKey)
    ensures
        exec_key_model(k) == row_key(f@),
{
    let file = match &f.file {
        Some(x) => Some(normalize_text(x.as_str())),
        None => None,
    };
    let (start, end) = match f.span {
        Some(s) => (Some(s.start), Some(s.end)),
        None => (None, None),
    };
    ExecKey { severity: f.severity, file, start, end, message: normalize_text(f.message.as_str()) }
}

fn opt_string_eq(a: &Option<String>, b: &Option<String>) -> (r: bool)
    ensures
        r == (opt_str(*a) == opt_str(*b)),
{
    match (a, b) {
        (Some(x), Some(y)) => str_eq(x.as_str(), y.as_str()),
        (None, None) => true,
        _ => false,
    }
}

fn keys_eq(a: &ExecKey, b: &ExecKey) -> (r: bool)
    ensures
        r == (exec_key_model(*a) == exec_key_model(*b)),
{
    a.severity == b.severity && opt_string_eq(&a.file, &b.file) && a.start == b.start && a.end == b.end && str_eq(
        a.message.as_str(),
        b.message.as_str(),
    )
}

spec fn slot_ok(fm: Seq<FindingModel>, first: usize, agents: Vec<String>, key: ExecKey, g: FindingGroup, bound: int) -> bool {
    &&& first < bound
    &&& fm[first as int] == g.0
    &&& strs(agents@) == g.1
    &&& exec_key_model(key) == row_key(g.0)
}

/// The rows of a report: its canonical issues when it has any, else its
/// findings grouped by severity, file, lines and message.
pub fn build_issue_list(report: &ReviewReport) -> (r: Vec<IssueRow>)
    ensures
        row_models(r@) == issue_list_spec(finding_models(report.findings@), issue_models(report.issues@)),
{
    if report.issues.len() > 0 {
        return build_issue_rows_from_canonical(report.issues.as_slice());
    }
    let fs = &report.findings;
    let ghost fm = finding_models(fs@);
    let mut keys: Vec<ExecKey> = Vec::new();
    let mut firsts: Vec<usize> = Vec::new();
    let mut agents: Vec<Vec<String>> = Vec::new();
    let ghost mut gm: Seq<FindingGroup> = seq![];
    let mut i: usize = 0;
    while i < fs.len()
        invariant
            i <= fs@.len(),
            fm == finding_models(fs@),
            gm == finding_groups(fm.take(i as int)),
            keys@.len() == gm.len(),
            firsts@.len() == gm.len(),
            agents@.len() == gm.len(),
            forall|j: int| 0 <= j < gm.len() ==> #[trigger] slot_ok(fm, firsts@[j], agents@[j], keys@[j], gm[j], i as int),
        decreases fs.len() - i,
    {
        assert(fm.take(i + 1).drop_last() =~= fm.take(i as int));
        assert(fm.take(i + 1).last() == fs@[i as int]@);
        assert(fm[i as int] == fs@[i as int]@);
        let k = key_of_finding(&fs[i]);
        let mut p: usize = 0;
        while p < keys.len() && !keys_eq(&keys[p], &k)
            invariant
                p <= keys@.len(),
                i < fs@.len(),
                exec_key_model(k) == row_key(fs@[i as int]@),
                keys@.len() == gm.len(),
                firsts@.len() == gm.len(),
                agents@.len() == gm.len(),
                forall|j: int| 0 <= j < gm.len() ==> #[trigger] slot_ok(fm, firsts@[j], agents@[j], keys@[j], gm[j], i as int),
                key_pos(gm, row_key(fs@[i as int]@), 0) == key_pos(gm, row_key(fs@[i as int]@), p as int),
            decreases keys.len() - p,
        {
            assert(slot_ok(fm, firsts@[p as int], agents@[p as int], keys@[p as int], gm[p as int], i as int));
            p += 1;
        }
        let ghost ngm = finding_groups(fm.take(i + 1));
        if p < keys.len() {
            assert(slot_ok(fm, firsts@[p as int], agents@[p as int], keys@[p as int], gm[p as int], i as int));
            assert(key_pos(gm, row_key(fs@[i as int]@), p as int) == Some(p as int));
            assert(ngm == gm.update(p as int, (gm[p as int].0, gm[p as int].1.push(fs@[i as int]@.agent))));
            let ghost old_agents = agents@;
            let mut list = agents.remove(p);
            let ghost before = strs(list@);
            list.push(fs[i].agent.clone());
            assert(strs(list@) =~= before.push(fs@[i as int].agent@));
            agents.insert(p, list);
            assert forall|j: int| 0 <= j < ngm.len() implies #[trigger] slot_ok(fm, firsts@[j], agents@[j], keys@[j], ngm[j], i + 1) by {
                assert(slot_ok(fm, firsts@[j], old_agents[j], keys@[j], gm[j], i as int));
                if j != p {
                    assert(agents@[j] == old_agents[j]);
                    assert(ngm[j] == gm[j]);
                }
            }
        } else {
            assert(key_pos(gm, row_key(fs@[i as int]@), 0) is None);
            assert(ngm == gm.push((fs@[i as int]@, seq![fs@[i as int]@.agent])));
            keys.push(k);
            firsts.push(i);
            let mut list: Vec<String> = Vec::new();
            list.push(fs[i].agent.clone());
            assert(strs(list@) =~= seq![fs@[i as int]@.agent]);
            agents.push(list);
            assert forall|j: int| 0 <= j < ngm.len() implies #[trigger] slot_ok(fm, firsts@[j], agents@[j], keys@[j], ngm[j], i + 1) by {
                if j < gm.len() {
                    assert(slot_ok(fm, firsts@[j], agents@[j], keys@[j], gm[j], i as int));
                    assert(ngm[j] == gm[j]);
                }
            }
        }
        proof {
            gm = ngm;
        }
        i += 1;
    }
    assert(fm.take(fs@.len() as int) =~= fm);
    let ghost gs = gm;
    let mut rows: Vec<IssueRow> = Vec::new();
    let mut j: usize = 0;
    while j < firsts.len()
        invariant
            j <= firsts@.len(),
            fm == finding_models(fs@),
            gs == finding_groups(fm),
            agents@.len() == gs.len(),
            firsts@.len() == gs.len(),
            keys@.len() == gs.len(),
            forall|t: int| 0 <= t < gs.len() ==> #[trigger] slot_ok(fm, firsts@[t], agents@[t], keys@[t], gs[t], fs@.len() as int),
            row_models(rows@) == gs.take(j as int).map_values(|g: FindingGroup| group_row(g)),
        decreases firsts.len() - j,
    {
        assert(slot_ok(fm, firsts@[j as int], agents@[j as int], keys@[j as int], gs[j as int], fs@.len() as int));
        let f = &fs[firsts[j]];
        let ghost g = gs[j as int];
        assert(f@ == g.0);
        let sorted = sort_strings(&agents[j]);
        let raised_by = dedup_strings(sorted);
        let (start, end) = match f.span {
            Some(s) => (Some(s.start), Some(s.end)),
            None => (None, None),
        };
        let ghost before = row_models(rows@);
        let row = IssueRow {
            severity: f.severity,
            category: None,
            file: clone_opt_str(&f.file),
            line_start: start,
            line_end: end,
            location: span_location_exec(&f.file, start, end),
            title: f.message.clone(),
            description: f.message.clone(),
            suggested_fix: None,
            raised_by,
            evidence: Vec::new(),
        };
        assert(row@.evidence =~= seq![]);
        assert(row@ == group_row(g));
        rows.push(row);
        assert(row_models(rows@) =~= before.push(group_row(g)));
        assert(gs.take(j + 1).map_values(|g: FindingGroup| group_row(g)) =~= gs.take(j as int).map_values(
            |g: FindingGroup| group_row(g),
        ).push(group_row(g)));
        j += 1;
    }
    assert(gs.take(gs.len() as int) =~= gs);
    sort_rows(rows, true)
}

// ---------------------------------------------------------------------
// The issue list as markdown
// ---------------------------------------------------------------------

pub open spec fn opt_line(label: Seq<char>, v: Option<Seq<char>>) -> Seq<char> {
    match v {
        Some(x) => label + x + "\n"@,
        None => seq![],
    }
}

/// One exported issue, numbered from one.
pub open spec fn export_entry(r: RowModel, n: nat) -> Seq<char> {
    decimal(n) + ". ["@ + severity_upper(r.severity) + "] `"@ + r.location + "` "@ + r.title
        + "\n   - raised_by: "@ + join_with(r.raised_by, ", "@) + "\n   - description: "@ + r.description + "\n"@
        + opt_line("   - category: "@, r.category) + opt_line("   - suggested_fix: "@, r.suggested_fix)
}

pub open spec fn export_entries(rows: Seq<RowModel>) -> Seq<char>
    decreases rows.len(),
{
    if rows.len() == 0 {
        seq![]
    } else {
        export_entries(rows.drop_last()) + export_entry(rows.last(), rows.len())
    }
}

pub open spec fn issues_markdown_spec(rows: Seq<RowModel>) -> Seq<char> {
    "# Crucible Issues\n\n"@ + export_entries(rows)
}

fn push_opt_line(out: &mut String, label: &str, v: &Option<String>)
    ensures
        final(out)@ == old(out)@ + opt_line(label@, opt_str(*v)),
{
    match v {
        Some(x) => {
            push_str(out, label);
            push_string(out, x);
            push_str(out, "\n");
        },
        None => {},
    }
}

fn push_export_entry(out: &mut String, r: &IssueRow, n: u64)
    ensures
        final(out)@ == old(out)@ + export_entry(r@, n as nat),
{
    push_decimal(out, n);
    push_str(out, ". [");
    push_str(out, format_severity(&r.severity));
    push_str(out, "] `");
    push_string(out, &r.location);
    push_str(out, "` ");
    push_string(out, &r.title);
    push_str(out, "\n   - raised_by: ");
    let joined = join_strs(&r.raised_by, ", ");
    push_string(out, &joined);
    push_str(out, "\n   - description: ");
    push_string(out, &r.description);
    push_str(out, "\n");
    push_opt_line(out, "   - category: ", &r.category);
    push_opt_line(out, "   - suggested_fix: ", &r.suggested_fix);
}

/// The issue list as a markdown export: a numbered entry per row with who
/// raised it, its description, and its category and fix when known.
pub fn render_issues_markdown(rows: &[IssueRow]) -> (r: String)
    requires
        rows@.len() < u64::MAX,
    ensures
        r@ == issues_markdown_spec(row_models(rows@)),
{
    let ghost rm = row_models(rows@);
    let mut out = "# Crucible Issues\n\n".to_owned();
    let ghost head = out@;
    let mut i: usize = 0;
    while i < rows.len()
        invariant
            i <= rows@.len(),
            rows@.len() < u64::MAX,
            rm == row_models(rows@),
            out@ == head + export_entries(rm.take(i as int)),
        decreases rows.len() - i,
    {
        assert(rm.take(i + 1).drop_last() =~= rm.take(i as int));
        assert(rm.take(i + 1).last() == rows@[i as int]@);
        let r = &rows[i];
        let ghost before = out@;
        push_export_entry(&mut out, r, (i + 1) as u64);
        assert(rm.take(i + 1).len() == i + 1);
        assert(out@ =~= head + export_entries(rm.take(i + 1)));
        i += 1;
    }
    assert(rm.take(rm.len() as int) =~= rm);
    out
}

// ---------------------------------------------------------------------
// The printed report
// ---------------------------------------------------------------------

pub open spec fn spaces(n: nat) -> Seq<char> {
    Seq::new(n, |i: int| ' ')
}

/// Left-aligned in a field of `w` characters (`{:w}`).
pub open spec fn pad_right(s: Seq<char>, w: nat) -> Seq<char> {
    if s.len() >= w {
        s
    } else {
        s + spaces((w - s.len()) as nat)
    }
}

/// Right-aligned in a field of `w` characters (`{:>w}`).
pub open spec fn pad_left(s: Seq<char>, w: nat) -> Seq<char> {
    if s.len() >= w {
        s
    } else {
        spaces((w - s.len()) as nat) + s
    }
}

fn push_spaces(out: &mut String, n: usize)
    ensures
        final(out)@ == old(out)@ + spaces(n as nat),
{
    let ghost start = out@;
    let mut i: usize = 0;
    while i < n
        invariant
            i <= n,
            out@ == start + spaces(i as nat),
        decreases n - i,
    {
        push_char(out, ' ');
        assert(spaces((i + 1) as nat) =~= spaces(i as nat).push(' '));
        i += 1;
    }
}

fn push_padded_right(out: &mut String, s: &String, w: usize)
    ensures
        final(out)@ == old(out)@ + pad_right(s@, w as nat),
{
    let n = crate::text::chars_of(s.as_str()).len();
    push_string(out, s);
    if n < w {
        push_spaces(out, w - n);
    }
}

fn push_padded_left(out: &mut String, s: &String, w: usize)
    ensures
        final(out)@ == old(out)@ + pad_left(s@, w as nat),
{
    let n = crate::text::chars_of(s.as_str()).len();
    if n < w {
        push_spaces(out, w - n);
    }
    push_string(out, s);
}

/// One printed issue, numbered from one.
pub open spec fn printed_issue(r: RowModel, n: nat) -> Seq<char> {
    "  "@ + pad_left(decimal(n), 2) + ". ["@ + pad_right(severity_upper(r.severity), 8) + "] "@ + r.location + " "@
        + r.title + " ["@ + join_with(r.raised_by, ", "@) + "]\n      "@ + r.description + "\n"@ + opt_line(
        "      fix: "@,
        r.suggested_fix,
    )
}

pub open spec fn printed_issues(rows: Seq<RowModel>) -> Seq<char>
    decreases rows.len(),
{
    if rows.len() == 0 {
        seq![]
    } else {
        printed_issues(rows.drop_last()) + printed_issue(rows.last(), rows.len())
    }
}

/// Where a printed finding is: `file:start`, `file`, or `<unknown>`.
pub open spec fn finding_place(f: FindingModel) -> Seq<char> {
    match (f.file, f.span) {
        (Some(file), Some(span)) => file + ":"@ + decimal(span.start as nat),
        (Some(file), None) => file,
        _ => "<unknown>"@,
    }
}

pub open spec fn printed_findings(fs: Seq<FindingModel>) -> Seq<char>
    decreases fs.len(),
{
    if fs.len() == 0 {
        seq![]
    } else {
        let f = fs.last();
        printed_findings(fs.drop_last()) + "  ["@ + pad_right(severity_upper(f.severity), 8) + "]  "@ + pad_right(
            finding_place(f),
            20,
        ) + "  "@ + f.message + "\n"@
    }
}

pub open spec fn count_findings(fs: Seq<FindingModel>, s: Severity) -> nat
    decreases fs.len(),
{
    if fs.len() == 0 {
        0
    } else {
        count_findings(fs.drop_last(), s) + if fs.last().severity == s {
            1nat
        } else {
            0nat
        }
    }
}

pub open spec fn lines_with(prefix: Seq<char>, items: Seq<Seq<char>>) -> Seq<char>
    decreases items.len(),
{
    if items.len() == 0 {
        seq![]
    } else {
        lines_with(prefix, items.drop_last()) + prefix + items.last() + "\n"@
    }
}

pub open spec fn plan_text(p: Option<(Seq<Seq<char>>, Seq<Seq<char>>)>) -> Seq<char> {
    match p {
        Some((steps, wins)) => "\nAction Plan:\n"@ + lines_with("  - "@, steps) + if wins.len() == 0 {
            seq![]
        } else {
            "Quick Wins:\n"@ + lines_with("  - "@, wins)
        },
        None => seq![],
    }
}

pub open spec fn outcome_name(v: Verdict) -> Seq<char> {
    match v {
        Verdict::Block => "BLOCK"@,
        Verdict::Warn => "WARN"@,
        Verdict::Pass => "PASS"@,
    }
}

pub open spec fn plan_of(p: Option<FinalActionPlan>) -> Option<(Seq<Seq<char>>, Seq<Seq<char>>)> {
    match p {
        Some(x) => Some((strs(x.prioritized_steps@), strs(x.quick_wins@))),
        None => None,
    }
}

pub open spec fn opt_block(label: Seq<char>, v: Option<Seq<char>>) -> Seq<char> {
    match v {
        Some(x) => label + x + "\n"@,
        None => seq![],
    }
}

/// The report as printed to a terminal.
pub open spec fn report_text_spec(
    fs: Seq<FindingModel>,
    rows: Seq<RowModel>,
    final_analysis: Option<Seq<char>>,
    plan: Option<(Seq<Seq<char>>, Seq<Seq<char>>)>,
    pr_comment: Option<Seq<char>>,
    has_auto_fix: bool,
    verdict: Verdict,
) -> Seq<char> {
    "\nIssues Found ("@ + decimal(rows.len()) + " unique, "@ + decimal(fs.len()) + " total across agents)\n"@
        + printed_issues(rows) + "Crucible Review — "@ + decimal(fs.len()) + " findings ("@ + decimal(
        count_findings(fs, Severity::Critical),
    ) + " Critical, "@ + decimal(count_findings(fs, Severity::Warning)) + " Warning, "@ + decimal(
        count_findings(fs, Severity::Info),
    ) + " Info)\n\n"@ + printed_findings(fs) + report_tail(final_analysis, plan, pr_comment, has_auto_fix, verdict)
}

fn push_lines_with(out: &mut String, prefix: &str, items: &Vec<String>)
    ensures
        final(out)@ == old(out)@ + lines_with(prefix@, strs(items@)),
{
    let ghost start = out@;
    let ghost m = strs(items@);
    let mut i: usize = 0;
    while i < items.len()
        invariant
            i <= items@.len(),
            m == strs(items@),
            out@ == start + lines_with(prefix@, m.take(i as int)),
        decreases items.len() - i,
    {
        assert(m.take(i + 1).drop_last() =~= m.take(i as int));
        assert(m.take(i + 1).last() == items@[i as int]@);
        push_str(out, prefix);
        push_string(out, &items[i]);
        push_str(out, "\n");
        assert(out@ =~= start + lines_with(prefix@, m.take(i + 1)));
        i += 1;
    }
    assert(m.take(m.len() as int) =~= m);
}

fn push_printed_issue(out: &mut String, r: &IssueRow, n: u64)
    ensures
        final(out)@ == old(out)@ + printed_issue(r@, n as nat),
{
    push_str(out, "  ");
    let mut num = String::new();
    push_decimal(&mut num, n);
    push_padded_left(out, &num, 2);
    push_str(out, ". [");
    let sev = format_severity(&r.severity).to_owned();
    push_padded_right(out, &sev, 8);
    push_str(out, "] ");
    push_string(out, &r.location);
    push_str(out, " ");
    push_string(out, &r.title);
    push_str(out, " [");
    let joined = join_strs(&r.raised_by, ", ");
    push_string(out, &joined);
    push_str(out, "]\n      ");
    push_string(out, &r.description);
    push_str(out, "\n");
    push_opt_line(out, "      fix: ", &r.suggested_fix);
}

fn push_printed_finding(out: &mut String, f: &Finding)
    ensures
        final(out)@ == old(out)@ + "  ["@ + pad_right(severity_upper(f@.severity), 8) + "]  "@ + pad_right(
            finding_place(f@),
            20,
        ) + "  "@ + f@.message + "\n"@,
{
    push_str(out, "  [");
    let sev = format_severity(&f.severity).to_owned();
    push_padded_right(out, &sev, 8);
    push_str(out, "]  ");
    let place = match (&f.file, f.span) {
        (Some(file), Some(span)) => {
            let mut p = file.clone();
            push_str(&mut p, ":");
            push_decimal(&mut p, span.start as u64);
            p
        },
        (Some(file), None) => file.clone(),
        _ => "<unknown>".to_owned(),
    };
    push_padded_right(out, &place, 20);
    push_str(out, "  ");
    push_string(out, &f.message);
    push_str(out, "\n");
}

pub(crate) fn count_findings_exec(fs: &Vec<Finding>, s: Severity) -> (r: usize)
    ensures
        r == count_findings(finding_models(fs@), s),
{
    let ghost m = finding_models(fs@);
    let mut n: usize = 0;
    let mut i: usize = 0;
    while i < fs.len()
        invariant
            i <= fs@.len(),
            m == finding_models(fs@),
            n == count_findings(m.take(i as int), s),
            n <= i,
        decreases fs.len() - i,
    {
        assert(m.take(i + 1).drop_last() =~= m.take(i as int));
        assert(m.take(i + 1).last() == fs@[i as int]@);
        if fs[i].severity == s {
            n += 1;
        }
        i += 1;
    }
    assert(m.take(m.len() as int) =~= m);
    n
}

fn push_printed_issues(out: &mut String, issues: &[IssueRow])
    requires
        issues@.len() < u64::MAX,
    ensures
        final(out)@ == old(out)@ + printed_issues(row_models(issues@)),
{
    let ghost rm = row_models(issues@);
    let ghost head = out@;
    let mut i: usize = 0;
    while i < issues.len()
        invariant
            i <= issues@.len(),
            issues@.len() < u64::MAX,
            rm == row_models(issues@),
            out@ == head + printed_issues(rm.take(i as int)),
        decreases issues.len() - i,
    {
        assert(rm.take(i + 1).drop_last() =~= rm.take(i as int));
        assert(rm.take(i + 1).last() == issues@[i as int]@);
        assert(rm.take(i + 1).len() == i + 1);
        push_printed_issue(out, &issues[i], (i + 1) as u64);
        assert(out@ =~= head + printed_issues(rm.take(i + 1)));
        i += 1;
    }
    assert(rm.take(rm.len() as int) =~= rm);
}

fn push_printed_findings(out: &mut String, fs: &Vec<Finding>)
    ensures
        final(out)@ == old(out)@ + printed_findings(finding_models(fs@)),
{
    let ghost fm = finding_models(fs@);
    let ghost mid = out@;
    let mut k: usize = 0;
    while k < fs.len()
        invariant
            k <= fs@.len(),
            fm == finding_models(fs@),
            out@ == mid + printed_findings(fm.take(k as int)),
        decreases fs.len() - k,
    {
        assert(fm.take(k + 1).drop_last() =~= fm.take(k as int));
        assert(fm.take(k + 1).last() == fs@[k as int]@);
        push_printed_finding(out, &fs[k]);
        assert(out@ =~= mid + printed_findings(fm.take(k + 1)));
        k += 1;
    }
    assert(fm.take(fm.len() as int) =~= fm);
}

pub open spec fn report_tail(
    final_analysis: Option<Seq<char>>,
    plan: Option<(Seq<Seq<char>>, Seq<Seq<char>>)>,
    pr_comment: Option<Seq<char>>,
    has_auto_fix: bool,
    verdict: Verdict,
) -> Seq<char> {
    opt_block("\nFinal Analysis:\n"@, final_analysis) + plan_text(plan) + opt_block("\nPR Comment Artifact:\n"@, pr_comment)
        + (if has_auto_fix {
        "\nAuto-fix available. Run with TUI to apply: crucible review\n"@
    } else {
        seq![]
    }) + "\nOutcome: "@ + outcome_name(verdict) + "\n"@
}

fn push_opt_block(out: &mut String, label: &str, v: &Option<String>)
    ensures
        final(out)@ == old(out)@ + opt_block(label@, opt_str(*v)),
{
    match v {
        Some(a) => {
            push_str(out, label);
            push_string(out, a);
            push_str(out, "\n");
        },
        None => {},
    }
}

fn push_plan_text(out: &mut String, plan: &Option<FinalActionPlan>)
    ensures
        final(out)@ == old(out)@ + plan_text(plan_of(*plan)),
{
    match plan {
        Some(p) => {
            let ghost start = out@;
            push_str(out, "\nAction Plan:\n");
            push_lines_with(out, "  - ", &p.prioritized_steps);
            let ghost mid = out@;
            if p.quick_wins.len() > 0 {
                push_str(out, "Quick Wins:\n");
                push_lines_with(out, "  - ", &p.quick_wins);
            }
            assert(out@ =~= start + plan_text(plan_of(*plan)));
        },
        None => {},
    }
}

fn push_outcome(out: &mut String, v: Verdict)
    ensures
        final(out)@ == old(out)@ + "\nOutcome: "@ + outcome_name(v) + "\n"@,
{
    push_str(out, "\nOutcome: ");
    match v {
        Verdict::Block => push_str(out, "BLOCK"),
        Verdict::Warn => push_str(out, "WARN"),
        Verdict::Pass => push_str(out, "PASS"),
    }
    push_str(out, "\n");
}

fn push_report_tail(out: &mut String, report: &ReviewReport)
    ensures
        final(out)@ == old(out)@ + report_tail(
            opt_str(report.final_analysis_markdown),
            plan_of(report.final_action_plan),
            opt_str(report.pr_comment_markdown),
            report.auto_fix is Some,
            report.verdict,
        ),
{
    let ghost start = out@;
    push_opt_block(out, "\nFinal Analysis:\n", &report.final_analysis_markdown);
    push_plan_text(out, &report.final_action_plan);
    push_opt_block(out, "\nPR Comment Artifact:\n", &report.pr_comment_markdown);
    let ghost t3 = out@;
    if report.auto_fix.is_some() {
        push_str(out, "\nAuto-fix available. Run with TUI to apply: crucible review\n");
    }
    push_outcome(out, report.verdict);
    assert(out@ =~= start + report_tail(
        opt_str(report.final_analysis_markdown),
        plan_of(report.final_action_plan),
        opt_str(report.pr_comment_markdown),
        report.auto_fix is Some,
        report.verdict,
    ));
}

/// The report as printed: the issue list, the counts and lines of all
/// findings, the final analysis, the action plan, the pull-request comment,
/// the auto-fix notice and the outcome.
pub fn report_text(report: &ReviewReport, issues: &[IssueRow]) -> (r: String)
    requires
        issues@.len() < u64::MAX,
    ensures
        r@ == report_text_spec(
            finding_models(report.findings@),
            row_models(issues@),
            opt_str(report.final_analysis_markdown),
            plan_of(report.final_action_plan),
            opt_str(report.pr_comment_markdown),
            report.auto_fix is Some,
            report.verdict,
        ),
{
    let ghost fm = finding_models(report.findings@);
    let ghost rm = row_models(issues@);
    let mut out = "\nIssues Found (".to_owned();
    push_decimal(&mut out, issues.len() as u64);
    push_str(&mut out, " unique, ");
    push_decimal(&mut out, report.findings.len() as u64);
    push_str(&mut out, " total across agents)\n");
    push_printed_issues(&mut out, issues);
    push_str(&mut out, "Crucible Review — ");
    push_decimal(&mut out, report.findings.len() as u64);
    push_str(&mut out, " findings (");
    let c = count_findings_exec(&report.findings, Severity::Critical);
    push_decimal(&mut out, c as u64);
    push_str(&mut out, " Critical, ");
    let w = count_findings_exec(&report.findings, Severity::Warning);
    push_decimal(&mut out, w as u64);
    push_str(&mut out, " Warning, ");
    let n = count_findings_exec(&report.findings, Severity::Info);
    push_decimal(&mut out, n as u64);
    push_str(&mut out, " Info)\n\n");
    push_printed_findings(&mut out, &report.findings);
    push_report_tail(&mut out, report);
    assert(out@ =~= report_text_spec(
        fm,
        rm,
        opt_str(report.final_analysis_markdown),
        plan_of(report.final_action_plan),
        opt_str(report.pr_comment_markdown),
        report.auto_fix is Some,
        report.verdict,
    ));
    out
}

} // verus!
