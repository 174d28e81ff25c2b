//! From findings to the final report: canonical issues grouped by place and
//! title, merged with structured issues, ordered by severity and location,
//! and turned into an action plan and a pull-request summary.
use vstd::prelude::*;
use crate::order::{chars_lt, compare_chars, Order3, lemma_chars_lt_total, lemma_chars_lt_asym, lemma_chars_lt_irrefl};
use crate::reference::{components, path_components};
use crate::report::{
    clone_evidence, clone_opt_str, evidence_models, finding_models, issue_models, opt_str,
    severity_name, severity_name_str, severity_rank, severity_rank_spec, strs, CanonicalIssue,
    EvidenceAnchor, EvidenceModel, FinalActionPlan, Finding, FindingModel, IssueModel, LineSpan,
    Severity,
};
use crate::text::{
    chars_of, decimal, join, join_with, push_decimal, push_str, push_string, seqs, spec_lowercase,
    str_eq, string_of, to_lowercase, trim, trim_of, words, words_of,
};
use crate::tracker::{opt_paths_eq, paths_eq, sort_seqs, sort_strings, span_start};

verus! {

// ---------------------------------------------------------------------
// Text normalization
// ---------------------------------------------------------------------

/// Text with its words joined by single spaces, lowercased.
pub open spec fn norm_text(s: Seq<char>) -> Seq<char> {
    spec_lowercase(join_with(words_of(trim_of(s)), " "@))
}

pub fn normalize_text(input: &str) -> (r: String)
    ensures
        r@ == norm_text(input@),
{
    let c = chars_of(input);
    let t = trim(c.as_slice());
    let ws = words(t.as_slice());
    let sp = chars_of(" ");
    let j = join(&ws, sp.as_slice());
    let js = string_of(j.as_slice());
    to_lowercase(js.as_str())
}

// ---------------------------------------------------------------------
// Path and issue order
// ---------------------------------------------------------------------

/// Component kinds order root, current dir, parent dir, then named
/// components (by their text).
pub open spec fn comp_rank(c: Seq<char>) -> int {
    if c == seq!['/'] {
        0
    } else if c == seq!['.'] {
        1
    } else if c == seq!['.', '.'] {
        2
    } else {
        3
    }
}

pub open spec fn comp_lt(a: Seq<char>, b: Seq<char>) -> bool {
    comp_rank(a) < comp_rank(b) || (comp_rank(a) == comp_rank(b) && comp_rank(a) == 3 && chars_lt(a, b))
}

/// Lexicographic order on component sequences (the order of `Path`).
pub open spec fn comps_lt(a: Seq<Seq<char>>, b: Seq<Seq<char>>) -> bool
    decreases a.len(),
{
    if a.len() == 0 {
        b.len() > 0
    } else if b.len() == 0 {
        false
    } else if comp_lt(a[0], b[0]) {
        true
    } else if comp_lt(b[0], a[0]) {
        false
    } else {
        comps_lt(a.drop_first(), b.drop_first())
    }
}

pub open spec fn path_lt(a: Seq<char>, b: Seq<char>) -> bool {
    comps_lt(components(a), components(b))
}

/// `None` sorts first.
pub open spec fn opt_path_lt(a: Option<Seq<char>>, b: Option<Seq<char>>) -> bool {
    match (a, b) {
        (None, Some(_)) => true,
        (Some(x), Some(y)) => path_lt(x, y),
        _ => false,
    }
}

pub open spec fn opt_u32_lt(a: Option<u32>, b: Option<u32>) -> bool {
    match (a, b) {
        (None, Some(_)) => true,
        (Some(x), Some(y)) => x < y,
        _ => false,
    }
}

/// Issue order: higher severity first, then by file, then by start line,
/// then (when `by_title`) by title.
pub open spec fn issue_lt(a: IssueModel, b: IssueModel, by_title: bool) -> bool {
    severity_rank_spec(a.severity) > severity_rank_spec(b.severity) || (severity_rank_spec(a.severity)
        == severity_rank_spec(b.severity) && (opt_path_lt(a.file, b.file) || (opt_paths_eq(a.file, b.file) && (
    opt_u32_lt(a.line_start, b.line_start) || (a.line_start == b.line_start && by_title && chars_lt(
        a.title,
        b.title,
    ))))))
}

fn comp_rank_exec(c: &Vec<char>) -> (r: u8)
    ensures
        r == comp_rank(c@),
{
    if c.len() == 1 && c[0] == '/' {
        assert(c@ =~= seq!['/']);
        0
    } else if c.len() == 1 && c[0] == '.' {
        assert(c@ =~= seq!['.']);
        1
    } else if c.len() == 2 && c[0] == '.' && c[1] == '.' {
        assert(c@ =~= seq!['.', '.']);
        2
    } else {
        proof {
            if c@ == seq!['/'] {
                assert(c@[0] == '/');
            }
            if c@ == seq!['.'] {
                assert(c@[0] == '.');
            }
            if c@ == seq!['.', '.'] {
                assert(c@[0] == '.' && c@[1] == '.');
            }
        }
        3
    }
}

proof fn lemma_comp_total(a: Seq<char>, b: Seq<char>)
    ensures
        comp_lt(a, b) || comp_lt(b, a) || a == b,
        !(comp_lt(a, b) && comp_lt(b, a)),
{
    lemma_chars_lt_total(a, b);
    if chars_lt(a, b) {
        lemma_chars_lt_asym(a, b);
    }
}

pub fn comps_order(a: &Vec<Vec<char>>, b: &Vec<Vec<char>>) -> (r: Order3)
    ensures
        (r == Order3::Less) == comps_lt(seqs(a@), seqs(b@)),
        (r == Order3::Greater) == comps_lt(seqs(b@), seqs(a@)),
        (r == Order3::Equal) == (seqs(a@) == seqs(b@)),
{
    let ghost sa = seqs(a@);
    let ghost sb = seqs(b@);
    let mut i: usize = 0;
    assert(sa.skip(0) =~= sa);
    assert(sb.skip(0) =~= sb);
    while i < a.len() && i < b.len()
        invariant
            sa == seqs(a@),
            sb == seqs(b@),
            i <= a@.len(),
            i <= b@.len(),
            sa.take(i as int) == sb.take(i as int),
            comps_lt(sa, sb) == comps_lt(sa.skip(i as int), sb.skip(i as int)),
            comps_lt(sb, sa) == comps_lt(sb.skip(i as int), sa.skip(i as int)),
        decreases a.len() - i,
    {
        let ra = comp_rank_exec(&a[i]);
        let rb = comp_rank_exec(&b[i]);
        assert(sa[i as int] == a@[i as int]@);
        assert(sb[i as int] == b@[i as int]@);
        assert(sa.skip(i as int)[0] == sa[i as int]);
        assert(sb.skip(i as int)[0] == sb[i as int]);
        proof {
            lemma_comp_total(sa[i as int], sb[i as int]);
        }
        if ra < rb {
            return Order3::Less;
        }
        if rb < ra {
            return Order3::Greater;
        }
        if ra == 3 {
            match compare_chars(a[i].as_slice(), b[i].as_slice()) {
                Order3::Less => {
                    return Order3::Less;
                },
                Order3::Greater => {
                    return Order3::Greater;
                },
                Order3::Equal => {},
            }
        } else {
            proof {
                if ra == 0 {
                    assert(sa[i as int] == seq!['/'] && sb[i as int] == seq!['/']);
                } else if ra == 1 {
                    assert(sa[i as int] == seq!['.'] && sb[i as int] == seq!['.']);
                } else {
                    assert(sa[i as int] == seq!['.', '.'] && sb[i as int] == seq!['.', '.']);
                }
            }
        }
        assert(sa[i as int] == sb[i as int]);
        assert(sa.skip(i as int).drop_first() =~= sa.skip(i + 1));
        assert(sb.skip(i as int).drop_first() =~= sb.skip(i + 1));
        assert(sa.take(i + 1) =~= sa.take(i as int).push(sa[i as int]));
        assert(sb.take(i + 1) =~= sb.take(i as int).push(sb[i as int]));
        i += 1;
    }
    if i < a.len() {
        assert(sb.take(i as int) =~= sb);
        assert(sa.skip(i as int).len() > 0);
        assert(sa != sb);
        Order3::Greater
    } else if i < b.len() {
        assert(sa.take(i as int) =~= sa);
        assert(sa != sb);
        Order3::Less
    } else {
        assert(sa.take(i as int) =~= sa);
        assert(sb.take(i as int) =~= sb);
        Order3::Equal
    }
}

fn opt_comps(f: &Option<String>) -> (r: Option<Vec<Vec<char>>>)
    ensures
        match (r, opt_str(*f)) {
            (Some(c), Some(p)) => seqs(c@) == components(p),
            (None, None) => true,
            _ => false,
        },
{
    match f {
        Some(p) => {
            let pc = chars_of(p.as_str());
            Some(path_components(pc.as_slice()))
        },
        None => None,
    }
}

fn opt_path_order(a: &Option<String>, b: &Option<String>) -> (r: Order3)
    ensures
        (r == Order3::Less) == opt_path_lt(opt_str(*a), opt_str(*b)),
        (r == Order3::Greater) == opt_path_lt(opt_str(*b), opt_str(*a)),
        (r == Order3::Equal) == opt_paths_eq(opt_str(*a), opt_str(*b)),
{
    let ca = opt_comps(a);
    let cb = opt_comps(b);
    match (&ca, &cb) {
        (None, None) => Order3::Equal,
        (None, Some(_)) => Order3::Less,
        (Some(_), None) => Order3::Greater,
        (Some(x), Some(y)) => comps_order(x, y),
    }
}

fn issue_before(a: &CanonicalIssue, b: &CanonicalIssue, by_title: bool) -> (r: bool)
    ensures
        r == issue_lt(a@, b@, by_title),
{
    let sa = severity_rank(&a.severity);
    let sb = severity_rank(&b.severity);
    if sa != sb {
        return sa > sb;
    }
    match opt_path_order(&a.file, &b.file) {
        Order3::Less => {
            return true;
        },
        Order3::Greater => {
            proof {
                lemma_opt_path_asym(opt_str(a.file), opt_str(b.file));
            }
            return false;
        },
        Order3::Equal => {},
    }
    match (a.line_start, b.line_start) {
        (None, Some(_)) => {
            return true;
        },
        (Some(_), None) => {
            return false;
        },
        (Some(x), Some(y)) => {
            if x != y {
                return x < y;
            }
        },
        (None, None) => {},
    }
    if !by_title {
        return false;
    }
    let ta = chars_of(a.title.as_str());
    let tb = chars_of(b.title.as_str());
    match compare_chars(ta.as_slice(), tb.as_slice()) {
        Order3::Less => true,
        _ => false,
    }
}

proof fn lemma_opt_path_asym(a: Option<Seq<char>>, b: Option<Seq<char>>)
    requires
        opt_path_lt(b, a),
    ensures
        !opt_path_lt(a, b),
        !opt_paths_eq(a, b),
{
    match (a, b) {
        (Some(x), Some(y)) => {
            lemma_comps_asym(components(y), components(x));
        },
        _ => {},
    }
}

proof fn lemma_comps_asym(a: Seq<Seq<char>>, b: Seq<Seq<char>>)
    requires
        comps_lt(a, b),
    ensures
        !comps_lt(b, a),
        a != b,
    decreases a.len(),
{
    if a.len() > 0 && b.len() > 0 {
        lemma_comp_total(a[0], b[0]);
        if !comp_lt(a[0], b[0]) && !comp_lt(b[0], a[0]) {
            lemma_comps_asym(a.drop_first(), b.drop_first());
        }
    }
}

// ---------------------------------------------------------------------
// Stable insertion sort of issues
// ---------------------------------------------------------------------

/// Where `x` goes in `s[i..]`: before the first issue it sorts before.
pub open spec fn issue_ins_pos(s: Seq<IssueModel>, x: IssueModel, by_title: bool, i: int) -> int
    decreases s.len() - i,
{
    if i < 0 || i >= s.len() {
        s.len() as int
    } else if issue_lt(x, s[i], by_title) {
        i
    } else {
        issue_ins_pos(s, x, by_title, i + 1)
    }
}

proof fn lemma_issue_ins_pos_range(s: Seq<IssueModel>, x: IssueModel, t: bool, i: int)
    requires
        0 <= i <= s.len(),
    ensures
        i <= issue_ins_pos(s, x, t, i) <= s.len(),
    decreases s.len() - i,
{
    if i < s.len() && !issue_lt(x, s[i], t) {
        lemma_issue_ins_pos_range(s, x, t, i + 1);
    }
}

/// The issues in issue order; issues that neither precedes keep their
/// relative order (a stable sort).
pub open spec fn sort_issues_spec(s: Seq<IssueModel>, by_title: bool) -> Seq<IssueModel>
    decreases s.len(),
{
    if s.len() == 0 {
        seq![]
    } else {
        let t = sort_issues_spec(s.drop_last(), by_title);
        t.insert(issue_ins_pos(t, s.last(), by_title, 0), s.last())
    }
}

pub fn sort_issues(v: Vec<CanonicalIssue>, by_title: bool) -> (r: Vec<CanonicalIssue>)
    ensures
        issue_models(r@) == sort_issues_spec(issue_models(v@), by_title),
{
    let ghost orig = issue_models(v@);
    let n = v.len();
    assert(orig.len() == n);
    let mut src = v;
    let mut out: Vec<CanonicalIssue> = Vec::new();
    let mut done: usize = 0;
    while src.len() > 0
        invariant
            done + src@.len() == orig.len(),
            orig.len() == n,
            forall|k: int| 0 <= k < src@.len() ==> #[trigger] src@[k]@ == orig[done + k],
            issue_models(out@) == sort_issues_spec(orig.take(done as int), by_title),
        decreases src.len(),
    {
        let ghost t = issue_models(out@);
        let ghost s0 = src@;
        assert(s0[0]@ == orig[done as int]);
        let x = src.remove(0);
        proof {
            assert(orig.take(done + 1).drop_last() =~= orig.take(done as int));
            assert(orig.take(done + 1).last() == x@);
            assert forall|k: int| 0 <= k < src@.len() implies #[trigger] src@[k]@ == orig[done + 1 + k] by {
                assert(src@[k] == s0[k + 1]);
            }
        }
        let mut p: usize = 0;
        while p < out.len() && !issue_before(&x, &out[p], by_title)
            invariant
                p <= out@.len(),
                t == issue_models(out@),
                issue_ins_pos(t, x@, by_title, 0) == issue_ins_pos(t, x@, by_title, p as int),
            decreases out.len() - p,
        {
            assert(t[p as int] == out@[p as int]@);
            p += 1;
        }
        proof {
            if p < out@.len() {
                assert(t[p as int] == out@[p as int]@);
            }
            lemma_issue_ins_pos_range(t, x@, by_title, 0);
        }
        let ghost xm = x@;
        out.insert(p, x);
        assert(issue_models(out@) =~= t.insert(p as int, xm));
        done += 1;
    }
    assert(orig.take(done as int) =~= orig);
    out
}

// ---------------------------------------------------------------------
// Canonical issues
// ---------------------------------------------------------------------

/// The title a finding is known by: its title, else its message.
pub open spec fn title_or_message(f: FindingModel) -> Seq<char> {
    match f.title {
        Some(t) => t,
        None => f.message,
    }
}

/// Two findings describe the same issue: same file (as a path), same start
/// line, same normalized title.
pub open spec fn same_issue(a: FindingModel, b: FindingModel) -> bool {
    opt_paths_eq(a.file, b.file) && span_start(a.span) == span_start(b.span) && norm_text(
        title_or_message(a),
    ) == norm_text(title_or_message(b))
}

pub open spec fn group_pos(gs: Seq<Seq<FindingModel>>, f: FindingModel, i: int) -> Option<int>
    decreases gs.len() - i,
{
    if i < 0 || i >= gs.len() {
        None
    } else if same_issue(gs[i][0], f) {
        Some(i)
    } else {
        group_pos(gs, f, i + 1)
    }
}

/// The findings grouped by issue, groups in order of first appearance and
/// each group in input order.
pub open spec fn groups_of(fs: Seq<FindingModel>) -> Seq<Seq<FindingModel>>
    decreases fs.len(),
{
    if fs.len() == 0 {
        seq![]
    } else {
        let gs = groups_of(fs.drop_last());
        match group_pos(gs, fs.last(), 0) {
            Some(k) => gs.update(k, gs[k].push(fs.last())),
            None => gs.push(seq![fs.last()]),
        }
    }
}

/// `s` with each run of equal neighbours reduced to one (`Vec::dedup`).
pub open spec fn dedup_adj(s: Seq<Seq<char>>) -> Seq<Seq<char>>
    decreases s.len(),
{
    if s.len() == 0 {
        s
    } else {
        let d = dedup_adj(s.drop_last());
        if s.len() >= 2 && s.last() == s[s.len() - 2] {
            d
        } else {
            d.push(s.last())
        }
    }
}

pub open spec fn group_severity(g: Seq<FindingModel>) -> Severity
    decreases g.len(),
{
    if g.len() == 0 {
        Severity::Info
    } else {
        let m = group_severity(g.drop_last());
        if severity_rank_spec(g.last().severity) > severity_rank_spec(m) {
            g.last().severity
        } else {
            m
        }
    }
}

pub open spec fn group_evidence(g: Seq<FindingModel>) -> Seq<EvidenceModel>
    decreases g.len(),
{
    if g.len() == 0 {
        seq![]
    } else {
        group_evidence(g.drop_last()) + g.last().evidence
    }
}

pub open spec fn group_agents(g: Seq<FindingModel>) -> Seq<Seq<char>> {
    g.map_values(|f: FindingModel| f.agent)
}

pub open spec fn span_end(s: Option<LineSpan>) -> Option<u32> {
    match s {
        Some(sp) => Some(sp.end),
        None => None,
    }
}

/// The issue a group describes: the first finding's place, category
/// ("maintainability" by default), title, description (else its message) and
/// fix; the group's highest severity; its agents sorted without repeats; the
/// first three pieces of evidence.
pub open spec fn issue_of_group(g: Seq<FindingModel>) -> IssueModel {
    let p = g[0];
    let ev = group_evidence(g);
    IssueModel {
        severity: group_severity(g),
        category: match p.category {
            Some(c) => c,
            None => "maintainability"@,
        },
        file: p.file,
        line_start: span_start(p.span),
        line_end: span_end(p.span),
        title: title_or_message(p),
        description: match p.description {
            Some(d) => d,
            None => p.message,
        },
        suggested_fix: p.suggested_fix,
        raised_by: dedup_adj(sort_seqs(group_agents(g))),
        evidence: if ev.len() > 3 {
            ev.take(3)
        } else {
            ev
        },
    }
}

/// The canonical issues of a set of findings, in issue order (by title last).
pub open spec fn canonical_issues_spec(fs: Seq<FindingModel>) -> Seq<IssueModel> {
    sort_issues_spec(groups_of(fs).map_values(|g: Seq<FindingModel>| issue_of_group(g)), true)
}

pub open spec fn groups_models(gs: Seq<Vec<Finding>>) -> Seq<Seq<FindingModel>> {
    gs.map_values(|g: Vec<Finding>| finding_models(g@))
}

pub fn dedup_strings(v: Vec<String>) -> (r: Vec<String>)
    ensures
        strs(r@) == dedup_adj(strs(v@)),
{
    let mut out: Vec<String> = Vec::new();
    let mut i: usize = 0;
    while i < v.len()
        invariant
            i <= v@.len(),
            strs(out@) == dedup_adj(strs(v@).take(i as int)),
        decreases v.len() - i,
    {
        let ghost sv = strs(v@);
        assert(sv.take(i + 1).drop_last() =~= sv.take(i as int));
        assert(sv.take(i + 1).last() == v@[i as int]@);
        if i > 0 && str_eq(v[i].as_str(), v[i - 1].as_str()) {
            assert(sv.take(i + 1)[i - 1] == v@[i - 1]@);
        } else {
            proof {
                if i > 0 {
                    assert(sv.take(i + 1)[i - 1] == v@[i - 1]@);
                }
            }
            let ghost before = strs(out@);
            out.push(v[i].clone());
            assert(strs(out@) =~= before.push(v@[i as int]@));
        }
        i += 1;
    }
    assert(strs(v@).take(v@.len() as int) =~= strs(v@));
    out
}

fn issue_from_group(g: &Vec<Finding>) -> (r: CanonicalIssue)
    requires
        g@.len() >= 1,
    ensures
        r@ == issue_of_group(finding_models(g@)),
{
    let ghost gm = finding_models(g@);
    let p = &g[0];
    assert(gm[0] == p@);
    let mut agents: Vec<String> = Vec::new();
    let mut evidence: Vec<EvidenceAnchor> = Vec::new();
    let mut severity = Severity::Info;
    let mut i: usize = 0;
    while i < g.len()
        invariant
            i <= g@.len(),
            gm == finding_models(g@),
            agents@.len() == i,
            forall|k: int| 0 <= k < i ==> #[trigger] agents@[k]@ == gm[k].agent,
            evidence_models(evidence@) == group_evidence(gm.take(i as int)),
            severity == group_severity(gm.take(i as int)),
        decreases g.len() - i,
    {
        assert(gm.take(i + 1).drop_last() =~= gm.take(i as int));
        assert(gm.take(i + 1).last() == g@[i as int]@);
        agents.push(g[i].agent.clone());
        let ghost before = evidence_models(evidence@);
        let mut more = clone_evidence(&g[i].evidence);
        evidence.append(&mut more);
        assert(evidence_models(evidence@) =~= before + g@[i as int]@.evidence);
        if severity_rank(&g[i].severity) > severity_rank(&severity) {
            severity = g[i].severity;
        }
        i += 1;
    }
    assert(gm.take(g@.len() as int) =~= gm);
    assert(strs(agents@) =~= group_agents(gm));
    let sorted = sort_strings(&agents);
    let raised_by = dedup_strings(sorted);
    let ghost ev = evidence_models(evidence@);
    evidence.truncate(3);
    assert(evidence_models(evidence@) =~= if ev.len() > 3 {
        ev.take(3)
    } else {
        ev
    });
    let category = match &p.category {
        Some(c) => c.clone(),
        None => "maintainability".to_owned(),
    };
    let title = match &p.title {
        Some(t) => t.clone(),
        None => p.message.clone(),
    };
    let description = match &p.description {
        Some(d) => d.clone(),
        None => p.message.clone(),
    };
    CanonicalIssue {
        severity,
        category,
        file: clone_opt_str(&p.file),
        line_start: match p.span {
            Some(sp) => Some(sp.start),
            None => None,
        },
        line_end: match p.span {
            Some(sp) => Some(sp.end),
            None => None,
        },
        title,
        description,
        suggested_fix: clone_opt_str(&p.suggested_fix),
        raised_by,
        evidence,
    }
}

/// The group key of a finding: its file's components, start line, and
/// normalized title.
struct IssueKey {
    file: Option<Vec<Vec<char>>>,
    start: Option<u32>,
    title: String,
}

spec fn key_matches(k: IssueKey, f: FindingModel) -> bool {
    &&& match (k.file, f.file) {
        (Some(c), Some(p)) => seqs(c@) == components(p),
        (None, None) => true,
        _ => false,
    }
    &&& k.start == span_start(f.span)
    &&& k.title@ == norm_text(title_or_message(f))
}

fn key_of(f: &Finding) -> (k: IssueKey)
    ensures
        key_matches(k, f@),
{
    let file = match &f.file {
        Some(p) => {
            let pc = chars_of(p.as_str());
            Some(path_components(pc.as_slice()))
        },
        None => None,
    };
    let title = match &f.title {
        Some(t) => normalize_text(t.as_str()),
        None => normalize_text(f.message.as_str()),
    };
    IssueKey { file, start: match f.span {
        Some(sp) => Some(sp.start),
        None => None,
    }, title }
}

fn keys_equal(a: &IssueKey, b: &IssueKey) -> (r: bool)
    ensures
        forall|x: FindingModel, y: FindingModel| key_matches(*a, x) && key_matches(*b, y) ==> (r == same_issue(x, y)),
{
    let files = match (&a.file, &b.file) {
        (Some(x), Some(y)) => crate::reference::components_eq(x, y),
        (None, None) => true,
        _ => false,
    };
    files && a.start == b.start && str_eq(a.title.as_str(), b.title.as_str())
}

/// Groups findings into canonical issues, in issue order.
pub fn build_canonical_issues(findings: &[Finding]) -> (r: Vec<CanonicalIssue>)
    ensures
        issue_models(r@) == canonical_issues_spec(finding_models(findings@)),
{
    let ghost fm = finding_models(findings@);
    let mut groups: Vec<Vec<Finding>> = Vec::new();
    let mut keys: Vec<IssueKey> = Vec::new();
    let mut i: usize = 0;
    assert(groups_models(groups@) =~= seq![]);
    while i < findings.len()
        invariant
            i <= findings@.len(),
            fm == finding_models(findings@),
            groups_models(groups@) == groups_of(fm.take(i as int)),
            keys@.len() == groups@.len(),
            forall|k: int| 0 <= k < groups@.len() ==> (#[trigger] groups@[k])@.len() >= 1,
            forall|k: int| 0 <= k < groups@.len() ==> key_matches(#[trigger] keys@[k], groups@[k]@[0]@),
        decreases findings.len() - i,
    {
        let ghost gs = groups_of(fm.take(i as int));
        assert(fm.take(i + 1).drop_last() =~= fm.take(i as int));
        assert(fm.take(i + 1).last() == findings@[i as int]@);
        let key = key_of(&findings[i]);
        let mut j: usize = 0;
        while j < groups.len() && !keys_equal(&keys[j], &key)
            invariant
                j <= groups@.len(),
                gs == groups_models(groups@),
                keys@.len() == groups@.len(),
                key_matches(key, findings@[i as int]@),
                forall|k: int| 0 <= k < groups@.len() ==> (#[trigger] groups@[k])@.len() >= 1,
                forall|k: int| 0 <= k < groups@.len() ==> key_matches(#[trigger] keys@[k], groups@[k]@[0]@),
                group_pos(gs, findings@[i as int]@, 0) == group_pos(gs, findings@[i as int]@, j as int),
            decreases groups.len() - j,
        {
            assert(gs[j as int][0] == groups@[j as int]@[0]@);
            j += 1;
        }
        if j < groups.len() {
            assert(gs[j as int][0] == groups@[j as int]@[0]@);
            let ghost before = groups_models(groups@);
            let mut g = groups.remove(j);
            g.push(findings[i].duplicate());
            let ghost gnew = finding_models(g@);
            groups.insert(j, g);
            assert(gnew =~= before[j as int].push(findings@[i as int]@));
            assert(groups_models(groups@) =~= before.update(j as int, before[j as int].push(findings@[i as int]@)));
            let kj = keys.remove(j);
            keys.insert(j, kj);
            assert forall|k: int| 0 <= k < groups@.len() implies key_matches(#[trigger] keys@[k], groups@[k]@[0]@) by {
                if k == j {
                    assert(groups@[k]@[0] == g@[0]);
                }
            }
        } else {
            let ghost before = groups_models(groups@);
            let mut g: Vec<Finding> = Vec::new();
            g.push(findings[i].duplicate());
            assert(finding_models(g@) =~= seq![findings@[i as int]@]);
            groups.push(g);
            keys.push(key);
            assert(groups_models(groups@) =~= before.push(seq![findings@[i as int]@]));
        }
        i += 1;
    }
    assert(fm.take(findings@.len() as int) =~= fm);
    let mut issues: Vec<CanonicalIssue> = Vec::new();
    let mut k: usize = 0;
    while k < groups.len()
        invariant
            k <= groups@.len(),
            groups_models(groups@) == groups_of(fm),
            forall|q: int| 0 <= q < groups@.len() ==> (#[trigger] groups@[q])@.len() >= 1,
            issues@.len() == k,
            forall|q: int| 0 <= q < k ==> #[trigger] issues@[q]@ == issue_of_group(groups_of(fm)[q]),
        decreases groups.len() - k,
    {
        assert(groups_of(fm)[k as int] == finding_models(groups@[k as int]@));
        issues.push(issue_from_group(&groups[k]));
        k += 1;
    }
    assert(issue_models(issues@) =~= groups_of(fm).map_values(|g: Seq<FindingModel>| issue_of_group(g)));
    sort_issues(issues, true)
}

// ---------------------------------------------------------------------
// Merging structured issues
// ---------------------------------------------------------------------

/// Two issues are the same: same file (as a path), start line and
/// normalized title.
pub open spec fn issue_key_eq(a: IssueModel, b: IssueModel) -> bool {
    opt_paths_eq(a.file, b.file) && a.line_start == b.line_start && norm_text(a.title) == norm_text(b.title)
}

pub open spec fn has_issue_key(acc: Seq<IssueModel>, x: IssueModel) -> bool {
    exists|i: int| 0 <= i < acc.len() && issue_key_eq(#[trigger] acc[i], x)
}

/// The structured issues appended, each unless an issue with its key is
/// already present.
pub open spec fn merge_fold(acc: Seq<IssueModel>, structured: Seq<IssueModel>) -> Seq<IssueModel>
    decreases structured.len(),
{
    if structured.len() == 0 {
        acc
    } else {
        let a = merge_fold(acc, structured.drop_last());
        if has_issue_key(a, structured.last()) {
            a
        } else {
            a.push(structured.last())
        }
    }
}

/// Structured issues merged into the baseline, new ones only, in issue
/// order (without titles: ties keep their order).
pub open spec fn merge_spec(baseline: Seq<IssueModel>, structured: Seq<IssueModel>) -> Seq<IssueModel> {
    sort_issues_spec(merge_fold(baseline, structured), false)
}

struct TitleKey {
    file: Option<Vec<Vec<char>>>,
    start: Option<u32>,
    title: String,
}

spec fn title_key_matches(k: TitleKey, i: IssueModel) -> bool {
    &&& match (k.file, i.file) {
        (Some(c), Some(p)) => seqs(c@) == components(p),
        (None, None) => true,
        _ => false,
    }
    &&& k.start == i.line_start
    &&& k.title@ == norm_text(i.title)
}

fn title_key(i: &CanonicalIssue) -> (k: TitleKey)
    ensures
        title_key_matches(k, i@),
{
    let file = match &i.file {
        Some(p) => {
            let pc = chars_of(p.as_str());
            Some(path_components(pc.as_slice()))
        },
        None => None,
    };
    TitleKey { file, start: i.line_start, title: normalize_text(i.title.as_str()) }
}

fn title_keys_equal(a: &TitleKey, b: &TitleKey) -> (r: bool)
    ensures
        forall|x: IssueModel, y: IssueModel| title_key_matches(*a, x) && title_key_matches(*b, y) ==> (r == issue_key_eq(x, y)),
{
    let files = match (&a.file, &b.file) {
        (Some(x), Some(y)) => crate::reference::components_eq(x, y),
        (None, None) => true,
        _ => false,
    };
    files && a.start == b.start && str_eq(a.title.as_str(), b.title.as_str())
}

pub fn merge_structured_issues(baseline: Vec<CanonicalIssue>, structured: Vec<CanonicalIssue>) -> (r: Vec<CanonicalIssue>)
    ensures
        issue_models(r@) == merge_spec(issue_models(baseline@), issue_models(structured@)),
{
    let ghost bm = issue_models(baseline@);
    let ghost sm = issue_models(structured@);
    let mut acc = baseline;
    let mut keys: Vec<TitleKey> = Vec::new();
    let mut k: usize = 0;
    while k < acc.len()
        invariant
            k <= acc@.len(),
            keys@.len() == k,
            forall|q: int| 0 <= q < k ==> title_key_matches(#[trigger] keys@[q], acc@[q]@),
        decreases acc.len() - k,
    {
        keys.push(title_key(&acc[k]));
        k += 1;
    }
    assert(bm.take(0) =~= seq![]);
    let mut src = structured;
    let n = src.len();
    let mut done: usize = 0;
    while src.len() > 0
        invariant
            done + src@.len() == n,
            sm.len() == n,
            forall|q: int| 0 <= q < src@.len() ==> #[trigger] src@[q]@ == sm[done + q],
            issue_models(acc@) == merge_fold(bm, sm.take(done as int)),
            keys@.len() == acc@.len(),
            forall|q: int| 0 <= q < acc@.len() ==> title_key_matches(#[trigger] keys@[q], acc@[q]@),
        decreases src.len(),
    {
        let ghost s0 = src@;
        assert(s0[0]@ == sm[done as int]);
        let x = src.remove(0);
        proof {
            assert(sm.take(done + 1).drop_last() =~= sm.take(done as int));
            assert(sm.take(done + 1).last() == x@);
            assert forall|q: int| 0 <= q < src@.len() implies #[trigger] src@[q]@ == sm[done + 1 + q] by {
                assert(src@[q] == s0[q + 1]);
            }
        }
        let xk = title_key(&x);
        let mut j: usize = 0;
        let mut found = false;
        let ghost am = issue_models(acc@);
        while j < acc.len()
            invariant
                j <= acc@.len(),
                am == issue_models(acc@),
                keys@.len() == acc@.len(),
                forall|q: int| 0 <= q < acc@.len() ==> title_key_matches(#[trigger] keys@[q], acc@[q]@),
                title_key_matches(xk, x@),
                found == exists|q: int| 0 <= q < j && issue_key_eq(#[trigger] am[q], x@),
            decreases acc.len() - j,
        {
            assert(am[j as int] == acc@[j as int]@);
            if title_keys_equal(&keys[j], &xk) {
                found = true;
            }
            j += 1;
        }
        assert(found == has_issue_key(am, x@));
        if !found {
            let ghost xm = x@;
            acc.push(x);
            keys.push(xk);
            assert(issue_models(acc@) =~= am.push(xm));
        }
        done += 1;
    }
    assert(sm.take(done as int) =~= sm);
    sort_issues(acc, false)
}

// ---------------------------------------------------------------------
// Action plan and pull-request summary
// ---------------------------------------------------------------------

/// Where an issue is: `file:line`, `file`, or `<unknown>`.
pub open spec fn location_text(file: Option<Seq<char>>, line: Option<u32>) -> Seq<char> {
    match (file, line) {
        (Some(f), Some(l)) => f + ":"@ + decimal(l as nat),
        (Some(f), None) => f,
        _ => "<unknown>"@,
    }
}

pub fn location(file: &Option<String>, line: Option<u32>) -> (r: String)
    ensures
        r@ == location_text(opt_str(*file), line),
{
    match (file, line) {
        (Some(f), Some(l)) => {
            let mut out = f.clone();
            push_str(&mut out, ":");
            push_decimal(&mut out, l as u64);
            out
        },
        (Some(f), None) => f.clone(),
        _ => "<unknown>".to_owned(),
    }
}

/// One step of the plan: `[Severity] title (location)`.
pub open spec fn step_text(i: IssueModel) -> Seq<char> {
    "["@ + severity_name(i.severity) + "] "@ + i.title + " ("@ + location_text(i.file, i.line_start) + ")"@
}

pub open spec fn is_blocking(s: Severity) -> bool {
    s == Severity::Critical || s == Severity::Warning
}

/// Steps and quick wins gathered in issue order until both hold five.
pub open spec fn plan_scan(issues: Seq<IssueModel>) -> (Seq<Seq<char>>, Seq<Seq<char>>, bool)
    decreases issues.len(),
{
    if issues.len() == 0 {
        (seq![], seq![], false)
    } else {
        let st = plan_scan(issues.drop_last());
        if st.2 {
            st
        } else {
            let s = step_text(issues.last());
            let p = if is_blocking(issues.last().severity) {
                st.0.push(s)
            } else {
                st.0
            };
            let q = if is_blocking(issues.last().severity) {
                st.1
            } else {
                st.1.push(s)
            };
            (p, q, p.len() >= 5 && q.len() >= 5)
        }
    }
}

pub open spec fn plan_model(p: FinalActionPlan) -> (Seq<Seq<char>>, Seq<Seq<char>>) {
    (strs(p.prioritized_steps@), strs(p.quick_wins@))
}

proof fn lemma_plan_scan_bound(issues: Seq<IssueModel>)
    ensures
        plan_scan(issues).0.len() + plan_scan(issues).1.len() <= issues.len(),
    decreases issues.len(),
{
    if issues.len() > 0 {
        lemma_plan_scan_bound(issues.drop_last());
    }
}

/// Blocking issues (critical or warning) become prioritized steps, the
/// others quick wins, in issue order, until both lists hold five.
pub fn build_action_plan(issues: &[CanonicalIssue]) -> (r: FinalActionPlan)
    ensures
        plan_model(r) == (plan_scan(issue_models(issues@)).0, plan_scan(issue_models(issues@)).1),
{
    let ghost im = issue_models(issues@);
    let mut prioritized_steps: Vec<String> = Vec::new();
    let mut quick_wins: Vec<String> = Vec::new();
    let mut stopped = false;
    let mut i: usize = 0;
    while i < issues.len()
        invariant
            i <= issues@.len(),
            im == issue_models(issues@),
            plan_scan(im.take(i as int)) == (strs(prioritized_steps@), strs(quick_wins@), stopped),
        decreases issues.len() - i,
    {
        assert(im.take(i + 1).drop_last() =~= im.take(i as int));
        assert(im.take(i + 1).last() == issues@[i as int]@);
        proof {
            lemma_plan_scan_bound(im.take(i as int));
        }
        if !stopped {
            let issue = &issues[i];
            let mut step = String::new();
            push_str(&mut step, "[");
            push_str(&mut step, severity_name_str(issue.severity));
            push_str(&mut step, "] ");
            push_string(&mut step, &issue.title);
            push_str(&mut step, " (");
            let loc = location(&issue.file, issue.line_start);
            push_string(&mut step, &loc);
            push_str(&mut step, ")");
            assert(step@ =~= step_text(issue@));
            let ghost p0 = strs(prioritized_steps@);
            let ghost q0 = strs(quick_wins@);
            if issue.severity == Severity::Critical || issue.severity == Severity::Warning {
                prioritized_steps.push(step);
                assert(strs(prioritized_steps@) =~= p0.push(step_text(issue@)));
            } else {
                quick_wins.push(step);
                assert(strs(quick_wins@) =~= q0.push(step_text(issue@)));
            }
            stopped = prioritized_steps.len() >= 5 && quick_wins.len() >= 5;
        }
        i += 1;
    }
    assert(im.take(issues@.len() as int) =~= im);
    FinalActionPlan { prioritized_steps, quick_wins }
}

pub open spec fn count_severity(issues: Seq<IssueModel>, s: Severity) -> nat
    decreases issues.len(),
{
    if issues.len() == 0 {
        0
    } else {
        count_severity(issues.drop_last(), s) + if issues.last().severity == s {
            1nat
        } else {
            0nat
        }
    }
}

proof fn lemma_count_severity_bound(issues: Seq<IssueModel>, s: Severity)
    ensures
        count_severity(issues, s) <= issues.len(),
    decreases issues.len(),
{
    if issues.len() > 0 {
        lemma_count_severity_bound(issues.drop_last(), s);
    }
}

pub fn count_issues_with(issues: &[CanonicalIssue], s: Severity) -> (r: usize)
    ensures
        r == count_severity(issue_models(issues@), s),
{
    let ghost im = issue_models(issues@);
    let mut n: usize = 0;
    let mut i: usize = 0;
    while i < issues.len()
        invariant
            i <= issues@.len(),
            im == issue_models(issues@),
            n == count_severity(im.take(i as int), s),
            n <= i,
        decreases issues.len() - i,
    {
        assert(im.take(i + 1).drop_last() =~= im.take(i as int));
        assert(im.take(i + 1).last() == issues@[i as int]@);
        if issues[i].severity == s {
            n = n + 1;
        }
        i += 1;
    }
    assert(im.take(issues@.len() as int) =~= im);
    n
}

/// Each line of `items` as a bullet: `- item\n`, concatenated.
pub open spec fn bullets(items: Seq<Seq<char>>) -> Seq<char>
    decreases items.len(),
{
    if items.len() == 0 {
        seq![]
    } else {
        bullets(items.drop_last()) + "- "@ + items.last() + "\n"@
    }
}

pub fn push_bullets(out: &mut String, items: &Vec<String>)
    ensures
        final(out)@ == old(out)@ + bullets(strs(items@)),
{
    let ghost start = out@;
    let mut i: usize = 0;
    while i < items.len()
        invariant
            i <= items@.len(),
            out@ == start + bullets(strs(items@).take(i as int)),
        decreases items.len() - i,
    {
        assert(strs(items@).take(i + 1).drop_last() =~= strs(items@).take(i as int));
        assert(strs(items@).take(i + 1).last() == items@[i as int]@);
        push_str(out, "- ");
        push_string(out, &items[i]);
        push_str(out, "\n");
        assert(out@ =~= start + bullets(strs(items@).take(i + 1)));
        i += 1;
    }
    assert(strs(items@).take(items@.len() as int) =~= strs(items@));
}

/// A notable issue: `- **title** `location`: description`.
pub open spec fn notable_text(i: IssueModel) -> Seq<char> {
    "- **"@ + i.title + "** `"@ + location_text(i.file, i.line_start) + "`: "@ + i.description + "\n"@
}

pub open spec fn notables(issues: Seq<IssueModel>) -> Seq<char>
    decreases issues.len(),
{
    if issues.len() == 0 {
        seq![]
    } else {
        notables(issues.drop_last()) + notable_text(issues.last())
    }
}

/// The pull-request summary: issue counts, the prioritized steps (or a note
/// that nothing blocks), and the first ten issues.
pub open spec fn pr_comment_spec(issues: Seq<IssueModel>, steps: Seq<Seq<char>>) -> Seq<char> {
    "## Crucible Review Summary\n\n"@ + "- Issues: "@ + decimal(issues.len()) + "\n"@ + "- Critical: "@
        + decimal(count_severity(issues, Severity::Critical)) + ", Warning: "@ + decimal(
        count_severity(issues, Severity::Warning),
    ) + "\n\n"@ + "### Top Actions\n"@ + (if steps.len() == 0 {
        "- No blocking actions.\n"@
    } else {
        bullets(steps)
    }) + "\n### Notable Issues\n"@ + notables(
        if issues.len() > 10 {
            issues.take(10)
        } else {
            issues
        },
    )
}

pub fn render_pr_comment(issues: &[CanonicalIssue], plan: &FinalActionPlan) -> (r: String)
    ensures
        r@ == pr_comment_spec(issue_models(issues@), strs(plan.prioritized_steps@)),
{
    let ghost im = issue_models(issues@);
    let mut out = String::new();
    push_str(&mut out, "## Crucible Review Summary\n\n");
    push_str(&mut out, "- Issues: ");
    push_decimal(&mut out, issues.len() as u64);
    push_str(&mut out, "\n");
    let critical = count_issues_with(issues, Severity::Critical);
    let warning = count_issues_with(issues, Severity::Warning);
    push_str(&mut out, "- Critical: ");
    push_decimal(&mut out, critical as u64);
    push_str(&mut out, ", Warning: ");
    push_decimal(&mut out, warning as u64);
    push_str(&mut out, "\n\n");
    push_str(&mut out, "### Top Actions\n");
    if plan.prioritized_steps.len() == 0 {
        push_str(&mut out, "- No blocking actions.\n");
    } else {
        push_bullets(&mut out, &plan.prioritized_steps);
    }
    push_str(&mut out, "\n### Notable Issues\n");
    let ghost head = out@;
    let limit: usize = if issues.len() > 10 {
        10
    } else {
        issues.len()
    };
    let ghost shown = if im.len() > 10 {
        im.take(10)
    } else {
        im
    };
    let mut i: usize = 0;
    while i < limit
        invariant
            i <= limit,
            limit <= issues@.len(),
            limit == shown.len(),
            im == issue_models(issues@),
            shown == im.take(limit as int),
            out@ == head + notables(shown.take(i as int)),
        decreases limit - i,
    {
        assert(shown.take(i + 1).drop_last() =~= shown.take(i as int));
        assert(shown.take(i + 1).last() == issues@[i as int]@);
        let issue = &issues[i];
        let loc = location(&issue.file, issue.line_start);
        push_str(&mut out, "- **");
        push_string(&mut out, &issue.title);
        push_str(&mut out, "** `");
        push_string(&mut out, &loc);
        push_str(&mut out, "`: ");
        push_string(&mut out, &issue.description);
        push_str(&mut out, "\n");
        assert(out@ =~= head + notables(shown.take(i + 1)));
        i += 1;
    }
    assert(shown.take(limit as int) =~= shown);
    assert(out@ =~= pr_comment_spec(im, strs(plan.prioritized_steps@)));
    out
}

// ---------------------------------------------------------------------
// Laws of the issue list
// ---------------------------------------------------------------------

/// Severities never increase along the list.
pub open spec fn severity_descending(s: Seq<IssueModel>) -> bool {
    forall|i: int, j: int| 0 <= i < j < s.len() ==> severity_rank_spec(#[trigger] s[i].severity) >= severity_rank_spec(#[trigger] s[j].severity)
}

proof fn lemma_ins_pos_before(s: Seq<IssueModel>, x: IssueModel, t: bool, i: int, k: int)
    requires
        0 <= i <= k < issue_ins_pos(s, x, t, i),
        k < s.len(),
    ensures
        !issue_lt(x, s[k], t),
    decreases s.len() - i,
{
    if i < s.len() && !issue_lt(x, s[i], t) && i < k {
        lemma_ins_pos_before(s, x, t, i + 1, k);
    }
}

proof fn lemma_ins_pos_at(s: Seq<IssueModel>, x: IssueModel, t: bool, i: int)
    requires
        0 <= i <= s.len(),
        issue_ins_pos(s, x, t, i) < s.len(),
    ensures
        issue_lt(x, s[issue_ins_pos(s, x, t, i)], t),
    decreases s.len() - i,
{
    if i < s.len() && !issue_lt(x, s[i], t) {
        lemma_ins_pos_at(s, x, t, i + 1);
    }
}

proof fn lemma_sort_issues_len(s: Seq<IssueModel>, t: bool)
    ensures
        sort_issues_spec(s, t).len() == s.len(),
    decreases s.len(),
{
    if s.len() > 0 {
        lemma_sort_issues_len(s.drop_last(), t);
        lemma_issue_ins_pos_range(sort_issues_spec(s.drop_last(), t), s.last(), t, 0);
    }
}

/// Sorting issues puts the more severe first.
pub proof fn law_sorted_by_severity(s: Seq<IssueModel>, t: bool)
    ensures
        severity_descending(sort_issues_spec(s, t)),
        sort_issues_spec(s, t).len() == s.len(),
    decreases s.len(),
{
    lemma_sort_issues_len(s, t);
    if s.len() > 0 {
        let prev = sort_issues_spec(s.drop_last(), t);
        let x = s.last();
        law_sorted_by_severity(s.drop_last(), t);
        lemma_issue_ins_pos_range(prev, x, t, 0);
        let p = issue_ins_pos(prev, x, t, 0);
        let r = prev.insert(p, x);
        assert(r == sort_issues_spec(s, t));
        if p < prev.len() {
            lemma_ins_pos_at(prev, x, t, 0);
        }
        assert forall|i: int, j: int| 0 <= i < j < r.len() implies severity_rank_spec(#[trigger] r[i].severity) >= severity_rank_spec(#[trigger] r[j].severity) by {
            if j < p {
                assert(r[i] == prev[i] && r[j] == prev[j]);
            } else if j == p {
                assert(r[i] == prev[i]);
                lemma_ins_pos_before(prev, x, t, 0, i);
            } else if i < p {
                assert(r[i] == prev[i] && r[j] == prev[j - 1]);
            } else if i == p {
                assert(r[j] == prev[j - 1]);
                assert(issue_lt(x, prev[p], t));
                assert(severity_rank_spec(prev[p].severity) >= severity_rank_spec(prev[j - 1].severity));
            } else {
                assert(r[i] == prev[i - 1] && r[j] == prev[j - 1]);
            }
        }
    }
}

/// The canonical issues of any findings are listed most severe first, and
/// there are never more issues than findings.
pub proof fn law_canonical_issues_by_severity(fs: Seq<FindingModel>)
    ensures
        severity_descending(canonical_issues_spec(fs)),
        canonical_issues_spec(fs).len() <= fs.len(),
{
    law_sorted_by_severity(groups_of(fs).map_values(|g: Seq<FindingModel>| issue_of_group(g)), true);
    lemma_groups_len(fs);
}

proof fn lemma_groups_len(fs: Seq<FindingModel>)
    ensures
        groups_of(fs).len() <= fs.len(),
    decreases fs.len(),
{
    if fs.len() > 0 {
        lemma_groups_len(fs.drop_last());
        let gs = groups_of(fs.drop_last());
        lemma_group_pos_range(gs, fs.last(), 0);
    }
}

proof fn lemma_group_pos_range(gs: Seq<Seq<FindingModel>>, f: FindingModel, i: int)
    ensures
        group_pos(gs, f, i) matches Some(k) ==> i <= k < gs.len(),
    decreases gs.len() - i,
{
    if 0 <= i < gs.len() && !same_issue(gs[i][0], f) {
        lemma_group_pos_range(gs, f, i + 1);
    }
}

/// Merging keeps every baseline issue, adds only structured issues with a
/// new key, and lists the result most severe first.
pub proof fn law_merge_keeps_baseline(baseline: Seq<IssueModel>, structured: Seq<IssueModel>)
    ensures
        severity_descending(merge_spec(baseline, structured)),
        baseline.len() <= merge_fold(baseline, structured).len() <= baseline.len() + structured.len(),
        merge_fold(baseline, structured).take(baseline.len() as int) == baseline,
    decreases structured.len(),
{
    law_sorted_by_severity(merge_fold(baseline, structured), false);
    if structured.len() > 0 {
        law_merge_keeps_baseline(baseline, structured.drop_last());
        let a = merge_fold(baseline, structured.drop_last());
        if !has_issue_key(a, structured.last()) {
            assert(a.push(structured.last()).take(baseline.len() as int) =~= a.take(baseline.len() as int));
        }
    } else {
        assert(baseline.take(baseline.len() as int) =~= baseline);
    }
}

/// The action plan holds only steps of blocking issues among its
/// prioritized steps, and at most as many steps as issues.
pub proof fn law_plan_bounded(issues: Seq<IssueModel>)
    ensures
        plan_scan(issues).0.len() + plan_scan(issues).1.len() <= issues.len(),
{
    lemma_plan_scan_bound(issues);
}


/// A canonical issue takes the highest severity of the findings grouped
/// into it: it ranks at least as high as each of them and is the severity of
/// one of them.
pub proof fn law_issue_severity_is_max(g: Seq<FindingModel>)
    requires
        g.len() >= 1,
    ensures
        forall|k: int| 0 <= k < g.len() ==> severity_rank_spec(#[trigger] g[k].severity) <= severity_rank_spec(
            issue_of_group(g).severity,
        ),
        exists|k: int| 0 <= k < g.len() && #[trigger] g[k].severity == issue_of_group(g).severity,
    decreases g.len(),
{
    if g.len() == 1 {
        assert(g.drop_last().len() == 0);
        assert(g[0].severity == issue_of_group(g).severity);
    } else {
        let p = g.drop_last();
        law_issue_severity_is_max(p);
        assert(issue_of_group(p).severity == group_severity(p));
        let kp = choose|k: int| 0 <= k < p.len() && #[trigger] p[k].severity == group_severity(p);
        assert(g[kp] == p[kp]);
        assert forall|k: int| 0 <= k < g.len() implies severity_rank_spec(#[trigger] g[k].severity) <= severity_rank_spec(
            issue_of_group(g).severity,
        ) by {
            if k < p.len() {
                assert(g[k] == p[k]);
                assert(severity_rank_spec(p[k].severity) <= severity_rank_spec(issue_of_group(p).severity));
            }
        }
        if severity_rank_spec(g.last().severity) > severity_rank_spec(group_severity(p)) {
            assert(g[g.len() - 1].severity == issue_of_group(g).severity);
        } else {
            assert(g[kp].severity == issue_of_group(g).severity);
        }
    }
}

} // verus!
