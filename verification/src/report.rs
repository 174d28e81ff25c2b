//! Review findings, canonical issues, consensus status and the final report,
//! each with a mathematical model (`View`) that contracts speak of.
use vstd::prelude::*;
use crate::config::VerdictConfig;
use crate::text::{chars_of, join, join_with, seqs, str_eq, string_of};

verus! {

// ---------------------------------------------------------------------
// Models of common field shapes
// ---------------------------------------------------------------------

pub open spec fn opt_str(o: Option<String>) -> Option<Seq<char>> {
    match o {
        Some(s) => Some(s@),
        None => None,
    }
}

pub open spec fn strs(v: Seq<String>) -> Seq<Seq<char>> {
    v.map_values(|s: String| s@)
}

pub fn clone_opt_str(o: &Option<String>) -> (r: Option<String>)
    ensures
        opt_str(r) == opt_str(*o),
{
    match o {
        Some(s) => Some(s.clone()),
        None => None,
    }
}

pub fn clone_strs(v: &Vec<String>) -> (r: Vec<String>)
    ensures
        strs(r@) == strs(v@),
{
    let mut out: Vec<String> = Vec::new();
    let mut i: usize = 0;
    while i < v.len()
        invariant
            i <= v@.len(),
            out@.len() == i,
            forall|k: int| 0 <= k < i ==> #[trigger] out@[k]@ == v@[k]@,
        decreases v.len() - i,
    {
        out.push(v[i].clone());
        i += 1;
    }
    assert(strs(out@) =~= strs(v@));
    out
}

/// The strings of `v` joined with `sep` between them, as `[String]::join`.
pub fn join_strs(v: &Vec<String>, sep: &str) -> (r: String)
    ensures
        r@ == join_with(strs(v@), sep@),
{
    let mut parts: Vec<Vec<char>> = Vec::new();
    let mut i: usize = 0;
    while i < v.len()
        invariant
            i <= v@.len(),
            parts@.len() == i,
            forall|k: int| 0 <= k < i ==> #[trigger] parts@[k]@ == v@[k]@,
        decreases v.len() - i,
    {
        parts.push(chars_of(v[i].as_str()));
        i += 1;
    }
    assert(seqs(parts@) =~= strs(v@));
    let sc = chars_of(sep);
    let joined = join(&parts, sc.as_slice());
    string_of(joined.as_slice())
}

// ---------------------------------------------------------------------
// Severity, confidence, spans
// ---------------------------------------------------------------------

#[derive(Clone, Copy, Debug, PartialEq, Eq, Structural)]
pub enum Severity {
    Info,
    Warning,
    Critical,
}

/// Severity rank: Info 1, Warning 2, Critical 3 (the declaration order).
pub open spec fn severity_rank_spec(s: Severity) -> u8 {
    match s {
        Severity::Critical => 3,
        Severity::Warning => 2,
        Severity::Info => 1,
    }
}

pub fn severity_rank(s: &Severity) -> (r: u8)
    ensures
        r == severity_rank_spec(*s),
{
    match s {
        Severity::Critical => 3,
        Severity::Warning => 2,
        Severity::Info => 1,
    }
}

/// The name `{:?}` prints for a severity.
pub open spec fn severity_name(s: Severity) -> Seq<char> {
    match s {
        Severity::Critical => "Critical"@,
        Severity::Warning => "Warning"@,
        Severity::Info => "Info"@,
    }
}

pub fn severity_name_str(s: Severity) -> (r: &'static str)
    ensures
        r@ == severity_name(s),
{
    match s {
        Severity::Critical => "Critical",
        Severity::Warning => "Warning",
        Severity::Info => "Info",
    }
}

#[derive(Clone, Copy, Debug, PartialEq, Eq, Structural)]
pub enum Confidence {
    Low,
    Medium,
    High,
}

pub open spec fn confidence_rank_spec(c: Confidence) -> u8 {
    match c {
        Confidence::Low => 0,
        Confidence::Medium => 1,
        Confidence::High => 2,
    }
}

pub fn confidence_rank(c: &Confidence) -> (r: u8)
    ensures
        r == confidence_rank_spec(*c),
{
    match c {
        Confidence::Low => 0,
        Confidence::Medium => 1,
        Confidence::High => 2,
    }
}

#[derive(Clone, Copy, Debug, PartialEq, Eq, Structural)]
pub struct LineSpan {
    pub start: u32,
    pub end: u32,
}

// ---------------------------------------------------------------------
// Evidence
// ---------------------------------------------------------------------

#[derive(Clone, Debug)]
pub struct EvidenceAnchor {
    pub location: String,
    pub quote: String,
}

pub struct EvidenceModel {
    pub location: Seq<char>,
    pub quote: Seq<char>,
}

impl View for EvidenceAnchor {
    type V = EvidenceModel;

    open spec fn view(&self) -> EvidenceModel {
        EvidenceModel { location: self.location@, quote: self.quote@ }
    }
}

impl EvidenceAnchor {
    pub fn duplicate(&self) -> (r: Self)
        ensures
            r@ == self@,
    {
        EvidenceAnchor { location: self.location.clone(), quote: self.quote.clone() }
    }
}

pub open spec fn evidence_models(v: Seq<EvidenceAnchor>) -> Seq<EvidenceModel> {
    v.map_values(|e: EvidenceAnchor| e@)
}

pub fn clone_evidence(v: &Vec<EvidenceAnchor>) -> (r: Vec<EvidenceAnchor>)
    ensures
        evidence_models(r@) == evidence_models(v@),
{
    let mut out: Vec<EvidenceAnchor> = Vec::new();
    let mut i: usize = 0;
    while i < v.len()
        invariant
            i <= v@.len(),
            out@.len() == i,
            forall|k: int| 0 <= k < i ==> #[trigger] out@[k]@ == v@[k]@,
        decreases v.len() - i,
    {
        out.push(v[i].duplicate());
        i += 1;
    }
    assert(evidence_models(out@) =~= evidence_models(v@));
    out
}

// ---------------------------------------------------------------------
// Findings
// ---------------------------------------------------------------------

/// A finding as one agent returned it.
#[derive(Clone, Debug)]
pub struct RawFinding {
    pub severity: Severity,
    pub file: Option<String>,
    pub line_start: Option<u32>,
    pub line_end: Option<u32>,
    pub message: String,
    pub confidence: Confidence,
    pub category: Option<String>,
    pub title: Option<String>,
    pub description: Option<String>,
    pub suggested_fix: Option<String>,
    pub evidence: Vec<EvidenceAnchor>,
}

pub struct RawFindingModel {
    pub severity: Severity,
    pub file: Option<Seq<char>>,
    pub line_start: Option<u32>,
    pub line_end: Option<u32>,
    pub message: Seq<char>,
    pub confidence: Confidence,
    pub category: Option<Seq<char>>,
    pub title: Option<Seq<char>>,
    pub description: Option<Seq<char>>,
    pub suggested_fix: Option<Seq<char>>,
    pub evidence: Seq<EvidenceModel>,
}

impl View for RawFinding {
    type V = RawFindingModel;

    open spec fn view(&self) -> RawFindingModel {
        RawFindingModel {
            severity: self.severity,
            file: opt_str(self.file),
            line_start: self.line_start,
            line_end: self.line_end,
            message: self.message@,
            confidence: self.confidence,
            category: opt_str(self.category),
            title: opt_str(self.title),
            description: opt_str(self.description),
            suggested_fix: opt_str(self.suggested_fix),
            evidence: evidence_models(self.evidence@),
        }
    }
}

impl RawFinding {
    pub fn duplicate(&self) -> (r: Self)
        ensures
            r@ == self@,
    {
        RawFinding {
            severity: self.severity,
            file: clone_opt_str(&self.file),
            line_start: self.line_start,
            line_end: self.line_end,
            message: self.message.clone(),
            confidence: self.confidence,
            category: clone_opt_str(&self.category),
            title: clone_opt_str(&self.title),
            description: clone_opt_str(&self.description),
            suggested_fix: clone_opt_str(&self.suggested_fix),
            evidence: clone_evidence(&self.evidence),
        }
    }
}

pub open spec fn raw_models(v: Seq<RawFinding>) -> Seq<RawFindingModel> {
    v.map_values(|f: RawFinding| f@)
}

/// A finding attributed to an agent and a round.
#[derive(Clone, Debug)]
pub struct Finding {
    pub agent: String,
    pub severity: Severity,
    pub confidence: Confidence,
    pub file: Option<String>,
    pub span: Option<LineSpan>,
    pub message: String,
    pub category: Option<String>,
    pub title: Option<String>,
    pub description: Option<String>,
    pub suggested_fix: Option<String>,
    pub evidence: Vec<EvidenceAnchor>,
    pub round: u8,
    pub raised_by: Vec<String>,
}

pub struct FindingModel {
    pub agent: Seq<char>,
    pub severity: Severity,
    pub confidence: Confidence,
    pub file: Option<Seq<char>>,
    pub span: Option<LineSpan>,
    pub message: Seq<char>,
    pub category: Option<Seq<char>>,
    pub title: Option<Seq<char>>,
    pub description: Option<Seq<char>>,
    pub suggested_fix: Option<Seq<char>>,
    pub evidence: Seq<EvidenceModel>,
    pub round: u8,
    pub raised_by: Seq<Seq<char>>,
}

impl View for Finding {
    type V = FindingModel;

    open spec fn view(&self) -> FindingModel {
        FindingModel {
            agent: self.agent@,
            severity: self.severity,
            confidence: self.confidence,
            file: opt_str(self.file),
            span: self.span,
            message: self.message@,
            category: opt_str(self.category),
            title: opt_str(self.title),
            description: opt_str(self.description),
            suggested_fix: opt_str(self.suggested_fix),
            evidence: evidence_models(self.evidence@),
            round: self.round,
            raised_by: strs(self.raised_by@),
        }
    }
}

impl Finding {
    pub fn duplicate(&self) -> (r: Self)
        ensures
            r@ == self@,
    {
        Finding {
            agent: self.agent.clone(),
            severity: self.severity,
            confidence: self.confidence,
            file: clone_opt_str(&self.file),
            span: self.span,
            message: self.message.clone(),
            category: clone_opt_str(&self.category),
            title: clone_opt_str(&self.title),
            description: clone_opt_str(&self.description),
            suggested_fix: clone_opt_str(&self.suggested_fix),
            evidence: clone_evidence(&self.evidence),
            round: self.round,
            raised_by: clone_strs(&self.raised_by),
        }
    }
}

pub open spec fn finding_models(v: Seq<Finding>) -> Seq<FindingModel> {
    v.map_values(|f: Finding| f@)
}

pub fn clone_findings(v: &Vec<Finding>) -> (r: Vec<Finding>)
    ensures
        finding_models(r@) == finding_models(v@),
{
    let mut out: Vec<Finding> = Vec::new();
    let mut i: usize = 0;
    while i < v.len()
        invariant
            i <= v@.len(),
            out@.len() == i,
            forall|k: int| 0 <= k < i ==> #[trigger] out@[k]@ == v@[k]@,
        decreases v.len() - i,
    {
        out.push(v[i].duplicate());
        i += 1;
    }
    assert(finding_models(out@) =~= finding_models(v@));
    out
}

// ---------------------------------------------------------------------
// Verdict
// ---------------------------------------------------------------------

#[derive(Clone, Copy, Debug, PartialEq, Eq, Structural)]
pub enum Verdict {
    Pass,
    Warn,
    Block,
}

pub open spec fn has_severity(findings: Seq<FindingModel>, s: Severity) -> bool {
    exists|i: int| 0 <= i < findings.len() && findings[i].severity == s
}

/// The verdict for a set of findings: with `block_on` "Critical" a critical
/// finding blocks; with "Warning" a critical or warning finding blocks;
/// otherwise any critical or warning finding only warns, and none passes.
pub open spec fn verdict_for(findings: Seq<FindingModel>, block_on: Seq<char>) -> Verdict {
    let critical = has_severity(findings, Severity::Critical);
    let warning = has_severity(findings, Severity::Warning);
    if block_on == "Critical"@ && critical {
        Verdict::Block
    } else if block_on == "Warning"@ && (critical || warning) {
        Verdict::Block
    } else if critical || warning {
        Verdict::Warn
    } else {
        Verdict::Pass
    }
}

fn any_severity(findings: &[Finding], s: Severity) -> (r: bool)
    ensures
        r == has_severity(finding_models(findings@), s),
{
    let mut i: usize = 0;
    while i < findings.len()
        invariant
            i <= findings@.len(),
            forall|k: int| 0 <= k < i ==> findings@[k].severity != s,
        decreases findings.len() - i,
    {
        if findings[i].severity == s {
            assert(finding_models(findings@)[i as int].severity == s);
            return true;
        }
        i += 1;
    }
    proof {
        if has_severity(finding_models(findings@), s) {
            let k = choose|k: int|
                0 <= k < findings@.len() && finding_models(findings@)[k].severity == s;
            assert(findings@[k].severity == s);
        }
    }
    false
}

impl Verdict {
    pub fn from_findings(findings: &[Finding], cfg: &VerdictConfig) -> (r: Verdict)
        ensures
            r == verdict_for(finding_models(findings@), cfg.block_on@),
    {
        let has_critical = any_severity(findings, Severity::Critical);
        let has_warning = any_severity(findings, Severity::Warning);
        if str_eq(cfg.block_on.as_str(), "Critical") && has_critical {
            Verdict::Block
        } else if str_eq(cfg.block_on.as_str(), "Warning") && (has_critical || has_warning) {
            Verdict::Block
        } else if has_critical || has_warning {
            Verdict::Warn
        } else {
            Verdict::Pass
        }
    }
}

// ---------------------------------------------------------------------
// Canonical issues, fixes, plans and the consensus map
// ---------------------------------------------------------------------

#[derive(Clone, Debug)]
pub struct AutoFix {
    pub unified_diff: String,
    pub explanation: String,
}

/// An agent that failed at some stage of a run (and in which round).
#[derive(Clone, Debug)]
pub struct AgentFailure {
    pub agent: String,
    pub stage: String,
    pub round: Option<u8>,
    pub message: String,
}

pub type FailureModel = (Seq<char>, Seq<char>, Option<u8>, Seq<char>);

pub open spec fn failure_models(v: Seq<AgentFailure>) -> Seq<FailureModel> {
    v.map_values(|f: AgentFailure| (f.agent@, f.stage@, f.round, f.message@))
}

/// The ordered steps and quick wins that close a review.
#[derive(Clone, Debug)]
pub struct FinalActionPlan {
    pub prioritized_steps: Vec<String>,
    pub quick_wins: Vec<String>,
}

/// One issue after clustering: what it is, where, who raised it.
#[derive(Clone, Debug)]
pub struct CanonicalIssue {
    pub severity: Severity,
    pub category: String,
    pub file: Option<String>,
    pub line_start: Option<u32>,
    pub line_end: Option<u32>,
    pub title: String,
    pub description: String,
    pub suggested_fix: Option<String>,
    pub raised_by: Vec<String>,
    pub evidence: Vec<EvidenceAnchor>,
}

pub struct IssueModel {
    pub severity: Severity,
    pub category: Seq<char>,
    pub file: Option<Seq<char>>,
    pub line_start: Option<u32>,
    pub line_end: Option<u32>,
    pub title: Seq<char>,
    pub description: Seq<char>,
    pub suggested_fix: Option<Seq<char>>,
    pub raised_by: Seq<Seq<char>>,
    pub evidence: Seq<EvidenceModel>,
}

impl View for CanonicalIssue {
    type V = IssueModel;

    open spec fn view(&self) -> IssueModel {
        IssueModel {
            severity: self.severity,
            category: self.category@,
            file: opt_str(self.file),
            line_start: self.line_start,
            line_end: self.line_end,
            title: self.title@,
            description: self.description@,
            suggested_fix: opt_str(self.suggested_fix),
            raised_by: strs(self.raised_by@),
            evidence: evidence_models(self.evidence@),
        }
    }
}

impl CanonicalIssue {
    pub fn duplicate(&self) -> (r: Self)
        ensures
            r@ == self@,
    {
        CanonicalIssue {
            severity: self.severity,
            category: self.category.clone(),
            file: clone_opt_str(&self.file),
            line_start: self.line_start,
            line_end: self.line_end,
            title: self.title.clone(),
            description: self.description.clone(),
            suggested_fix: clone_opt_str(&self.suggested_fix),
            raised_by: clone_strs(&self.raised_by),
            evidence: clone_evidence(&self.evidence),
        }
    }
}

pub open spec fn issue_models(v: Seq<CanonicalIssue>) -> Seq<IssueModel> {
    v.map_values(|i: CanonicalIssue| i@)
}

/// A place in the code: a file and a line span.
#[derive(Clone, Debug)]
pub struct FindingKey {
    pub file: String,
    pub span: LineSpan,
}

#[derive(Clone, Copy, Debug, PartialEq, Eq, Structural)]
pub struct ConsensusStatus {
    pub agreed_count: usize,
    pub total_agents: usize,
    pub severity: Severity,
    pub reached_quorum: bool,
}

/// Agreement per place in the code, one entry per key.
#[derive(Clone, Debug)]
pub struct ConsensusMap(pub Vec<(FindingKey, ConsensusStatus)>);

// ---------------------------------------------------------------------
// Laws of the verdict
// ---------------------------------------------------------------------

/// Pass, Warn, Block in increasing order.
pub open spec fn verdict_level(v: Verdict) -> int {
    match v {
        Verdict::Pass => 0,
        Verdict::Warn => 1,
        Verdict::Block => 2,
    }
}

proof fn lemma_has_severity_grows(fs: Seq<FindingModel>, more: Seq<FindingModel>, s: Severity)
    requires
        has_severity(fs, s),
    ensures
        has_severity(fs + more, s),
{
    let i = choose|i: int| 0 <= i < fs.len() && fs[i].severity == s;
    assert((fs + more)[i] == fs[i]);
}

/// Adding findings never makes the outcome milder: for any `block_on`, the
/// outcome for a set of findings ranks no higher than the outcome for that
/// set with more findings added.
pub proof fn law_verdict_monotone(fs: Seq<FindingModel>, more: Seq<FindingModel>, block_on: Seq<char>)
    ensures
        verdict_level(verdict_for(fs, block_on)) <= verdict_level(verdict_for(fs + more, block_on)),
{
    if has_severity(fs, Severity::Critical) {
        lemma_has_severity_grows(fs, more, Severity::Critical);
    }
    if has_severity(fs, Severity::Warning) {
        lemma_has_severity_grows(fs, more, Severity::Warning);
    }
}

proof fn lemma_has_severity_sub(fs: Seq<FindingModel>, gs: Seq<FindingModel>, s: Severity)
    requires
        fs.to_multiset().subset_of(gs.to_multiset()),
        has_severity(fs, s),
    ensures
        has_severity(gs, s),
{
    let i = choose|i: int| 0 <= i < fs.len() && fs[i].severity == s;
    fs.to_multiset_ensures();
    gs.to_multiset_ensures();
    assert(fs.contains(fs[i]));
    assert(fs.to_multiset().count(fs[i]) > 0);
    assert(gs.to_multiset().count(fs[i]) > 0);
    assert(gs.contains(fs[i]));
    let j = choose|j: int| 0 <= j < gs.len() && gs[j] == fs[i];
    assert(gs[j].severity == s);
}

/// The outcome is monotone in the findings, whatever their order: findings
/// that are among another set's findings (counted with repetition) never
/// give a harsher outcome than that set.
pub proof fn law_verdict_monotone_sub(fs: Seq<FindingModel>, gs: Seq<FindingModel>, block_on: Seq<char>)
    requires
        fs.to_multiset().subset_of(gs.to_multiset()),
    ensures
        verdict_level(verdict_for(fs, block_on)) <= verdict_level(verdict_for(gs, block_on)),
{
    if has_severity(fs, Severity::Critical) {
        lemma_has_severity_sub(fs, gs, Severity::Critical);
    }
    if has_severity(fs, Severity::Warning) {
        lemma_has_severity_sub(fs, gs, Severity::Warning);
    }
}

/// With the default `block_on` of "Critical", a review blocks exactly when
/// some finding is critical, and otherwise warns exactly when some finding
/// is a warning.
pub proof fn law_block_iff_critical(fs: Seq<FindingModel>)
    ensures
        (verdict_for(fs, "Critical"@) == Verdict::Block) <==> has_severity(fs, Severity::Critical),
        (verdict_for(fs, "Critical"@) == Verdict::Warn) <==> (!has_severity(fs, Severity::Critical)
            && has_severity(fs, Severity::Warning)),
{
    reveal_strlit("Critical");
    reveal_strlit("Warning");
    assert("Critical"@ != "Warning"@) by {
        assert("Critical"@[0] != "Warning"@[0]);
    }
}

} // verus!
