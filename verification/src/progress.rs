//! Progress of a review run: agent states, startup phases, convergence
//! verdicts, and their one-line renderings.
use vstd::prelude::*;
use crate::report::{strs, join_strs};
use crate::review_report::ReviewReport;
use crate::text::{decimal, decimal_exec, push_decimal, push_str, push_string, join_with, string_of};

verus! {

#[derive(Clone, Copy, Debug, PartialEq, Eq, Structural)]
pub enum StartupPhase {
    References,
    History,
    Docs,
    Prechecks,
}

#[derive(Clone, Copy, Debug, PartialEq, Eq, Structural)]
pub enum StartupPhaseStatus {
    Started,
    Completed,
    Failed,
}

/// One finding as a progress view shows it.
#[derive(Clone, Debug)]
pub struct AgentFindingPreview {
    pub severity: String,
    pub location: String,
    pub message: String,
}

#[derive(Clone, Copy, Debug, PartialEq, Eq, Structural)]
pub enum ReviewerState {
    Queued,
    Running,
    Done,
    Error,
}

/// An agent's state in a round; the duration is held in tenths of a second.
#[derive(Clone, Debug)]
pub struct ReviewerStatus {
    pub id: String,
    pub state: ReviewerState,
    pub duration_tenths: Option<u64>,
}

#[derive(Clone, Copy, Debug, PartialEq, Eq, Structural)]
pub enum ConvergenceVerdict {
    Converged,
    NotConverged,
}

pub open spec fn convergence_name(v: ConvergenceVerdict) -> Seq<char> {
    match v {
        ConvergenceVerdict::Converged => "CONVERGED"@,
        ConvergenceVerdict::NotConverged => "NOT_CONVERGED"@,
    }
}

pub fn format_convergence(verdict: ConvergenceVerdict) -> (r: &'static str)
    ensures
        r@ == convergence_name(verdict),
{
    match verdict {
        ConvergenceVerdict::Converged => "CONVERGED",
        ConvergenceVerdict::NotConverged => "NOT_CONVERGED",
    }
}

pub open spec fn startup_phase_name(p: StartupPhase) -> Seq<char> {
    match p {
        StartupPhase::References => "references"@,
        StartupPhase::History => "history"@,
        StartupPhase::Docs => "docs"@,
        StartupPhase::Prechecks => "prechecks"@,
    }
}

pub fn format_startup_phase(phase: StartupPhase) -> (r: &'static str)
    ensures
        r@ == startup_phase_name(phase),
{
    match phase {
        StartupPhase::References => "references",
        StartupPhase::History => "history",
        StartupPhase::Docs => "docs",
        StartupPhase::Prechecks => "prechecks",
    }
}

pub open spec fn startup_status_name(s: StartupPhaseStatus) -> Seq<char> {
    match s {
        StartupPhaseStatus::Started => "started"@,
        StartupPhaseStatus::Completed => "completed"@,
        StartupPhaseStatus::Failed => "failed"@,
    }
}

pub fn format_startup_status(status: StartupPhaseStatus) -> (r: &'static str)
    ensures
        r@ == startup_status_name(status),
{
    match status {
        StartupPhaseStatus::Started => "started",
        StartupPhaseStatus::Completed => "completed",
        StartupPhaseStatus::Failed => "failed",
    }
}

/// A duration of `tenths` tenths of a second with one decimal: `12.3s`.
pub open spec fn duration_text(tenths: u64) -> Seq<char> {
    decimal((tenths / 10) as nat) + "."@ + decimal((tenths % 10) as nat) + "s"@
}

pub fn format_duration(tenths: u64) -> (r: String)
    ensures
        r@ == duration_text(tenths),
{
    let mut out = String::new();
    push_decimal(&mut out, tenths / 10);
    push_str(&mut out, ".");
    push_decimal(&mut out, tenths % 10);
    push_str(&mut out, "s");
    out
}

pub open spec fn state_marker(s: ReviewerState) -> Seq<char> {
    match s {
        ReviewerState::Queued => "..."@,
        ReviewerState::Running => "RUN"@,
        ReviewerState::Done => "OK"@,
        ReviewerState::Error => "ERR"@,
    }
}

/// One agent: its marker and id, and its duration when known.
pub open spec fn status_part(s: ReviewerStatus) -> Seq<char> {
    match s.duration_tenths {
        Some(t) => state_marker(s.state) + " "@ + s.id@ + " ("@ + duration_text(t) + ")"@,
        None => state_marker(s.state) + " "@ + s.id@,
    }
}

/// All agents of a round on one line: `[OK a (1.2s) | RUN b]`.
pub open spec fn parallel_status_text(statuses: Seq<ReviewerStatus>) -> Seq<char> {
    "["@ + join_with(statuses.map_values(|s: ReviewerStatus| status_part(s)), " | "@) + "]"@
}

pub fn format_parallel_status(statuses: &[ReviewerStatus]) -> (r: String)
    ensures
        r@ == parallel_status_text(statuses@),
{
    let mut parts: Vec<String> = Vec::new();
    let mut i: usize = 0;
    while i < statuses.len()
        invariant
            i <= statuses@.len(),
            parts@.len() == i,
            forall|k: int| 0 <= k < i ==> #[trigger] parts@[k]@ == status_part(statuses@[k]),
        decreases statuses.len() - i,
    {
        let s = &statuses[i];
        let marker = match s.state {
            ReviewerState::Queued => "...",
            ReviewerState::Running => "RUN",
            ReviewerState::Done => "OK",
            ReviewerState::Error => "ERR",
        };
        let mut part = String::new();
        push_str(&mut part, marker);
        push_str(&mut part, " ");
        push_string(&mut part, &s.id);
        match s.duration_tenths {
            Some(t) => {
                push_str(&mut part, " (");
                let d = format_duration(t);
                push_string(&mut part, &d);
                push_str(&mut part, ")");
            },
            None => {},
        }
        assert(part@ =~= status_part(statuses@[i as int]));
        parts.push(part);
        i += 1;
    }
    assert(strs(parts@) =~= statuses@.map_values(|s: ReviewerStatus| status_part(s)));
    let joined = join_strs(&parts, " | ");
    let mut out = String::new();
    push_str(&mut out, "[");
    push_string(&mut out, &joined);
    push_str(&mut out, "]");
    out
}

/// What a review run reports as it goes; durations are held in tenths of
/// a second.
pub enum ProgressEvent {
    RunHeader {
        reviewers: Vec<String>,
        max_rounds: u8,
        changed_files: usize,
        changed_lines: usize,
        convergence_enabled: bool,
        context_enabled: bool,
    },
    PhaseStart { phase: String },
    PhaseDone { phase: String },
    AnalyzerStart,
    AnalyzerDone,
    StartupPhase {
        phase: StartupPhase,
        status: StartupPhaseStatus,
        count: Option<usize>,
        duration_tenths: Option<u64>,
        detail: String,
    },
    AnalysisReady { markdown: String },
    SystemContextReady { markdown: String },
    RoundStart { round: u8, total_rounds: u8, agents: Vec<String> },
    ParallelStatus { round: u8, statuses: Vec<ReviewerStatus> },
    AgentStart { round: u8, id: String },
    AgentReview {
        round: u8,
        id: String,
        summary: String,
        highlights: Vec<AgentFindingPreview>,
        details: String,
    },
    AgentDone { round: u8, id: String },
    AgentError { round: u8, id: String, message: String },
    RoundDone { round: u8 },
    ConvergenceJudgment { round: u8, verdict: ConvergenceVerdict, rationale: String },
    RoundComplete { round: u8, total_rounds: u8 },
    AutoFixReady,
    Completed(ReviewReport),
    Canceled,
}

} // verus!
