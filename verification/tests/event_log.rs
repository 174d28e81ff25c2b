use libcrucible::event_log::{log_event_text, progress_event_text, SpinnerState};
use libcrucible::progress::{
    format_duration, AgentFindingPreview, ConvergenceVerdict, ProgressEvent, ReviewerState, ReviewerStatus,
    StartupPhase, StartupPhaseStatus,
};

fn tenths(seconds: f32) -> u64 {
    (seconds * 10.0).round() as u64
}

#[test]
fn review_format_duration_uses_one_decimal_second() {
    assert_eq!(format_duration(tenths(0.04)), "0.0s");
    assert_eq!(format_duration(tenths(1.06)), "1.1s");
    assert_eq!(format_duration(tenths(12.34)), "12.3s");
}

#[test]
fn log_helpers_format_duration_uses_one_decimal_second() {
    assert_eq!(format_duration(tenths(0.04)), "0.0s");
    assert_eq!(format_duration(tenths(1.06)), "1.1s");
    assert_eq!(format_duration(tenths(12.34)), "12.3s");
}

#[test]
fn log_lines_per_event() {
    let header = ProgressEvent::RunHeader {
        reviewers: vec!["codex".to_string(), "gemini".to_string()],
        max_rounds: 2,
        changed_files: 3,
        changed_lines: 40,
        convergence_enabled: true,
        context_enabled: false,
    };
    assert_eq!(
        log_event_text(&header),
        "[progress] run:header agents=codex,gemini max_rounds=2 changed_files=3 changed_lines=40 convergence_enabled=true context_enabled=false\n"
    );
    assert_eq!(
        progress_event_text(&header),
        "Configuration loaded\nFound local changes (40 lines)\nAgents: codex, gemini\nMax rounds: 2\n"
    );
    let startup = ProgressEvent::StartupPhase {
        phase: StartupPhase::Docs,
        status: StartupPhaseStatus::Completed,
        count: Some(4),
        duration_tenths: Some(15),
        detail: "ok".to_string(),
    };
    assert_eq!(log_event_text(&startup), "[progress] startup:docs completed count=4 duration=1.5s ok\n");
    let judged = ProgressEvent::ConvergenceJudgment {
        round: 1,
        verdict: ConvergenceVerdict::NotConverged,
        rationale: "open issues".to_string(),
    };
    assert_eq!(
        log_event_text(&judged),
        "[progress] convergence round=1 verdict=NOT_CONVERGED rationale=open issues\n"
    );
    let done = ProgressEvent::RoundComplete { round: 1, total_rounds: 2 };
    assert_eq!(log_event_text(&done), "[progress] round:1/2 complete\n");
    assert_eq!(progress_event_text(&done), "-- Round 1/2 complete --\n");
    let review = ProgressEvent::AgentReview {
        round: 1,
        id: "codex".to_string(),
        summary: "1 findings".to_string(),
        highlights: vec![AgentFindingPreview {
            severity: "WARNING".to_string(),
            location: "a.rs:2".to_string(),
            message: "slow".to_string(),
        }],
        details: "Findings: x".to_string(),
    };
    assert_eq!(
        log_event_text(&review),
        "[agent-review] round=1 id=codex 1 findings\n[agent-review] details:\nFindings: x\n[agent-review]   [WARNING] a.rs:2 slow\n"
    );
    assert_eq!(log_event_text(&ProgressEvent::Canceled), "[progress] canceled\n");
}

#[test]
fn spinner_tracks_phase_round_and_status() {
    let mut spinner = SpinnerState::new();
    let first = spinner.step(&ProgressEvent::AnalyzerStart);
    assert_eq!(first, "\r\u{1b}[36m⠋\u{1b}[0m \u{1b}[33minitializing\u{1b}[0m (startup)");
    spinner.step(&ProgressEvent::PhaseStart { phase: "analyzer".to_string() });
    spinner.step(&ProgressEvent::RoundStart { round: 1, total_rounds: 2, agents: Vec::new() });
    let line = spinner.step(&ProgressEvent::ParallelStatus {
        round: 1,
        statuses: vec![ReviewerStatus { id: "codex".to_string(), state: ReviewerState::Running, duration_tenths: None }],
    });
    assert_eq!(line, "\r\u{1b}[36m⠸\u{1b}[0m \u{1b}[33manalyzer\u{1b}[0m (round 1) | [RUN codex]");
    assert_eq!(spinner.frame, 4);
    assert_eq!(spinner.step(&ProgressEvent::Canceled), "\n");
    assert_eq!(spinner.frame, 4);
}
