use libcrucible::plugin::{AgentReviewOutput, ConvergenceDecision};
use libcrucible::progress::{ConvergenceVerdict, ReviewerState, ReviewerStatus};
use libcrucible::report::{Confidence, Finding, RawFinding, Severity};
use libcrucible::rounds::combine_chunk_outputs;
use libcrucible::rounds::{
    consensus_agents, judgement, needs_autofix, round_completed_cleanly, round_end,
    task_round_outcome, total_rounds, update_status, RoundCounts, RoundEnd,
};

fn status(id: &str, state: ReviewerState) -> ReviewerStatus {
    ReviewerStatus { id: id.to_string(), state, duration_tenths: None }
}

fn finding(severity: Severity) -> Finding {
    Finding {
        agent: "codex".to_string(),
        severity,
        confidence: Confidence::High,
        file: None,
        span: None,
        message: "m".to_string(),
        category: None,
        title: None,
        description: None,
        suggested_fix: None,
        evidence: Vec::new(),
        round: 1,
        raised_by: vec!["codex".to_string()],
    }
}

#[test]
fn total_rounds_is_the_smaller_of_config_and_plan() {
    assert_eq!(total_rounds(2, 5), 2);
    assert_eq!(total_rounds(4, 2), 2);
    assert_eq!(total_rounds(0, 0), 1);
    assert_eq!(total_rounds(0, 3), 1);
}

#[test]
fn consensus_agents_is_the_largest_round() {
    assert_eq!(consensus_agents(&vec![]), 1);
    assert_eq!(consensus_agents(&vec![3, 2]), 3);
    assert_eq!(consensus_agents(&vec![0]), 0);
}

#[test]
fn round_end_skips_when_nothing_found_on_a_clean_round() {
    assert_eq!(round_end(1, 2, 0, true), RoundEnd::SkipRemaining);
    assert_eq!(round_end(1, 2, 0, false), RoundEnd::AskJudge);
    assert_eq!(round_end(1, 2, 3, true), RoundEnd::AskJudge);
    assert_eq!(round_end(2, 2, 3, true), RoundEnd::Proceed);
    assert_eq!(round_end(1, 1, 0, true), RoundEnd::Proceed);
}

#[test]
fn judgement_prefers_the_judge_and_falls_back_on_counts() {
    let d = ConvergenceDecision { verdict: ConvergenceVerdict::Converged, rationale: "agreed".to_string() };
    let r = judgement(Some(d), 1, RoundCounts { findings: 3, critical: 1 }, RoundCounts { findings: 0, critical: 0 });
    assert_eq!(r.verdict, ConvergenceVerdict::Converged);
    assert_eq!(r.rationale, "agreed");

    let same = RoundCounts { findings: 2, critical: 1 };
    let r = judgement(None, 2, same, same);
    assert_eq!(r.verdict, ConvergenceVerdict::Converged);
    assert_eq!(r.rationale, "No net-new findings and no increase in critical risk.");

    let r = judgement(None, 1, same, same);
    assert_eq!(r.verdict, ConvergenceVerdict::NotConverged);
    assert_eq!(r.rationale, "Net-new findings or unresolved high-severity issues remain.");

    let r = judgement(None, 3, RoundCounts { findings: 2, critical: 2 }, same);
    assert_eq!(r.verdict, ConvergenceVerdict::NotConverged);
}

#[test]
fn clean_round_needs_every_agent_done() {
    assert!(round_completed_cleanly(&vec![status("a", ReviewerState::Done)]));
    assert!(round_completed_cleanly(&vec![]));
    assert!(!round_completed_cleanly(&vec![
        status("a", ReviewerState::Done),
        status("b", ReviewerState::Error)
    ]));
}

#[test]
fn update_status_changes_the_first_matching_agent() {
    let mut v = vec![status("a", ReviewerState::Queued), status("b", ReviewerState::Queued)];
    update_status(&mut v, "b", ReviewerState::Running, None);
    assert_eq!(v[1].state, ReviewerState::Running);
    assert_eq!(v[0].state, ReviewerState::Queued);
    update_status(&mut v, "b", ReviewerState::Done, Some(12));
    assert_eq!(v[1].duration_tenths, Some(12));
    update_status(&mut v, "b", ReviewerState::Error, None);
    assert_eq!(v[1].duration_tenths, Some(12));
    update_status(&mut v, "zzz", ReviewerState::Error, None);
    assert_eq!(v[0].state, ReviewerState::Queued);
}

#[test]
fn autofix_only_for_warnings_or_worse() {
    assert!(!needs_autofix(&[finding(Severity::Info)]));
    assert!(needs_autofix(&[finding(Severity::Info), finding(Severity::Warning)]));
    assert!(needs_autofix(&[finding(Severity::Critical)]));
    assert!(!needs_autofix(&[]));
}

#[test]
fn task_round_outcome_carries_the_reason() {
    let (summary, stop) = task_round_outcome(None, 2);
    assert_eq!(summary, "Round 2: fallback: continue until final round");
    assert!(!stop);
    let d = ConvergenceDecision { verdict: ConvergenceVerdict::Converged, rationale: "done".to_string() };
    let (summary, stop) = task_round_outcome(Some(d), 1);
    assert_eq!(summary, "Round 1: done");
    assert!(stop);
}

#[test]
fn chunk_answers_combine_in_order() {
    let raw = |m: &str| RawFinding {
        severity: Severity::Warning,
        file: None,
        line_start: None,
        line_end: None,
        message: m.to_string(),
        confidence: Confidence::High,
        category: None,
        title: None,
        description: None,
        suggested_fix: None,
        evidence: Vec::new(),
    };
    let out = combine_chunk_outputs(vec![
        AgentReviewOutput { findings: vec![raw("a"), raw("b")], narrative: "  first  ".to_string() },
        AgentReviewOutput { findings: Vec::new(), narrative: " \n".to_string() },
        AgentReviewOutput { findings: vec![raw("c")], narrative: "third".to_string() },
    ]);
    let msgs: Vec<&str> = out.findings.iter().map(|f| f.message.as_str()).collect();
    assert_eq!(msgs, vec!["a", "b", "c"]);
    assert_eq!(out.narrative, "first | third");
    assert_eq!(combine_chunk_outputs(Vec::new()).narrative, "");
}
