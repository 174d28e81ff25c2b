use libcrucible::coordinator::{chunk_diff, count_changed_lines, parse_convergence_verdict};
use libcrucible::progress::ConvergenceVerdict;
use libcrucible::report::{Confidence, Finding, RawFinding, Severity};
use libcrucible::synthesis::{
    build_action_plan, build_canonical_issues, merge_structured_issues, normalize_text,
    render_pr_comment,
};
use libcrucible::tracker::{
    calibrate_low_confidence, fallback_evidence_from_diff, message_similar, spans_overlap,
    ConsensusTracker,
};
use libcrucible::report::LineSpan;

fn finding(agent: &str, severity: Severity, confidence: Confidence, message: &str) -> Finding {
    Finding {
        agent: agent.to_string(),
        severity,
        confidence,
        file: None,
        span: None,
        message: message.to_string(),
        category: None,
        title: None,
        description: None,
        suggested_fix: None,
        evidence: Vec::new(),
        round: 1,
        raised_by: vec![agent.to_string()],
    }
}

fn raw(file: &str, start: u32, end: u32, severity: Severity, message: &str) -> RawFinding {
    RawFinding {
        severity,
        file: Some(file.to_string()),
        line_start: Some(start),
        line_end: Some(end),
        message: message.to_string(),
        confidence: Confidence::High,
        category: None,
        title: None,
        description: None,
        suggested_fix: None,
        evidence: Vec::new(),
    }
}

#[test]
fn parse_convergence_token() {
    assert_eq!(
        parse_convergence_verdict("Judgement - CONVERGED"),
        Some(ConvergenceVerdict::Converged)
    );
    assert_eq!(
        parse_convergence_verdict("NOT_CONVERGED due to unresolved issues"),
        Some(ConvergenceVerdict::NotConverged)
    );
    assert_eq!(parse_convergence_verdict("unknown"), None);
}

#[test]
fn chunking_splits_large_diff() {
    let diff = "diff --git a/a.rs b/a.rs\n@@\n".to_string()
        + &"+x\n".repeat(600)
        + "diff --git a/b.rs b/b.rs\n@@\n"
        + &"+y\n".repeat(700);
    let chunks = chunk_diff(&diff, 500, 4);
    assert!(chunks.len() >= 2);
    assert!(chunks.iter().any(|chunk| chunk.contains("diff --git a/b.rs b/b.rs")));
}

#[test]
fn chunking_keeps_remainder_in_last_chunk_when_chunk_limit_hit() {
    let diff = "diff --git a/a.rs b/a.rs\n@@\n".to_string()
        + &"+x\n".repeat(600)
        + "diff --git a/b.rs b/b.rs\n@@\n"
        + &"+y\n".repeat(600)
        + "diff --git a/c.rs b/c.rs\n@@\n"
        + &"+z\n".repeat(600);
    let chunks = chunk_diff(&diff, 500, 2);
    assert_eq!(chunks.len(), 2);
    assert!(chunks[1].contains("diff --git a/b.rs b/b.rs"));
    assert!(chunks[1].contains("diff --git a/c.rs b/c.rs"));
}

#[test]
fn low_confidence_singleton_is_downgraded() {
    let mut findings = vec![finding("opencode", Severity::Warning, Confidence::Low, "possible issue")];
    calibrate_low_confidence(&mut findings);
    assert_eq!(findings[0].severity, Severity::Info);
}

#[test]
fn corroborated_low_confidence_keeps_severity() {
    let mut findings = vec![
        finding("opencode", Severity::Critical, Confidence::Low, "Possible Issue"),
        finding("codex", Severity::Critical, Confidence::High, "possible issue"),
    ];
    calibrate_low_confidence(&mut findings);
    assert_eq!(findings[0].severity, Severity::Critical);
    assert_eq!(findings[1].severity, Severity::Critical);
}

#[test]
fn small_diff_is_one_chunk() {
    let diff = "diff --git a/a.rs b/a.rs\n+x\n";
    assert_eq!(chunk_diff(diff, 10, 0), vec![diff.to_string()]);
}

#[test]
fn changed_lines_skip_file_headers() {
    let diff = "--- a/x\n+++ b/x\n@@ -1 +1 @@\n-old\n+new\n context\n";
    assert_eq!(count_changed_lines(diff), 2);
}

#[test]
fn spans_and_messages_compare() {
    assert!(spans_overlap(&LineSpan { start: 1, end: 4 }, &LineSpan { start: 3, end: 10 }));
    assert!(!spans_overlap(&LineSpan { start: 1, end: 10 }, &LineSpan { start: 10, end: 30 }));
    assert!(!spans_overlap(&LineSpan { start: 1, end: 2 }, &LineSpan { start: 5, end: 6 }));
    assert!(message_similar("Missing error handling!", "error handling missing here"));
    assert!(!message_similar("null pointer", "style nit"));
    assert!(!message_similar("", "anything"));
}

#[test]
fn tracker_clusters_overlapping_findings_and_counts_agreement() {
    let mut tracker = ConsensusTracker::new(750, 2);
    let diff = "diff --git a/src/lib.rs b/src/lib.rs\n+++ b/src/lib.rs\n@@ -1 +1 @@\n+let x = 1;\n";
    tracker.ingest_round(&[raw("src/lib.rs", 1, 3, Severity::Warning, "x is unused")], 1, "codex", diff);
    tracker.ingest_round(&[raw("src/lib.rs", 2, 3, Severity::Critical, "unused x")], 1, "gemini", diff);
    tracker.ingest_round(&[raw("src/lib.rs", 2, 3, Severity::Info, "again")], 2, "gemini", diff);
    let map = tracker.consensus_map();
    assert_eq!(map.0.len(), 1);
    let status = &map.0[0].1;
    assert_eq!(status.agreed_count, 2);
    assert_eq!(status.total_agents, 2);
    assert_eq!(status.severity, Severity::Critical);
    assert!(status.reached_quorum);
    let all = tracker.all_findings();
    assert_eq!(all.len(), 1);
    assert_eq!(all[0].agent, "gemini");
    assert_eq!(all[0].severity, Severity::Critical);
    assert_eq!(all[0].raised_by, vec!["codex".to_string(), "gemini".to_string()]);
    assert_eq!(all[0].evidence.len(), 1);
    assert_eq!(all[0].evidence[0].quote, "+let x = 1;");
    assert_eq!(all[0].evidence[0].location, "src/lib.rs:2");
}

#[test]
fn fallback_evidence_needs_file_and_line() {
    let diff = "+++ b/a.rs\n+code\n";
    assert!(fallback_evidence_from_diff(diff, &None, Some(1)).is_empty());
    assert!(fallback_evidence_from_diff(diff, &Some("a.rs".to_string()), None).is_empty());
    let ev = fallback_evidence_from_diff(diff, &Some("a.rs".to_string()), Some(7));
    assert_eq!(ev[0].location, "a.rs:7");
    assert_eq!(ev[0].quote, "+code");
}

#[test]
fn canonical_issues_group_by_place_and_title() {
    let mut a = finding("codex", Severity::Warning, Confidence::High, "Leak  here");
    a.file = Some("src/a.rs".to_string());
    a.span = Some(LineSpan { start: 3, end: 4 });
    let mut b = finding("amp", Severity::Critical, Confidence::High, "leak here");
    b.file = Some("src/a.rs".to_string());
    b.span = Some(LineSpan { start: 3, end: 9 });
    let c = finding("gemini", Severity::Info, Confidence::High, "style");
    let issues = build_canonical_issues(&[a, b, c]);
    assert_eq!(issues.len(), 2);
    assert_eq!(issues[0].severity, Severity::Critical);
    assert_eq!(issues[0].title, "Leak  here");
    assert_eq!(issues[0].raised_by, vec!["amp".to_string(), "codex".to_string()]);
    assert_eq!(issues[0].category, "maintainability");
    assert_eq!(issues[0].line_end, Some(4));
    assert_eq!(issues[1].title, "style");

    let plan = build_action_plan(&issues);
    assert_eq!(plan.prioritized_steps, vec!["[Critical] Leak  here (src/a.rs:3)".to_string()]);
    assert_eq!(plan.quick_wins, vec!["[Info] style (<unknown>)".to_string()]);

    let comment = render_pr_comment(&issues, &plan);
    assert!(comment.starts_with("## Crucible Review Summary\n\n- Issues: 2\n- Critical: 1, Warning: 0\n\n"));
    assert!(comment.contains("- **Leak  here** `src/a.rs:3`: Leak  here\n"));

    let merged = merge_structured_issues(issues.clone(), vec![issues[1].clone()]);
    assert_eq!(merged.len(), 2);
}

#[test]
fn normalize_text_collapses_whitespace_and_case() {
    assert_eq!(normalize_text("  Missing   Error\thandling "), "missing error handling");
}
