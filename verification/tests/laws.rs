use libcrucible::cli_agent::sanitize_terminal_output;
use libcrucible::config::VerdictConfig;
use libcrucible::coordinator::{AgentMessage, MessageSnapshotter};
use libcrucible::pr_review::build_review_draft;
use libcrucible::reference::directory_distance;
use libcrucible::report::{CanonicalIssue, Confidence, Finding, LineSpan, Severity, Verdict};
use libcrucible::synthesis::{build_action_plan, build_canonical_issues, merge_structured_issues, sort_issues};
use libcrucible::tracker::spans_overlap;

fn finding(severity: Severity, message: &str, file: &str, line: u32) -> Finding {
    Finding {
        agent: "codex".to_string(),
        severity,
        confidence: Confidence::High,
        file: Some(file.to_string()),
        span: Some(LineSpan { start: line, end: line }),
        message: message.to_string(),
        category: None,
        title: None,
        description: None,
        suggested_fix: None,
        evidence: Vec::new(),
        round: 1,
        raised_by: vec!["codex".to_string()],
    }
}

fn issue(severity: Severity, title: &str, line: u32) -> CanonicalIssue {
    CanonicalIssue {
        severity,
        category: "correctness".to_string(),
        file: Some("src/lib.rs".to_string()),
        line_start: Some(line),
        line_end: Some(line),
        title: title.to_string(),
        description: title.to_string(),
        suggested_fix: None,
        raised_by: vec!["codex".to_string()],
        evidence: Vec::new(),
    }
}

#[test]
fn more_findings_never_soften_the_outcome() {
    let cfg = VerdictConfig { block_on: "Warning".to_string() };
    let few = vec![finding(Severity::Warning, "w", "a.rs", 1)];
    let mut more = few.clone();
    more.push(finding(Severity::Info, "i", "b.rs", 2));
    assert_eq!(Verdict::from_findings(&few, &cfg), Verdict::Block);
    assert_eq!(Verdict::from_findings(&more, &cfg), Verdict::Block);
    let critical = VerdictConfig { block_on: "Critical".to_string() };
    assert_eq!(Verdict::from_findings(&few, &critical), Verdict::Warn);
    assert_eq!(Verdict::from_findings(&[], &critical), Verdict::Pass);
}

#[test]
fn issues_come_out_most_severe_first() {
    let sorted = sort_issues(
        vec![issue(Severity::Info, "a", 1), issue(Severity::Critical, "b", 9), issue(Severity::Warning, "c", 5)],
        true,
    );
    let sev: Vec<Severity> = sorted.iter().map(|i| i.severity).collect();
    assert_eq!(sev, vec![Severity::Critical, Severity::Warning, Severity::Info]);
    let findings = vec![
        finding(Severity::Info, "style", "a.rs", 1),
        finding(Severity::Critical, "crash", "a.rs", 2),
        finding(Severity::Critical, "Crash", "a.rs", 2),
    ];
    let canonical = build_canonical_issues(&findings);
    assert!(canonical.len() <= findings.len());
    assert_eq!(canonical.len(), 2);
    assert_eq!(canonical[0].severity, Severity::Critical);
}

#[test]
fn merging_keeps_the_baseline_and_plan_is_bounded() {
    let baseline = vec![issue(Severity::Warning, "w", 3)];
    let merged = merge_structured_issues(baseline.clone(), vec![issue(Severity::Critical, "new", 4), issue(Severity::Warning, "w", 3)]);
    assert_eq!(merged.len(), 2);
    assert!(merged.iter().any(|i| i.title == "w"));
    assert_eq!(merged[0].severity, Severity::Critical);
    let plan = build_action_plan(&merged);
    assert!(plan.prioritized_steps.len() + plan.quick_wins.len() <= merged.len());
}

#[test]
fn every_issue_gets_exactly_one_draft() {
    let diff = "diff --git a/src/lib.rs b/src/lib.rs\n--- a/src/lib.rs\n+++ b/src/lib.rs\n@@ -1,1 +1,2 @@\n line\n+added\n";
    let issues = vec![issue(Severity::Warning, "mapped", 2), issue(Severity::Info, "far away", 90)];
    let draft = build_review_draft("overview".to_string(), &issues, diff);
    assert_eq!(draft.inline_comments.len() + draft.overview_only_comments.len(), issues.len());
    assert_eq!(draft.inline_comments.len(), 1);
}

#[test]
fn frozen_rounds_are_found_again() {
    let mut snaps = MessageSnapshotter::new();
    let msgs = vec![("codex".to_string(), vec![AgentMessage { role: "user".to_string(), content: "hi".to_string() }])];
    snaps.freeze_round(1, &msgs);
    snaps.freeze_round(1, &Vec::new());
    snaps.freeze_round(2, &Vec::new());
    let first = snaps.get_snapshot(1).unwrap();
    assert_eq!(first.messages.len(), 1);
    assert_eq!(first.messages[0].1[0].content, "hi");
    assert!(snaps.get_snapshot(2).unwrap().messages.is_empty());
    assert!(snaps.get_snapshot(3).is_none());
}

#[test]
fn sanitized_output_has_no_escape_characters() {
    let out = sanitize_terminal_output("a\u{1b}[31mred\u{1b}[0m b\u{1b}]0;title\u{07}c");
    assert_eq!(out, "ared bc");
    assert!(!out.contains('\u{1b}'));
    assert_eq!(sanitize_terminal_output("plain text"), "plain text");
}

#[test]
fn distance_and_overlap_are_symmetric() {
    assert_eq!(directory_distance("src/a/x.rs", "tests/y.rs"), directory_distance("tests/y.rs", "src/a/x.rs"));
    assert_eq!(directory_distance("src/x.rs", "src/y.rs"), 0);
    let a = LineSpan { start: 1, end: 5 };
    let b = LineSpan { start: 4, end: 9 };
    assert_eq!(spans_overlap(&a, &b), spans_overlap(&b, &a));
}
