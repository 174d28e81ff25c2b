use libcrucible::config::VerdictConfig;
use libcrucible::issue_list::{build_issue_list, build_issue_rows_from_canonical, render_issues_markdown, report_text};
use libcrucible::report::{CanonicalIssue, Confidence, ConsensusMap, FinalActionPlan, Finding, LineSpan, Severity};
use libcrucible::review_report::ReviewReport;
use libcrucible::report::Verdict;

fn finding(agent: &str, file: &str, start: u32, end: u32, message: &str, severity: Severity) -> Finding {
    Finding {
        agent: agent.to_string(),
        severity,
        confidence: Confidence::High,
        file: Some(file.to_string()),
        span: Some(LineSpan { start, end }),
        message: message.to_string(),
        category: None,
        title: None,
        description: None,
        suggested_fix: None,
        evidence: Vec::new(),
        round: 1,
        raised_by: vec![agent.to_string()],
    }
}

fn report(findings: &[Finding], issues: Vec<CanonicalIssue>) -> ReviewReport {
    ReviewReport::from_findings(
        uuid::Uuid::nil(),
        findings,
        Vec::new(),
        issues,
        None,
        None,
        None,
        &VerdictConfig { block_on: "Critical".to_string() },
        ConsensusMap(Vec::new()),
        None,
        None,
        None,
        None,
    )
}

fn issue(severity: Severity, title: &str, file: Option<&str>, start: Option<u32>, end: Option<u32>) -> CanonicalIssue {
    CanonicalIssue {
        severity,
        category: "correctness".to_string(),
        file: file.map(|f| f.to_string()),
        line_start: start,
        line_end: end,
        title: title.to_string(),
        description: "desc".to_string(),
        suggested_fix: Some("fix it".to_string()),
        raised_by: vec!["codex".to_string(), "gemini".to_string()],
        evidence: Vec::new(),
    }
}

#[test]
fn dedup_normalization_collapses_whitespace_and_case() {
    let findings = vec![
        finding("open-code", "src/main.rs", 10, 10, "  Missing   error handling ", Severity::Warning),
        finding("codex", "SRC/main.rs", 10, 10, "missing error handling", Severity::Warning),
    ];
    let issues = build_issue_list(&report(&findings, Vec::new()));
    assert_eq!(issues.len(), 1);
    assert_eq!(issues[0].raised_by.len(), 2);
}

#[test]
fn grouped_rows_sort_by_severity_then_location() {
    let findings = vec![
        finding("b", "z.rs", 1, 1, "info", Severity::Info),
        finding("a", "m.rs", 2, 5, "crit", Severity::Critical),
        finding("c", "a.rs", 3, 3, "warn", Severity::Warning),
        finding("a", "a.rs", 3, 3, "WARN", Severity::Warning),
    ];
    let rows = build_issue_list(&report(&findings, Vec::new()));
    assert_eq!(rows.len(), 3);
    assert_eq!(rows[0].location, "m.rs:2-5");
    assert_eq!(rows[1].location, "a.rs:3");
    assert_eq!(rows[1].raised_by, vec!["a".to_string(), "c".to_string()]);
    assert_eq!(rows[1].title, "warn");
    assert_eq!(rows[2].severity, Severity::Info);
    assert!(rows[2].category.is_none());
}

#[test]
fn canonical_rows_are_preferred_and_sorted() {
    let issues = vec![
        issue(Severity::Info, "b", None, None, None),
        issue(Severity::Critical, "z", Some("x.rs"), Some(4), Some(6)),
        issue(Severity::Critical, "a", Some("x.rs"), Some(4), Some(6)),
    ];
    let rows = build_issue_rows_from_canonical(&issues);
    assert_eq!(rows[0].title, "a");
    assert_eq!(rows[1].title, "z");
    assert_eq!(rows[2].location, "<unknown>");
    let from_report = build_issue_list(&report(&[finding("a", "q.rs", 1, 1, "m", Severity::Info)], issues));
    assert_eq!(from_report.len(), 3);
    assert_eq!(from_report[0].category.as_deref(), Some("correctness"));
}

#[test]
fn markdown_export_numbers_entries() {
    let rows = build_issue_rows_from_canonical(&[issue(Severity::Warning, "Leak", Some("a.rs"), Some(3), None)]);
    assert_eq!(
        render_issues_markdown(&rows),
        "# Crucible Issues\n\n1. [WARNING] `a.rs:3` Leak\n   - raised_by: codex, gemini\n   - description: desc\n   - category: correctness\n   - suggested_fix: fix it\n"
    );
}

#[test]
fn printed_report_lists_issues_findings_and_outcome() {
    let findings = vec![finding("codex", "a.rs", 3, 3, "boom", Severity::Critical)];
    let mut rep = report(&findings, Vec::new());
    rep.final_action_plan = Some(FinalActionPlan { prioritized_steps: vec!["fix".to_string()], quick_wins: Vec::new() });
    assert_eq!(rep.verdict, Verdict::Block);
    let rows = build_issue_list(&rep);
    let text = report_text(&rep, &rows);
    assert_eq!(
        text,
        "\nIssues Found (1 unique, 1 total across agents)\n   1. [CRITICAL] a.rs:3 boom [codex]\n      boom\nCrucible Review — 1 findings (1 Critical, 0 Warning, 0 Info)\n\n  [CRITICAL]  a.rs:3                boom\n\nAction Plan:\n  - fix\n\nOutcome: BLOCK\n"
    );
}
