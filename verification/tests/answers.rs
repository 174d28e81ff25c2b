use libcrucible::answers::{
    confidence_from_text, count_matches, eq_ignore_ascii_case_exec, importance_from_text, issue_matches,
    severity_from_text, truncate_line, ExpectedIssue,
};
use libcrucible::consensus::ItemImportance;
use libcrucible::report::{CanonicalIssue, Confidence, Severity};

fn issue(severity: Severity, title: &str, file: Option<&str>, start: Option<u32>) -> CanonicalIssue {
    CanonicalIssue {
        severity,
        category: "correctness".to_string(),
        file: file.map(|f| f.to_string()),
        line_start: start,
        line_end: start,
        title: title.to_string(),
        description: "desc".to_string(),
        suggested_fix: None,
        raised_by: vec!["codex".to_string()],
        evidence: Vec::new(),
    }
}

fn expected(severity: Option<&str>, file: Option<&str>, line: Option<u32>, title: Option<&str>) -> ExpectedIssue {
    ExpectedIssue {
        severity: severity.map(|s| s.to_string()),
        file: file.map(|s| s.to_string()),
        line_start: line,
        title_contains: title.map(|s| s.to_string()),
    }
}

#[test]
fn answer_words_map_to_levels() {
    assert_eq!(severity_from_text("Critical"), Severity::Critical);
    assert_eq!(severity_from_text("Warning"), Severity::Warning);
    assert_eq!(severity_from_text("critical"), Severity::Info);
    assert_eq!(severity_from_text(""), Severity::Info);
    assert_eq!(confidence_from_text("High"), Confidence::High);
    assert_eq!(confidence_from_text("Medium"), Confidence::Medium);
    assert_eq!(confidence_from_text("HIGH"), Confidence::Low);
    assert_eq!(importance_from_text("HIGH"), ItemImportance::High);
    assert_eq!(importance_from_text("Medium"), ItemImportance::Medium);
    assert_eq!(importance_from_text("urgent"), ItemImportance::Low);
}

#[test]
fn ascii_case_is_ignored_only_for_ascii_letters() {
    assert!(eq_ignore_ascii_case_exec("Src/Lib.RS", "src/lib.rs"));
    assert!(!eq_ignore_ascii_case_exec("src/lib.rs", "src/lib.r"));
    assert!(!eq_ignore_ascii_case_exec("É", "é"));
    assert!(eq_ignore_ascii_case_exec("", ""));
}

#[test]
fn expected_issue_fields_each_narrow_the_match() {
    let found = issue(Severity::Critical, "Null Pointer dereference in parser", Some("src/Parser.rs"), Some(42));
    assert!(issue_matches(&expected(None, None, None, None), &found));
    assert!(issue_matches(&expected(Some("critical"), Some("src/parser.rs"), Some(42), Some("null pointer")), &found));
    assert!(!issue_matches(&expected(Some("warning"), None, None, None), &found));
    assert!(!issue_matches(&expected(None, Some("src/lexer.rs"), None, None), &found));
    assert!(!issue_matches(&expected(None, None, Some(41), None), &found));
    assert!(!issue_matches(&expected(None, None, None, Some("overflow")), &found));
    let nowhere = issue(Severity::Info, "Style", None, None);
    assert!(!issue_matches(&expected(None, Some("a.rs"), None, None), &nowhere));
    assert!(!issue_matches(&expected(None, None, Some(1), None), &nowhere));
}

#[test]
fn count_matches_counts_expected_issues_found_at_least_once() {
    let actual = vec![
        issue(Severity::Critical, "SQL injection", Some("db.rs"), Some(10)),
        issue(Severity::Warning, "Unbounded retry loop", Some("net.rs"), Some(3)),
    ];
    let exp = vec![
        expected(Some("Critical"), None, None, Some("injection")),
        expected(None, Some("NET.RS"), None, None),
        expected(None, None, None, Some("race")),
        expected(None, None, None, None),
    ];
    assert_eq!(count_matches(&exp, &actual), 3);
    assert_eq!(count_matches(&exp, &[]), 0);
    assert_eq!(count_matches(&[], &actual), 0);
}

#[test]
fn truncate_line_flattens_and_cuts() {
    assert_eq!(truncate_line("a\nb", 10), "a b");
    assert_eq!(truncate_line("hello world", 5), "hello...");
    assert_eq!(truncate_line("hello", 5), "hello");
    assert_eq!(truncate_line("héllo wörld", 7), "héllo w...");
    assert_eq!(truncate_line("abc", 0), "...");
    assert_eq!(truncate_line("", 0), "");
}
