use libcrucible::analysis::{FocusAreas, FocusItem};
use libcrucible::context::{GatheredContext, PrecheckSignal, PrecheckStatus, ReviewContext};
use libcrucible::plugin::AgentReviewOutput;
use libcrucible::report::{AgentFailure, CanonicalIssue, Confidence, FinalActionPlan, RawFinding, Severity};
use libcrucible::summary::{
    fallback_focus, format_round_synthesis, render_analysis_markdown, render_final_analysis_markdown,
    render_system_context_markdown, summarize_agent_output,
};

fn raw(file: Option<&str>, start: Option<u32>, end: Option<u32>, severity: Severity, message: &str) -> RawFinding {
    RawFinding {
        severity,
        file: file.map(|f| f.to_string()),
        line_start: start,
        line_end: end,
        message: message.to_string(),
        confidence: Confidence::High,
        category: None,
        title: None,
        description: None,
        suggested_fix: None,
        evidence: Vec::new(),
    }
}

fn context(files: &[&str], prechecks: Vec<PrecheckSignal>) -> ReviewContext {
    let mut gathered = GatheredContext::new();
    gathered.prechecks = prechecks;
    ReviewContext {
        diff: String::new(),
        changed_files: files.iter().map(|f| f.to_string()).collect(),
        base_ref: "main".to_string(),
        head_ref: "HEAD".to_string(),
        repo_root: ".".to_string(),
        gathered,
        dep_graph: None,
    }
}

fn issue(severity: Severity, title: &str, file: Option<&str>, line: Option<u32>) -> CanonicalIssue {
    CanonicalIssue {
        severity,
        category: "correctness".to_string(),
        file: file.map(|f| f.to_string()),
        line_start: line,
        line_end: line,
        title: title.to_string(),
        description: "d".to_string(),
        suggested_fix: None,
        raised_by: vec!["codex".to_string()],
        evidence: Vec::new(),
    }
}

#[test]
fn analysis_markdown_lists_only_non_empty_sections() {
    let focus = FocusAreas {
        summary: "Adds caching".to_string(),
        focus_items: vec![FocusItem { area: "cache.rs".to_string(), rationale: "new".to_string() }],
        trade_offs: vec!["memory".to_string()],
        affected_modules: Vec::new(),
        call_chain: Vec::new(),
        design_patterns: Vec::new(),
        reviewer_checklist: vec!["check eviction".to_string()],
    };
    assert_eq!(
        render_analysis_markdown(&focus),
        "## Local Diff Analysis\n\nAdds caching\n\n### Suggested Review Focus\n- cache.rs: new\n\n### Trade-offs\n- memory\n\n### Review Checklist\n- check eviction\n"
    );
}

#[test]
fn system_context_counts_and_lists() {
    let signal = PrecheckSignal {
        tool: "clippy".to_string(),
        status: PrecheckStatus::Warn,
        summary: "2 warnings".to_string(),
        command: "cargo clippy".to_string(),
    };
    let ctx = context(&["src/a.rs"], vec![signal]);
    assert_eq!(
        render_system_context_markdown(&ctx),
        "### System Context\n- Changed files: 1\n- Reference snippets: 0\n- History commits: 0\n- Docs snippets: 0\n- Deterministic prechecks: 1\n- Affected files:\n  - src/a.rs\n- Precheck results:\n  - clippy [Warn] 2 warnings\n"
    );
    let empty = context(&[], Vec::new());
    assert_eq!(
        render_system_context_markdown(&empty),
        "### System Context\n- Changed files: 0\n- Reference snippets: 0\n- History commits: 0\n- Docs snippets: 0\n- Deterministic prechecks: 0\n"
    );
}

#[test]
fn fallback_focus_takes_the_first_files() {
    let files: Vec<String> = (0..12).map(|i| format!("f{i}.rs")).collect();
    let refs: Vec<&str> = files.iter().map(|s| s.as_str()).collect();
    let ctx = context(&refs, Vec::new());
    let focus = fallback_focus(&ctx, "timeout");
    assert_eq!(focus.summary, "Analyzer fallback in use because the analyzer failed: timeout");
    assert_eq!(focus.focus_items.len(), 5);
    assert_eq!(focus.focus_items[4].area, "f4.rs");
    assert_eq!(focus.affected_modules.len(), 10);
    assert_eq!(focus.reviewer_checklist.len(), 1);
    assert!(focus.call_chain.is_empty());
}

#[test]
fn final_analysis_counts_failures_and_issues() {
    let issues = vec![issue(Severity::Critical, "Leak", Some("a.rs"), Some(3)), issue(Severity::Info, "Nit", None, None)];
    let plan = FinalActionPlan { prioritized_steps: vec!["fix leak".to_string()], quick_wins: Vec::new() };
    let failures = vec![AgentFailure {
        agent: "gemini".to_string(),
        stage: "review".to_string(),
        round: Some(2),
        message: "timed out".to_string(),
    }];
    assert_eq!(
        render_final_analysis_markdown(&issues, &plan, &failures),
        "## Final Analysis\n\n- Issues: 2 (Critical: 1, Warning: 0, Info: 1)\n- Agent failures: 1\n\n### Agent Execution Issues\n- gemini [review round 2]: timed out\n\n### Top Issues\n- [Critical] Leak `a.rs:3`\n- [Info] Nit `<unknown>`\n\n### Action Plan\n- fix leak\n"
    );
    let none = render_final_analysis_markdown(&[], &FinalActionPlan { prioritized_steps: Vec::new(), quick_wins: Vec::new() }, &[]);
    assert!(none.ends_with("### Top Issues\n- No issues found.\n\n### Action Plan\n- No blocking actions.\n"));
}

#[test]
fn agent_output_summary_ranks_and_details() {
    let mut w = raw(Some("a.rs"), Some(1), Some(4), Severity::Warning, "slow loop");
    w.description = Some("  quadratic  ".to_string());
    let output = AgentReviewOutput {
        findings: vec![
            raw(None, None, None, Severity::Info, "nit"),
            w,
            raw(Some("b.rs"), Some(7), Some(7), Severity::Critical, "crash"),
        ],
        narrative: "  Found three.\nMore text ".to_string(),
    };
    let (summary, highlights, details) = summarize_agent_output(&output, true);
    assert_eq!(summary, "3 findings (1 Critical, 1 Warning, 1 Info) | Found three. | diff chunking enabled");
    assert_eq!(highlights.len(), 3);
    assert_eq!(highlights[0].severity, "CRITICAL");
    assert_eq!(highlights[0].location, "b.rs:7");
    assert_eq!(highlights[1].severity, "WARNING");
    assert_eq!(highlights[2].location, "<unknown>");
    assert_eq!(
        details,
        "Narrative:\nFound three.\nMore text\n\nFindings:\n- [Info] <unknown> nit\n- [Warning] a.rs:1-4 slow loop\n  description: quadratic\n- [Critical] b.rs:7 crash\n"
    );
    let empty = AgentReviewOutput { findings: Vec::new(), narrative: String::new() };
    let (summary, highlights, details) = summarize_agent_output(&empty, false);
    assert_eq!(summary, "No findings");
    assert!(highlights.is_empty());
    assert_eq!(details, "Findings: none");
}

#[test]
fn round_synthesis_orders_agents_by_id() {
    let entries = vec![
        ("zeta".to_string(), vec![raw(Some("a.rs"), Some(2), None, Severity::Warning, "w")]),
        ("alpha".to_string(), Vec::new()),
    ];
    assert_eq!(
        format_round_synthesis(1, &entries),
        "Round 1 prior agent findings:\n\n- alpha\n  - No findings\n\n- zeta\n  - [Warning] a.rs:2 w\n"
    );
}
