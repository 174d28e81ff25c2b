use libcrucible::config::VerdictConfig;
use libcrucible::github::{
    github_review_body, is_already_reviewed, postable_comments, render_github_dry_run, GithubError,
    GithubReviewContext,
};
use libcrucible::pr_review::{
    PullRequestCommentDraft, PullRequestCommentMappingStatus, PullRequestCommentSide, PullRequestOverviewComment,
    PullRequestReviewDraft,
};
use libcrucible::report::{ConsensusMap, Severity};
use libcrucible::review_report::ReviewReport;

fn comment(title: &str, path: Option<&str>, line: Option<u32>, note: Option<&str>) -> PullRequestCommentDraft {
    PullRequestCommentDraft {
        severity: Severity::Warning,
        category: "correctness".to_string(),
        title: title.to_string(),
        description: format!("{title} details"),
        body: format!("body of {title}"),
        path: path.map(|p| p.to_string()),
        line,
        side: line.map(|_| PullRequestCommentSide::Right),
        start_line: None,
        start_side: None,
        source_agents: vec!["codex".to_string()],
        mapping_status: if line.is_some() {
            PullRequestCommentMappingStatus::Inline
        } else {
            PullRequestCommentMappingStatus::OverviewOnly
        },
        mapping_note: note.map(|n| n.to_string()),
    }
}

fn draft() -> PullRequestReviewDraft {
    PullRequestReviewDraft {
        overview_comment: PullRequestOverviewComment { body: "Overview".to_string() },
        inline_comments: vec![comment("Leak", Some("a.rs"), Some(3), None)],
        overview_only_comments: vec![comment("Drift", None, None, Some("not in diff"))],
    }
}

fn ctx() -> GithubReviewContext {
    GithubReviewContext {
        number: 7,
        url: "https://example.test/pr/7".to_string(),
        repo: "org/repo".to_string(),
        head_sha: "abc123".to_string(),
    }
}

fn report(draft: Option<PullRequestReviewDraft>) -> ReviewReport {
    ReviewReport::from_findings(
        uuid::Uuid::nil(),
        &[],
        Vec::new(),
        Vec::new(),
        None,
        None,
        None,
        &VerdictConfig { block_on: "Critical".to_string() },
        ConsensusMap(Vec::new()),
        None,
        None,
        None,
        draft,
    )
}

#[test]
fn dry_run_lists_comments() {
    let text = render_github_dry_run(&report(Some(draft())), &ctx()).unwrap();
    assert_eq!(
        text,
        "GitHub review dry run\nPR: https://example.test/pr/7\nRepo: org/repo\nInline comments: 1\nOverview-only comments: 1\n\nOverview:\nOverview\n\nInline comments:\n- a.rs:3 Leak\nbody of Leak\n\nOverview-only comments:\n- Drift (not in diff)\n"
    );
    assert_eq!(render_github_dry_run(&report(None), &ctx()).err(), Some(GithubError::NoReviewDraft));
}

#[test]
fn review_body_carries_markers() {
    let body = github_review_body(&draft(), "run-1", "abc123");
    assert_eq!(
        body,
        "Overview\n\n### Additional Issues Not Mapped To Diff Hunks\n- **Drift**: Drift details\n\n\n<!-- crucible-run:run-1 -->\n<!-- crucible-head:abc123 -->\n"
    );
    assert!(is_already_reviewed(&vec![None, Some(body)], "abc123"));
    assert!(!is_already_reviewed(&vec![Some("other".to_string())], "abc123"));
}

#[test]
fn only_placed_comments_are_posted() {
    let mut comments = draft().inline_comments;
    comments.push(comment("Loose", Some("b.rs"), None, None));
    let posted = postable_comments(&comments);
    assert_eq!(posted.len(), 1);
    assert_eq!(posted[0].path, "a.rs");
    assert_eq!(posted[0].line, 3);
    assert_eq!(posted[0].side, PullRequestCommentSide::Right);
}
