use libcrucible::pr_review::{
    build_review_draft, render_comment_body, DiffIndex, PullRequestCommentMappingStatus,
    PullRequestCommentSide,
};
use libcrucible::report::{CanonicalIssue, Severity};

const DIFF: &str = "diff --git a/src/lib.rs b/src/lib.rs\n--- a/src/lib.rs\n+++ b/src/lib.rs\n@@ -1 +1,2 @@\n old\n+new\n";

fn issue_at(start: u32, end: u32) -> CanonicalIssue {
    CanonicalIssue {
        severity: Severity::Warning,
        category: "maintainability".to_string(),
        file: Some("src/lib.rs".to_string()),
        line_start: Some(start),
        line_end: Some(end),
        title: "Issue".to_string(),
        description: "Desc".to_string(),
        suggested_fix: None,
        raised_by: vec!["codex".to_string()],
        evidence: Vec::new(),
    }
}

#[test]
fn maps_added_line_to_right_side_comment() {
    let draft = build_review_draft("summary".to_string(), &[issue_at(2, 2)], DIFF);
    assert_eq!(draft.inline_comments.len(), 1);
    let comment = &draft.inline_comments[0];
    assert_eq!(comment.side, Some(PullRequestCommentSide::Right));
    assert_eq!(comment.line, Some(2));
}

#[test]
fn falls_back_when_issue_cannot_be_mapped() {
    let draft = build_review_draft("summary".to_string(), &[issue_at(99, 99)], DIFF);
    assert!(draft.inline_comments.is_empty());
    assert_eq!(draft.overview_only_comments.len(), 1);
    let comment = &draft.overview_only_comments[0];
    assert_eq!(comment.mapping_status, PullRequestCommentMappingStatus::OverviewOnly);
    assert_eq!(
        comment.mapping_note.as_deref(),
        Some("Issue could not be mapped to a changed diff hunk")
    );
    assert_eq!(draft.overview_comment.body, "summary");
}

#[test]
fn multi_line_range_gets_a_start_line() {
    let draft = build_review_draft("s".to_string(), &[issue_at(1, 2)], DIFF);
    let comment = &draft.inline_comments[0];
    assert_eq!(comment.line, Some(2));
    assert_eq!(comment.start_line, Some(1));
    assert_eq!(comment.start_side, Some(PullRequestCommentSide::Right));
}

#[test]
fn removed_lines_map_to_the_left_side() {
    let diff = "+++ b/src/lib.rs\n@@ -4,2 +4,1 @@\n-gone\n kept\n";
    let index = DiffIndex::from_patch(diff);
    let both = index.map_range("src/lib.rs", 4, 5).expect("mapped");
    assert_eq!(both.side, PullRequestCommentSide::Left);
    assert_eq!(both.line, 5);
    assert_eq!(both.start_line, Some(4));
    let start_only = index.map_range("src/lib.rs", 5, 6).expect("start only");
    assert_eq!(start_only.side, PullRequestCommentSide::Left);
    assert_eq!(start_only.line, 5);
    assert_eq!(start_only.start_line, None);
    let right = index.map_range("src/lib.rs", 4, 4).expect("context line");
    assert_eq!(right.side, PullRequestCommentSide::Right);
    assert!(index.map_range("src/other.rs", 4, 4).is_none());
}

#[test]
fn comment_body_lists_agents_and_fix() {
    let mut issue = issue_at(1, 1);
    issue.raised_by = vec!["codex".to_string(), "gemini".to_string()];
    issue.suggested_fix = Some("Handle it".to_string());
    assert_eq!(
        render_comment_body(&issue),
        "**Issue**\n\nDesc\n\nRaised by: codex, gemini\n\nSuggested fix: Handle it"
    );
}
