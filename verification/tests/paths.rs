use libcrucible::paths::{build_attachments, changed_files_from_patch, guess_attachment_kind, push_diff_line, sorted_unique_paths};
use libcrucible::task_pack::AttachmentKind;

#[test]
fn attachment_kind_follows_the_extension() {
    assert_eq!(guess_attachment_kind("docs/README.md"), AttachmentKind::Markdown);
    assert_eq!(guess_attachment_kind("change.diff"), AttachmentKind::Diff);
    assert_eq!(guess_attachment_kind("change.patch"), AttachmentKind::Diff);
    assert_eq!(guess_attachment_kind("src/main.rs"), AttachmentKind::SourceFile);
    assert_eq!(guess_attachment_kind("web/app.tsx"), AttachmentKind::SourceFile);
    assert_eq!(guess_attachment_kind("tool.py"), AttachmentKind::SourceFile);
    assert_eq!(guess_attachment_kind("notes.txt"), AttachmentKind::Text);
    assert_eq!(guess_attachment_kind("Makefile"), AttachmentKind::Text);
    assert_eq!(guess_attachment_kind(".md"), AttachmentKind::Text);
    assert_eq!(guess_attachment_kind("README.MD"), AttachmentKind::Text);
}

#[test]
fn attachments_list_files_then_numbered_inline_texts() {
    let out = build_attachments(
        vec!["docs/guide.md".to_string(), "src/lib.rs".to_string()],
        vec!["first".to_string(), "second".to_string()],
    );
    assert_eq!(out.len(), 4);
    assert_eq!(out[0].id, "guide.md");
    assert_eq!(out[0].kind, AttachmentKind::Markdown);
    assert_eq!(out[0].path.as_deref(), Some("docs/guide.md"));
    assert!(out[0].inline.is_none());
    assert_eq!(out[1].id, "lib.rs");
    assert_eq!(out[1].kind, AttachmentKind::SourceFile);
    assert_eq!(out[2].id, "inline-1");
    assert_eq!(out[2].kind, AttachmentKind::Text);
    assert!(out[2].path.is_none());
    assert_eq!(out[2].inline.as_deref(), Some("first"));
    assert_eq!(out[3].id, "inline-2");
    assert_eq!(out[3].inline.as_deref(), Some("second"));
    let none = build_attachments(vec!["/".to_string()], Vec::new());
    assert_eq!(none[0].id, "attachment");
}

#[test]
fn changed_files_come_from_plus_headers_sorted_and_unique() {
    let diff = "diff --git a/b.rs b/b.rs\n--- a/b.rs\n+++ b/b.rs\n@@ -1 +1 @@\n-x\n+y\n\
diff --git a/a.rs b/a.rs\n+++ b/a.rs\n+++ b//dev/null\n+++ /dev/null\n+++ b/b.rs\n";
    assert_eq!(changed_files_from_patch(diff), vec!["a.rs".to_string(), "b.rs".to_string()]);
    assert!(changed_files_from_patch("").is_empty());
    assert!(changed_files_from_patch("+++ a/x.rs\n").is_empty());
}

#[test]
fn patch_lines_keep_their_origin_marker() {
    let mut buf = String::new();
    push_diff_line(&mut buf, 'F', "diff --git a/x b/x\n");
    push_diff_line(&mut buf, '+', "new\n");
    push_diff_line(&mut buf, '-', "old\n");
    push_diff_line(&mut buf, ' ', "same\n");
    push_diff_line(&mut buf, 'H', "@@ -1 +1 @@\n");
    assert_eq!(buf, "diff --git a/x b/x\n+new\n-old\n same\n@@ -1 +1 @@\n");
}

#[test]
fn paths_are_sorted_by_component_and_deduplicated() {
    let v = vec!["src/b.rs".to_string(), "src/a.rs".to_string(), "src/b.rs".to_string(), "src-x/a.rs".to_string()];
    assert_eq!(sorted_unique_paths(&v), vec!["src/a.rs".to_string(), "src/b.rs".to_string(), "src-x/a.rs".to_string()]);
}
