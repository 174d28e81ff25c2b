use libcrucible::builtin_packs::{built_in_design_pack, built_in_review_pack};
use libcrucible::consensus::TaskAttachment;
use libcrucible::task_context::{attachment_source, uses_provider, AttachmentError, AttachmentSource};
use libcrucible::task_pack::{AttachmentKind, ContextProvider, PackError};

fn att(kind: AttachmentKind, path: Option<&str>, inline: Option<&str>) -> TaskAttachment {
    TaskAttachment {
        id: "a1".to_string(),
        kind,
        path: path.map(|s| s.to_string()),
        inline: inline.map(|s| s.to_string()),
    }
}

#[test]
fn attachment_source_prefers_the_path() {
    let pack = built_in_design_pack();
    let kind = pack.manifest.allowed_attachment_kinds.first().copied().unwrap_or(AttachmentKind::Text);
    match attachment_source(&pack, &att(kind, Some("doc.md"), Some("inline"))) {
        Ok(AttachmentSource::Path(p)) => assert_eq!(p, "doc.md"),
        _ => panic!("expected the path"),
    }
    match attachment_source(&pack, &att(kind, None, Some("inline"))) {
        Ok(AttachmentSource::Inline(t)) => assert_eq!(t, "inline"),
        _ => panic!("expected the inline text"),
    }
    match attachment_source(&pack, &att(kind, None, None)) {
        Err(AttachmentError::MissingContent(id)) => assert_eq!(id, "a1"),
        _ => panic!("expected missing content"),
    }
}

#[test]
fn attachment_kind_is_checked_first() {
    let mut pack = built_in_design_pack();
    pack.manifest.allowed_attachment_kinds = vec![AttachmentKind::Markdown];
    match attachment_source(&pack, &att(AttachmentKind::Diff, None, None)) {
        Err(AttachmentError::Pack(PackError::AttachmentKindNotAllowed { pack: p, kind })) => {
            assert_eq!(p, "design-review");
            assert_eq!(kind, AttachmentKind::Diff);
        }
        _ => panic!("expected the kind to be refused"),
    }
    pack.manifest.allowed_attachment_kinds = Vec::new();
    assert!(attachment_source(&pack, &att(AttachmentKind::Diff, Some("x.diff"), None)).is_ok());
}

#[test]
fn providers_are_looked_up_in_the_manifest() {
    let review = built_in_review_pack();
    assert!(uses_provider(&review, ContextProvider::GitHistory));
    assert!(uses_provider(&review, ContextProvider::Prechecks));
    assert!(!uses_provider(&review, ContextProvider::PromptOnly));
    let design = built_in_design_pack();
    assert!(uses_provider(&design, ContextProvider::RepoDocs));
    assert!(!uses_provider(&design, ContextProvider::GitHistory));
}
