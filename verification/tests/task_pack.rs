use libcrucible::builtin_packs::{built_in_design_pack, built_in_review_pack};
use libcrucible::task_pack::{AttachmentKind, PackError, TaskAssignment};

#[test]
fn attachment_kinds_are_checked() {
    let pack = built_in_review_pack();
    assert!(pack.validate_attachment_kind(&AttachmentKind::Diff).is_ok());
    assert_eq!(
        pack.validate_attachment_kind(&AttachmentKind::Markdown),
        Err(PackError::AttachmentKindNotAllowed { pack: "review".to_string(), kind: AttachmentKind::Markdown })
    );
    let mut open = built_in_design_pack();
    open.manifest.allowed_attachment_kinds.clear();
    assert!(open.validate_attachment_kind(&AttachmentKind::Diff).is_ok());
    assert_eq!(AttachmentKind::SourceFile.as_str(), "source_file");
}

#[test]
fn schema_checks_report_the_first_problem() {
    let mut dup = built_in_design_pack();
    let first = dup.manifest.roles[0].clone();
    dup.manifest.roles.push(first);
    assert_eq!(dup.validate_schema(), Err(PackError::DuplicateRoleIds { pack: "design-review".to_string() }));

    let mut none = built_in_design_pack();
    none.manifest.rounds.clear();
    assert_eq!(none.validate_schema(), Err(PackError::NoRounds { pack: "design-review".to_string() }));

    let mut empty = built_in_design_pack();
    empty.manifest.rounds[1].assignments.clear();
    assert_eq!(
        empty.validate_schema(),
        Err(PackError::EmptyRound { pack: "design-review".to_string(), round: "Migration Challenge".to_string() })
    );

    let mut unknown = built_in_design_pack();
    unknown.manifest.rounds[0].assignments.push(TaskAssignment {
        role: "nobody".to_string(),
        plugin: "codex".to_string(),
        weight_override_permille: None,
    });
    assert_eq!(
        unknown.validate_schema(),
        Err(PackError::UnknownRoundRole {
            pack: "design-review".to_string(),
            round: "Initial Design Review".to_string(),
            role: "nobody".to_string()
        })
    );

    let mut fin = built_in_design_pack();
    fin.manifest.finalization.judge.role = "nobody".to_string();
    assert_eq!(
        fin.validate_schema(),
        Err(PackError::UnknownFinalizationRole { pack: "design-review".to_string(), role: "nobody".to_string() })
    );
}
