use libcrucible::cli_args::review_diff_outcome;
use libcrucible::cli_args::{
    apply_review_overrides, hook_exit_code, scope_label, select_review_target, use_terminal_ui, OutputFormat,
    ReviewArgs, ReviewArgsError, ReviewTarget,
};
use libcrucible::config::CrucibleConfig;
use libcrucible::report::Verdict;

fn args() -> ReviewArgs {
    ReviewArgs {
        pr: None,
        hook: false,
        json: false,
        export_issues: None,
        output_report: None,
        github_dry_run: false,
        publish_github: false,
        verbose: false,
        debug: false,
        interactive: false,
        reviewer: None,
        max_rounds: None,
        local: false,
        repo: false,
        branch: None,
        files: Vec::new(),
        git_remote: "origin".to_string(),
    }
}

#[test]
fn target_defaults_to_branch_with_local_changes() {
    assert!(matches!(select_review_target(&args()), Ok(ReviewTarget::CurrentBranchWithLocal)));
    let mut a = args();
    a.files = vec!["x.rs".to_string()];
    match select_review_target(&a) {
        Ok(ReviewTarget::Files(f)) => assert_eq!(f, vec!["x.rs".to_string()]),
        _ => panic!("expected files"),
    }
}

#[test]
fn target_errors_are_reported() {
    let mut a = args();
    a.local = true;
    a.repo = true;
    assert_eq!(select_review_target(&a).err(), Some(ReviewArgsError::SeveralTargets));
    let mut b = args();
    b.github_dry_run = true;
    b.publish_github = true;
    assert_eq!(select_review_target(&b).err(), Some(ReviewArgsError::BothGithubActions));
    let mut c = args();
    c.github_dry_run = true;
    assert_eq!(select_review_target(&c).err(), Some(ReviewArgsError::GithubNeedsPullRequest));
    let mut d = args();
    d.publish_github = true;
    d.pr = Some("42".to_string());
    assert!(matches!(select_review_target(&d), Ok(ReviewTarget::PullRequest(p)) if p == "42"));
}

#[test]
fn single_agent_override_runs_one_round() {
    let mut cfg = CrucibleConfig::default();
    let mut a = args();
    a.reviewer = Some("codex".to_string());
    apply_review_overrides(&mut cfg, &a);
    assert_eq!(cfg.plugins.agents, vec!["codex".to_string()]);
    assert_eq!(cfg.coordinator.max_rounds, 1);
    assert_eq!(cfg.coordinator.quorum_permille, 1000);

    let mut cfg = CrucibleConfig::default();
    let before = cfg.coordinator.quorum_permille;
    let mut b = args();
    b.max_rounds = Some(0);
    apply_review_overrides(&mut cfg, &b);
    assert_eq!(cfg.coordinator.max_rounds, 1);
    assert_eq!(cfg.coordinator.quorum_permille, before);
}

#[test]
fn terminal_ui_and_hook_exit() {
    assert!(use_terminal_ui(&args(), true));
    assert!(!use_terminal_ui(&args(), false));
    let mut a = args();
    a.json = true;
    assert!(!use_terminal_ui(&a, true));
    assert_eq!(hook_exit_code(Verdict::Block), 1);
    assert_eq!(hook_exit_code(Verdict::Warn), 0);
    assert_eq!(OutputFormat::default(), OutputFormat::Text);
}

#[test]
fn scope_labels_name_the_mode() {
    assert_eq!(scope_label(&ReviewTarget::Local, "feat", None, "origin"), "Mode: local | head: feat");
    assert_eq!(
        scope_label(&ReviewTarget::Repo, "feat", None, "upstream"),
        "Mode: repo | head: feat | base: refs/remotes/upstream/HEAD"
    );
    assert_eq!(
        scope_label(&ReviewTarget::CurrentBranchWithLocal, "feat", Some("main".to_string()), "origin"),
        "Mode: branch+local | head: feat | base: main"
    );
    assert_eq!(
        scope_label(&ReviewTarget::Files(vec!["a".to_string(), "b".to_string()]), "h", None, "o"),
        "Mode: files | head: h | files: a, b"
    );
    assert_eq!(scope_label(&ReviewTarget::PullRequest("7".to_string()), "h", None, "o"), "Mode: pr | PR: 7");
}

#[test]
fn empty_diffs_are_nothing_to_review_only_for_local_targets() {
    assert_eq!(review_diff_outcome(&ReviewTarget::Local, "", "  \n".to_string()), Ok(None));
    assert_eq!(review_diff_outcome(&ReviewTarget::CurrentBranchWithLocal, "", String::new()), Ok(None));
    assert_eq!(
        review_diff_outcome(&ReviewTarget::Repo, "origin/main", "\n".to_string()),
        Err("no repo diff found for range origin/main...HEAD".to_string())
    );
    assert_eq!(
        review_diff_outcome(&ReviewTarget::Branch("dev".to_string()), "", String::new()),
        Err("no branch diff found for range dev...HEAD".to_string())
    );
    assert_eq!(
        review_diff_outcome(&ReviewTarget::Files(vec!["a.rs".to_string()]), "", String::new()),
        Err("no diff found for requested files".to_string())
    );
    assert_eq!(
        review_diff_outcome(&ReviewTarget::PullRequest("42".to_string()), "", " ".to_string()),
        Err("no diff returned for PR 42".to_string())
    );
    assert_eq!(
        review_diff_outcome(&ReviewTarget::Branch("dev".to_string()), "", " +x\n".to_string()),
        Ok(Some(" +x\n".to_string()))
    );
}
