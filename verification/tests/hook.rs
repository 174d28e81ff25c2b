use libcrucible::hook::{
    hook_header, hook_script, install_check, is_managed, status_report, uninstall_action, HookError, HookRemoval,
};

#[test]
fn the_written_script_runs_the_recipe_and_is_managed() {
    let s = hook_script();
    assert!(s.starts_with("#!/usr/bin/env bash\n# Managed by Crucible"));
    assert!(s.ends_with("\nset -euo pipefail\nexec just crucible-pre-push\n"));
    assert!(is_managed(&s));
    assert!(!is_managed("#!/bin/sh\nexit 0\n"));
    assert!(hook_header().contains("crucible hook uninstall"));
}

#[test]
fn install_refuses_a_foreign_hook_unless_forced() {
    assert_eq!(install_check(false, true, None, false), Err(HookError::JustMissing));
    assert_eq!(install_check(true, false, None, true), Err(HookError::JustfileMissing));
    assert_eq!(install_check(true, true, None, false), Ok(()));
    assert_eq!(install_check(true, true, Some("#!/bin/sh\n"), false), Err(HookError::ForeignHookExists));
    assert_eq!(install_check(true, true, Some("#!/bin/sh\n"), true), Ok(()));
    assert_eq!(install_check(true, true, Some(&hook_script()), false), Ok(()));
    assert_eq!(HookError::ForeignHookExists.message(), "pre-push hook exists; use --force to overwrite");
}

#[test]
fn uninstall_removes_only_a_managed_hook() {
    assert_eq!(uninstall_action(None), HookRemoval::NotInstalled);
    assert_eq!(uninstall_action(Some("echo hi")), HookRemoval::NotManaged);
    assert_eq!(uninstall_action(Some(&hook_script())), HookRemoval::Remove);
    assert_eq!(HookRemoval::NotManaged.message(), "pre-push hook not managed by Crucible; not removing");
}

#[test]
fn status_report_lists_each_check() {
    assert_eq!(
        status_report(true, false, true, false),
        "Hook installed: yes\ncrucible on PATH: no\njust on PATH: yes\ncrucible-pre-push recipe available: no\n"
    );
}
