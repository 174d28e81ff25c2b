use libcrucible::config::CrucibleConfig;
use libcrucible::context::PrecheckStatus;
use libcrucible::precheck::{command_text, precheck_steps, tool_signal, PrecheckStep, ToolOutcome, ToolRun};

fn run() -> ToolRun {
    ToolRun { tool: "cargo-check".to_string(), program: "cargo".to_string(), args: vec!["check".to_string(), "--quiet".to_string()] }
}

fn exited(success: bool, stdout: &str, stderr: &str) -> ToolOutcome {
    ToolOutcome::Exited { success, stdout: stdout.to_string(), stderr: stderr.to_string() }
}

#[test]
fn disabled_prechecks_give_one_skipped_signal() {
    let mut cfg = CrucibleConfig::default();
    cfg.prechecks.enabled = false;
    let steps = precheck_steps(&cfg, true);
    assert_eq!(steps.len(), 1);
    match &steps[0] {
        PrecheckStep::Signal(s) => {
            assert_eq!(s.tool, "prechecks");
            assert_eq!(s.status, PrecheckStatus::Skipped);
            assert_eq!(s.summary, "Prechecks disabled by config");
            assert_eq!(s.command, "n/a");
        }
        PrecheckStep::Run(_) => panic!("nothing runs when prechecks are off"),
    }
}

#[test]
fn rust_checks_run_only_in_a_rust_repository() {
    let mut cfg = CrucibleConfig::default();
    cfg.prechecks.enabled = true;
    cfg.prechecks.include_untangle = true;
    cfg.gate.untangle_bin = "untangle".to_string();
    cfg.prechecks.include_linters = true;
    cfg.prechecks.include_type_checks = true;
    cfg.prechecks.include_tests = true;
    let names = |steps: &[PrecheckStep]| -> Vec<String> {
        steps
            .iter()
            .map(|s| match s {
                PrecheckStep::Signal(g) => g.tool.clone(),
                PrecheckStep::Run(r) => format!("{} ({})", r.tool, command_text(r)),
            })
            .collect()
    };
    assert_eq!(
        names(&precheck_steps(&cfg, true)),
        vec![
            "untangle-analyze-report (untangle analyze report . --format json --quiet)",
            "untangle-quality-report (untangle quality report . --format json --quiet)",
            "cargo-fmt (cargo fmt --all -- --check)",
            "cargo-check (cargo check --quiet)",
            "cargo-test (cargo test --quiet --no-run)",
        ]
    );
    assert_eq!(names(&precheck_steps(&cfg, false)).len(), 2);
    cfg.gate.untangle_bin = "crucible".to_string();
    let steps = precheck_steps(&cfg, false);
    assert_eq!(names(&steps), vec!["untangle"]);
    match &steps[0] {
        PrecheckStep::Signal(s) => assert_eq!(s.status, PrecheckStatus::Warn),
        PrecheckStep::Run(_) => panic!("untangle cannot be crucible itself"),
    }
}

#[test]
fn tool_outcomes_become_signals() {
    let s = tool_signal(&run(), 30, ToolOutcome::TimedOut);
    assert_eq!((s.status, s.summary.as_str(), s.command.as_str()), (PrecheckStatus::Warn, "Timed out after 30s", "cargo check --quiet"));
    let s = tool_signal(&run(), 30, ToolOutcome::Failed("not found".to_string()));
    assert_eq!((s.status, s.summary.as_str()), (PrecheckStatus::Warn, "Execution error: not found"));
    let s = tool_signal(&run(), 30, exited(true, "out", "err"));
    assert_eq!((s.status, s.summary.as_str()), (PrecheckStatus::Pass, "Passed"));
    let s = tool_signal(&run(), 30, exited(false, "  out  ", " \n"));
    assert_eq!((s.status, s.summary.as_str()), (PrecheckStatus::Fail, "out"));
    let s = tool_signal(&run(), 30, exited(false, "", ""));
    assert_eq!((s.status, s.summary.as_str()), (PrecheckStatus::Fail, "Failed"));
    let s = tool_signal(&run(), 30, exited(false, "ignored", " error: boom "));
    assert_eq!(s.summary, "error: boom");
}

#[test]
fn long_failures_are_cut_at_three_hundred_bytes_on_a_character() {
    let long = "é".repeat(200);
    let s = tool_signal(&run(), 30, exited(false, "", &long));
    assert_eq!(s.summary, format!("{}…", "é".repeat(150)));
    let odd = format!("a{}", "é".repeat(200));
    let s = tool_signal(&run(), 30, exited(false, "", &odd));
    assert_eq!(s.summary, format!("a{}…", "é".repeat(149)));
    let exact = "x".repeat(300);
    assert_eq!(tool_signal(&run(), 30, exited(false, "", &exact)).summary, exact);
}
