use libcrucible::builtin_packs::{
    built_in_design_pack, built_in_packs, built_in_requirements_pack, built_in_review_pack,
    built_in_test_plan_pack, find_built_in_pack,
};
use libcrucible::config::CliPluginConfig;
use libcrucible::plugin::{PluginRegistry, RegistryError};
use libcrucible::task_pack::TaskAssignment;

fn registry(active: &[&str]) -> PluginRegistry {
    PluginRegistry {
        active_plugin_ids: active.iter().map(|s| s.to_string()).collect(),
        standby_plugin_ids: Vec::new(),
        plugin_configs: active
            .iter()
            .map(|s| (s.to_string(), CliPluginConfig { command: format!("{s}-bin"), args: vec!["-q".to_string()] }))
            .collect(),
    }
}

#[test]
fn built_in_packs_have_the_documented_ids() {
    let ids: Vec<String> = built_in_packs().iter().map(|p| p.id().to_string()).collect();
    assert_eq!(ids, vec!["review", "requirements-review", "design-review", "test-plan-review"]);
    for pack in built_in_packs() {
        assert!(pack.validate_schema().is_ok());
    }
    assert_eq!(find_built_in_pack("review").unwrap().manifest.title, "Code Review");
    assert_eq!(find_built_in_pack("requirements-review").unwrap().id(), "requirements-review");
    assert!(find_built_in_pack("nope").is_none());
}

#[test]
fn each_built_in_pack_is_valid() {
    assert!(built_in_review_pack().validate_schema().is_ok());
    assert!(built_in_requirements_pack().validate_schema().is_ok());
    assert!(built_in_design_pack().validate_schema().is_ok());
    assert!(built_in_test_plan_pack().validate_schema().is_ok());
    assert_eq!(built_in_review_pack().manifest.quorum_permille, 750);
    assert!(built_in_design_pack().manifest.allow_clarifications);
}

#[test]
fn execution_plan_keeps_round_agents_apart() {
    let reg = registry(&["codex", "gemini", "open-code"]);
    let plan = reg.build_execution_plan(&built_in_review_pack()).unwrap();
    assert_eq!(plan.rounds.len(), 2);
    let first: Vec<String> = plan.rounds[0].assignments.iter().map(|a| a.plugin_id.clone()).collect();
    assert_eq!(first, vec!["codex", "gemini", "open-code"]);
    assert_eq!(plan.rounds[0].assignments[0].runtime_id, "program-semantics@codex");
    assert_eq!(plan.rounds[0].assignments[0].weight_permille, 1500);
    let second: Vec<String> = plan.rounds[1].assignments.iter().map(|a| a.plugin_id.clone()).collect();
    assert_eq!(second, vec!["open-code", "codex"]);
    assert_eq!(plan.finalization.judge.runtime_id, "review-judge@codex");
    assert_eq!(plan.finalization.analyze.as_ref().unwrap().plugin_id, "codex");
    assert!(plan.finalization.autofix.is_some());
}

#[test]
fn execution_plan_reports_missing_roles_and_agents() {
    let mut pack = built_in_requirements_pack();
    pack.manifest.rounds[0].assignments.push(TaskAssignment {
        role: "ghost-role".to_string(),
        plugin: "codex".to_string(),
        weight_override_permille: None,
    });
    match registry(&["codex"]).build_execution_plan(&pack) {
        Err(RegistryError::MissingRole { pack, role }) => {
            assert_eq!(pack, "requirements-review");
            assert_eq!(role, "ghost-role");
        },
        _ => panic!("expected a missing role"),
    }
    assert!(matches!(
        registry(&[]).build_execution_plan(&built_in_design_pack()),
        Err(RegistryError::NoPluginsAvailable)
    ));
}

#[test]
fn role_agents_come_from_the_agent_settings() {
    let reg = registry(&["codex"]);
    let plan = reg.build_execution_plan(&built_in_design_pack()).unwrap();
    let agent = reg.instantiate_role_agent(&plan.finalization.judge).unwrap();
    assert_eq!(agent.id, "design-judge@codex");
    assert_eq!(agent.command, "codex-bin");
    assert_eq!(agent.persona, "Design Judge");
    let mut orphan = plan.finalization.judge;
    orphan.plugin_id = "unknown".to_string();
    assert!(matches!(reg.instantiate_focus_analyzer(&orphan), Err(RegistryError::MissingConfig(_))));
}
