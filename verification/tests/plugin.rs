use libcrucible::config::{CliPluginConfig, PluginsConfig};
use libcrucible::plugin::{split_available, AgentsError, PluginRegistry, RegistryError, ResolvedAgents};
use libcrucible::task_pack::TaskAssignment;

fn names(v: &[&str]) -> Vec<String> {
    v.iter().map(|s| s.to_string()).collect()
}

#[test]
fn first_three_available_are_active() {
    let r = split_available(names(&["a", "b", "c", "d"]), true).unwrap();
    assert_eq!(r.active, names(&["a", "b", "c"]));
    assert_eq!(r.standby, names(&["d"]));
    let r = split_available(names(&["a"]), false).unwrap();
    assert_eq!(r.active, names(&["a"]));
    assert!(r.standby.is_empty());
    assert_eq!(split_available(Vec::new(), true).err(), Some(AgentsError::NoPreferredAgent));
    assert_eq!(split_available(Vec::new(), false).err(), Some(AgentsError::NoConfiguredAgent));
}

#[test]
fn default_pool_is_recognized() {
    let cfg = PluginsConfig { agents: names(&["gemini", "codex"]), paths: Vec::new(), agent_configs: Vec::new() };
    assert!(cfg.uses_default_agent_pool());
    assert_eq!(cfg.requested(), names(&["codex", "gemini", "open-code"]));
    let single = PluginsConfig { agents: names(&["codex"]), paths: Vec::new(), agent_configs: Vec::new() };
    assert!(!single.uses_default_agent_pool());
    assert_eq!(single.requested(), names(&["codex"]));
    assert_eq!(single.resolve_available_agents().err(), Some(AgentsError::NoConfiguredAgent));
}

#[test]
fn assignments_avoid_agents_used_in_the_round() {
    let reg = PluginRegistry {
        active_plugin_ids: names(&["codex", "gemini"]),
        standby_plugin_ids: Vec::new(),
        plugin_configs: vec![("codex".to_string(), CliPluginConfig { command: "codex".to_string(), args: Vec::new() })],
    };
    let a = TaskAssignment { role: "r".to_string(), plugin: "codex".to_string(), weight_override_permille: None };
    assert_eq!(reg.resolve_assignment_plugin(&a, &Vec::new()).unwrap(), "codex");
    assert_eq!(reg.resolve_assignment_plugin(&a, &names(&["codex"])).unwrap(), "gemini");
    assert_eq!(reg.resolve_assignment_plugin(&a, &names(&["codex", "gemini"])).unwrap(), "codex");
    let b = TaskAssignment { role: "r".to_string(), plugin: "other".to_string(), weight_override_permille: None };
    assert_eq!(reg.resolve_assignment_plugin(&b, &names(&["codex", "gemini"])).unwrap(), "codex");
    assert!(reg.plugin_config("codex").is_some());
    assert!(reg.plugin_config("gemini").is_none());
    let empty = PluginRegistry { active_plugin_ids: Vec::new(), standby_plugin_ids: Vec::new(), plugin_configs: Vec::new() };
    assert_eq!(empty.resolve_assignment_plugin(&a, &Vec::new()), Err(RegistryError::NoPluginsAvailable));
}

#[test]
fn registry_takes_the_resolved_agents_and_all_settings() {
    let cfg = PluginsConfig {
        agents: names(&["codex"]),
        paths: Vec::new(),
        agent_configs: vec![
            ("codex".to_string(), CliPluginConfig { command: "codex".to_string(), args: names(&["exec"]) }),
            ("gemini".to_string(), CliPluginConfig { command: "gemini".to_string(), args: Vec::new() }),
        ],
    };
    let ok = PluginRegistry::from_resolved(
        &cfg,
        Ok(ResolvedAgents { active: names(&["codex"]), standby: names(&["gemini"]) }),
    )
    .unwrap();
    assert_eq!(ok.active_plugin_ids, names(&["codex"]));
    assert_eq!(ok.standby_plugin_ids, names(&["gemini"]));
    assert_eq!(ok.plugin_configs.len(), 2);
    assert_eq!(ok.plugin_configs[0].1.args, names(&["exec"]));
    let none = PluginRegistry::from_resolved(&cfg, Ok(ResolvedAgents { active: Vec::new(), standby: Vec::new() }));
    assert_eq!(none.err(), Some(RegistryError::NoAgentsConfigured));
    let failed = PluginRegistry::from_resolved(&cfg, Err(AgentsError::NoConfiguredAgent));
    assert_eq!(failed.err(), Some(RegistryError::Agents(AgentsError::NoConfiguredAgent)));
}
