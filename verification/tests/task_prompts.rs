use libcrucible::builtin_packs::built_in_design_pack;
use libcrucible::cli_agent::CliAgentPlugin;
use libcrucible::config::CliPluginConfig;

fn agent() -> CliAgentPlugin {
    let pack = built_in_design_pack();
    let cfg = CliPluginConfig { command: "codex".to_string(), args: vec!["exec".to_string()] };
    CliAgentPlugin::from_role("architect", "codex", &cfg, &pack.manifest.roles[0])
}

#[test]
fn task_round_one_prompt_frames_the_pack_and_context() {
    let pack = built_in_design_pack();
    let a = agent();
    let (system, user) = a.task_prompt_round1(&pack, "{\"attachments\":[]}");
    assert!(system.starts_with(&format!("You are a {} contributing to a multi-agent consensus task.\n", a.persona)));
    assert!(system.contains(&format!("Task pack: {} - {}.\n", pack.manifest.title, pack.manifest.description)));
    assert!(system.contains(&format!("Your primary lens is: {}.\n", a.reviewer_focus)));
    assert!(system.contains("\"narrative\":\"<concise summary>\""));
    assert_eq!(
        user,
        format!("Round: 1\nTask context:\n{{\"attachments\":[]}}\n\nExpected final schema:\n{}\n", pack.schema_json)
    );
}

#[test]
fn task_later_round_prompt_carries_the_prior_summary() {
    let pack = built_in_design_pack();
    let a = agent();
    let (system, user) = a.task_prompt_round_n(&pack, 3, "prior", "{}");
    assert!(system.contains(" contributing to round-3 of a multi-agent consensus task.\n"));
    assert!(system.contains("Explicitly agree or disagree with prior points"));
    assert!(system.contains("<agreement/disagreement summary>"));
    assert_eq!(
        user,
        format!("Round: 3\nPrior consensus summary:\nprior\n\nTask context:\n{{}}\n\nExpected final schema:\n{}\n", pack.schema_json)
    );
}
