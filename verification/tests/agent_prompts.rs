use libcrucible::agent_prompts::{decision_from_answer, no_task_judge_decision};
use libcrucible::analysis::AgentContext;
use libcrucible::builtin_packs::{built_in_design_pack, built_in_review_pack};
use libcrucible::cli_agent::CliAgentPlugin;
use libcrucible::context::GatheredContext;
use libcrucible::progress::ConvergenceVerdict;
use libcrucible::task_pack::PromptTemplate;

fn plugin() -> CliAgentPlugin {
    CliAgentPlugin {
        id: "codex".to_string(),
        persona: "Architecture Lead".to_string(),
        command: "codex".to_string(),
        args: vec![],
        reviewer_focus: "API consistency".to_string(),
        prompt_template: PromptTemplate::Discover,
    }
}

fn ctx(with_pack: bool) -> AgentContext {
    AgentContext {
        diff: "+let x = 1;".to_string(),
        gathered: GatheredContext::new(),
        focus: None,
        dep_graph: None,
        review_pack: if with_pack { Some(built_in_review_pack()) } else { None },
    }
}

#[test]
fn autofix_prompt_uses_the_default_judge_text_without_a_pack() {
    let (system, user) = plugin().autofix_prompt(&ctx(false), "[]");
    assert_eq!(
        system,
        "You are a Architecture Lead producing an auto-fix for agreed findings.\n\
Produce final review consensus and auto-fix guidance for agreed findings.\n\
Primary lens: API consistency.\n\
Respond ONLY with valid JSON: { \"unified_diff\": \"...\", \"explanation\": \"...\" }"
    );
    assert_eq!(user, "Findings:\n[]\n\nDiff:\n+let x = 1;");
}

#[test]
fn convergence_prompt_uses_the_pack_judge_prompt() {
    let c = ctx(true);
    let judge = c.review_pack.as_ref().unwrap().judge_prompt.clone();
    let (system, user) = plugin().convergence_prompt(&c, 2, "[{}]");
    assert!(system.starts_with(&format!(
        "You are a strict convergence judge for multi-agent code review.\n{judge}\nPrimary lens: API consistency.\n"
    )));
    assert!(system.ends_with("no net-new high-severity risk requiring another round."));
    assert_eq!(user, "Round: 2\nFindings so far:\n[{}]\n\nDiff:\n+let x = 1;");
}

#[test]
fn structurize_and_focus_prompts() {
    let (system, user) = plugin().structurize_prompt(&ctx(false), "[1]");
    assert!(system.starts_with(
        "You are an issue structurizer.\nProduce final review consensus and canonical issues for agreed findings.\n"
    ));
    assert_eq!(user, "Normalize these findings into canonical issues (merge duplicates):\n[1]");
    let (system, user) = plugin().focus_prompt(&ctx(false));
    assert!(system.starts_with(
        "You are a senior architect producing analyzer context for code review.\nPrimary lens: API consistency.\n"
    ));
    assert!(system.ends_with("}\nThe summary must be markdown-ready text."));
    assert_eq!(user, "Diff to review:\n+let x = 1;");
    let c = ctx(true);
    let (system, _) = plugin().focus_prompt(&c);
    assert!(system.starts_with(&c.review_pack.as_ref().unwrap().analyzer_prompt));
}

#[test]
fn task_judging_prompts() {
    let pack = built_in_design_pack();
    let (system, user) = plugin().task_summary_prompt(&pack, "{ctx}", "[a]", "[u]");
    assert!(system.starts_with(&format!(
        "You are the final judge for a multi-agent consensus task.\nTask pack: {} - {}.\n{}\nPrimary lens: API consistency.\n",
        pack.manifest.title, pack.manifest.description, pack.judge_prompt
    )));
    assert_eq!(
        user,
        format!(
            "Task context:\n{{ctx}}\n\nAgreed items:\n[a]\n\nUnresolved items:\n[u]\n\nExpected final schema:\n{}",
            pack.schema_json
        )
    );
    let (system, user) = plugin().task_convergence_prompt(4, "{}", "[]");
    assert_eq!(
        system,
        "You are a strict convergence judge for a multi-agent consensus task.\nPrimary lens: API consistency.\n\
Respond ONLY with valid JSON: {\"verdict\":\"CONVERGED|NOT_CONVERGED\",\"rationale\":\"...\"}."
    );
    assert_eq!(user, "Round: 4\nTask context:\n{}\n\nConsensus items so far:\n[]");
    let (_, user) = plugin().task_focus_prompt("Design a cache", "{}");
    assert_eq!(user, "Task prompt:\nDesign a cache\n\nAttachments and context:\n{}");
}

#[test]
fn only_an_exact_converged_answer_converges() {
    let d = decision_from_answer("CONVERGED", "done".to_string());
    assert_eq!(d.verdict, ConvergenceVerdict::Converged);
    assert_eq!(d.rationale, "done");
    assert_eq!(decision_from_answer("converged", String::new()).verdict, ConvergenceVerdict::NotConverged);
    assert_eq!(decision_from_answer("NOT_CONVERGED", String::new()).verdict, ConvergenceVerdict::NotConverged);
    let n = no_task_judge_decision();
    assert_eq!(n.verdict, ConvergenceVerdict::NotConverged);
    assert_eq!(n.rationale, "No generic convergence judge configured");
}
