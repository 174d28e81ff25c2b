use libcrucible::analysis::AgentContext;
use libcrucible::cli_agent::{
    extract_fenced_json_block, preview_inbound, preview_outbound, sanitize_terminal_output,
    strip_fenced_json, truncate, CliAgentPlugin, ContextSections,
};
use libcrucible::context::GatheredContext;
use libcrucible::coordinator::CrossPollinationSynthesis;
use libcrucible::task_pack::PromptTemplate;

fn sample_ctx() -> AgentContext {
    AgentContext {
        diff: "diff --git a/src/lib.rs b/src/lib.rs\n+let x = 1;".to_string(),
        gathered: GatheredContext::new(),
        focus: None,
        dep_graph: None,
        review_pack: None,
    }
}

fn sample_plugin() -> CliAgentPlugin {
    CliAgentPlugin {
        id: "codex".to_string(),
        persona: "Architecture Lead".to_string(),
        command: "codex".to_string(),
        args: vec![],
        reviewer_focus: "Architecture, maintainability, and API consistency".to_string(),
        prompt_template: PromptTemplate::Discover,
    }
}

fn empty_sections() -> ContextSections {
    ContextSections {
        focus: "null".to_string(),
        references: "[]".to_string(),
        history: "[]".to_string(),
        prechecks: "[]".to_string(),
    }
}

#[test]
fn round1_prompt_contract_contains_required_sections() {
    let plugin = sample_plugin();
    let ctx = sample_ctx();
    let (system, user) = plugin.review_prompt_round1(&ctx, &empty_sections());
    let prompt = format!("{system}\n{user}");
    assert!(prompt.contains("exhaustive round-1 code review"));
    assert!(prompt.contains("correctness, security, performance"));
    assert!(prompt.contains("\"narrative\""));
    assert!(prompt.contains("\"findings\""));
}

#[test]
fn round_n_prompt_contract_contains_adversarial_constraints() {
    let plugin = sample_plugin();
    let ctx = sample_ctx();
    let synthesis = CrossPollinationSynthesis {
        summary: "Round 1 prior agent findings".to_string(),
    };
    let (system, user) = plugin.review_prompt_round_n(&ctx, 2, &synthesis, &empty_sections());
    let prompt = format!("{system}\n{user}");
    assert!(prompt.contains("adversarial round-2 review"));
    assert!(prompt.contains("prior-round discussion"));
    assert!(prompt.contains("no same-round leakage"));
    assert!(prompt.contains("Round 1 prior agent findings"));
}

#[test]
fn outbound_preview_skips_diff_bulk() {
    let preview = preview_outbound(
        "Round: 1\nReview context:\n- Relevant references: []\nDiff to review:\n+ massive",
    );
    assert_eq!(preview, "sending review prompt");
}

#[test]
fn inbound_preview_prefers_narrative() {
    let preview = preview_inbound(r#"{"narrative":"Agent found one issue","findings":[]}"#);
    assert_eq!(preview, "Agent found one issue");
}

#[test]
fn inbound_preview_falls_back_to_findings_and_lines() {
    assert_eq!(
        preview_inbound(r#"{"findings":[{"message":"  first  "}]}"#),
        "first"
    );
    assert_eq!(preview_inbound(r#"{"findings":[{}, {}]}"#), "2 findings returned");
    assert_eq!(preview_inbound("\n  hello \n\nworld\nmore"), "hello world");
    assert_eq!(preview_inbound("   \n"), "received empty response");
}

#[test]
fn outbound_preview_keeps_two_prose_lines() {
    assert_eq!(
        preview_outbound("Round: 2\n  Please check  \n@@ x\nthe lock order\nthird"),
        "Please check the lock order"
    );
}

#[test]
fn round1_user_prompt_lists_context_and_diff() {
    let plugin = sample_plugin();
    let ctx = sample_ctx();
    let (_, user) = plugin.review_prompt_round1(&ctx, &empty_sections());
    assert_eq!(
        user,
        "Round: 1\nReview context:\n- Suggested focus areas: null\n- Relevant references: []\n- Recent commit history: []\n- Deterministic precheck signals: []\n\nDiff to review:\ndiff --git a/src/lib.rs b/src/lib.rs\n+let x = 1;"
    );
}

#[test]
fn round_n_user_prompt_lists_only_file_headers() {
    let plugin = sample_plugin();
    let ctx = sample_ctx();
    let synthesis = CrossPollinationSynthesis { summary: "s".to_string() };
    let (_, user) = plugin.review_prompt_round_n(&ctx, 3, &synthesis, &empty_sections());
    assert!(user.starts_with("Round: 3\n"));
    assert!(user.ends_with("provided in round 1):\ndiff --git a/src/lib.rs b/src/lib.rs"));
    assert!(!user.contains("let x"));
}

#[test]
fn truncation_marks_cut_text() {
    assert_eq!(truncate("abc", 3), "abc");
    assert_eq!(truncate("abcdef", 2), "ab\n…");
}

#[test]
fn terminal_escapes_are_removed() {
    assert_eq!(sanitize_terminal_output("\u{1b}[31mred\u{1b}[0m ok"), "red ok");
    assert_eq!(sanitize_terminal_output("a\u{1b}]0;title\u{07}b"), "ab");
    assert_eq!(sanitize_terminal_output("a\u{1b}]x\u{1b}\\b"), "ab");
    assert_eq!(sanitize_terminal_output("a\u{1b}zb"), "azb");
}

#[test]
fn fenced_json_is_extracted() {
    assert_eq!(strip_fenced_json("```json\n{\"a\":1}\n```"), "{\"a\":1}");
    assert_eq!(strip_fenced_json("  plain  "), "plain");
    assert_eq!(
        extract_fenced_json_block("Now the answer.\n\n```json\n{\"b\":2}\n```\ntrailing").as_deref(),
        Some("{\"b\":2}")
    );
    assert_eq!(extract_fenced_json_block("no fence here"), None);
    assert_eq!(extract_fenced_json_block("open ``` only"), None);
}

#[test]
fn invocation_for_opencode_puts_prompt_in_arguments() {
    let mut plugin = sample_plugin();
    plugin.command = "opencode".to_string();
    plugin.args = vec!["run".to_string()];
    let inv = plugin.build_invocation("sys", "usr");
    assert_eq!(inv.program, "opencode");
    assert_eq!(
        inv.args,
        vec!["run".to_string(), "--format".to_string(), "json".to_string(), "sys\n\n---\n\nusr".to_string()]
    );
    assert!(inv.stdin.is_none());

    let codex = sample_plugin().build_invocation("sys", "usr");
    assert!(codex.args.is_empty());
    assert_eq!(codex.stdin.as_deref(), Some("[SYSTEM]\nsys\n\n[USER]\nusr\n"));
}
