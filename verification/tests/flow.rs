use libcrucible::builtin_packs::built_in_review_pack;
use libcrucible::config::CliPluginConfig;
use libcrucible::doctor::{agent_resolution_report, execution_plan_report, plan_unavailable};
use libcrucible::event_log::write_log_json;
use libcrucible::cli_agent::extract_fenced_json_block;
use libcrucible::plugin::{ConvergenceDecision, PluginRegistry, RegistryError};
use libcrucible::pr_review::index_fits_exec;
use libcrucible::progress::ConvergenceVerdict;
use libcrucible::reference::{LineRange, Symbol, SymbolKind};
use libcrucible::references::collect_references;
use libcrucible::replies::{envelope_attempts, event_stream_attempts, Attempt};
use libcrucible::report::{Confidence, RawFinding, Severity};
use libcrucible::review_flow::{review_start, review_step, RunAction, RunEvent, RunPhase};
use libcrucible::rounds::RoundCounts;
use libcrucible::tracker::ConsensusTracker;
use libcrucible::config::PluginsConfig;
use libcrucible::context::CommitSummary;
use libcrucible::history::{history_cutoff, history_step, in_history_window, touches_changed_file};
use libcrucible::plugin::AgentsError;
use libcrucible::review_flow::{analyzer_next, AnalyzerNext};
use libcrucible::syntax::{walk_nodes, TreeNode};

fn counts(findings: usize, critical: usize) -> RoundCounts {
    RoundCounts { findings, critical }
}

#[test]
fn rounds_run_until_the_judge_converges() {
    let (s, a) = review_start(3);
    assert!(matches!(a, RunAction::RunRound { round: 1, judgement: None }));
    let (s, a) = review_step(&s, RunEvent::RoundDone { counts: counts(2, 1), clean: true });
    assert!(matches!(a, RunAction::AskJudge { round: 1 }));
    assert_eq!(s.phase, RunPhase::AwaitingJudge);
    let not = ConvergenceDecision { verdict: ConvergenceVerdict::NotConverged, rationale: "more".to_string() };
    let (s, a) = review_step(&s, RunEvent::JudgeAnswered(Some(not)));
    match a {
        RunAction::RunRound { round, judgement } => {
            assert_eq!(round, 2);
            assert_eq!(judgement.unwrap().rationale, "more");
        }
        _ => panic!("expected round two"),
    }
    assert_eq!(s.previous, counts(2, 1));
    let (s, a) = review_step(&s, RunEvent::RoundDone { counts: counts(2, 1), clean: true });
    assert!(matches!(a, RunAction::AskJudge { round: 2 }));
    // No answer: same findings, no more critical ones, after round one: converged.
    let (s, a) = review_step(&s, RunEvent::JudgeAnswered(None));
    match a {
        RunAction::Finish { judgement } => {
            let j = judgement.unwrap();
            assert_eq!(j.verdict, ConvergenceVerdict::Converged);
            assert_eq!(j.rationale, "No net-new findings and no increase in critical risk.");
        }
        _ => panic!("expected finish"),
    }
    assert_eq!(s.phase, RunPhase::Finished);
    let (s2, a) = review_step(&s, RunEvent::JudgeAnswered(None));
    assert!(matches!(a, RunAction::Ignore));
    assert_eq!(s2, s);
}

#[test]
fn a_clean_empty_round_stops_the_run() {
    let (s, _) = review_start(2);
    let (s, a) = review_step(&s, RunEvent::RoundDone { counts: counts(0, 0), clean: true });
    match a {
        RunAction::Finish { judgement } => {
            assert_eq!(judgement.unwrap().rationale, "No findings to debate; skipping further rounds.");
        }
        _ => panic!("expected finish"),
    }
    assert_eq!(s.phase, RunPhase::Finished);
    let (s, _) = review_start(1);
    let (s, a) = review_step(&s, RunEvent::RoundDone { counts: counts(0, 0), clean: true });
    assert!(matches!(a, RunAction::Finish { judgement: None }));
    assert_eq!(s.round, 1);
}

#[test]
fn diff_counters_that_overflow_are_caught() {
    assert!(index_fits_exec("+++ b/a.rs\n@@ -1,2 +1,2 @@\n line\n+new\n"));
    assert!(index_fits_exec(""));
    assert!(!index_fits_exec("+++ b/a.rs\n@@ -1 +4294967295 @@\n+a\n+b\n"));
}

#[test]
fn parse_opencode_event_stream_extracts_fenced_json_findings() {
    let input = "{\"type\":\"step_start\",\"part\":{\"type\":\"step-start\"}}\n{\"type\":\"text\",\"part\":{\"text\":\"```json\\n{\\\"narrative\\\":\\\"done\\\",\\\"findings\\\":[]}\\n```\"}}\n{\"type\":\"step_finish\",\"part\":{\"type\":\"step-finish\",\"reason\":\"stop\"}}\n";
    let (attempts, text) = event_stream_attempts(input);
    assert!(attempts.is_empty());
    let block = extract_fenced_json_block(&text.expect("text parts")).expect("fenced block");
    let parsed: serde_json::Value = serde_json::from_str(&block).expect("findings");
    assert_eq!(parsed["narrative"].as_str(), Some("done"));
    assert!(parsed["findings"].as_array().unwrap().is_empty());
}

#[test]
fn event_stream_responses_come_first_and_bad_lines_cut_the_text() {
    let input = "{\"type\":\"text\",\"part\":{\"text\":\"a\"}}\n{\"type\":\"response\",\"response\":\"b\"}\n{\"type\":\"text\",\"part\":{\"text\":\"c\"}}\n";
    let (attempts, text) = event_stream_attempts(input);
    assert_eq!(attempts, vec![Attempt::Json("\"b\"".to_string()), Attempt::Text("b".to_string())]);
    assert_eq!(text.as_deref(), Some("ac"));
    let (_, cut) = event_stream_attempts("{\"type\":\"text\",\"part\":{\"text\":\"a\"}}\nnot json\n");
    assert_eq!(cut, None);
}

#[test]
fn envelope_response_is_read_as_text_or_json() {
    assert_eq!(envelope_attempts("{\"response\":\"hi\"}"), vec![Attempt::Text("hi".to_string())]);
    assert_eq!(envelope_attempts("{\"response\":{\"a\":1}}"), vec![Attempt::Json("{\"a\":1}".to_string())]);
    assert!(envelope_attempts("{\"other\":1}").is_empty());
    assert!(envelope_attempts("prose").is_empty());
}

#[test]
fn references_are_whole_words_in_file_and_line_order() {
    let symbols = vec![
        Symbol { name: "parse".to_string(), kind: SymbolKind::Function, file: "src/a.rs".to_string() },
        Symbol { name: "Config".to_string(), kind: SymbolKind::Struct, file: "src/a.rs".to_string() },
        Symbol { name: "parse".to_string(), kind: SymbolKind::Function, file: "src/b.rs".to_string() },
    ];
    let files = vec![
        ("src/b.rs".to_string(), "let c = Config::new();\n  parse(x) \nparser()\n".to_string()),
        ("src/c.rs".to_string(), "fn f() { parse(Config) }\n".to_string()),
    ];
    let refs = collect_references(&symbols, &files).expect("patterns");
    let got: Vec<(String, String, u32, String)> =
        refs.into_iter().map(|r| (r.symbol, r.file, r.line, r.snippet)).collect();
    assert_eq!(
        got,
        vec![
            ("Config".to_string(), "src/b.rs".to_string(), 1, "let c = Config::new();".to_string()),
            ("parse".to_string(), "src/b.rs".to_string(), 2, "parse(x)".to_string()),
            ("parse".to_string(), "src/c.rs".to_string(), 1, "fn f() { parse(Config) }".to_string()),
            ("Config".to_string(), "src/c.rs".to_string(), 1, "fn f() { parse(Config) }".to_string()),
        ]
    );
    assert!(collect_references(&Vec::new(), &files).unwrap().is_empty());
}

#[test]
fn doctor_reports_resolution_and_plan() {
    let none = agent_resolution_report(&None);
    assert!(!none.ok);
    assert_eq!(none.error.as_deref(), Some("config not loaded"));
    let failed = agent_resolution_report(&Some(Err(RegistryError::NoAgentsConfigured)));
    assert_eq!(failed.error.as_deref(), Some("no agents configured"));
    let cfg = |c: &str| CliPluginConfig { command: c.to_string(), args: Vec::new() };
    let registry = PluginRegistry {
        active_plugin_ids: vec!["codex".to_string(), "gemini".to_string(), "open-code".to_string()],
        standby_plugin_ids: vec!["opencode-glm".to_string()],
        plugin_configs: vec![
            ("codex".to_string(), cfg("codex")),
            ("gemini".to_string(), cfg("gemini")),
            ("open-code".to_string(), cfg("opencode")),
            ("opencode-glm".to_string(), cfg("opencode")),
        ],
    };
    let ok = agent_resolution_report(&Some(Ok(registry.clone())));
    assert!(ok.ok);
    assert_eq!(ok.standby, vec!["opencode-glm".to_string()]);
    let pack = built_in_review_pack();
    let plan = registry.build_execution_plan(&pack).map_err(|e| e.message());
    let report = execution_plan_report(pack.id(), &plan);
    assert!(report.ok);
    assert_eq!(report.pack_id, "review");
    assert_eq!(report.rounds, vec!["Initial Review".to_string(), "Challenge and Verify".to_string()]);
    assert_eq!(report.roles.len(), 5);
    assert_eq!(report.roles[1].0, "maintainer-review");
    let bad = execution_plan_report("review", &Err("boom".to_string()));
    assert!(!bad.ok && bad.roles.is_empty());
    assert_eq!(bad.error.as_deref(), Some("boom"));
    let unavailable = plan_unavailable("review", "registry not available");
    assert_eq!(unavailable.error.as_deref(), Some("registry not available"));
}

#[test]
fn review_pack_assigns_roles_to_agents() {
    let pack = built_in_review_pack();
    let first: Vec<(String, String)> =
        pack.manifest.rounds[0].assignments.iter().map(|a| (a.role.clone(), a.plugin.clone())).collect();
    assert_eq!(first[1], ("maintainer-review".to_string(), "codex".to_string()));
    assert_eq!(pack.manifest.finalization.judge.plugin, "codex");
    assert_eq!(pack.manifest.roles[0].default_weight_permille, 1500);
}

#[test]
fn log_json_entry_is_stamped() {
    assert_eq!(write_log_json("12.000", "{}"), "[12.000] [report]\n{}\n");
}

#[test]
fn quorum_counts_distinct_agents_against_all() {
    let raw = |m: &str| RawFinding {
        severity: Severity::Warning,
        file: Some("src/lib.rs".to_string()),
        line_start: Some(4),
        line_end: Some(4),
        message: m.to_string(),
        confidence: Confidence::High,
        category: None,
        title: None,
        description: None,
        suggested_fix: None,
        evidence: Vec::new(),
    };
    let mut tracker = ConsensusTracker::new(750, 3);
    tracker.ingest_round(&[raw("leak here")], 1, "codex", "");
    tracker.ingest_round(&[raw("leak here")], 1, "gemini", "");
    tracker.ingest_round(&[raw("leak here")], 2, "gemini", "");
    let map = tracker.consensus_map();
    assert_eq!(map.0.len(), 1);
    assert_eq!(map.0[0].1.agreed_count, 2);
    assert_eq!(map.0[0].1.total_agents, 3);
    assert!(!map.0[0].1.reached_quorum);
}

#[test]
fn changed_items_of_a_rust_file_are_found() {
    let source = "fn untouched() {}\n\nfn touched() {\n    let x = 1;\n}\n\nstruct Point {\n    x: i32,\n}\n";
    let ranges = vec![LineRange { start: 4, end: 8 }];
    let symbols = libcrucible::syntax::file_symbols("src/lib.rs", source, &ranges).expect("tree");
    let mut names: Vec<(String, SymbolKind)> = symbols.into_iter().map(|s| (s.name, s.kind)).collect();
    names.sort_by(|a, b| a.0.cmp(&b.0));
    assert_eq!(names, vec![("Point".to_string(), SymbolKind::Struct), ("touched".to_string(), SymbolKind::Function)]);
}

#[test]
fn probes_use_the_configured_commands_of_requested_agents() {
    let cfg = PluginsConfig {
        agents: vec!["codex".to_string(), "open-code".to_string()],
        paths: Vec::new(),
        agent_configs: vec![
            ("codex".to_string(), CliPluginConfig { command: "codex".to_string(), args: Vec::new() }),
            ("gemini".to_string(), CliPluginConfig { command: "gemini".to_string(), args: Vec::new() }),
            ("open-code".to_string(), CliPluginConfig { command: "opencode".to_string(), args: Vec::new() }),
        ],
    };
    assert_eq!(cfg.probe_commands(), vec!["codex".to_string(), "gemini".to_string(), "opencode".to_string()]);
    let r = cfg.resolve_with(&vec![false, true, true]).unwrap();
    assert_eq!(r.active, vec!["gemini".to_string(), "open-code".to_string()]);
    assert!(r.standby.is_empty());
    assert_eq!(cfg.resolve_with(&vec![false, false, false]).err(), Some(AgentsError::NoPreferredAgent));
    let single = PluginsConfig { agents: vec!["open-code".to_string()], ..cfg.clone() };
    assert_eq!(single.probe_commands(), vec!["opencode".to_string()]);
    assert_eq!(single.resolve_with(&vec![false]).err(), Some(AgentsError::NoConfiguredAgent));
}

#[test]
fn history_keeps_recent_commits_that_touch_changed_files() {
    assert_eq!(history_cutoff(1_000_000, 1), 1_000_000 - 86_400);
    assert_eq!(history_cutoff(1_000, 1), 0);
    assert!(in_history_window(5, 5) && !in_history_window(4, 5));
    let files = vec!["src/a.rs".to_string()];
    assert!(touches_changed_file(&files, &vec!["docs/x.md".to_string(), "src/a.rs".to_string()]));
    assert!(!touches_changed_file(&files, &vec!["src/b.rs".to_string()]));
    let c = |sha: &str, date: i64| CommitSummary { sha: sha.to_string(), message: String::new(), author: String::new(), date_secs: date };
    let mut kept = Vec::new();
    assert!(!history_step(&mut kept, c("old", 1), true, 10, 2));
    assert!(!history_step(&mut kept, c("other", 20), false, 10, 2));
    assert!(!history_step(&mut kept, c("a", 20), true, 10, 2));
    assert!(history_step(&mut kept, c("b", 15), true, 10, 2));
    let shas: Vec<String> = kept.into_iter().map(|k| k.sha).collect();
    assert_eq!(shas, vec!["a".to_string(), "b".to_string()]);
}

#[test]
fn the_tree_is_walked_last_child_first() {
    let node = |kind: &str, name: Option<&'static str>, ty: Option<&'static str>, children: u32| TreeNode {
        kind: kind.to_string(),
        fields: (name, ty),
        rows: (0, 1),
        children,
    };
    let arena = vec![
        node("source_file", None, None, 2),
        node("function_item", Some("f"), None, 1),
        node("impl_item", None, Some("Point"), 0),
        node("identifier", None, None, 0),
    ];
    let order: Vec<(String, Option<String>)> = walk_nodes(&arena).unwrap().into_iter().map(|n| (n.kind, n.name)).collect();
    assert_eq!(
        order,
        vec![
            ("source_file".to_string(), None),
            ("impl_item".to_string(), Some("Point".to_string())),
            ("function_item".to_string(), Some("f".to_string())),
            ("identifier".to_string(), None),
        ]
    );
    let bad = vec![node("source_file", None, None, 1)];
    assert!(walk_nodes(&bad).is_none());
}

#[test]
fn analyzer_gets_two_tries_then_falls_back() {
    assert_eq!(analyzer_next(1, 2, true), AnalyzerNext::UseResult);
    assert_eq!(analyzer_next(1, 2, false), AnalyzerNext::Retry);
    assert_eq!(analyzer_next(2, 2, false), AnalyzerNext::FallBack);
}

#[test]
fn docs_are_cut_on_a_character() {
    assert_eq!(libcrucible::precheck::cut_to_bytes("héllo", 2), "h");
    assert_eq!(libcrucible::precheck::cut_to_bytes("héllo", 3), "hé");
    assert_eq!(libcrucible::precheck::cut_to_bytes("hello", 10), "hello");
}
