//! The task packs that ship with the engine: code review, requirements
//! review, design review and test-plan review. Each passes the pack checks.
use vstd::prelude::*;
use crate::task_pack::{
    validate_spec, AttachmentKind, ContextProvider, PromptTemplate, RoundMode, TaskAssignment,
    TaskFinalization, TaskPack, TaskPackManifest, TaskPackRole, TaskPackSource, TaskRound,
};
use crate::text::str_eq;

verus! {

/// A role by id, persona, template and weight.
pub open spec fn role_entries(roles: Seq<TaskPackRole>) -> Seq<(Seq<char>, Seq<char>, PromptTemplate, u32)> {
    roles.map_values(|r: TaskPackRole| (r.id@, r.persona@, r.prompt_template, r.default_weight_permille))
}

/// An assignment by role and agent.
pub open spec fn assignment_entry(a: TaskAssignment) -> (Seq<char>, Seq<char>) {
    (a.role@, a.plugin@)
}

/// The assignments of each round.
pub open spec fn round_entries(rounds: Seq<TaskRound>) -> Seq<Seq<(Seq<char>, Seq<char>)>> {
    rounds.map_values(|r: TaskRound| r.assignments@.map_values(|a: TaskAssignment| assignment_entry(a)))
}

pub type FinalEntries = (
    Option<(Seq<char>, Seq<char>)>,
    (Seq<char>, Seq<char>),
    Option<(Seq<char>, Seq<char>)>,
    Option<(Seq<char>, Seq<char>)>,
    Option<(Seq<char>, Seq<char>)>,
);

pub open spec fn opt_entry(a: Option<TaskAssignment>) -> Option<(Seq<char>, Seq<char>)> {
    match a {
        Some(x) => Some(assignment_entry(x)),
        None => None,
    }
}

/// The closing assignments: analysis, judge, convergence, structuring and autofix.
pub open spec fn final_entries(f: TaskFinalization) -> FinalEntries {
    (opt_entry(f.analyze), assignment_entry(f.judge), opt_entry(f.convergence), opt_entry(f.structurizer), opt_entry(f.autofix))
}

/// The roles of the review pack: id, persona, template and weight in thousandths.
pub open spec fn review_pack_roles() -> Seq<(Seq<char>, Seq<char>, PromptTemplate, u32)> {
    seq![
        ("program-semantics"@, "Program Semantics Auditor"@, PromptTemplate::Discover, 1500),
        ("maintainer-review"@, "Principal Maintainer"@, PromptTemplate::Discover, 1500),
        ("security-reliability"@, "Security and Reliability Auditor"@, PromptTemplate::Discover, 1000),
        ("verification-review"@, "Verification Critic"@, PromptTemplate::Verify, 1000),
        ("contrarian-review"@, "Contrarian Systems Critic"@, PromptTemplate::Challenge, 1250),
        ("review-judge"@, "Final Review Judge"@, PromptTemplate::Judge, 1000),
        ("review-analyzer"@, "Senior Review Analyst"@, PromptTemplate::Analyze, 1000),
        ("convergence-judge"@, "Strict Convergence Judge"@, PromptTemplate::Convergence, 1000),
    ]
}

/// The (role, agent) assignments of each round of the review pack.
pub open spec fn review_pack_rounds() -> Seq<Seq<(Seq<char>, Seq<char>)>> {
    seq![
        seq![("program-semantics"@, "opencode-glm"@), ("maintainer-review"@, "codex"@), ("security-reliability"@, "open-code"@)],
        seq![("contrarian-review"@, "open-code"@), ("verification-review"@, "codex"@)],
    ]
}

/// The (role, agent) assignments that close the review pack.
pub open spec fn review_pack_final() -> FinalEntries {
    (Some(("review-analyzer"@, "opencode-glm"@)), ("review-judge"@, "codex"@), Some(("convergence-judge"@, "codex"@)), Some(("review-judge"@, "codex"@)), Some(("review-judge"@, "codex"@)))
}

/// The roles of the requirements pack: id, persona, template and weight in thousandths.
pub open spec fn requirements_pack_roles() -> Seq<(Seq<char>, Seq<char>, PromptTemplate, u32)> {
    seq![
        ("ambiguity-critic"@, "Ambiguity Critic"@, PromptTemplate::Discover, 1000),
        ("acceptance-criteria-critic"@, "Acceptance Criteria Critic"@, PromptTemplate::Discover, 1000),
        ("dependency-risk-critic"@, "Dependency and Rollout Critic"@, PromptTemplate::Challenge, 1000),
        ("requirements-judge"@, "Requirements Judge"@, PromptTemplate::Judge, 1000),
        ("requirements-analyzer"@, "Requirements Analyzer"@, PromptTemplate::Analyze, 1000),
    ]
}

/// The (role, agent) assignments of each round of the requirements pack.
pub open spec fn requirements_pack_rounds() -> Seq<Seq<(Seq<char>, Seq<char>)>> {
    seq![
        seq![("ambiguity-critic"@, "codex"@), ("acceptance-criteria-critic"@, "open-code"@)],
        seq![("dependency-risk-critic"@, "gemini"@)],
    ]
}

/// The (role, agent) assignments that close the requirements pack.
pub open spec fn requirements_pack_final() -> FinalEntries {
    (Some(("requirements-analyzer"@, "codex"@)), ("requirements-judge"@, "codex"@), None, None, None)
}

/// The roles of the design pack: id, persona, template and weight in thousandths.
pub open spec fn design_pack_roles() -> Seq<(Seq<char>, Seq<char>, PromptTemplate, u32)> {
    seq![
        ("architecture-critic"@, "Architecture Critic"@, PromptTemplate::Discover, 1000),
        ("failure-mode-critic"@, "Failure Mode Critic"@, PromptTemplate::Discover, 1000),
        ("migration-critic"@, "Migration Critic"@, PromptTemplate::Challenge, 1000),
        ("design-judge"@, "Design Judge"@, PromptTemplate::Judge, 1000),
        ("design-analyzer"@, "Design Analyzer"@, PromptTemplate::Analyze, 1000),
    ]
}

/// The (role, agent) assignments of each round of the design pack.
pub open spec fn design_pack_rounds() -> Seq<Seq<(Seq<char>, Seq<char>)>> {
    seq![
        seq![("architecture-critic"@, "codex"@), ("failure-mode-critic"@, "open-code"@)],
        seq![("migration-critic"@, "gemini"@)],
    ]
}

/// The (role, agent) assignments that close the design pack.
pub open spec fn design_pack_final() -> FinalEntries {
    (Some(("design-analyzer"@, "codex"@)), ("design-judge"@, "codex"@), None, None, None)
}

/// The roles of the test plan pack: id, persona, template and weight in thousandths.
pub open spec fn test_plan_pack_roles() -> Seq<(Seq<char>, Seq<char>, PromptTemplate, u32)> {
    seq![
        ("coverage-critic"@, "Coverage Critic"@, PromptTemplate::Discover, 1000),
        ("fixture-critic"@, "Fixture Critic"@, PromptTemplate::Discover, 1000),
        ("release-gate-critic"@, "Release Gate Critic"@, PromptTemplate::Challenge, 1000),
        ("test-plan-judge"@, "Test Plan Judge"@, PromptTemplate::Judge, 1000),
        ("test-plan-analyzer"@, "Test Plan Analyzer"@, PromptTemplate::Analyze, 1000),
    ]
}

/// The (role, agent) assignments of each round of the test plan pack.
pub open spec fn test_plan_pack_rounds() -> Seq<Seq<(Seq<char>, Seq<char>)>> {
    seq![
        seq![("coverage-critic"@, "codex"@), ("fixture-critic"@, "open-code"@)],
        seq![("release-gate-critic"@, "gemini"@)],
    ]
}

/// The (role, agent) assignments that close the test plan pack.
pub open spec fn test_plan_pack_final() -> FinalEntries {
    (Some(("test-plan-analyzer"@, "codex"@)), ("test-plan-judge"@, "codex"@), None, None, None)
}

fn role(id: &str, name: &str, persona: &str, focus: &str, prompt_template: PromptTemplate, weight_permille: u32) -> (r: TaskPackRole)
    ensures
        r.id@ == id@,
        r.name@ == name@,
        r.persona@ == persona@,
        r.focus@ == focus@,
        r.prompt_template == prompt_template,
        r.default_weight_permille == weight_permille,
{
    TaskPackRole {
        id: id.to_owned(),
        name: name.to_owned(),
        persona: persona.to_owned(),
        focus: focus.to_owned(),
        prompt_template,
        default_weight_permille: weight_permille,
    }
}

fn assign(role: &str, plugin: &str) -> (r: TaskAssignment)
    ensures
        r.role@ == role@,
        r.plugin@ == plugin@,
        r.weight_override_permille is None,
{
    TaskAssignment { role: role.to_owned(), plugin: plugin.to_owned(), weight_override_permille: None }
}

/// The code-review pack: three agents discover, two challenge and verify,
/// a judge closes.
pub fn built_in_review_pack() -> (r: TaskPack)
    ensures
        r.manifest.id@ == "review"@,
        r.manifest.title@ == "Code Review"@,
        r.manifest.roles@.len() == 8,
        r.manifest.rounds@.len() == 2,
        r.manifest.quorum_permille == 750,
        !r.manifest.allow_clarifications,
        r.source is BuiltIn,
        role_entries(r.manifest.roles@) == review_pack_roles(),
        round_entries(r.manifest.rounds@) == review_pack_rounds(),
        final_entries(r.manifest.finalization) == review_pack_final(),
        validate_spec(r) is Ok,
{
    let mut roles: Vec<TaskPackRole> = Vec::new();
    roles.push(role(
        "program-semantics",
        "Program Semantics Auditor",
        "Program Semantics Auditor",
        "State transitions, invariants, hidden regressions, control-flow mistakes, concurrency hazards, and edge-case correctness",
        PromptTemplate::Discover,
        1500,
    ));
    roles.push(role(
        "maintainer-review",
        "Principal Maintainer",
        "Principal Maintainer",
        "API contracts, refactor safety, maintainability, change surface area, and design coherence",
        PromptTemplate::Discover,
        1500,
    ));
    roles.push(role(
        "security-reliability",
        "Security and Reliability Auditor",
        "Security and Reliability Auditor",
        "Trust boundaries, secret handling, data exposure, failure modes, recovery behavior, and operational risk",
        PromptTemplate::Discover,
        1000,
    ));
    roles.push(role(
        "verification-review",
        "Verification Critic",
        "Verification Critic",
        "Validate prior findings, prune weak claims, confirm evidence, and surface duplicates or severity inflation",
        PromptTemplate::Verify,
        1000,
    ));
    roles.push(role(
        "contrarian-review",
        "Contrarian Systems Critic",
        "Contrarian Systems Critic",
        "Challenge assumptions, cross-file interactions, integration risk, and unlikely but plausible failure paths",
        PromptTemplate::Challenge,
        1250,
    ));
    roles.push(role(
        "review-judge",
        "Review Judge",
        "Final Review Judge",
        "Synthesize canonical issues, preserve only supported claims, and produce actionable final guidance",
        PromptTemplate::Judge,
        1000,
    ));
    roles.push(role(
        "review-analyzer",
        "Review Analyzer",
        "Senior Review Analyst",
        "Summarize what changed, major risk areas, tradeoffs, and review checklist",
        PromptTemplate::Analyze,
        1000,
    ));
    roles.push(role(
        "convergence-judge",
        "Convergence Judge",
        "Strict Convergence Judge",
        "Determine whether material disagreement or net-new high-severity risk remains",
        PromptTemplate::Convergence,
        1000,
    ));
    let mut first: Vec<TaskAssignment> = Vec::new();
    first.push(assign("program-semantics", "opencode-glm"));
    first.push(assign("maintainer-review", "codex"));
    first.push(assign("security-reliability", "open-code"));
    let mut second: Vec<TaskAssignment> = Vec::new();
    second.push(assign("contrarian-review", "open-code"));
    second.push(assign("verification-review", "codex"));
    let mut rounds: Vec<TaskRound> = Vec::new();
    rounds.push(TaskRound { name: "Initial Review".to_owned(), mode: RoundMode::Discover, assignments: first });
    rounds.push(TaskRound { name: "Challenge and Verify".to_owned(), mode: RoundMode::Challenge, assignments: second });
    let mut kinds: Vec<AttachmentKind> = Vec::new();
    kinds.push(AttachmentKind::Diff);
    kinds.push(AttachmentKind::SourceFile);
    let mut providers: Vec<ContextProvider> = Vec::new();
    providers.push(ContextProvider::GitDiff);
    providers.push(ContextProvider::SelectedFiles);
    providers.push(ContextProvider::RepoDocs);
    providers.push(ContextProvider::GitHistory);
    providers.push(ContextProvider::Prechecks);
    let finalization = TaskFinalization {
        analyze: Some(assign("review-analyzer", "opencode-glm")),
        judge: assign("review-judge", "codex"),
        convergence: Some(assign("convergence-judge", "codex")),
        structurizer: Some(assign("review-judge", "codex")),
        autofix: Some(assign("review-judge", "codex")),
    };
    let pack = TaskPack {
        manifest: TaskPackManifest {
            id: "review".to_owned(),
            version: "1".to_owned(),
            title: "Code Review".to_owned(),
            description: "Build multi-agent consensus on code review findings.".to_owned(),
            allowed_attachment_kinds: kinds,
            context_providers: providers,
            roles,
            rounds,
            quorum_permille: 750,
            allow_clarifications: false,
            finalization,
        },
        analyzer_prompt: "You are a senior architect producing analyzer context for code review. Summarize what changed, architectural impact, focus areas, tradeoffs, affected modules, call chain, design patterns, and a review checklist.".to_owned(),
        reviewer_prompt: "Perform an exhaustive code review of the changed code. Assess correctness, security, performance, error handling, edge cases, maintainability, and testing gaps. Every finding must include direct evidence with exact code location and short quote snippets.".to_owned(),
        judge_prompt: "Produce final review consensus, convergence judgments, canonical issues, and auto-fix guidance for agreed findings.".to_owned(),
        schema_json: "{\n  \"type\":\"object\",\n  \"required\":[\"findings\"],\n  \"properties\":{\n    \"findings\":{\"type\":\"array\"}\n  }\n}".to_owned(),
        render_prompt: None,
        source: TaskPackSource::BuiltIn,
    };
    proof {
        reveal_strlit("program-semantics");
        reveal_strlit("maintainer-review");
        reveal_strlit("security-reliability");
        reveal_strlit("verification-review");
        reveal_strlit("contrarian-review");
        reveal_strlit("review-judge");
        reveal_strlit("review-analyzer");
        reveal_strlit("convergence-judge");
        let ids = crate::task_pack::role_ids(pack.manifest.roles@);
        assert(ids =~= seq![
            "program-semantics"@,
            "maintainer-review"@,
            "security-reliability"@,
            "verification-review"@,
            "contrarian-review"@,
            "review-judge"@,
            "review-analyzer"@,
            "convergence-judge"@,
        ]);
        assert forall|i: int, j: int| 0 <= i < ids.len() && 0 <= j < ids.len() && i != j implies ids[i] != ids[j] by {
            if i == 0 {
                assert(ids[0][0] != ids[1][0]);
                assert(ids[0].len() != ids[2].len());
                assert(ids[0].len() != ids[3].len());
                assert(ids[0][0] != ids[4][0]);
                assert(ids[0].len() != ids[5].len());
                assert(ids[0].len() != ids[6].len());
                assert(ids[0][0] != ids[7][0]);
                assert(ids[0] != ids[1] && ids[0] != ids[2] && ids[0] != ids[3] && ids[0] != ids[4] && ids[0] != ids[5] && ids[0] != ids[6] && ids[0] != ids[7]);
            } else if i == 1 {
                assert(ids[1][0] != ids[0][0]);
                assert(ids[1].len() != ids[2].len());
                assert(ids[1].len() != ids[3].len());
                assert(ids[1][0] != ids[4][0]);
                assert(ids[1].len() != ids[5].len());
                assert(ids[1].len() != ids[6].len());
                assert(ids[1][0] != ids[7][0]);
                assert(ids[1] != ids[0] && ids[1] != ids[2] && ids[1] != ids[3] && ids[1] != ids[4] && ids[1] != ids[5] && ids[1] != ids[6] && ids[1] != ids[7]);
            } else if i == 2 {
                assert(ids[2].len() != ids[0].len());
                assert(ids[2].len() != ids[1].len());
                assert(ids[2].len() != ids[3].len());
                assert(ids[2].len() != ids[4].len());
                assert(ids[2].len() != ids[5].len());
                assert(ids[2].len() != ids[6].len());
                assert(ids[2].len() != ids[7].len());
                assert(ids[2] != ids[0] && ids[2] != ids[1] && ids[2] != ids[3] && ids[2] != ids[4] && ids[2] != ids[5] && ids[2] != ids[6] && ids[2] != ids[7]);
            } else if i == 3 {
                assert(ids[3].len() != ids[0].len());
                assert(ids[3].len() != ids[1].len());
                assert(ids[3].len() != ids[2].len());
                assert(ids[3].len() != ids[4].len());
                assert(ids[3].len() != ids[5].len());
                assert(ids[3].len() != ids[6].len());
                assert(ids[3].len() != ids[7].len());
                assert(ids[3] != ids[0] && ids[3] != ids[1] && ids[3] != ids[2] && ids[3] != ids[4] && ids[3] != ids[5] && ids[3] != ids[6] && ids[3] != ids[7]);
            } else if i == 4 {
                assert(ids[4][0] != ids[0][0]);
                assert(ids[4][0] != ids[1][0]);
                assert(ids[4].len() != ids[2].len());
                assert(ids[4].len() != ids[3].len());
                assert(ids[4].len() != ids[5].len());
                assert(ids[4].len() != ids[6].len());
                assert(ids[4][3] != ids[7][3]);
                assert(ids[4] != ids[0] && ids[4] != ids[1] && ids[4] != ids[2] && ids[4] != ids[3] && ids[4] != ids[5] && ids[4] != ids[6] && ids[4] != ids[7]);
            } else if i == 5 {
                assert(ids[5].len() != ids[0].len());
                assert(ids[5].len() != ids[1].len());
                assert(ids[5].len() != ids[2].len());
                assert(ids[5].len() != ids[3].len());
                assert(ids[5].len() != ids[4].len());
                assert(ids[5].len() != ids[6].len());
                assert(ids[5].len() != ids[7].len());
                assert(ids[5] != ids[0] && ids[5] != ids[1] && ids[5] != ids[2] && ids[5] != ids[3] && ids[5] != ids[4] && ids[5] != ids[6] && ids[5] != ids[7]);
            } else if i == 6 {
                assert(ids[6].len() != ids[0].len());
                assert(ids[6].len() != ids[1].len());
                assert(ids[6].len() != ids[2].len());
                assert(ids[6].len() != ids[3].len());
                assert(ids[6].len() != ids[4].len());
                assert(ids[6].len() != ids[5].len());
                assert(ids[6].len() != ids[7].len());
                assert(ids[6] != ids[0] && ids[6] != ids[1] && ids[6] != ids[2] && ids[6] != ids[3] && ids[6] != ids[4] && ids[6] != ids[5] && ids[6] != ids[7]);
            } else if i == 7 {
                assert(ids[7][0] != ids[0][0]);
                assert(ids[7][0] != ids[1][0]);
                assert(ids[7].len() != ids[2].len());
                assert(ids[7].len() != ids[3].len());
                assert(ids[7][3] != ids[4][3]);
                assert(ids[7].len() != ids[5].len());
                assert(ids[7].len() != ids[6].len());
                assert(ids[7] != ids[0] && ids[7] != ids[1] && ids[7] != ids[2] && ids[7] != ids[3] && ids[7] != ids[4] && ids[7] != ids[5] && ids[7] != ids[6]);
            }
        }
        assert(ids.no_duplicates());
        let roles = pack.manifest.roles@;
        let a0 = pack.manifest.rounds@[0].assignments@;
        assert forall|j: int| 0 <= j < a0.len() implies crate::task_pack::has_role(roles, (#[trigger] a0[j]).role@) by {
            if j == 0 {
                assert(roles[0].id@ == a0[0].role@);
            } else if j == 1 {
                assert(roles[1].id@ == a0[1].role@);
            } else if j == 2 {
                assert(roles[2].id@ == a0[2].role@);
            }
        }
        let a1 = pack.manifest.rounds@[1].assignments@;
        assert forall|j: int| 0 <= j < a1.len() implies crate::task_pack::has_role(roles, (#[trigger] a1[j]).role@) by {
            if j == 0 {
                assert(roles[4].id@ == a1[0].role@);
            } else if j == 1 {
                assert(roles[3].id@ == a1[1].role@);
            }
        }
        assert(crate::task_pack::first_bad_round(pack.manifest, 2) is None);
        assert(crate::task_pack::first_bad_round(pack.manifest, 1) is None);
        assert(crate::task_pack::first_bad_round(pack.manifest, 0) is None);
        let fr = crate::task_pack::final_roles(pack.manifest.finalization);
        assert(fr =~= seq!["review-analyzer"@, "review-judge"@, "convergence-judge"@, "review-judge"@, "review-judge"@]);
        assert(roles[6].id@ == fr[0]);
        assert(crate::task_pack::has_role(roles, fr[0]));
        assert(roles[5].id@ == fr[1]);
        assert(crate::task_pack::has_role(roles, fr[1]));
        assert(roles[7].id@ == fr[2]);
        assert(crate::task_pack::has_role(roles, fr[2]));
        assert(roles[5].id@ == fr[3]);
        assert(crate::task_pack::has_role(roles, fr[3]));
        assert(roles[5].id@ == fr[4]);
        assert(crate::task_pack::has_role(roles, fr[4]));
        assert(crate::task_pack::first_unknown_name(roles, fr, 5) is None);
        assert(crate::task_pack::first_unknown_name(roles, fr, 4) is None);
        assert(crate::task_pack::first_unknown_name(roles, fr, 3) is None);
        assert(crate::task_pack::first_unknown_name(roles, fr, 2) is None);
        assert(crate::task_pack::first_unknown_name(roles, fr, 1) is None);
        assert(crate::task_pack::first_unknown_name(roles, fr, 0) is None);
    }
    proof {
        let rs = pack.manifest.rounds@;
        assert(rs[0].assignments@.map_values(|a: TaskAssignment| assignment_entry(a)) =~= review_pack_rounds()[0]);
        assert(rs[1].assignments@.map_values(|a: TaskAssignment| assignment_entry(a)) =~= review_pack_rounds()[1]);
        assert(round_entries(rs) =~= review_pack_rounds());
    }
    pack
}

/// The requirements pack: ambiguity and acceptance criteria first, then a dependency challenge; clarifications allowed.
pub fn built_in_requirements_pack() -> (r: TaskPack)
    ensures
        r.manifest.id@ == "requirements-review"@,
        r.manifest.title@ == "Requirements Review"@,
        r.manifest.roles@.len() == 5,
        r.manifest.rounds@.len() == 2,
        r.manifest.quorum_permille == 750,
        r.manifest.allow_clarifications,
        r.source is BuiltIn,
        role_entries(r.manifest.roles@) == requirements_pack_roles(),
        round_entries(r.manifest.rounds@) == requirements_pack_rounds(),
        final_entries(r.manifest.finalization) == requirements_pack_final(),
        validate_spec(r) is Ok,
{
    let mut roles: Vec<TaskPackRole> = Vec::new();
    roles.push(role(
        "ambiguity-critic",
        "Ambiguity Critic",
        "Ambiguity Critic",
        "Find vague wording, ambiguous requirements, and unstated assumptions",
        PromptTemplate::Discover,
        1000,
    ));
    roles.push(role(
        "acceptance-criteria-critic",
        "Acceptance Criteria Critic",
        "Acceptance Criteria Critic",
        "Find missing acceptance criteria, measurable outcomes, and testability gaps",
        PromptTemplate::Discover,
        1000,
    ));
    roles.push(role(
        "dependency-risk-critic",
        "Dependency and Rollout Critic",
        "Dependency and Rollout Critic",
        "Identify hidden dependencies, rollout risks, downstream coupling, and implementation traps",
        PromptTemplate::Challenge,
        1000,
    ));
    roles.push(role(
        "requirements-judge",
        "Requirements Judge",
        "Requirements Judge",
        "Produce a clear consensus requirements report and clarification requests",
        PromptTemplate::Judge,
        1000,
    ));
    roles.push(role(
        "requirements-analyzer",
        "Requirements Analyzer",
        "Requirements Analyzer",
        "Summarize goals, constraints, implied assumptions, and missing context",
        PromptTemplate::Analyze,
        1000,
    ));
    let mut rounds: Vec<TaskRound> = Vec::new();
    let mut round0: Vec<TaskAssignment> = Vec::new();
    round0.push(assign("ambiguity-critic", "codex"));
    round0.push(assign("acceptance-criteria-critic", "open-code"));
    rounds.push(TaskRound { name: "Initial Requirements Review".to_owned(), mode: RoundMode::Discover, assignments: round0 });
    let mut round1: Vec<TaskAssignment> = Vec::new();
    round1.push(assign("dependency-risk-critic", "gemini"));
    rounds.push(TaskRound { name: "Dependency Challenge".to_owned(), mode: RoundMode::Challenge, assignments: round1 });
    let mut kinds: Vec<AttachmentKind> = Vec::new();
    kinds.push(AttachmentKind::Markdown);
    kinds.push(AttachmentKind::Text);
    let mut providers: Vec<ContextProvider> = Vec::new();
    providers.push(ContextProvider::PromptOnly);
    providers.push(ContextProvider::RepoDocs);
    let finalization = TaskFinalization {
        analyze: Some(assign("requirements-analyzer", "codex")),
        judge: assign("requirements-judge", "codex"),
        convergence: None,
        structurizer: None,
        autofix: None,
    };
    let pack = TaskPack {
        manifest: TaskPackManifest {
            id: "requirements-review".to_owned(),
            version: "1".to_owned(),
            title: "Requirements Review".to_owned(),
            description: "Build consensus on requirements quality, ambiguity, and coverage.".to_owned(),
            allowed_attachment_kinds: kinds,
            context_providers: providers,
            roles,
            rounds,
            quorum_permille: 750,
            allow_clarifications: true,
            finalization,
        },
        analyzer_prompt: "Identify the product goals, constraints, implied assumptions, and missing context in the supplied requirements material.".to_owned(),
        reviewer_prompt: "Review the requirements for ambiguity, contradictions, missing acceptance criteria, hidden dependencies, rollout risks, and implementation traps.".to_owned(),
        judge_prompt: "Produce a consensus requirements report with accepted requirements, ambiguities, missing acceptance criteria, risks, recommended next steps, and clarification requests when blocking information is missing.".to_owned(),
        schema_json: "{\n  \"type\":\"object\",\n  \"required\":[\"accepted_requirements\",\"ambiguities\",\"missing_acceptance_criteria\",\"risks\",\"recommended_next_steps\"],\n  \"properties\":{\n    \"accepted_requirements\":{\"type\":\"array\"},\n    \"ambiguities\":{\"type\":\"array\"},\n    \"missing_acceptance_criteria\":{\"type\":\"array\"},\n    \"risks\":{\"type\":\"array\"},\n    \"recommended_next_steps\":{\"type\":\"array\"}\n  }\n}".to_owned(),
        render_prompt: None,
        source: TaskPackSource::BuiltIn,
    };
    proof {
        reveal_strlit("ambiguity-critic");
        reveal_strlit("acceptance-criteria-critic");
        reveal_strlit("dependency-risk-critic");
        reveal_strlit("requirements-judge");
        reveal_strlit("requirements-analyzer");
        let ids = crate::task_pack::role_ids(pack.manifest.roles@);
        assert(ids =~= seq!["ambiguity-critic"@, "acceptance-criteria-critic"@, "dependency-risk-critic"@, "requirements-judge"@, "requirements-analyzer"@]);
        assert forall|i: int, j: int| 0 <= i < ids.len() && 0 <= j < ids.len() && i != j implies ids[i] != ids[j] by {
            if i == 0 {
                assert(ids[0].len() != ids[1].len());
                assert(ids[0].len() != ids[2].len());
                assert(ids[0].len() != ids[3].len());
                assert(ids[0].len() != ids[4].len());
                assert(ids[0] != ids[1] && ids[0] != ids[2] && ids[0] != ids[3] && ids[0] != ids[4]);
            } else if i == 1 {
                assert(ids[1].len() != ids[0].len());
                assert(ids[1].len() != ids[2].len());
                assert(ids[1].len() != ids[3].len());
                assert(ids[1].len() != ids[4].len());
                assert(ids[1] != ids[0] && ids[1] != ids[2] && ids[1] != ids[3] && ids[1] != ids[4]);
            } else if i == 2 {
                assert(ids[2].len() != ids[0].len());
                assert(ids[2].len() != ids[1].len());
                assert(ids[2].len() != ids[3].len());
                assert(ids[2].len() != ids[4].len());
                assert(ids[2] != ids[0] && ids[2] != ids[1] && ids[2] != ids[3] && ids[2] != ids[4]);
            } else if i == 3 {
                assert(ids[3].len() != ids[0].len());
                assert(ids[3].len() != ids[1].len());
                assert(ids[3].len() != ids[2].len());
                assert(ids[3].len() != ids[4].len());
                assert(ids[3] != ids[0] && ids[3] != ids[1] && ids[3] != ids[2] && ids[3] != ids[4]);
            } else if i == 4 {
                assert(ids[4].len() != ids[0].len());
                assert(ids[4].len() != ids[1].len());
                assert(ids[4].len() != ids[2].len());
                assert(ids[4].len() != ids[3].len());
                assert(ids[4] != ids[0] && ids[4] != ids[1] && ids[4] != ids[2] && ids[4] != ids[3]);
            }
        }
        assert(ids.no_duplicates());
        let roles = pack.manifest.roles@;
        let a0 = pack.manifest.rounds@[0].assignments@;
        assert forall|j: int| 0 <= j < a0.len() implies crate::task_pack::has_role(roles, (#[trigger] a0[j]).role@) by {
            if j == 0 {
                assert(roles[0].id@ == a0[0].role@);
            } else if j == 1 {
                assert(roles[1].id@ == a0[1].role@);
            }
        }
        let a1 = pack.manifest.rounds@[1].assignments@;
        assert forall|j: int| 0 <= j < a1.len() implies crate::task_pack::has_role(roles, (#[trigger] a1[j]).role@) by {
            if j == 0 {
                assert(roles[2].id@ == a1[0].role@);
            }
        }
        assert(crate::task_pack::first_bad_round(pack.manifest, 2) is None);
        assert(crate::task_pack::first_bad_round(pack.manifest, 1) is None);
        assert(crate::task_pack::first_bad_round(pack.manifest, 0) is None);
        let fr = crate::task_pack::final_roles(pack.manifest.finalization);
        assert(fr =~= seq!["requirements-analyzer"@, "requirements-judge"@]);
        assert(roles[4].id@ == fr[0]);
        assert(crate::task_pack::has_role(roles, fr[0]));
        assert(roles[3].id@ == fr[1]);
        assert(crate::task_pack::has_role(roles, fr[1]));
        assert(crate::task_pack::first_unknown_name(roles, fr, 2) is None);
        assert(crate::task_pack::first_unknown_name(roles, fr, 1) is None);
        assert(crate::task_pack::first_unknown_name(roles, fr, 0) is None);
    }
    proof {
        let rs = pack.manifest.rounds@;
        assert(rs[0].assignments@.map_values(|a: TaskAssignment| assignment_entry(a)) =~= requirements_pack_rounds()[0]);
        assert(rs[1].assignments@.map_values(|a: TaskAssignment| assignment_entry(a)) =~= requirements_pack_rounds()[1]);
        assert(round_entries(rs) =~= requirements_pack_rounds());
    }
    pack
}

/// The design pack: architecture and failure modes first, then a migration challenge; clarifications allowed.
pub fn built_in_design_pack() -> (r: TaskPack)
    ensures
        r.manifest.id@ == "design-review"@,
        r.manifest.title@ == "Design Review"@,
        r.manifest.roles@.len() == 5,
        r.manifest.rounds@.len() == 2,
        r.manifest.quorum_permille == 750,
        r.manifest.allow_clarifications,
        r.source is BuiltIn,
        role_entries(r.manifest.roles@) == design_pack_roles(),
        round_entries(r.manifest.rounds@) == design_pack_rounds(),
        final_entries(r.manifest.finalization) == design_pack_final(),
        validate_spec(r) is Ok,
{
    let mut roles: Vec<TaskPackRole> = Vec::new();
    roles.push(role(
        "architecture-critic",
        "Architecture Critic",
        "Architecture Critic",
        "Boundaries, interfaces, cohesion, and design soundness",
        PromptTemplate::Discover,
        1000,
    ));
    roles.push(role(
        "failure-mode-critic",
        "Failure Mode Critic",
        "Failure Mode Critic",
        "Operational risk, recovery behavior, partial failure, and bad-case handling",
        PromptTemplate::Discover,
        1000,
    ));
    roles.push(role(
        "migration-critic",
        "Migration Critic",
        "Migration Critic",
        "Adoption path, migration cost, backward compatibility, and rollout traps",
        PromptTemplate::Challenge,
        1000,
    ));
    roles.push(role(
        "design-judge",
        "Design Judge",
        "Design Judge",
        "Synthesize tradeoffs, failure modes, and recommended design changes",
        PromptTemplate::Judge,
        1000,
    ));
    roles.push(role(
        "design-analyzer",
        "Design Analyzer",
        "Design Analyzer",
        "Summarize the proposed design, interfaces, and most important tradeoffs",
        PromptTemplate::Analyze,
        1000,
    ));
    let mut rounds: Vec<TaskRound> = Vec::new();
    let mut round0: Vec<TaskAssignment> = Vec::new();
    round0.push(assign("architecture-critic", "codex"));
    round0.push(assign("failure-mode-critic", "open-code"));
    rounds.push(TaskRound { name: "Initial Design Review".to_owned(), mode: RoundMode::Discover, assignments: round0 });
    let mut round1: Vec<TaskAssignment> = Vec::new();
    round1.push(assign("migration-critic", "gemini"));
    rounds.push(TaskRound { name: "Migration Challenge".to_owned(), mode: RoundMode::Challenge, assignments: round1 });
    let mut kinds: Vec<AttachmentKind> = Vec::new();
    kinds.push(AttachmentKind::Markdown);
    kinds.push(AttachmentKind::Text);
    kinds.push(AttachmentKind::SourceFile);
    let mut providers: Vec<ContextProvider> = Vec::new();
    providers.push(ContextProvider::PromptOnly);
    providers.push(ContextProvider::RepoDocs);
    let finalization = TaskFinalization {
        analyze: Some(assign("design-analyzer", "codex")),
        judge: assign("design-judge", "codex"),
        convergence: None,
        structurizer: None,
        autofix: None,
    };
    let pack = TaskPack {
        manifest: TaskPackManifest {
            id: "design-review".to_owned(),
            version: "1".to_owned(),
            title: "Design Review".to_owned(),
            description: "Build consensus on architecture, tradeoffs, and failure modes.".to_owned(),
            allowed_attachment_kinds: kinds,
            context_providers: providers,
            roles,
            rounds,
            quorum_permille: 750,
            allow_clarifications: true,
            finalization,
        },
        analyzer_prompt: "Summarize the proposed design, its boundaries, interfaces, and the most important tradeoffs.".to_owned(),
        reviewer_prompt: "Review the design for soundness, operational risk, coupling, migration concerns, performance cliffs, and failure handling.".to_owned(),
        judge_prompt: "Produce a consensus design report with decision summary, tradeoffs, open questions, failure modes, recommended changes, and clarification requests when needed.".to_owned(),
        schema_json: "{\n  \"type\":\"object\",\n  \"required\":[\"decision_summary\",\"tradeoffs\",\"open_questions\",\"failure_modes\",\"recommended_changes\"],\n  \"properties\":{\n    \"decision_summary\":{\"type\":\"string\"},\n    \"tradeoffs\":{\"type\":\"array\"},\n    \"open_questions\":{\"type\":\"array\"},\n    \"failure_modes\":{\"type\":\"array\"},\n    \"recommended_changes\":{\"type\":\"array\"}\n  }\n}".to_owned(),
        render_prompt: None,
        source: TaskPackSource::BuiltIn,
    };
    proof {
        reveal_strlit("architecture-critic");
        reveal_strlit("failure-mode-critic");
        reveal_strlit("migration-critic");
        reveal_strlit("design-judge");
        reveal_strlit("design-analyzer");
        let ids = crate::task_pack::role_ids(pack.manifest.roles@);
        assert(ids =~= seq!["architecture-critic"@, "failure-mode-critic"@, "migration-critic"@, "design-judge"@, "design-analyzer"@]);
        assert forall|i: int, j: int| 0 <= i < ids.len() && 0 <= j < ids.len() && i != j implies ids[i] != ids[j] by {
            if i == 0 {
                assert(ids[0][0] != ids[1][0]);
                assert(ids[0].len() != ids[2].len());
                assert(ids[0].len() != ids[3].len());
                assert(ids[0].len() != ids[4].len());
                assert(ids[0] != ids[1] && ids[0] != ids[2] && ids[0] != ids[3] && ids[0] != ids[4]);
            } else if i == 1 {
                assert(ids[1][0] != ids[0][0]);
                assert(ids[1].len() != ids[2].len());
                assert(ids[1].len() != ids[3].len());
                assert(ids[1].len() != ids[4].len());
                assert(ids[1] != ids[0] && ids[1] != ids[2] && ids[1] != ids[3] && ids[1] != ids[4]);
            } else if i == 2 {
                assert(ids[2].len() != ids[0].len());
                assert(ids[2].len() != ids[1].len());
                assert(ids[2].len() != ids[3].len());
                assert(ids[2].len() != ids[4].len());
                assert(ids[2] != ids[0] && ids[2] != ids[1] && ids[2] != ids[3] && ids[2] != ids[4]);
            } else if i == 3 {
                assert(ids[3].len() != ids[0].len());
                assert(ids[3].len() != ids[1].len());
                assert(ids[3].len() != ids[2].len());
                assert(ids[3].len() != ids[4].len());
                assert(ids[3] != ids[0] && ids[3] != ids[1] && ids[3] != ids[2] && ids[3] != ids[4]);
            } else if i == 4 {
                assert(ids[4].len() != ids[0].len());
                assert(ids[4].len() != ids[1].len());
                assert(ids[4].len() != ids[2].len());
                assert(ids[4].len() != ids[3].len());
                assert(ids[4] != ids[0] && ids[4] != ids[1] && ids[4] != ids[2] && ids[4] != ids[3]);
            }
        }
        assert(ids.no_duplicates());
        let roles = pack.manifest.roles@;
        let a0 = pack.manifest.rounds@[0].assignments@;
        assert forall|j: int| 0 <= j < a0.len() implies crate::task_pack::has_role(roles, (#[trigger] a0[j]).role@) by {
            if j == 0 {
                assert(roles[0].id@ == a0[0].role@);
            } else if j == 1 {
                assert(roles[1].id@ == a0[1].role@);
            }
        }
        let a1 = pack.manifest.rounds@[1].assignments@;
        assert forall|j: int| 0 <= j < a1.len() implies crate::task_pack::has_role(roles, (#[trigger] a1[j]).role@) by {
            if j == 0 {
                assert(roles[2].id@ == a1[0].role@);
            }
        }
        assert(crate::task_pack::first_bad_round(pack.manifest, 2) is None);
        assert(crate::task_pack::first_bad_round(pack.manifest, 1) is None);
        assert(crate::task_pack::first_bad_round(pack.manifest, 0) is None);
        let fr = crate::task_pack::final_roles(pack.manifest.finalization);
        assert(fr =~= seq!["design-analyzer"@, "design-judge"@]);
        assert(roles[4].id@ == fr[0]);
        assert(crate::task_pack::has_role(roles, fr[0]));
        assert(roles[3].id@ == fr[1]);
        assert(crate::task_pack::has_role(roles, fr[1]));
        assert(crate::task_pack::first_unknown_name(roles, fr, 2) is None);
        assert(crate::task_pack::first_unknown_name(roles, fr, 1) is None);
        assert(crate::task_pack::first_unknown_name(roles, fr, 0) is None);
    }
    proof {
        let rs = pack.manifest.rounds@;
        assert(rs[0].assignments@.map_values(|a: TaskAssignment| assignment_entry(a)) =~= design_pack_rounds()[0]);
        assert(rs[1].assignments@.map_values(|a: TaskAssignment| assignment_entry(a)) =~= design_pack_rounds()[1]);
        assert(round_entries(rs) =~= design_pack_rounds());
    }
    pack
}

/// The test-plan pack: coverage and fixtures first, then a release-gate challenge; clarifications allowed.
pub fn built_in_test_plan_pack() -> (r: TaskPack)
    ensures
        r.manifest.id@ == "test-plan-review"@,
        r.manifest.title@ == "Test Plan Review"@,
        r.manifest.roles@.len() == 5,
        r.manifest.rounds@.len() == 2,
        r.manifest.quorum_permille == 750,
        r.manifest.allow_clarifications,
        r.source is BuiltIn,
        role_entries(r.manifest.roles@) == test_plan_pack_roles(),
        round_entries(r.manifest.rounds@) == test_plan_pack_rounds(),
        final_entries(r.manifest.finalization) == test_plan_pack_final(),
        validate_spec(r) is Ok,
{
    let mut roles: Vec<TaskPackRole> = Vec::new();
    roles.push(role(
        "coverage-critic",
        "Coverage Critic",
        "Coverage Critic",
        "Missing scenarios, weak assertions, and untested behavior surfaces",
        PromptTemplate::Discover,
        1000,
    ));
    roles.push(role(
        "fixture-critic",
        "Fixture Critic",
        "Fixture Critic",
        "Missing fixtures, absent data setup, environment gaps, and cross-system dependencies",
        PromptTemplate::Discover,
        1000,
    ));
    roles.push(role(
        "release-gate-critic",
        "Release Gate Critic",
        "Release Gate Critic",
        "High-risk scenarios, release blockers, and validation required before rollout",
        PromptTemplate::Challenge,
        1000,
    ));
    roles.push(role(
        "test-plan-judge",
        "Test Plan Judge",
        "Test Plan Judge",
        "Produce a consensus test plan report with actionable release guidance",
        PromptTemplate::Judge,
        1000,
    ));
    roles.push(role(
        "test-plan-analyzer",
        "Test Plan Analyzer",
        "Test Plan Analyzer",
        "Identify target behavior, system risk, and expected validation surface",
        PromptTemplate::Analyze,
        1000,
    ));
    let mut rounds: Vec<TaskRound> = Vec::new();
    let mut round0: Vec<TaskAssignment> = Vec::new();
    round0.push(assign("coverage-critic", "codex"));
    round0.push(assign("fixture-critic", "open-code"));
    rounds.push(TaskRound { name: "Initial Test Plan Review".to_owned(), mode: RoundMode::Discover, assignments: round0 });
    let mut round1: Vec<TaskAssignment> = Vec::new();
    round1.push(assign("release-gate-critic", "gemini"));
    rounds.push(TaskRound { name: "Release Gate Challenge".to_owned(), mode: RoundMode::Challenge, assignments: round1 });
    let mut kinds: Vec<AttachmentKind> = Vec::new();
    kinds.push(AttachmentKind::Markdown);
    kinds.push(AttachmentKind::Text);
    kinds.push(AttachmentKind::SourceFile);
    let mut providers: Vec<ContextProvider> = Vec::new();
    providers.push(ContextProvider::PromptOnly);
    providers.push(ContextProvider::RepoDocs);
    let finalization = TaskFinalization {
        analyze: Some(assign("test-plan-analyzer", "codex")),
        judge: assign("test-plan-judge", "codex"),
        convergence: None,
        structurizer: None,
        autofix: None,
    };
    let pack = TaskPack {
        manifest: TaskPackManifest {
            id: "test-plan-review".to_owned(),
            version: "1".to_owned(),
            title: "Test Plan Review".to_owned(),
            description: "Build consensus on test coverage, gaps, and release blockers.".to_owned(),
            allowed_attachment_kinds: kinds,
            context_providers: providers,
            roles,
            rounds,
            quorum_permille: 750,
            allow_clarifications: true,
            finalization,
        },
        analyzer_prompt: "Identify the target behavior, system risks, and expected validation surface for the supplied test plan or feature request.".to_owned(),
        reviewer_prompt: "Review the test plan for missing scenarios, weak assertions, absent fixtures, cross-system risks, and release-blocking coverage gaps.".to_owned(),
        judge_prompt: "Produce a consensus test-plan report with coverage gaps, high-risk scenarios, missing fixtures, recommended test matrix, release blockers, and clarification requests when needed.".to_owned(),
        schema_json: "{\n  \"type\":\"object\",\n  \"required\":[\"coverage_gaps\",\"high_risk_scenarios\",\"missing_fixtures\",\"recommended_test_matrix\",\"release_blockers\"],\n  \"properties\":{\n    \"coverage_gaps\":{\"type\":\"array\"},\n    \"high_risk_scenarios\":{\"type\":\"array\"},\n    \"missing_fixtures\":{\"type\":\"array\"},\n    \"recommended_test_matrix\":{\"type\":\"array\"},\n    \"release_blockers\":{\"type\":\"array\"}\n  }\n}".to_owned(),
        render_prompt: None,
        source: TaskPackSource::BuiltIn,
    };
    proof {
        reveal_strlit("coverage-critic");
        reveal_strlit("fixture-critic");
        reveal_strlit("release-gate-critic");
        reveal_strlit("test-plan-judge");
        reveal_strlit("test-plan-analyzer");
        let ids = crate::task_pack::role_ids(pack.manifest.roles@);
        assert(ids =~= seq!["coverage-critic"@, "fixture-critic"@, "release-gate-critic"@, "test-plan-judge"@, "test-plan-analyzer"@]);
        assert forall|i: int, j: int| 0 <= i < ids.len() && 0 <= j < ids.len() && i != j implies ids[i] != ids[j] by {
            if i == 0 {
                assert(ids[0].len() != ids[1].len());
                assert(ids[0].len() != ids[2].len());
                assert(ids[0][0] != ids[3][0]);
                assert(ids[0].len() != ids[4].len());
                assert(ids[0] != ids[1] && ids[0] != ids[2] && ids[0] != ids[3] && ids[0] != ids[4]);
            } else if i == 1 {
                assert(ids[1].len() != ids[0].len());
                assert(ids[1].len() != ids[2].len());
                assert(ids[1].len() != ids[3].len());
                assert(ids[1].len() != ids[4].len());
                assert(ids[1] != ids[0] && ids[1] != ids[2] && ids[1] != ids[3] && ids[1] != ids[4]);
            } else if i == 2 {
                assert(ids[2].len() != ids[0].len());
                assert(ids[2].len() != ids[1].len());
                assert(ids[2].len() != ids[3].len());
                assert(ids[2].len() != ids[4].len());
                assert(ids[2] != ids[0] && ids[2] != ids[1] && ids[2] != ids[3] && ids[2] != ids[4]);
            } else if i == 3 {
                assert(ids[3][0] != ids[0][0]);
                assert(ids[3].len() != ids[1].len());
                assert(ids[3].len() != ids[2].len());
                assert(ids[3].len() != ids[4].len());
                assert(ids[3] != ids[0] && ids[3] != ids[1] && ids[3] != ids[2] && ids[3] != ids[4]);
            } else if i == 4 {
                assert(ids[4].len() != ids[0].len());
                assert(ids[4].len() != ids[1].len());
                assert(ids[4].len() != ids[2].len());
                assert(ids[4].len() != ids[3].len());
                assert(ids[4] != ids[0] && ids[4] != ids[1] && ids[4] != ids[2] && ids[4] != ids[3]);
            }
        }
        assert(ids.no_duplicates());
        let roles = pack.manifest.roles@;
        let a0 = pack.manifest.rounds@[0].assignments@;
        assert forall|j: int| 0 <= j < a0.len() implies crate::task_pack::has_role(roles, (#[trigger] a0[j]).role@) by {
            if j == 0 {
                assert(roles[0].id@ == a0[0].role@);
            } else if j == 1 {
                assert(roles[1].id@ == a0[1].role@);
            }
        }
        let a1 = pack.manifest.rounds@[1].assignments@;
        assert forall|j: int| 0 <= j < a1.len() implies crate::task_pack::has_role(roles, (#[trigger] a1[j]).role@) by {
            if j == 0 {
                assert(roles[2].id@ == a1[0].role@);
            }
        }
        assert(crate::task_pack::first_bad_round(pack.manifest, 2) is None);
        assert(crate::task_pack::first_bad_round(pack.manifest, 1) is None);
        assert(crate::task_pack::first_bad_round(pack.manifest, 0) is None);
        let fr = crate::task_pack::final_roles(pack.manifest.finalization);
        assert(fr =~= seq!["test-plan-analyzer"@, "test-plan-judge"@]);
        assert(roles[4].id@ == fr[0]);
        assert(crate::task_pack::has_role(roles, fr[0]));
        assert(roles[3].id@ == fr[1]);
        assert(crate::task_pack::has_role(roles, fr[1]));
        assert(crate::task_pack::first_unknown_name(roles, fr, 2) is None);
        assert(crate::task_pack::first_unknown_name(roles, fr, 1) is None);
        assert(crate::task_pack::first_unknown_name(roles, fr, 0) is None);
    }
    proof {
        let rs = pack.manifest.rounds@;
        assert(rs[0].assignments@.map_values(|a: TaskAssignment| assignment_entry(a)) =~= test_plan_pack_rounds()[0]);
        assert(rs[1].assignments@.map_values(|a: TaskAssignment| assignment_entry(a)) =~= test_plan_pack_rounds()[1]);
        assert(round_entries(rs) =~= test_plan_pack_rounds());
    }
    pack
}

/// The ids of the built-in packs, in order.
pub open spec fn built_in_ids() -> Seq<Seq<char>> {
    seq!["review"@, "requirements-review"@, "design-review"@, "test-plan-review"@]
}

/// The built-in packs, in order: review, requirements, design, test plan.
pub fn built_in_packs() -> (r: Vec<TaskPack>)
    ensures
        r@.len() == 4,
        forall|i: int| 0 <= i < 4 ==> (#[trigger] r@[i]).manifest.id@ == built_in_ids()[i] && validate_spec(r@[i]) is Ok
            && r@[i].source is BuiltIn,
{
    let mut v: Vec<TaskPack> = Vec::new();
    v.push(built_in_review_pack());
    v.push(built_in_requirements_pack());
    v.push(built_in_design_pack());
    v.push(built_in_test_plan_pack());
    v
}

/// The built-in pack with this id, if there is one.
pub fn find_built_in_pack(pack_id: &str) -> (r: Option<TaskPack>)
    ensures
        r is Some <==> built_in_ids().contains(pack_id@),
        r matches Some(p) ==> p.manifest.id@ == pack_id@ && validate_spec(p) is Ok && p.source is BuiltIn,
{
    let packs = built_in_packs();
    let mut i: usize = 0;
    while i < packs.len()
        invariant
            i <= packs@.len(),
            packs@.len() == 4,
            forall|k: int| 0 <= k < 4 ==> (#[trigger] packs@[k]).manifest.id@ == built_in_ids()[k] && validate_spec(
                packs@[k],
            ) is Ok && packs@[k].source is BuiltIn,
            forall|k: int| 0 <= k < i ==> built_in_ids()[k] != pack_id@,
        decreases packs.len() - i,
    {
        if str_eq(packs[i].id(), pack_id) {
            assert(built_in_ids()[i as int] == pack_id@);
            let mut packs = packs;
            let p = packs.remove(i);
            return Some(p);
        }
        i += 1;
    }
    proof {
        if built_in_ids().contains(pack_id@) {
            let k = choose|k: int| 0 <= k < built_in_ids().len() && built_in_ids()[k] == pack_id@;
            assert(built_in_ids()[k] != pack_id@);
        }
    }
    None
}

/// No two built-in packs share an id.
pub proof fn law_built_in_packs_distinct()
    ensures
        built_in_ids().no_duplicates(),
{
    reveal_strlit("review");
    reveal_strlit("requirements-review");
    reveal_strlit("design-review");
    reveal_strlit("test-plan-review");
    let ids = built_in_ids();
    assert forall|i: int, j: int| 0 <= i < ids.len() && 0 <= j < ids.len() && i != j implies ids[i] != ids[j] by {
        if i == 0 {
            assert(ids[0].len() != ids[1].len());
            assert(ids[0].len() != ids[2].len());
            assert(ids[0].len() != ids[3].len());
            assert(ids[0] != ids[1] && ids[0] != ids[2] && ids[0] != ids[3]);
        } else if i == 1 {
            assert(ids[1].len() != ids[0].len());
            assert(ids[1].len() != ids[2].len());
            assert(ids[1].len() != ids[3].len());
            assert(ids[1] != ids[0] && ids[1] != ids[2] && ids[1] != ids[3]);
        } else if i == 2 {
            assert(ids[2].len() != ids[0].len());
            assert(ids[2].len() != ids[1].len());
            assert(ids[2].len() != ids[3].len());
            assert(ids[2] != ids[0] && ids[2] != ids[1] && ids[2] != ids[3]);
        } else if i == 3 {
            assert(ids[3].len() != ids[0].len());
            assert(ids[3].len() != ids[1].len());
            assert(ids[3].len() != ids[2].len());
            assert(ids[3] != ids[0] && ids[3] != ids[1] && ids[3] != ids[2]);
        }
    }
    assert(ids.no_duplicates());
}

} // verus!
