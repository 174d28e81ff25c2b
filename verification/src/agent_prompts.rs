//! The prompts of an agent's judging steps (auto-fix, convergence, issue
//! structuring, focus analysis, and their generic-task forms) and the
//! reading of a convergence answer. Serialized findings, items and task
//! context come in as JSON text.
use vstd::prelude::*;
use crate::analysis::AgentContext;
use crate::cli_agent::CliAgentPlugin;
use crate::plugin::ConvergenceDecision;
use crate::progress::ConvergenceVerdict;
use crate::task_pack::TaskPack;
use crate::text::{decimal, push_decimal, push_str, push_string, str_eq};

verus! {

/// The review pack's judge prompt, or `default` without a pack.
pub open spec fn judge_of(ctx: AgentContext, default: Seq<char>) -> Seq<char> {
    match ctx.review_pack {
        Some(p) => p.judge_prompt@,
        None => default,
    }
}

/// The review pack's analyzer prompt, or `default` without a pack.
pub open spec fn analyzer_of(ctx: AgentContext, default: Seq<char>) -> Seq<char> {
    match ctx.review_pack {
        Some(p) => p.analyzer_prompt@,
        None => default,
    }
}

fn push_judge(out: &mut String, ctx: &AgentContext, default: &str)
    ensures
        final(out)@ == old(out)@ + judge_of(*ctx, default@),
{
    match &ctx.review_pack {
        Some(p) => push_string(out, &p.judge_prompt),
        None => push_str(out, default),
    }
}

pub open spec fn autofix_system(a: CliAgentPlugin, ctx: AgentContext) -> Seq<char> {
    "You are a "@ + a.persona@ + " producing an auto-fix for agreed findings.\n"@ + judge_of(
        ctx,
        "Produce final review consensus and auto-fix guidance for agreed findings."@,
    ) + "\nPrimary lens: "@ + a.reviewer_focus@
        + ".\nRespond ONLY with valid JSON: { \"unified_diff\": \"...\", \"explanation\": \"...\" }"@
}

pub open spec fn autofix_user(ctx: AgentContext, findings_json: Seq<char>) -> Seq<char> {
    "Findings:\n"@ + findings_json + "\n\nDiff:\n"@ + ctx.diff@
}

pub open spec fn convergence_system(a: CliAgentPlugin, ctx: AgentContext) -> Seq<char> {
    "You are a strict convergence judge for multi-agent code review.\n"@ + judge_of(
        ctx,
        "Produce final review consensus and convergence judgments for agreed findings."@,
    ) + "\nPrimary lens: "@ + a.reviewer_focus@
        + ".\nRespond ONLY with valid JSON: {\"verdict\":\"CONVERGED|NOT_CONVERGED\",\"rationale\":\"...\"}.\nUse CONVERGED only when there are no unresolved material disagreements and no net-new high-severity risk requiring another round."@
}

pub open spec fn convergence_user(ctx: AgentContext, round: u8, findings_json: Seq<char>) -> Seq<char> {
    "Round: "@ + decimal(round as nat) + "\nFindings so far:\n"@ + findings_json + "\n\nDiff:\n"@ + ctx.diff@
}

pub open spec fn structurize_system(a: CliAgentPlugin, ctx: AgentContext) -> Seq<char> {
    "You are an issue structurizer.\n"@ + judge_of(
        ctx,
        "Produce final review consensus and canonical issues for agreed findings."@,
    ) + "\nPrimary lens: "@ + a.reviewer_focus@
        + ".\nRespond ONLY with valid JSON array where each item contains: severity, category, file, line_start, line_end, title, description, suggested_fix, raised_by."@
}

pub open spec fn structurize_user(findings_json: Seq<char>) -> Seq<char> {
    "Normalize these findings into canonical issues (merge duplicates):\n"@ + findings_json
}

pub open spec fn focus_system(a: CliAgentPlugin, ctx: AgentContext) -> Seq<char> {
    analyzer_of(ctx, "You are a senior architect producing analyzer context for code review."@) + "\nPrimary lens: "@
        + a.reviewer_focus@
        + ".\nOutput ONLY valid JSON matching this schema:\n{\n  \"summary\": \"<what changed, architecture impact, and purpose>\",\n  \"focus_items\": [{ \"area\": \"<review area>\", \"rationale\": \"<why this needs focus>\" }],\n  \"trade_offs\": [\"<trade-off or risk>\"],\n  \"affected_modules\": [\"<module/component impacted>\"],\n  \"call_chain\": [\"<entrypoint -> downstream path>\"],\n  \"design_patterns\": [\"<pattern used or violated>\"],\n  \"reviewer_checklist\": [\"<targeted checklist item for the review>\"]\n}\nThe summary must be markdown-ready text."@
}

pub open spec fn focus_user(ctx: AgentContext) -> Seq<char> {
    "Diff to review:\n"@ + ctx.diff@
}

pub open spec fn task_summary_system(a: CliAgentPlugin, pack: TaskPack) -> Seq<char> {
    "You are the final judge for a multi-agent consensus task.\nTask pack: "@ + pack.manifest.title@ + " - "@
        + pack.manifest.description@ + ".\n"@ + pack.judge_prompt@ + "\nPrimary lens: "@ + a.reviewer_focus@
        + ".\nRespond ONLY with valid JSON matching this schema:\n{\"summary_markdown\":\"<markdown summary>\",\"result\":<json object matching schema>,\"clarification_requests\":[\"<question>\"]}"@
}

pub open spec fn task_summary_user(
    pack: TaskPack,
    context_json: Seq<char>,
    agreed_json: Seq<char>,
    unresolved_json: Seq<char>,
) -> Seq<char> {
    "Task context:\n"@ + context_json + "\n\nAgreed items:\n"@ + agreed_json + "\n\nUnresolved items:\n"@
        + unresolved_json + "\n\nExpected final schema:\n"@ + pack.schema_json@
}

pub open spec fn task_convergence_system(a: CliAgentPlugin) -> Seq<char> {
    "You are a strict convergence judge for a multi-agent consensus task.\nPrimary lens: "@ + a.reviewer_focus@
        + ".\nRespond ONLY with valid JSON: {\"verdict\":\"CONVERGED|NOT_CONVERGED\",\"rationale\":\"...\"}."@
}

pub open spec fn task_convergence_user(round: u8, context_json: Seq<char>, items_json: Seq<char>) -> Seq<char> {
    "Round: "@ + decimal(round as nat) + "\nTask context:\n"@ + context_json + "\n\nConsensus items so far:\n"@
        + items_json
}

pub open spec fn task_focus_system(a: CliAgentPlugin) -> Seq<char> {
    "You are a senior analyst preparing focus areas for a generic multi-agent consensus task.\nPrimary lens: "@
        + a.reviewer_focus@
        + ".\nOutput ONLY valid JSON matching this schema:\n{\n  \"summary\": \"<task summary>\",\n  \"focus_items\": [{ \"area\": \"<focus area>\", \"rationale\": \"<why it matters>\" }],\n  \"trade_offs\": [\"<trade-off or risk>\"],\n  \"affected_modules\": [\"<artifact or subsystem>\"],\n  \"call_chain\": [\"<important flow>\"],\n  \"design_patterns\": [\"<pattern or structure>\"],\n  \"reviewer_checklist\": [\"<checklist item>\"]\n}"@
}

pub open spec fn task_focus_user(prompt: Seq<char>, context_json: Seq<char>) -> Seq<char> {
    "Task prompt:\n"@ + prompt + "\n\nAttachments and context:\n"@ + context_json
}

impl CliAgentPlugin {
    /// The prompts asking for an auto-fix of the agreed findings.
    pub fn autofix_prompt(&self, ctx: &AgentContext, findings_json: &str) -> (r: (String, String))
        ensures
            r.0@ == autofix_system(*self, *ctx),
            r.1@ == autofix_user(*ctx, findings_json@),
    {
        let mut system = "You are a ".to_owned();
        push_string(&mut system, &self.persona);
        push_str(&mut system, " producing an auto-fix for agreed findings.\n");
        push_judge(&mut system, ctx, "Produce final review consensus and auto-fix guidance for agreed findings.");
        push_str(&mut system, "\nPrimary lens: ");
        push_string(&mut system, &self.reviewer_focus);
        push_str(&mut system, ".\nRespond ONLY with valid JSON: { \"unified_diff\": \"...\", \"explanation\": \"...\" }");
        let mut user = "Findings:\n".to_owned();
        push_str(&mut user, findings_json);
        push_str(&mut user, "\n\nDiff:\n");
        push_string(&mut user, &ctx.diff);
        (system, user)
    }

    /// The prompts asking whether a review has converged after `round`.
    pub fn convergence_prompt(&self, ctx: &AgentContext, round: u8, findings_json: &str) -> (r: (String, String))
        ensures
            r.0@ == convergence_system(*self, *ctx),
            r.1@ == convergence_user(*ctx, round, findings_json@),
    {
        let mut system = "You are a strict convergence judge for multi-agent code review.\n".to_owned();
        push_judge(&mut system, ctx, "Produce final review consensus and convergence judgments for agreed findings.");
        push_str(&mut system, "\nPrimary lens: ");
        push_string(&mut system, &self.reviewer_focus);
        push_str(
            &mut system,
            ".\nRespond ONLY with valid JSON: {\"verdict\":\"CONVERGED|NOT_CONVERGED\",\"rationale\":\"...\"}.\nUse CONVERGED only when there are no unresolved material disagreements and no net-new high-severity risk requiring another round.",
        );
        let mut user = "Round: ".to_owned();
        push_decimal(&mut user, round as u64);
        push_str(&mut user, "\nFindings so far:\n");
        push_str(&mut user, findings_json);
        push_str(&mut user, "\n\nDiff:\n");
        push_string(&mut user, &ctx.diff);
        (system, user)
    }

    /// The prompts asking to merge findings into canonical issues.
    pub fn structurize_prompt(&self, ctx: &AgentContext, findings_json: &str) -> (r: (String, String))
        ensures
            r.0@ == structurize_system(*self, *ctx),
            r.1@ == structurize_user(findings_json@),
    {
        let mut system = "You are an issue structurizer.\n".to_owned();
        push_judge(&mut system, ctx, "Produce final review consensus and canonical issues for agreed findings.");
        push_str(&mut system, "\nPrimary lens: ");
        push_string(&mut system, &self.reviewer_focus);
        push_str(
            &mut system,
            ".\nRespond ONLY with valid JSON array where each item contains: severity, category, file, line_start, line_end, title, description, suggested_fix, raised_by.",
        );
        let mut user = "Normalize these findings into canonical issues (merge duplicates):\n".to_owned();
        push_str(&mut user, findings_json);
        (system, user)
    }

    /// The prompts asking for the focus areas of a diff.
    pub fn focus_prompt(&self, ctx: &AgentContext) -> (r: (String, String))
        ensures
            r.0@ == focus_system(*self, *ctx),
            r.1@ == focus_user(*ctx),
    {
        let mut system = String::new();
        match &ctx.review_pack {
            Some(p) => push_string(&mut system, &p.analyzer_prompt),
            None => push_str(&mut system, "You are a senior architect producing analyzer context for code review."),
        }
        push_str(&mut system, "\nPrimary lens: ");
        push_string(&mut system, &self.reviewer_focus);
        push_str(
            &mut system,
            ".\nOutput ONLY valid JSON matching this schema:\n{\n  \"summary\": \"<what changed, architecture impact, and purpose>\",\n  \"focus_items\": [{ \"area\": \"<review area>\", \"rationale\": \"<why this needs focus>\" }],\n  \"trade_offs\": [\"<trade-off or risk>\"],\n  \"affected_modules\": [\"<module/component impacted>\"],\n  \"call_chain\": [\"<entrypoint -> downstream path>\"],\n  \"design_patterns\": [\"<pattern used or violated>\"],\n  \"reviewer_checklist\": [\"<targeted checklist item for the review>\"]\n}\nThe summary must be markdown-ready text.",
        );
        let mut user = "Diff to review:\n".to_owned();
        push_string(&mut user, &ctx.diff);
        (system, user)
    }

    /// The prompts asking for a generic task's final result.
    pub fn task_summary_prompt(
        &self,
        pack: &TaskPack,
        context_json: &str,
        agreed_json: &str,
        unresolved_json: &str,
    ) -> (r: (String, String))
        ensures
            r.0@ == task_summary_system(*self, *pack),
            r.1@ == task_summary_user(*pack, context_json@, agreed_json@, unresolved_json@),
    {
        let mut system = "You are the final judge for a multi-agent consensus task.\nTask pack: ".to_owned();
        push_string(&mut system, &pack.manifest.title);
        push_str(&mut system, " - ");
        push_string(&mut system, &pack.manifest.description);
        push_str(&mut system, ".\n");
        push_string(&mut system, &pack.judge_prompt);
        push_str(&mut system, "\nPrimary lens: ");
        push_string(&mut system, &self.reviewer_focus);
        push_str(
            &mut system,
            ".\nRespond ONLY with valid JSON matching this schema:\n{\"summary_markdown\":\"<markdown summary>\",\"result\":<json object matching schema>,\"clarification_requests\":[\"<question>\"]}",
        );
        let mut user = "Task context:\n".to_owned();
        push_str(&mut user, context_json);
        push_str(&mut user, "\n\nAgreed items:\n");
        push_str(&mut user, agreed_json);
        push_str(&mut user, "\n\nUnresolved items:\n");
        push_str(&mut user, unresolved_json);
        push_str(&mut user, "\n\nExpected final schema:\n");
        push_string(&mut user, &pack.schema_json);
        (system, user)
    }

    /// The prompts asking whether a generic task has converged.
    pub fn task_convergence_prompt(&self, round: u8, context_json: &str, items_json: &str) -> (r: (String, String))
        ensures
            r.0@ == task_convergence_system(*self),
            r.1@ == task_convergence_user(round, context_json@, items_json@),
    {
        let mut system = "You are a strict convergence judge for a multi-agent consensus task.\nPrimary lens: ".to_owned();
        push_string(&mut system, &self.reviewer_focus);
        push_str(&mut system, ".\nRespond ONLY with valid JSON: {\"verdict\":\"CONVERGED|NOT_CONVERGED\",\"rationale\":\"...\"}.");
        let mut user = "Round: ".to_owned();
        push_decimal(&mut user, round as u64);
        push_str(&mut user, "\nTask context:\n");
        push_str(&mut user, context_json);
        push_str(&mut user, "\n\nConsensus items so far:\n");
        push_str(&mut user, items_json);
        (system, user)
    }

    /// The prompts asking for the focus areas of a generic task.
    pub fn task_focus_prompt(&self, prompt: &str, context_json: &str) -> (r: (String, String))
        ensures
            r.0@ == task_focus_system(*self),
            r.1@ == task_focus_user(prompt@, context_json@),
    {
        let mut system =
            "You are a senior analyst preparing focus areas for a generic multi-agent consensus task.\nPrimary lens: ".to_owned();
        push_string(&mut system, &self.reviewer_focus);
        push_str(
            &mut system,
            ".\nOutput ONLY valid JSON matching this schema:\n{\n  \"summary\": \"<task summary>\",\n  \"focus_items\": [{ \"area\": \"<focus area>\", \"rationale\": \"<why it matters>\" }],\n  \"trade_offs\": [\"<trade-off or risk>\"],\n  \"affected_modules\": [\"<artifact or subsystem>\"],\n  \"call_chain\": [\"<important flow>\"],\n  \"design_patterns\": [\"<pattern or structure>\"],\n  \"reviewer_checklist\": [\"<checklist item>\"]\n}",
        );
        let mut user = "Task prompt:\n".to_owned();
        push_str(&mut user, prompt);
        push_str(&mut user, "\n\nAttachments and context:\n");
        push_str(&mut user, context_json);
        (system, user)
    }
}

/// A judge's answer: exactly `CONVERGED` converges, anything else does not.
pub fn decision_from_answer(verdict: &str, rationale: String) -> (r: ConvergenceDecision)
    ensures
        r.verdict == (if verdict@ == "CONVERGED"@ {
            ConvergenceVerdict::Converged
        } else {
            ConvergenceVerdict::NotConverged
        }),
        r.rationale@ == rationale@,
{
    let v = if str_eq(verdict, "CONVERGED") {
        ConvergenceVerdict::Converged
    } else {
        ConvergenceVerdict::NotConverged
    };
    ConvergenceDecision { verdict: v, rationale }
}

/// The decision of an agent that has no generic convergence judge.
pub fn no_task_judge_decision() -> (r: ConvergenceDecision)
    ensures
        r.verdict == ConvergenceVerdict::NotConverged,
        r.rationale@ == "No generic convergence judge configured"@,
{
    ConvergenceDecision {
        verdict: ConvergenceVerdict::NotConverged,
        rationale: "No generic convergence judge configured".to_owned(),
    }
}

} // verus!
