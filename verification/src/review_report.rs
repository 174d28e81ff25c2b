//! The report a review run ends with: its outcome, the findings and issues
//! behind it, the markdown sections, and the pull-request review draft.
use vstd::prelude::*;
use crate::config::VerdictConfig;
use crate::pr_review::PullRequestReviewDraft;
use crate::report::{
    failure_models, finding_models, issue_models, opt_str, verdict_for, AgentFailure, AutoFix,
    CanonicalIssue, ConsensusMap, FinalActionPlan, Finding, Verdict,
};

verus! {

/// A run or session identifier (`uuid::Uuid`), carried through unchanged.
#[verifier::external_type_specification]
#[verifier::external_body]
pub struct ExUuid(uuid::Uuid);

/// A fresh random identifier from `uuid::Uuid::new_v4`. Nothing is stated
/// of its value: it is random by design.
#[verifier::external_body]
fn new_session_id() -> (r: uuid::Uuid) {
    uuid::Uuid::new_v4()
}

pub struct ReviewReport {
    pub run_id: uuid::Uuid,
    pub verdict: Verdict,
    pub findings: Vec<Finding>,
    pub agent_failures: Vec<AgentFailure>,
    pub issues: Vec<CanonicalIssue>,
    pub analysis_markdown: Option<String>,
    pub system_context_markdown: Option<String>,
    pub final_analysis_markdown: Option<String>,
    pub consensus_map: ConsensusMap,
    pub auto_fix: Option<AutoFix>,
    pub final_action_plan: Option<FinalActionPlan>,
    pub pr_comment_markdown: Option<String>,
    pub pr_review_draft: Option<PullRequestReviewDraft>,
    pub session_id: uuid::Uuid,
}

impl ReviewReport {
    /// The report of a run: the outcome follows from the findings and the
    /// configured `block_on`; everything else is kept as given, and the
    /// report gets a fresh session id.
    pub fn from_findings(
        run_id: uuid::Uuid,
        findings: &[Finding],
        agent_failures: Vec<AgentFailure>,
        issues: Vec<CanonicalIssue>,
        analysis_markdown: Option<String>,
        system_context_markdown: Option<String>,
        final_analysis_markdown: Option<String>,
        cfg: &VerdictConfig,
        consensus_map: ConsensusMap,
        auto_fix: Option<AutoFix>,
        final_action_plan: Option<FinalActionPlan>,
        pr_comment_markdown: Option<String>,
        pr_review_draft: Option<PullRequestReviewDraft>,
    ) -> (r: ReviewReport)
        ensures
            r.run_id == run_id,
            r.verdict == verdict_for(finding_models(findings@), cfg.block_on@),
            finding_models(r.findings@) == finding_models(findings@),
            failure_models(r.agent_failures@) == failure_models(agent_failures@),
            issue_models(r.issues@) == issue_models(issues@),
            opt_str(r.analysis_markdown) == opt_str(analysis_markdown),
            opt_str(r.system_context_markdown) == opt_str(system_context_markdown),
            opt_str(r.final_analysis_markdown) == opt_str(final_analysis_markdown),
            r.consensus_map == consensus_map,
            r.auto_fix == auto_fix,
            r.final_action_plan == final_action_plan,
            opt_str(r.pr_comment_markdown) == opt_str(pr_comment_markdown),
            r.pr_review_draft == pr_review_draft,
    {
        let verdict = Verdict::from_findings(findings, cfg);
        let mut owned: Vec<Finding> = Vec::new();
        let mut i: usize = 0;
        while i < findings.len()
            invariant
                i <= findings@.len(),
                owned@.len() == i,
                forall|k: int| 0 <= k < i ==> #[trigger] owned@[k]@ == findings@[k]@,
            decreases findings.len() - i,
        {
            owned.push(findings[i].duplicate());
            i += 1;
        }
        assert(finding_models(owned@) =~= finding_models(findings@));
        ReviewReport {
            run_id,
            verdict,
            findings: owned,
            agent_failures,
            issues,
            analysis_markdown,
            system_context_markdown,
            final_analysis_markdown,
            consensus_map,
            auto_fix,
            final_action_plan,
            pr_comment_markdown,
            pr_review_draft,
            session_id: new_session_id(),
        }
    }
}

} // verus!
