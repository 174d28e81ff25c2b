//! The decisions a review run takes between its calls to agents: how many
//! rounds to run, what to do once a round is over, what a convergence
//! judgement amounts to when the judge fails, and whether an auto-fix is
//! asked for. The run itself (agents, timeouts, progress events) drives
//! these from outside and hands back what the agents answered.
use vstd::prelude::*;
use crate::plugin::{AgentReviewOutput, ConvergenceDecision};
use crate::issue_list::{count_findings, count_findings_exec};
use crate::progress::{ConvergenceVerdict, ReviewerState, ReviewerStatus};
use crate::report::{finding_models, join_strs, severity_rank_spec, strs, Finding, FindingModel, RawFinding, Severity};
use crate::text::{chars_of, decimal, join_with, push_decimal, push_str, push_string, str_eq, string_of, trim, trim_of};

verus! {

/// The number of rounds a review runs: the configured maximum and the
/// plan's rounds, each at least one, whichever is smaller.
pub open spec fn total_rounds_spec(max_rounds: u8, plan_rounds: usize) -> int {
    let m: int = if max_rounds < 1 {
        1
    } else {
        max_rounds as int
    };
    let p: int = if plan_rounds < 1 {
        1
    } else {
        plan_rounds as int
    };
    if m < p {
        m
    } else {
        p
    }
}

pub fn total_rounds(max_rounds: u8, plan_rounds: usize) -> (r: usize)
    ensures
        r == total_rounds_spec(max_rounds, plan_rounds),
        1 <= r <= 255,
{
    let m: usize = if max_rounds < 1 {
        1
    } else {
        max_rounds as usize
    };
    let p: usize = if plan_rounds < 1 {
        1
    } else {
        plan_rounds
    };
    if m < p {
        m
    } else {
        p
    }
}

/// The agents a run's consensus counts: the most assignments of any round,
/// or one when the plan has no rounds.
pub fn consensus_agents(assignments_per_round: &Vec<usize>) -> (r: usize)
    ensures
        assignments_per_round@.len() == 0 ==> r == 1,
        assignments_per_round@.len() > 0 ==> (forall|i: int|
            0 <= i < assignments_per_round@.len() ==> #[trigger] assignments_per_round@[i] <= r)
            && assignments_per_round@.contains(r),
{
    if assignments_per_round.len() == 0 {
        return 1;
    }
    let mut best: usize = assignments_per_round[0];
    let mut i: usize = 1;
    while i < assignments_per_round.len()
        invariant
            1 <= i <= assignments_per_round@.len(),
            forall|k: int| 0 <= k < i ==> #[trigger] assignments_per_round@[k] <= best,
            exists|k: int| 0 <= k < i && assignments_per_round@[k] == best,
        decreases assignments_per_round.len() - i,
    {
        if assignments_per_round[i] > best {
            best = assignments_per_round[i];
        }
        i += 1;
    }
    best
}

/// Findings and critical findings known after a round.
#[derive(Clone, Copy, Debug, PartialEq, Eq, Structural)]
pub struct RoundCounts {
    pub findings: usize,
    pub critical: usize,
}

/// The counts after a round: every finding known, and the critical ones.
pub fn round_counts(findings: &Vec<Finding>) -> (r: RoundCounts)
    ensures
        r.findings == findings@.len(),
        r.critical == count_findings(finding_models(findings@), Severity::Critical),
{
    RoundCounts { findings: findings.len(), critical: count_findings_exec(findings, Severity::Critical) }
}

/// What follows a finished round.
#[derive(Clone, Copy, Debug, PartialEq, Eq, Structural)]
pub enum RoundEnd {
    /// Nothing was found and every agent finished: the run stops early,
    /// counted as converged, without asking the judge.
    SkipRemaining,
    /// More rounds are left: the convergence judge decides.
    AskJudge,
    /// The last round, or a run of one round: no judgement.
    Proceed,
}

pub open spec fn round_end_spec(round: u8, total_rounds: usize, findings: usize, clean: bool) -> RoundEnd {
    if findings == 0 && (round as int) < total_rounds && clean {
        RoundEnd::SkipRemaining
    } else if total_rounds > 1 && (round as int) < total_rounds {
        RoundEnd::AskJudge
    } else {
        RoundEnd::Proceed
    }
}

pub fn round_end(round: u8, total_rounds: usize, findings: usize, clean: bool) -> (r: RoundEnd)
    ensures
        r == round_end_spec(round, total_rounds, findings, clean),
{
    if findings == 0 && (round as usize) < total_rounds && clean {
        RoundEnd::SkipRemaining
    } else if total_rounds > 1 && (round as usize) < total_rounds {
        RoundEnd::AskJudge
    } else {
        RoundEnd::Proceed
    }
}

/// The reason given when a run stops early for want of findings.
pub open spec fn skip_rationale() -> Seq<char> {
    "No findings to debate; skipping further rounds."@
}

pub fn skip_rationale_text() -> (r: String)
    ensures
        r@ == skip_rationale(),
{
    "No findings to debate; skipping further rounds.".to_owned()
}

/// When the judge gives no answer: converged once a later round found
/// nothing new and no more critical issues than the round before.
pub open spec fn fallback_converged(round: u8, current: RoundCounts, previous: RoundCounts) -> bool {
    round > 1 && current.findings == previous.findings && current.critical <= previous.critical
}

pub open spec fn fallback_rationale(converged: bool) -> Seq<char> {
    if converged {
        "No net-new findings and no increase in critical risk."@
    } else {
        "Net-new findings or unresolved high-severity issues remain."@
    }
}

/// The judgement a round ends with: the judge's when it answered, else the
/// fallback rule.
pub open spec fn judgement_spec(decision: Option<(ConvergenceVerdict, Seq<char>)>, round: u8, current: RoundCounts, previous: RoundCounts) -> (ConvergenceVerdict, Seq<char>) {
    match decision {
        Some(d) => d,
        None => {
            let c = fallback_converged(round, current, previous);
            (
                if c {
                    ConvergenceVerdict::Converged
                } else {
                    ConvergenceVerdict::NotConverged
                },
                fallback_rationale(c),
            )
        },
    }
}

pub open spec fn decision_model(d: Option<ConvergenceDecision>) -> Option<(ConvergenceVerdict, Seq<char>)> {
    match d {
        Some(x) => Some((x.verdict, x.rationale@)),
        None => None,
    }
}

pub fn judgement(decision: Option<ConvergenceDecision>, round: u8, current: RoundCounts, previous: RoundCounts) -> (r: ConvergenceDecision)
    ensures
        (r.verdict, r.rationale@) == judgement_spec(decision_model(decision), round, current, previous),
{
    match decision {
        Some(d) => d,
        None => {
            let converged = round > 1 && current.findings == previous.findings && current.critical <= previous.critical;
            if converged {
                ConvergenceDecision {
                    verdict: ConvergenceVerdict::Converged,
                    rationale: "No net-new findings and no increase in critical risk.".to_owned(),
                }
            } else {
                ConvergenceDecision {
                    verdict: ConvergenceVerdict::NotConverged,
                    rationale: "Net-new findings or unresolved high-severity issues remain.".to_owned(),
                }
            }
        },
    }
}

/// Every agent of the round finished without error.
pub open spec fn all_done(statuses: Seq<ReviewerStatus>) -> bool {
    forall|i: int| 0 <= i < statuses.len() ==> (#[trigger] statuses[i]).state == ReviewerState::Done
}

pub fn round_completed_cleanly(statuses: &Vec<ReviewerStatus>) -> (r: bool)
    ensures
        r == all_done(statuses@),
{
    let mut i: usize = 0;
    while i < statuses.len()
        invariant
            i <= statuses@.len(),
            forall|k: int| 0 <= k < i ==> (#[trigger] statuses@[k]).state == ReviewerState::Done,
        decreases statuses.len() - i,
    {
        if statuses[i].state != ReviewerState::Done {
            return false;
        }
        i += 1;
    }
    true
}

/// The first status of `id` at or after `i`.
pub open spec fn status_pos(statuses: Seq<ReviewerStatus>, id: Seq<char>, i: int) -> Option<int>
    decreases statuses.len() - i,
{
    if i < 0 || i >= statuses.len() {
        None
    } else if statuses[i].id@ == id {
        Some(i)
    } else {
        status_pos(statuses, id, i + 1)
    }
}

/// Sets the state of the first status of `id`, and its duration when one
/// is given; the other statuses stay as they were.
pub fn update_status(statuses: &mut Vec<ReviewerStatus>, id: &str, state: ReviewerState, duration_tenths: Option<u64>)
    ensures
        final(statuses)@.len() == old(statuses)@.len(),
        match status_pos(old(statuses)@, id@, 0) {
            None => forall|k: int| 0 <= k < old(statuses)@.len() ==> #[trigger] final(statuses)@[k] == old(statuses)@[k],
            Some(p) => {
                &&& final(statuses)@[p].id@ == old(statuses)@[p].id@
                &&& final(statuses)@[p].state == state
                &&& final(statuses)@[p].duration_tenths == if duration_tenths is Some {
                    duration_tenths
                } else {
                    old(statuses)@[p].duration_tenths
                }
                &&& forall|k: int| 0 <= k < old(statuses)@.len() && k != p ==> #[trigger] final(statuses)@[k] == old(statuses)@[k]
            },
        },
{
    let ghost before = statuses@;
    let mut found: Option<usize> = None;
    let mut i: usize = 0;
    while i < statuses.len()
        invariant_except_break
            status_pos(before, id@, 0) == status_pos(before, id@, i as int),
            found is None,
        invariant
            i <= statuses@.len(),
            statuses@ == before,
        ensures
            match found {
                Some(p) => p < before.len() && status_pos(before, id@, 0) == Some(p as int),
                None => status_pos(before, id@, 0) is None,
            },
        decreases statuses.len() - i,
    {
        if str_eq(statuses[i].id.as_str(), id) {
            assert(status_pos(before, id@, i as int) == Some(i as int));
            found = Some(i);
            break;
        }
        i += 1;
    }
    if let Some(p) = found {
        let duration = match duration_tenths {
            Some(d) => Some(d),
            None => statuses[p].duration_tenths,
        };
        let sid = statuses[p].id.clone();
        statuses.set(p, ReviewerStatus { id: sid, state, duration_tenths: duration });
    }
}

/// An auto-fix is asked for when any finding is a warning or worse.
pub open spec fn wants_autofix(findings: Seq<FindingModel>) -> bool {
    exists|i: int| 0 <= i < findings.len() && severity_rank_spec(#[trigger] findings[i].severity) >= 2
}

pub fn needs_autofix(findings: &[Finding]) -> (r: bool)
    ensures
        r == wants_autofix(finding_models(findings@)),
{
    let mut i: usize = 0;
    while i < findings.len()
        invariant
            i <= findings@.len(),
            forall|k: int| 0 <= k < i ==> severity_rank_spec(#[trigger] finding_models(findings@)[k].severity) < 2,
        decreases findings.len() - i,
    {
        if findings[i].severity != Severity::Info {
            assert(finding_models(findings@)[i as int].severity == findings@[i as int].severity);
            return true;
        }
        assert(finding_models(findings@)[i as int].severity == findings@[i as int].severity);
        i += 1;
    }
    false
}

/// After a round of a generic task: the judge's reason (or the fallback
/// reason) carried into the next round, and whether the task stops.
pub open spec fn task_round_spec(decision: Option<(ConvergenceVerdict, Seq<char>)>, round: u8) -> (Seq<char>, bool) {
    let (verdict, rationale) = match decision {
        Some(d) => d,
        None => (ConvergenceVerdict::NotConverged, "fallback: continue until final round"@),
    };
    ("Round "@ + decimal(round as nat) + ": "@ + rationale, verdict == ConvergenceVerdict::Converged)
}

pub fn task_round_outcome(decision: Option<ConvergenceDecision>, round: u8) -> (r: (String, bool))
    ensures
        (r.0@, r.1) == task_round_spec(decision_model(decision), round),
{
    let d = match decision {
        Some(d) => d,
        None => ConvergenceDecision {
            verdict: ConvergenceVerdict::NotConverged,
            rationale: "fallback: continue until final round".to_owned(),
        },
    };
    let mut summary = String::new();
    push_str(&mut summary, "Round ");
    push_decimal(&mut summary, round as u64);
    push_str(&mut summary, ": ");
    push_string(&mut summary, &d.rationale);
    (summary, d.verdict == ConvergenceVerdict::Converged)
}

/// A run never asks the judge after its last round, and the fallback rule
/// never declares the first round converged.
pub proof fn law_judge_only_between_rounds(round: u8, total_rounds: usize, findings: usize, clean: bool, current: RoundCounts, previous: RoundCounts)
    ensures
        round_end_spec(round, total_rounds, findings, clean) != RoundEnd::Proceed ==> (round as int) < total_rounds,
        round <= 1 ==> judgement_spec(None, round, current, previous).0 == ConvergenceVerdict::NotConverged,
{
}


// ---------------------------------------------------------------------
// Combining an agent's answers on the chunks of a diff
// ---------------------------------------------------------------------

/// All findings of the answers, in order.
pub open spec fn chunk_findings(outputs: Seq<AgentReviewOutput>) -> Seq<RawFinding>
    decreases outputs.len(),
{
    if outputs.len() == 0 {
        seq![]
    } else {
        chunk_findings(outputs.drop_last()) + outputs.last().findings@
    }
}

/// The answers' narratives, trimmed, without the empty ones.
pub open spec fn chunk_narratives(outputs: Seq<AgentReviewOutput>) -> Seq<Seq<char>>
    decreases outputs.len(),
{
    if outputs.len() == 0 {
        seq![]
    } else {
        let t = chunk_narratives(outputs.drop_last());
        let n = trim_of(outputs.last().narrative@);
        if n.len() > 0 {
            t.push(n)
        } else {
            t
        }
    }
}

/// An agent's answer for a whole diff from its answers for each chunk:
/// every finding in order, and the non-empty narratives joined by ` | `.
pub fn combine_chunk_outputs(outputs: Vec<AgentReviewOutput>) -> (r: AgentReviewOutput)
    ensures
        r.findings@ == chunk_findings(outputs@),
        r.narrative@ == join_with(chunk_narratives(outputs@), " | "@),
{
    let ghost orig = outputs@;
    let mut rest = outputs;
    let mut findings: Vec<RawFinding> = Vec::new();
    let mut narratives: Vec<String> = Vec::new();
    let ghost mut i: int = 0;
    while rest.len() > 0
        invariant
            0 <= i <= orig.len(),
            rest@ == orig.skip(i),
            findings@ == chunk_findings(orig.take(i)),
            strs(narratives@) == chunk_narratives(orig.take(i)),
        decreases rest.len(),
    {
        let out = rest.remove(0);
        proof {
            assert(orig.take(i + 1).drop_last() =~= orig.take(i));
            assert(orig.take(i + 1).last() == out);
            assert(rest@ =~= orig.skip(i + 1));
        }
        let t = trim(chars_of(out.narrative.as_str()).as_slice());
        if t.len() > 0 {
            let ghost before = strs(narratives@);
            narratives.push(string_of(t.as_slice()));
            assert(strs(narratives@) =~= before.push(trim_of(out.narrative@)));
        }
        let ghost base = findings@;
        let mut fs = out.findings;
        let ghost fs0 = fs@;
        while fs.len() > 0
            invariant
                base + fs0 == findings@ + fs@,
            decreases fs.len(),
        {
            let ghost before = findings@ + fs@;
            let f = fs.remove(0);
            findings.push(f);
            assert(findings@ + fs@ =~= before);
        }
        assert(findings@ =~= base + fs0);
        proof {
            i = i + 1;
        }
    }
    assert(orig.take(i) =~= orig);
    AgentReviewOutput { findings, narrative: join_strs(&narratives, " | ") }
}

} // verus!
