//! The markdown a review run shows along the way: the analyzer's focus, the
//! system context gathered for a change, the analyzer fallback, and the
//! final analysis of the issues found.
use vstd::prelude::*;
use crate::analysis::{focus_item_models, FocusAreas, FocusItem, FocusModel};
use crate::context::{PrecheckStatus, ReviewContext, SignalModel};
use crate::report::{
    failure_models, issue_models, opt_str, severity_name, severity_name_str, strs, AgentFailure, CanonicalIssue,
    FailureModel, FinalActionPlan, IssueModel, Severity,
};
use crate::synthesis::{bullets, count_issues_with, count_severity, location, location_text, push_bullets};
use crate::plugin::AgentReviewOutput;
use crate::progress::AgentFindingPreview;
use crate::report::{raw_models, RawFinding, RawFindingModel};
use crate::tracker::{sort_seqs, sort_strings};
use crate::text::{str_eq, chars_of, decimal, lines, lines_of, push_decimal, push_str, push_string, string_of, trim, trim_of};

verus! {

// ---------------------------------------------------------------------
// Analyzer focus
// ---------------------------------------------------------------------

/// A heading followed by the items as bullets; nothing when there are none.
pub open spec fn section(heading: Seq<char>, items: Seq<Seq<char>>) -> Seq<char> {
    if items.len() == 0 {
        seq![]
    } else {
        heading + bullets(items)
    }
}

/// Focus items as `- area: rationale` lines.
pub open spec fn focus_lines(items: Seq<(Seq<char>, Seq<char>)>) -> Seq<char>
    decreases items.len(),
{
    if items.len() == 0 {
        seq![]
    } else {
        focus_lines(items.drop_last()) + "- "@ + items.last().0 + ": "@ + items.last().1 + "\n"@
    }
}

pub open spec fn analysis_markdown(f: FocusModel) -> Seq<char> {
    "## Local Diff Analysis\n\n"@ + f.summary + (if f.focus_items.len() == 0 {
        seq![]
    } else {
        "\n\n### Suggested Review Focus\n"@ + focus_lines(f.focus_items)
    }) + section("\n### Trade-offs\n"@, f.trade_offs) + section("\n### Affected Modules\n"@, f.affected_modules)
        + section("\n### Call Chain\n"@, f.call_chain) + section("\n### Design Patterns\n"@, f.design_patterns)
        + section("\n### Review Checklist\n"@, f.checklist)
}

fn push_section(out: &mut String, heading: &str, items: &Vec<String>)
    ensures
        final(out)@ == old(out)@ + section(heading@, strs(items@)),
{
    if items.len() > 0 {
        push_str(out, heading);
        push_bullets(out, items);
    }
}

fn push_focus_lines(out: &mut String, items: &Vec<FocusItem>)
    ensures
        final(out)@ == old(out)@ + focus_lines(focus_item_models(items@)),
{
    let ghost start = out@;
    let ghost m = focus_item_models(items@);
    let mut i: usize = 0;
    while i < items.len()
        invariant
            i <= items@.len(),
            m == focus_item_models(items@),
            out@ == start + focus_lines(m.take(i as int)),
        decreases items.len() - i,
    {
        assert(m.take(i + 1).drop_last() =~= m.take(i as int));
        assert(m.take(i + 1).last() == (items@[i as int].area@, items@[i as int].rationale@));
        push_str(out, "- ");
        push_string(out, &items[i].area);
        push_str(out, ": ");
        push_string(out, &items[i].rationale);
        push_str(out, "\n");
        assert(out@ =~= start + focus_lines(m.take(i + 1)));
        i += 1;
    }
    assert(m.take(items@.len() as int) =~= m);
}

/// The analyzer's focus as markdown: its summary, then each non-empty list
/// under its own heading.
pub fn render_analysis_markdown(focus: &FocusAreas) -> (r: String)
    ensures
        r@ == analysis_markdown(focus@),
{
    let mut out = String::new();
    push_str(&mut out, "## Local Diff Analysis\n\n");
    push_string(&mut out, &focus.summary);
    let ghost a = out@;
    if focus.focus_items.len() > 0 {
        push_str(&mut out, "\n\n### Suggested Review Focus\n");
        push_focus_lines(&mut out, &focus.focus_items);
    }
    let ghost b = out@;
    push_section(&mut out, "\n### Trade-offs\n", &focus.trade_offs);
    let ghost c = out@;
    push_section(&mut out, "\n### Affected Modules\n", &focus.affected_modules);
    let ghost d = out@;
    push_section(&mut out, "\n### Call Chain\n", &focus.call_chain);
    let ghost e = out@;
    push_section(&mut out, "\n### Design Patterns\n", &focus.design_patterns);
    let ghost g = out@;
    push_section(&mut out, "\n### Review Checklist\n", &focus.reviewer_checklist);
    assert(out@ =~= analysis_markdown(focus@));
    out
}

// ---------------------------------------------------------------------
// System context
// ---------------------------------------------------------------------

/// The name `{:?}` prints for a precheck status.
pub open spec fn precheck_status_name(s: PrecheckStatus) -> Seq<char> {
    match s {
        PrecheckStatus::Pass => "Pass"@,
        PrecheckStatus::Warn => "Warn"@,
        PrecheckStatus::Fail => "Fail"@,
        PrecheckStatus::Skipped => "Skipped"@,
    }
}

fn precheck_status_str(s: PrecheckStatus) -> (r: &'static str)
    ensures
        r@ == precheck_status_name(s),
{
    match s {
        PrecheckStatus::Pass => "Pass",
        PrecheckStatus::Warn => "Warn",
        PrecheckStatus::Fail => "Fail",
        PrecheckStatus::Skipped => "Skipped",
    }
}

/// Files as indented `  - file` lines.
pub open spec fn file_lines(files: Seq<Seq<char>>) -> Seq<char>
    decreases files.len(),
{
    if files.len() == 0 {
        seq![]
    } else {
        file_lines(files.drop_last()) + "  - "@ + files.last() + "\n"@
    }
}

/// Precheck results as indented `  - tool [Status] summary` lines.
pub open spec fn signal_lines(signals: Seq<SignalModel>) -> Seq<char>
    decreases signals.len(),
{
    if signals.len() == 0 {
        seq![]
    } else {
        signal_lines(signals.drop_last()) + "  - "@ + signals.last().0 + " ["@ + precheck_status_name(signals.last().1)
            + "] "@ + signals.last().2 + "\n"@
    }
}

pub open spec fn system_context_markdown(
    changed: Seq<Seq<char>>,
    references: nat,
    history: nat,
    docs: nat,
    prechecks: Seq<SignalModel>,
) -> Seq<char> {
    "### System Context\n- Changed files: "@ + decimal(changed.len()) + "\n- Reference snippets: "@ + decimal(references)
        + "\n- History commits: "@ + decimal(history) + "\n- Docs snippets: "@ + decimal(docs)
        + "\n- Deterministic prechecks: "@ + decimal(prechecks.len()) + "\n"@ + (if changed.len() == 0 {
        seq![]
    } else {
        "- Affected files:\n"@ + file_lines(changed)
    }) + (if prechecks.len() == 0 {
        seq![]
    } else {
        "- Precheck results:\n"@ + signal_lines(prechecks)
    })
}

/// The system context of a change as markdown: how much was gathered, the
/// affected files and the precheck results.
pub fn render_system_context_markdown(ctx: &ReviewContext) -> (r: String)
    ensures
        r@ == system_context_markdown(
            strs(ctx.changed_files@),
            ctx.gathered@.references.len(),
            ctx.gathered@.history.len(),
            ctx.gathered@.docs.len(),
            ctx.gathered@.prechecks,
        ),
{
    let mut out = String::new();
    push_str(&mut out, "### System Context\n- Changed files: ");
    push_decimal(&mut out, ctx.changed_files.len() as u64);
    push_str(&mut out, "\n- Reference snippets: ");
    push_decimal(&mut out, ctx.gathered.references.len() as u64);
    push_str(&mut out, "\n- History commits: ");
    push_decimal(&mut out, ctx.gathered.history.len() as u64);
    push_str(&mut out, "\n- Docs snippets: ");
    push_decimal(&mut out, ctx.gathered.docs.len() as u64);
    push_str(&mut out, "\n- Deterministic prechecks: ");
    push_decimal(&mut out, ctx.gathered.prechecks.len() as u64);
    push_str(&mut out, "\n");
    let ghost head = out@;
    let ghost files = strs(ctx.changed_files@);
    if ctx.changed_files.len() > 0 {
        push_str(&mut out, "- Affected files:\n");
        let ghost start = out@;
        let mut i: usize = 0;
        while i < ctx.changed_files.len()
            invariant
                i <= ctx.changed_files@.len(),
                files == strs(ctx.changed_files@),
                out@ == start + file_lines(files.take(i as int)),
            decreases ctx.changed_files.len() - i,
        {
            assert(files.take(i + 1).drop_last() =~= files.take(i as int));
            assert(files.take(i + 1).last() == ctx.changed_files@[i as int]@);
            push_str(&mut out, "  - ");
            push_string(&mut out, &ctx.changed_files[i]);
            push_str(&mut out, "\n");
            assert(out@ =~= start + file_lines(files.take(i + 1)));
            i += 1;
        }
        assert(files.take(files.len() as int) =~= files);
    }
    let ghost mid = out@;
    let ghost sigs = ctx.gathered@.prechecks;
    if ctx.gathered.prechecks.len() > 0 {
        push_str(&mut out, "- Precheck results:\n");
        let ghost start = out@;
        let mut i: usize = 0;
        while i < ctx.gathered.prechecks.len()
            invariant
                i <= ctx.gathered.prechecks@.len(),
                sigs == ctx.gathered@.prechecks,
                out@ == start + signal_lines(sigs.take(i as int)),
            decreases ctx.gathered.prechecks.len() - i,
        {
            assert(sigs.take(i + 1).drop_last() =~= sigs.take(i as int));
            let s = &ctx.gathered.prechecks[i];
            assert(sigs.take(i + 1).last() == (s.tool@, s.status, s.summary@, s.command@));
            push_str(&mut out, "  - ");
            push_string(&mut out, &s.tool);
            push_str(&mut out, " [");
            push_str(&mut out, precheck_status_str(s.status));
            push_str(&mut out, "] ");
            push_string(&mut out, &s.summary);
            push_str(&mut out, "\n");
            assert(out@ =~= start + signal_lines(sigs.take(i + 1)));
            i += 1;
        }
        assert(sigs.take(sigs.len() as int) =~= sigs);
    }
    assert(out@ =~= system_context_markdown(
        files,
        ctx.gathered@.references.len(),
        ctx.gathered@.history.len(),
        ctx.gathered@.docs.len(),
        sigs,
    ));
    out
}

// ---------------------------------------------------------------------
// Analyzer fallback
// ---------------------------------------------------------------------

pub open spec fn fallback_item_reason() -> Seq<char> {
    "Changed file included via analyzer fallback."@
}

pub open spec fn fallback_focus_spec(changed: Seq<Seq<char>>, has_prechecks: bool, reason: Seq<char>) -> FocusModel {
    let shown = if changed.len() > 5 {
        changed.take(5)
    } else {
        changed
    };
    FocusModel {
        summary: "Analyzer fallback in use because the analyzer failed: "@ + reason,
        focus_items: shown.map_values(|f: Seq<char>| (f, fallback_item_reason())),
        trade_offs: seq!["Analyzer-generated prioritization was unavailable for this run."@],
        affected_modules: if changed.len() > 10 {
            changed.take(10)
        } else {
            changed
        },
        call_chain: seq![],
        design_patterns: seq![],
        checklist: if has_prechecks {
            seq![
                "Validate deterministic precheck failures or warnings."@,
                "Review changed files for correctness, regressions, and missing tests."@,
            ]
        } else {
            seq!["Review changed files for correctness, regressions, and missing tests."@]
        },
    }
}

/// The focus used when the analyzer fails: the first changed files as focus
/// items and modules, and a general checklist.
pub fn fallback_focus(ctx: &ReviewContext, reason: &str) -> (r: FocusAreas)
    ensures
        r@ == fallback_focus_spec(strs(ctx.changed_files@), ctx.gathered@.prechecks.len() > 0, reason@),
{
    let ghost changed = strs(ctx.changed_files@);
    let mut focus_items: Vec<FocusItem> = Vec::new();
    let mut affected_modules: Vec<String> = Vec::new();
    let n = ctx.changed_files.len();
    let mut i: usize = 0;
    while i < n && i < 10
        invariant
            i <= n,
            n == ctx.changed_files@.len(),
            changed == strs(ctx.changed_files@),
            i <= 10,
            affected_modules@.len() == i,
            focus_items@.len() == if i < 5 {
                i as int
            } else {
                5
            },
            forall|k: int| 0 <= k < i ==> #[trigger] affected_modules@[k]@ == changed[k],
            forall|k: int|
                0 <= k < focus_items@.len() ==> (#[trigger] focus_items@[k]).area@ == changed[k]
                    && focus_items@[k].rationale@ == fallback_item_reason(),
        decreases n - i,
    {
        if i < 5 {
            focus_items.push(
                FocusItem {
                    area: ctx.changed_files[i].clone(),
                    rationale: "Changed file included via analyzer fallback.".to_owned(),
                },
            );
        }
        affected_modules.push(ctx.changed_files[i].clone());
        i += 1;
    }
    let mut reviewer_checklist: Vec<String> = Vec::new();
    if ctx.gathered.prechecks.len() > 0 {
        reviewer_checklist.push("Validate deterministic precheck failures or warnings.".to_owned());
    }
    reviewer_checklist.push("Review changed files for correctness, regressions, and missing tests.".to_owned());
    let mut summary = "Analyzer fallback in use because the analyzer failed: ".to_owned();
    push_str(&mut summary, reason);
    let mut trade_offs: Vec<String> = Vec::new();
    trade_offs.push("Analyzer-generated prioritization was unavailable for this run.".to_owned());
    let r = FocusAreas {
        summary,
        focus_items,
        trade_offs,
        affected_modules,
        call_chain: Vec::new(),
        design_patterns: Vec::new(),
        reviewer_checklist,
    };
    let ghost spec = fallback_focus_spec(changed, ctx.gathered@.prechecks.len() > 0, reason@);
    assert(r@.focus_items =~= spec.focus_items);
    assert(r@.affected_modules =~= spec.affected_modules);
    assert(r@.trade_offs =~= spec.trade_offs);
    assert(r@.checklist =~= spec.checklist);
    assert(r@.call_chain =~= spec.call_chain);
    assert(r@.design_patterns =~= spec.design_patterns);
    r
}

// ---------------------------------------------------------------------
// Final analysis
// ---------------------------------------------------------------------

pub open spec fn round_part(round: Option<u8>) -> Seq<char> {
    match round {
        Some(r) => " round "@ + decimal(r as nat),
        None => seq![],
    }
}

pub open spec fn failure_lines(fs: Seq<FailureModel>) -> Seq<char>
    decreases fs.len(),
{
    if fs.len() == 0 {
        seq![]
    } else {
        let f = fs.last();
        failure_lines(fs.drop_last()) + "- "@ + f.0 + " ["@ + f.1 + round_part(f.2) + "]: "@ + f.3 + "\n"@
    }
}

pub open spec fn top_issue_lines(issues: Seq<IssueModel>) -> Seq<char>
    decreases issues.len(),
{
    if issues.len() == 0 {
        seq![]
    } else {
        let i = issues.last();
        top_issue_lines(issues.drop_last()) + "- ["@ + severity_name(i.severity) + "] "@ + i.title + " `"@
            + location_text(i.file, i.line_start) + "`\n"@
    }
}

pub open spec fn final_analysis_markdown(issues: Seq<IssueModel>, steps: Seq<Seq<char>>, failures: Seq<FailureModel>) -> Seq<char> {
    "## Final Analysis\n\n- Issues: "@ + decimal(issues.len()) + " (Critical: "@ + decimal(
        count_severity(issues, Severity::Critical),
    ) + ", Warning: "@ + decimal(count_severity(issues, Severity::Warning)) + ", Info: "@ + decimal(
        count_severity(issues, Severity::Info),
    ) + ")\n- Agent failures: "@ + decimal(failures.len()) + "\n"@ + (if failures.len() == 0 {
        seq![]
    } else {
        "\n### Agent Execution Issues\n"@ + failure_lines(failures)
    }) + "\n### Top Issues\n"@ + (if issues.len() == 0 {
        "- No issues found.\n"@
    } else {
        top_issue_lines(
            if issues.len() > 10 {
                issues.take(10)
            } else {
                issues
            },
        )
    }) + "\n### Action Plan\n"@ + (if steps.len() == 0 {
        "- No blocking actions.\n"@
    } else {
        bullets(steps)
    })
}

/// The closing analysis of a run: issue counts by severity, the agents that
/// failed, the ten first issues, and the plan's prioritized steps.
pub fn render_final_analysis_markdown(issues: &[CanonicalIssue], action_plan: &FinalActionPlan, agent_failures: &[AgentFailure]) -> (r: String)
    ensures
        r@ == final_analysis_markdown(issue_models(issues@), strs(action_plan.prioritized_steps@), failure_models(agent_failures@)),
{
    let ghost im = issue_models(issues@);
    let ghost fm = failure_models(agent_failures@);
    let mut out = String::new();
    push_str(&mut out, "## Final Analysis\n\n- Issues: ");
    push_decimal(&mut out, issues.len() as u64);
    push_str(&mut out, " (Critical: ");
    let c = count_issues_with(issues, Severity::Critical);
    push_decimal(&mut out, c as u64);
    push_str(&mut out, ", Warning: ");
    let w = count_issues_with(issues, Severity::Warning);
    push_decimal(&mut out, w as u64);
    push_str(&mut out, ", Info: ");
    let n = count_issues_with(issues, Severity::Info);
    push_decimal(&mut out, n as u64);
    push_str(&mut out, ")\n- Agent failures: ");
    push_decimal(&mut out, agent_failures.len() as u64);
    push_str(&mut out, "\n");
    let ghost head = out@;
    if agent_failures.len() > 0 {
        push_str(&mut out, "\n### Agent Execution Issues\n");
        let ghost start = out@;
        let mut i: usize = 0;
        while i < agent_failures.len()
            invariant
                i <= agent_failures@.len(),
                fm == failure_models(agent_failures@),
                out@ == start + failure_lines(fm.take(i as int)),
            decreases agent_failures.len() - i,
        {
            assert(fm.take(i + 1).drop_last() =~= fm.take(i as int));
            let f = &agent_failures[i];
            assert(fm.take(i + 1).last() == (f.agent@, f.stage@, f.round, f.message@));
            push_str(&mut out, "- ");
            push_string(&mut out, &f.agent);
            push_str(&mut out, " [");
            push_string(&mut out, &f.stage);
            match f.round {
                Some(r) => {
                    push_str(&mut out, " round ");
                    push_decimal(&mut out, r as u64);
                },
                None => {},
            }
            push_str(&mut out, "]: ");
            push_string(&mut out, &f.message);
            push_str(&mut out, "\n");
            assert(out@ =~= start + failure_lines(fm.take(i + 1)));
            i += 1;
        }
        assert(fm.take(fm.len() as int) =~= fm);
    }
    let ghost mid = out@;
    push_str(&mut out, "\n### Top Issues\n");
    if issues.len() == 0 {
        push_str(&mut out, "- No issues found.\n");
    } else {
        let limit: usize = if issues.len() > 10 {
            10
        } else {
            issues.len()
        };
        let ghost shown = if im.len() > 10 {
            im.take(10)
        } else {
            im
        };
        let ghost start = out@;
        let mut i: usize = 0;
        while i < limit
            invariant
                i <= limit,
                limit <= issues@.len(),
                limit == shown.len(),
                im == issue_models(issues@),
                shown == im.take(limit as int),
                out@ == start + top_issue_lines(shown.take(i as int)),
            decreases limit - i,
        {
            assert(shown.take(i + 1).drop_last() =~= shown.take(i as int));
            assert(shown.take(i + 1).last() == issues@[i as int]@);
            let issue = &issues[i];
            let loc = location(&issue.file, issue.line_start);
            push_str(&mut out, "- [");
            push_str(&mut out, severity_name_str(issue.severity));
            push_str(&mut out, "] ");
            push_string(&mut out, &issue.title);
            push_str(&mut out, " `");
            push_string(&mut out, &loc);
            push_str(&mut out, "`\n");
            assert(out@ =~= start + top_issue_lines(shown.take(i + 1)));
            i += 1;
        }
        assert(shown.take(limit as int) =~= shown);
    }
    push_str(&mut out, "\n### Action Plan\n");
    if action_plan.prioritized_steps.len() == 0 {
        push_str(&mut out, "- No blocking actions.\n");
    } else {
        push_bullets(&mut out, &action_plan.prioritized_steps);
    }
    assert(out@ =~= final_analysis_markdown(im, strs(action_plan.prioritized_steps@), fm));
    out
}

// ---------------------------------------------------------------------
// One agent's output, summarized
// ---------------------------------------------------------------------

/// The findings of one severity, in order.
pub open spec fn raw_with(fs: Seq<RawFindingModel>, s: Severity) -> Seq<RawFindingModel>
    decreases fs.len(),
{
    if fs.len() == 0 {
        seq![]
    } else {
        let p = raw_with(fs.drop_last(), s);
        if fs.last().severity == s {
            p.push(fs.last())
        } else {
            p
        }
    }
}

/// The findings most severe first, in input order within a severity (a
/// stable sort by severity, descending).
pub open spec fn ranked(fs: Seq<RawFindingModel>) -> Seq<RawFindingModel> {
    raw_with(fs, Severity::Critical) + raw_with(fs, Severity::Warning) + raw_with(fs, Severity::Info)
}

/// The upper-case name of a severity.
pub open spec fn severity_upper(s: Severity) -> Seq<char> {
    match s {
        Severity::Critical => "CRITICAL"@,
        Severity::Warning => "WARNING"@,
        Severity::Info => "INFO"@,
    }
}

fn severity_upper_str(s: Severity) -> (r: &'static str)
    ensures
        r@ == severity_upper(s),
{
    match s {
        Severity::Critical => "CRITICAL",
        Severity::Warning => "WARNING",
        Severity::Info => "INFO",
    }
}

pub open spec fn preview_of(f: RawFindingModel) -> (Seq<char>, Seq<char>, Seq<char>) {
    (severity_upper(f.severity), location_text(f.file, f.line_start), f.message)
}

pub open spec fn preview_models(v: Seq<AgentFindingPreview>) -> Seq<(Seq<char>, Seq<char>, Seq<char>)> {
    v.map_values(|p: AgentFindingPreview| (p.severity@, p.location@, p.message@))
}

pub open spec fn count_raw(fs: Seq<RawFindingModel>, s: Severity) -> nat {
    raw_with(fs, s).len()
}

pub open spec fn first_line(s: Seq<char>) -> Seq<char> {
    if lines_of(s).len() > 0 {
        lines_of(s)[0]
    } else {
        seq![]
    }
}

/// The one-line summary: the counts by severity, the narrative's first
/// line, and a note when the diff was chunked.
pub open spec fn agent_summary(fs: Seq<RawFindingModel>, narrative: Seq<char>, chunking: bool) -> Seq<char> {
    let base = if fs.len() == 0 {
        "No findings"@
    } else {
        decimal(fs.len()) + " findings ("@ + decimal(count_raw(fs, Severity::Critical)) + " Critical, "@ + decimal(
            count_raw(fs, Severity::Warning),
        ) + " Warning, "@ + decimal(count_raw(fs, Severity::Info)) + " Info)"@
    };
    let n = trim_of(narrative);
    let with_narrative = if n.len() == 0 {
        base
    } else {
        base + " | "@ + trim_of(first_line(n))
    };
    if chunking {
        with_narrative + " | diff chunking enabled"@
    } else {
        with_narrative
    }
}

/// Where a finding is, with its line range when it spans several lines.
pub open spec fn detail_location(f: RawFindingModel) -> Seq<char> {
    match (f.file, f.line_start, f.line_end) {
        (Some(file), Some(s), Some(e)) => if s != e {
            file + ":"@ + decimal(s as nat) + "-"@ + decimal(e as nat)
        } else {
            file + ":"@ + decimal(s as nat)
        },
        (Some(file), Some(s), None) => file + ":"@ + decimal(s as nat),
        (Some(file), None, _) => file,
        _ => "<unknown>"@,
    }
}

pub open spec fn description_line(d: Option<Seq<char>>) -> Seq<char> {
    match d {
        Some(x) => if trim_of(x).len() > 0 {
            "  description: "@ + trim_of(x) + "\n"@
        } else {
            seq![]
        },
        None => seq![],
    }
}

pub open spec fn detail_lines(fs: Seq<RawFindingModel>) -> Seq<char>
    decreases fs.len(),
{
    if fs.len() == 0 {
        seq![]
    } else {
        let f = fs.last();
        detail_lines(fs.drop_last()) + "- ["@ + severity_name(f.severity) + "] "@ + detail_location(f) + " "@ + f.message
            + "\n"@ + description_line(f.description)
    }
}

pub open spec fn agent_details(fs: Seq<RawFindingModel>, narrative: Seq<char>) -> Seq<char> {
    let n = trim_of(narrative);
    (if n.len() == 0 {
        seq![]
    } else {
        "Narrative:\n"@ + n + "\n\n"@
    }) + (if fs.len() == 0 {
        "Findings: none"@
    } else {
        "Findings:\n"@ + detail_lines(fs)
    })
}

fn push_location(out: &mut String, f: &RawFinding)
    ensures
        final(out)@ == old(out)@ + location_text(f@.file, f@.line_start),
{
    let loc = location(&f.file, f.line_start);
    push_string(out, &loc);
}

fn push_detail_location(out: &mut String, f: &RawFinding)
    ensures
        final(out)@ == old(out)@ + detail_location(f@),
{
    match (&f.file, f.line_start, f.line_end) {
        (Some(file), Some(s), Some(e)) => {
            push_string(out, file);
            push_str(out, ":");
            push_decimal(out, s as u64);
            if s != e {
                push_str(out, "-");
                push_decimal(out, e as u64);
            }
        },
        (Some(file), Some(s), None) => {
            push_string(out, file);
            push_str(out, ":");
            push_decimal(out, s as u64);
        },
        (Some(file), None, _) => {
            push_string(out, file);
        },
        _ => {
            push_str(out, "<unknown>");
        },
    }
}

fn push_description(out: &mut String, d: &Option<String>)
    ensures
        final(out)@ == old(out)@ + description_line(opt_str(*d)),
{
    match d {
        Some(x) => {
            let xc = chars_of(x.as_str());
            let t = trim(xc.as_slice());
            if t.len() > 0 {
                push_str(out, "  description: ");
                let ts = string_of(t.as_slice());
                push_string(out, &ts);
                push_str(out, "\n");
            }
        },
        None => {},
    }
}

/// Appends the previews of the findings of one severity.
fn push_previews_with(out: &mut Vec<AgentFindingPreview>, fs: &Vec<RawFinding>, s: Severity)
    ensures
        preview_models(final(out)@) == preview_models(old(out)@) + raw_with(raw_models(fs@), s).map_values(
            |f: RawFindingModel| preview_of(f),
        ),
{
    let ghost start = preview_models(out@);
    let ghost m = raw_models(fs@);
    let mut i: usize = 0;
    while i < fs.len()
        invariant
            i <= fs@.len(),
            m == raw_models(fs@),
            preview_models(out@) == start + raw_with(m.take(i as int), s).map_values(|f: RawFindingModel| preview_of(f)),
        decreases fs.len() - i,
    {
        assert(m.take(i + 1).drop_last() =~= m.take(i as int));
        assert(m.take(i + 1).last() == fs@[i as int]@);
        let ghost before = out@;
        if fs[i].severity == s {
            let mut loc = String::new();
            push_location(&mut loc, &fs[i]);
            out.push(
                AgentFindingPreview {
                    severity: severity_upper_str(fs[i].severity).to_owned(),
                    location: loc,
                    message: fs[i].message.clone(),
                },
            );
            assert(preview_models(out@) =~= preview_models(before).push(preview_of(fs@[i as int]@)));
        }
        assert(preview_models(out@) =~= start + raw_with(m.take(i + 1), s).map_values(
            |f: RawFindingModel| preview_of(f),
        ));
        i += 1;
    }
    assert(m.take(fs@.len() as int) =~= m);
}

fn count_raw_with(fs: &Vec<RawFinding>, s: Severity) -> (r: usize)
    ensures
        r == count_raw(raw_models(fs@), s),
{
    let ghost m = raw_models(fs@);
    let mut n: usize = 0;
    let mut i: usize = 0;
    while i < fs.len()
        invariant
            i <= fs@.len(),
            m == raw_models(fs@),
            n == raw_with(m.take(i as int), s).len(),
            n <= i,
        decreases fs.len() - i,
    {
        assert(m.take(i + 1).drop_last() =~= m.take(i as int));
        assert(m.take(i + 1).last() == fs@[i as int]@);
        if fs[i].severity == s {
            n += 1;
        }
        i += 1;
    }
    assert(m.take(fs@.len() as int) =~= m);
    n
}

pub open spec fn highlights_spec(fs: Seq<RawFindingModel>) -> Seq<(Seq<char>, Seq<char>, Seq<char>)> {
    let all = ranked(fs).map_values(|f: RawFindingModel| preview_of(f));
    if all.len() > 3 {
        all.take(3)
    } else {
        all
    }
}

/// An agent's output for the progress view: a one-line summary, the three
/// most severe findings, and the full details.
pub fn summarize_agent_output(output: &AgentReviewOutput, using_chunking: bool) -> (r: (String, Vec<AgentFindingPreview>, String))
    ensures
        r.0@ == agent_summary(raw_models(output.findings@), output.narrative@, using_chunking),
        preview_models(r.1@) == highlights_spec(raw_models(output.findings@)),
        r.2@ == agent_details(raw_models(output.findings@), output.narrative@),
{
    let ghost m = raw_models(output.findings@);
    let fs = &output.findings;
    let mut summary = String::new();
    if fs.len() == 0 {
        push_str(&mut summary, "No findings");
    } else {
        push_decimal(&mut summary, fs.len() as u64);
        push_str(&mut summary, " findings (");
        let c = count_raw_with(fs, Severity::Critical);
        push_decimal(&mut summary, c as u64);
        push_str(&mut summary, " Critical, ");
        let w = count_raw_with(fs, Severity::Warning);
        push_decimal(&mut summary, w as u64);
        push_str(&mut summary, " Warning, ");
        let n = count_raw_with(fs, Severity::Info);
        push_decimal(&mut summary, n as u64);
        push_str(&mut summary, " Info)");
    }
    let nc = chars_of(output.narrative.as_str());
    let narrative = trim(nc.as_slice());
    if narrative.len() > 0 {
        push_str(&mut summary, " | ");
        let ls = lines(narrative.as_slice());
        if ls.len() > 0 {
            let first = trim(ls[0].as_slice());
            let fs_str = string_of(first.as_slice());
            push_string(&mut summary, &fs_str);
        } else {
            assert(trim_of(first_line(narrative@)) =~= seq![]);
        }
    }
    if using_chunking {
        push_str(&mut summary, " | diff chunking enabled");
    }
    let mut all: Vec<AgentFindingPreview> = Vec::new();
    push_previews_with(&mut all, fs, Severity::Critical);
    push_previews_with(&mut all, fs, Severity::Warning);
    push_previews_with(&mut all, fs, Severity::Info);
    let ghost allm = ranked(m).map_values(|f: RawFindingModel| preview_of(f));
    assert(preview_models(all@) =~= allm);
    let mut highlights: Vec<AgentFindingPreview> = Vec::new();
    let mut i: usize = 0;
    while i < all.len() && i < 3
        invariant
            i <= all@.len(),
            i <= 3,
            preview_models(all@) == allm,
            preview_models(highlights@) == allm.take(i as int),
        decreases all.len() - i,
    {
        let p = &all[i];
        let ghost before = highlights@;
        highlights.push(
            AgentFindingPreview { severity: p.severity.clone(), location: p.location.clone(), message: p.message.clone() },
        );
        assert(preview_models(highlights@) =~= preview_models(before).push(allm[i as int]));
        assert(allm.take(i + 1) =~= allm.take(i as int).push(allm[i as int]));
        i += 1;
    }
    assert(allm.len() <= 3 ==> allm.take(allm.len() as int) =~= allm);
    let mut details = String::new();
    if narrative.len() > 0 {
        push_str(&mut details, "Narrative:\n");
        let ns = string_of(narrative.as_slice());
        push_string(&mut details, &ns);
        push_str(&mut details, "\n\n");
    }
    let ghost dhead = details@;
    if fs.len() == 0 {
        push_str(&mut details, "Findings: none");
    } else {
        push_str(&mut details, "Findings:\n");
        let ghost start = details@;
        let mut k: usize = 0;
        while k < fs.len()
            invariant
                k <= fs@.len(),
                m == raw_models(fs@),
                details@ == start + detail_lines(m.take(k as int)),
            decreases fs.len() - k,
        {
            assert(m.take(k + 1).drop_last() =~= m.take(k as int));
            assert(m.take(k + 1).last() == fs@[k as int]@);
            push_str(&mut details, "- [");
            push_str(&mut details, severity_name_str(fs[k].severity));
            push_str(&mut details, "] ");
            push_detail_location(&mut details, &fs[k]);
            push_str(&mut details, " ");
            push_string(&mut details, &fs[k].message);
            push_str(&mut details, "\n");
            push_description(&mut details, &fs[k].description);
            assert(details@ =~= start + detail_lines(m.take(k + 1)));
            k += 1;
        }
        assert(m.take(fs@.len() as int) =~= m);
    }
    assert(details@ =~= agent_details(m, output.narrative@));
    assert(summary@ =~= agent_summary(m, output.narrative@, using_chunking));
    (summary, highlights, details)
}

// ---------------------------------------------------------------------
// The previous round, for the next one
// ---------------------------------------------------------------------

pub type AgentFindings = (Seq<char>, Seq<RawFindingModel>);

pub open spec fn entry_models(v: Seq<(String, Vec<RawFinding>)>) -> Seq<AgentFindings> {
    v.map_values(|e: (String, Vec<RawFinding>)| (e.0@, raw_models(e.1@)))
}

/// The first entry of `id` at or after `i`.
pub open spec fn entry_pos(entries: Seq<AgentFindings>, id: Seq<char>, i: int) -> Option<int>
    decreases entries.len() - i,
{
    if i < 0 || i >= entries.len() {
        None
    } else if entries[i].0 == id {
        Some(i)
    } else {
        entry_pos(entries, id, i + 1)
    }
}

pub open spec fn synthesis_lines(fs: Seq<RawFindingModel>) -> Seq<char>
    decreases fs.len(),
{
    if fs.len() == 0 {
        seq![]
    } else {
        let f = fs.last();
        synthesis_lines(fs.drop_last()) + "  - ["@ + severity_name(f.severity) + "] "@ + location_text(f.file, f.line_start)
            + " "@ + f.message + "\n"@
    }
}

pub open spec fn synthesis_block(entries: Seq<AgentFindings>, id: Seq<char>) -> Seq<char> {
    "\n- "@ + id + "\n"@ + match entry_pos(entries, id, 0) {
        Some(k) => if entries[k].1.len() == 0 {
            "  - No findings\n"@
        } else {
            synthesis_lines(entries[k].1)
        },
        None => seq![],
    }
}

pub open spec fn synthesis_blocks(entries: Seq<AgentFindings>, ids: Seq<Seq<char>>) -> Seq<char>
    decreases ids.len(),
{
    if ids.len() == 0 {
        seq![]
    } else {
        synthesis_blocks(entries, ids.drop_last()) + synthesis_block(entries, ids.last())
    }
}

pub open spec fn entry_ids(entries: Seq<AgentFindings>) -> Seq<Seq<char>> {
    entries.map_values(|e: AgentFindings| e.0)
}

pub open spec fn round_synthesis(round: u8, entries: Seq<AgentFindings>) -> Seq<char> {
    "Round "@ + decimal(round as nat) + " prior agent findings:\n"@ + synthesis_blocks(entries, sort_seqs(entry_ids(entries)))
}

fn find_entry(entries: &Vec<(String, Vec<RawFinding>)>, id: &String) -> (r: Option<usize>)
    ensures
        match r {
            Some(k) => k < entries@.len() && entry_pos(entry_models(entries@), id@, 0) == Some(k as int),
            None => entry_pos(entry_models(entries@), id@, 0) is None,
        },
{
    let ghost em = entry_models(entries@);
    let mut i: usize = 0;
    while i < entries.len()
        invariant
            i <= entries@.len(),
            em == entry_models(entries@),
            entry_pos(em, id@, 0) == entry_pos(em, id@, i as int),
        decreases entries.len() - i,
    {
        if str_eq(entries[i].0.as_str(), id.as_str()) {
            assert(entry_pos(em, id@, i as int) == Some(i as int));
            return Some(i);
        }
        i += 1;
    }
    None
}

/// What each agent found in a round, agents in the order of their ids, for
/// the agents of the next round to debate.
pub fn format_round_synthesis(round: u8, findings: &Vec<(String, Vec<RawFinding>)>) -> (r: String)
    ensures
        r@ == round_synthesis(round, entry_models(findings@)),
{
    let ghost em = entry_models(findings@);
    let mut out = "Round ".to_owned();
    push_decimal(&mut out, round as u64);
    push_str(&mut out, " prior agent findings:\n");
    let mut ids: Vec<String> = Vec::new();
    let mut i: usize = 0;
    while i < findings.len()
        invariant
            i <= findings@.len(),
            em == entry_models(findings@),
            strs(ids@) == entry_ids(em).take(i as int),
        decreases findings.len() - i,
    {
        let ghost before = ids@;
        ids.push(findings[i].0.clone());
        assert(strs(ids@) =~= strs(before).push(findings@[i as int].0@));
        assert(entry_ids(em).take(i + 1) =~= entry_ids(em).take(i as int).push(findings@[i as int].0@));
        i += 1;
    }
    assert(entry_ids(em).take(findings@.len() as int) =~= entry_ids(em));
    let sorted = sort_strings(&ids);
    let ghost sm = strs(sorted@);
    let ghost head = out@;
    let mut j: usize = 0;
    while j < sorted.len()
        invariant
            j <= sorted@.len(),
            sm == strs(sorted@),
            em == entry_models(findings@),
            out@ == head + synthesis_blocks(em, sm.take(j as int)),
        decreases sorted.len() - j,
    {
        assert(sm.take(j + 1).drop_last() =~= sm.take(j as int));
        assert(sm.take(j + 1).last() == sorted@[j as int]@);
        let id = &sorted[j];
        let ghost before = out@;
        push_str(&mut out, "\n- ");
        push_string(&mut out, id);
        push_str(&mut out, "\n");
        match find_entry(findings, id) {
            Some(k) => {
                let fs = &findings[k].1;
                assert(em[k as int].1 == raw_models(fs@));
                if fs.len() == 0 {
                    push_str(&mut out, "  - No findings\n");
                } else {
                    let ghost m = raw_models(fs@);
                    let ghost start = out@;
                    let mut t: usize = 0;
                    while t < fs.len()
                        invariant
                            t <= fs@.len(),
                            m == raw_models(fs@),
                            out@ == start + synthesis_lines(m.take(t as int)),
                        decreases fs.len() - t,
                    {
                        assert(m.take(t + 1).drop_last() =~= m.take(t as int));
                        assert(m.take(t + 1).last() == fs@[t as int]@);
                        push_str(&mut out, "  - [");
                        push_str(&mut out, severity_name_str(fs[t].severity));
                        push_str(&mut out, "] ");
                        push_location(&mut out, &fs[t]);
                        push_str(&mut out, " ");
                        push_string(&mut out, &fs[t].message);
                        push_str(&mut out, "\n");
                        assert(out@ =~= start + synthesis_lines(m.take(t + 1)));
                        t += 1;
                    }
                    assert(m.take(fs@.len() as int) =~= m);
                }
            },
            None => {},
        }
        assert(out@ =~= before + synthesis_block(em, sorted@[j as int]@));
        assert(out@ =~= head + synthesis_blocks(em, sm.take(j + 1)));
        j += 1;
    }
    assert(sm.take(sorted@.len() as int) =~= sm);
    out
}

} // verus!
