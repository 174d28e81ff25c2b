//! The deterministic checks run before the agents: which tools a
//! configuration asks for, and the signal each run amounts to once the
//! tool has exited, failed to start or run out of time.
use vstd::prelude::*;
use crate::config::CrucibleConfig;
use crate::context::{PrecheckSignal, PrecheckStatus};
use crate::report::{join_strs, strs};
use crate::text::{chars_of, decimal, join_with, push_char, push_decimal, push_str, push_string, str_eq, trim, trim_of};
use crate::tracker::{lemma_utf8_append, utf8_len, utf8_width, utf8_width_exec};

verus! {

/// A tool to run in the repository root.
#[derive(Clone, Debug)]
pub struct ToolRun {
    /// The name its signal carries.
    pub tool: String,
    pub program: String,
    pub args: Vec<String>,
}

/// One step of the prechecks: a signal known without running anything,
/// or a tool to run.
#[derive(Clone, Debug)]
pub enum PrecheckStep {
    Signal(PrecheckSignal),
    Run(ToolRun),
}

/// How a tool's run ended.
pub enum ToolOutcome {
    /// It did not finish in time and was stopped.
    TimedOut,
    /// It could not be started or waited for.
    Failed(String),
    /// It exited, successfully or not, with this output.
    Exited { success: bool, stdout: String, stderr: String },
}

pub type RunModel = (Seq<char>, Seq<char>, Seq<Seq<char>>);

pub type StepModel = (Option<(Seq<char>, PrecheckStatus, Seq<char>, Seq<char>)>, Option<RunModel>);

pub open spec fn step_model(s: PrecheckStep) -> StepModel {
    match s {
        PrecheckStep::Signal(g) => (Some((g.tool@, g.status, g.summary@, g.command@)), None),
        PrecheckStep::Run(r) => (None, Some((r.tool@, r.program@, strs(r.args@)))),
    }
}

pub open spec fn step_models(v: Seq<PrecheckStep>) -> Seq<StepModel> {
    v.map_values(|s: PrecheckStep| step_model(s))
}

pub open spec fn signal_step(tool: Seq<char>, status: PrecheckStatus, summary: Seq<char>, command: Seq<char>) -> StepModel {
    (Some((tool, status, summary, command)), None)
}

pub open spec fn run_step(tool: Seq<char>, program: Seq<char>, args: Seq<Seq<char>>) -> StepModel {
    (None, Some((tool, program, args)))
}

pub open spec fn untangle_steps(bin: Seq<char>) -> Seq<StepModel> {
    if bin == "crucible"@ {
        seq![
            signal_step(
                "untangle"@,
                PrecheckStatus::Warn,
                "Skipped: gate.untangle_bin points to crucible; set it to untangle binary"@,
                "crucible analyze report . --format json --quiet"@,
            ),
        ]
    } else {
        seq![
            run_step(
                "untangle-analyze-report"@,
                bin,
                seq!["analyze"@, "report"@, "."@, "--format"@, "json"@, "--quiet"@],
            ),
            run_step(
                "untangle-quality-report"@,
                bin,
                seq!["quality"@, "report"@, "."@, "--format"@, "json"@, "--quiet"@],
            ),
        ]
    }
}

/// The steps a configuration asks for: nothing but a skipped signal when
/// prechecks are off; else the structural reports (when asked), then the
/// formatter, the type check and the test build of a Rust repository (each
/// when asked).
pub open spec fn precheck_steps_spec(cfg: CrucibleConfig, has_rust: bool) -> Seq<StepModel> {
    if !cfg.prechecks.enabled {
        seq![signal_step("prechecks"@, PrecheckStatus::Skipped, "Prechecks disabled by config"@, "n/a"@)]
    } else {
        (if cfg.prechecks.include_untangle {
            untangle_steps(cfg.gate.untangle_bin@)
        } else {
            seq![]
        }) + (if has_rust && cfg.prechecks.include_linters {
            seq![run_step("cargo-fmt"@, "cargo"@, seq!["fmt"@, "--all"@, "--"@, "--check"@])]
        } else {
            seq![]
        }) + (if has_rust && cfg.prechecks.include_type_checks {
            seq![run_step("cargo-check"@, "cargo"@, seq!["check"@, "--quiet"@])]
        } else {
            seq![]
        }) + (if has_rust && cfg.prechecks.include_tests {
            seq![run_step("cargo-test"@, "cargo"@, seq!["test"@, "--quiet"@, "--no-run"@])]
        } else {
            seq![]
        })
    }
}

fn strings(a: &str, b: &str, c: &str, d: &str, e: &str, f: &str, n: usize) -> (r: Vec<String>)
    requires
        2 <= n <= 6,
    ensures
        strs(r@) == seq![a@, b@, c@, d@, e@, f@].take(n as int),
{
    let mut v: Vec<String> = Vec::new();
    v.push(a.to_owned());
    v.push(b.to_owned());
    if n > 2 {
        v.push(c.to_owned());
    }
    if n > 3 {
        v.push(d.to_owned());
    }
    if n > 4 {
        v.push(e.to_owned());
    }
    if n > 5 {
        v.push(f.to_owned());
    }
    assert(strs(v@) =~= seq![a@, b@, c@, d@, e@, f@].take(n as int));
    v
}

/// The precheck steps for a configuration, `has_rust` telling whether the
/// repository holds a `Cargo.toml`.
pub fn precheck_steps(cfg: &CrucibleConfig, has_rust: bool) -> (r: Vec<PrecheckStep>)
    ensures
        step_models(r@) == precheck_steps_spec(*cfg, has_rust),
{
    let mut v: Vec<PrecheckStep> = Vec::new();
    if !cfg.prechecks.enabled {
        v.push(
            PrecheckStep::Signal(
                PrecheckSignal {
                    tool: "prechecks".to_owned(),
                    status: PrecheckStatus::Skipped,
                    summary: "Prechecks disabled by config".to_owned(),
                    command: "n/a".to_owned(),
                },
            ),
        );
        assert(step_models(v@) =~= precheck_steps_spec(*cfg, has_rust));
        return v;
    }
    let ghost mut expect: Seq<StepModel> = seq![];
    if cfg.prechecks.include_untangle {
        if str_eq(cfg.gate.untangle_bin.as_str(), "crucible") {
            v.push(
                PrecheckStep::Signal(
                    PrecheckSignal {
                        tool: "untangle".to_owned(),
                        status: PrecheckStatus::Warn,
                        summary: "Skipped: gate.untangle_bin points to crucible; set it to untangle binary".to_owned(),
                        command: "crucible analyze report . --format json --quiet".to_owned(),
                    },
                ),
            );
        } else {
            let a1 = strings("analyze", "report", ".", "--format", "json", "--quiet", 6);
            assert(seq!["analyze"@, "report"@, "."@, "--format"@, "json"@, "--quiet"@].take(6)
                =~= seq!["analyze"@, "report"@, "."@, "--format"@, "json"@, "--quiet"@]);
            v.push(
                PrecheckStep::Run(
                    ToolRun {
                        tool: "untangle-analyze-report".to_owned(),
                        program: cfg.gate.untangle_bin.clone(),
                        args: a1,
                    },
                ),
            );
            let a2 = strings("quality", "report", ".", "--format", "json", "--quiet", 6);
            assert(seq!["quality"@, "report"@, "."@, "--format"@, "json"@, "--quiet"@].take(6)
                =~= seq!["quality"@, "report"@, "."@, "--format"@, "json"@, "--quiet"@]);
            v.push(
                PrecheckStep::Run(
                    ToolRun {
                        tool: "untangle-quality-report".to_owned(),
                        program: cfg.gate.untangle_bin.clone(),
                        args: a2,
                    },
                ),
            );
        }
        proof {
            expect = untangle_steps(cfg.gate.untangle_bin@);
        }
        assert(step_models(v@) =~= expect);
    }
    if has_rust && cfg.prechecks.include_linters {
        let a = strings("fmt", "--all", "--", "--check", "", "", 4);
        assert(seq!["fmt"@, "--all"@, "--"@, "--check"@, ""@, ""@].take(4) =~= seq!["fmt"@, "--all"@, "--"@, "--check"@]);
        let ghost before = step_models(v@);
        v.push(PrecheckStep::Run(ToolRun { tool: "cargo-fmt".to_owned(), program: "cargo".to_owned(), args: a }));
        proof {
            expect = expect + seq![run_step("cargo-fmt"@, "cargo"@, seq!["fmt"@, "--all"@, "--"@, "--check"@])];
        }
        assert(step_models(v@) =~= before.push(run_step("cargo-fmt"@, "cargo"@, seq!["fmt"@, "--all"@, "--"@, "--check"@])));
        assert(step_models(v@) =~= expect);
    }
    if has_rust && cfg.prechecks.include_type_checks {
        let a = strings("check", "--quiet", "", "", "", "", 2);
        assert(seq!["check"@, "--quiet"@, ""@, ""@, ""@, ""@].take(2) =~= seq!["check"@, "--quiet"@]);
        let ghost before = step_models(v@);
        v.push(PrecheckStep::Run(ToolRun { tool: "cargo-check".to_owned(), program: "cargo".to_owned(), args: a }));
        proof {
            expect = expect + seq![run_step("cargo-check"@, "cargo"@, seq!["check"@, "--quiet"@])];
        }
        assert(step_models(v@) =~= before.push(run_step("cargo-check"@, "cargo"@, seq!["check"@, "--quiet"@])));
        assert(step_models(v@) =~= expect);
    }
    if has_rust && cfg.prechecks.include_tests {
        let a = strings("test", "--quiet", "--no-run", "", "", "", 3);
        assert(seq!["test"@, "--quiet"@, "--no-run"@, ""@, ""@, ""@].take(3) =~= seq!["test"@, "--quiet"@, "--no-run"@]);
        let ghost before = step_models(v@);
        v.push(PrecheckStep::Run(ToolRun { tool: "cargo-test".to_owned(), program: "cargo".to_owned(), args: a }));
        proof {
            expect = expect + seq![run_step("cargo-test"@, "cargo"@, seq!["test"@, "--quiet"@, "--no-run"@])];
        }
        assert(step_models(v@) =~= before.push(run_step("cargo-test"@, "cargo"@, seq!["test"@, "--quiet"@, "--no-run"@])));
        assert(step_models(v@) =~= expect);
    }
    assert(expect =~= precheck_steps_spec(*cfg, has_rust));
    v
}

/// How a run is shown: the program and its arguments, space-separated.
pub open spec fn command_text_spec(program: Seq<char>, args: Seq<Seq<char>>) -> Seq<char> {
    program + " "@ + join_with(args, " "@)
}

pub fn command_text(run: &ToolRun) -> (r: String)
    ensures
        r@ == command_text_spec(run.program@, strs(run.args@)),
{
    let mut s = run.program.clone();
    push_str(&mut s, " ");
    let j = join_strs(&run.args, " ");
    push_string(&mut s, &j);
    s
}

/// The longest start of `s` that takes at most `max` bytes in UTF-8.
pub open spec fn within_bytes(s: Seq<char>, max: nat) -> Seq<char>
    decreases s.len(),
{
    if utf8_len(s) <= max || s.len() == 0 {
        s
    } else {
        within_bytes(s.drop_last(), max)
    }
}

/// What a failed tool reports: its error output trimmed, or its standard
/// output when that is empty; past 300 bytes, cut on a character and
/// followed by `…`.
pub open spec fn excerpt_spec(stdout: Seq<char>, stderr: Seq<char>) -> Seq<char> {
    let e = if trim_of(stderr).len() > 0 {
        trim_of(stderr)
    } else {
        trim_of(stdout)
    };
    if utf8_len(e) > 300 {
        within_bytes(e, 300) + "…"@
    } else {
        e
    }
}

/// The signal of a finished step.
pub open spec fn outcome_signal(
    tool: Seq<char>,
    command: Seq<char>,
    timeout_secs: u64,
    timed_out: bool,
    error: Option<Seq<char>>,
    success: bool,
    stdout: Seq<char>,
    stderr: Seq<char>,
) -> (Seq<char>, PrecheckStatus, Seq<char>, Seq<char>) {
    if timed_out {
        (tool, PrecheckStatus::Warn, "Timed out after "@ + decimal(timeout_secs as nat) + "s"@, command)
    } else if error is Some {
        (tool, PrecheckStatus::Warn, "Execution error: "@ + error.unwrap(), command)
    } else if success {
        (tool, PrecheckStatus::Pass, "Passed"@, command)
    } else if excerpt_spec(stdout, stderr).len() == 0 {
        (tool, PrecheckStatus::Fail, "Failed"@, command)
    } else {
        (tool, PrecheckStatus::Fail, excerpt_spec(stdout, stderr), command)
    }
}

pub open spec fn outcome_model(o: ToolOutcome) -> (bool, Option<Seq<char>>, bool, Seq<char>, Seq<char>) {
    match o {
        ToolOutcome::TimedOut => (true, None, false, seq![], seq![]),
        ToolOutcome::Failed(e) => (false, Some(e@), false, seq![], seq![]),
        ToolOutcome::Exited { success, stdout, stderr } => (false, None, success, stdout@, stderr@),
    }
}

proof fn lemma_utf8_prefix_mono(s: Seq<char>, i: int, j: int)
    requires
        0 <= i <= j <= s.len(),
    ensures
        utf8_len(s.take(i)) <= utf8_len(s.take(j)),
{
    assert(s.take(j) =~= s.take(i) + s.take(j).skip(i));
    lemma_utf8_append(s.take(i), s.take(j).skip(i));
}

proof fn lemma_within_bytes(s: Seq<char>, max: nat, k: int)
    requires
        0 <= k <= s.len(),
        utf8_len(s.take(k)) <= max,
        k == s.len() || utf8_len(s.take(k + 1)) > max,
    ensures
        within_bytes(s, max) == s.take(k),
    decreases s.len(),
{
    if k == s.len() {
        assert(s.take(k) =~= s);
    } else {
        lemma_utf8_prefix_mono(s, k + 1, s.len() as int);
        assert(s.take(s.len() as int) =~= s);
        let d = s.drop_last();
        assert(d.take(k) =~= s.take(k));
        if k + 1 <= d.len() {
            assert(d.take(k + 1) =~= s.take(k + 1));
        }
        lemma_within_bytes(d, max, k);
    }
}

fn cut_excerpt(e: &[char]) -> (r: String)
    ensures
        r@ == (if utf8_len(e@) > 300 {
            within_bytes(e@, 300) + "…"@
        } else {
            e@
        }),
{
    let mut total: u128 = 0;
    let mut i: usize = 0;
    while i < e.len()
        invariant
            i <= e@.len(),
            total == utf8_len(e@.take(i as int)),
            total <= 4 * i,
        decreases e.len() - i,
    {
        proof {
            assert(e@.take(i + 1).drop_last() =~= e@.take(i as int));
        }
        total = total + utf8_width_exec(e[i]);
        i += 1;
    }
    assert(e@.take(e@.len() as int) =~= e@);
    let mut out = String::new();
    if total <= 300 {
        let mut k: usize = 0;
        while k < e.len()
            invariant
                k <= e@.len(),
                out@ == e@.take(k as int),
            decreases e.len() - k,
        {
            push_char(&mut out, e[k]);
            assert(e@.take(k + 1) =~= e@.take(k as int).push(e@[k as int]));
            k += 1;
        }
        return out;
    }
    let mut bytes: u128 = 0;
    let mut k: usize = 0;
    while k < e.len() && bytes + utf8_width_exec(e[k]) <= 300
        invariant
            k <= e@.len(),
            bytes == utf8_len(e@.take(k as int)),
            bytes <= 300,
            out@ == e@.take(k as int),
        decreases e.len() - k,
    {
        proof {
            assert(e@.take(k + 1).drop_last() =~= e@.take(k as int));
        }
        bytes = bytes + utf8_width_exec(e[k]);
        push_char(&mut out, e[k]);
        assert(e@.take(k + 1) =~= e@.take(k as int).push(e@[k as int]));
        k += 1;
    }
    proof {
        if k < e@.len() {
            assert(e@.take(k + 1).drop_last() =~= e@.take(k as int));
        }
        lemma_within_bytes(e@, 300, k as int);
    }
    push_str(&mut out, "…");
    out
}

/// The longest start of `text` that takes at most `max_bytes` bytes in
/// UTF-8 (the whole text when it fits), as documentation excerpts are cut.
pub fn cut_to_bytes(text: &str, max_bytes: usize) -> (r: String)
    ensures
        r@ == within_bytes(text@, max_bytes as nat),
{
    let e = chars_of(text);
    let mut out = String::new();
    let mut bytes: u128 = 0;
    let mut k: usize = 0;
    while k < e.len() && bytes + utf8_width_exec(e[k]) <= max_bytes as u128
        invariant
            k <= e@.len(),
            e@ == text@,
            bytes == utf8_len(e@.take(k as int)),
            bytes <= max_bytes,
            out@ == e@.take(k as int),
        decreases e.len() - k,
    {
        proof {
            assert(e@.take(k + 1).drop_last() =~= e@.take(k as int));
        }
        bytes = bytes + utf8_width_exec(e[k]);
        push_char(&mut out, e[k]);
        assert(e@.take(k + 1) =~= e@.take(k as int).push(e@[k as int]));
        k += 1;
    }
    proof {
        if k < e@.len() {
            assert(e@.take(k + 1).drop_last() =~= e@.take(k as int));
        }
        lemma_within_bytes(e@, max_bytes as nat, k as int);
    }
    out
}

/// The signal of a tool's run.
pub fn tool_signal(run: &ToolRun, timeout_secs: u64, outcome: ToolOutcome) -> (r: PrecheckSignal)
    ensures
        (r.tool@, r.status, r.summary@, r.command@) == ({
            let (t, e, s, o, x) = outcome_model(outcome);
            outcome_signal(run.tool@, command_text_spec(run.program@, strs(run.args@)), timeout_secs, t, e, s, o, x)
        }),
{
    let command = command_text(run);
    let tool = run.tool.clone();
    match outcome {
        ToolOutcome::TimedOut => {
            let mut s = "Timed out after ".to_owned();
            push_decimal(&mut s, timeout_secs);
            push_str(&mut s, "s");
            PrecheckSignal { tool, status: PrecheckStatus::Warn, summary: s, command }
        },
        ToolOutcome::Failed(e) => {
            let mut s = "Execution error: ".to_owned();
            push_string(&mut s, &e);
            PrecheckSignal { tool, status: PrecheckStatus::Warn, summary: s, command }
        },
        ToolOutcome::Exited { success, stdout, stderr } => {
            if success {
                return PrecheckSignal { tool, status: PrecheckStatus::Pass, summary: "Passed".to_owned(), command };
            }
            let te = trim(chars_of(stderr.as_str()).as_slice());
            let e = if te.len() > 0 {
                te
            } else {
                trim(chars_of(stdout.as_str()).as_slice())
            };
            let ex = cut_excerpt(e.as_slice());
            proof {
                reveal_strlit("…");
                assert(e@.len() == 0 ==> e@ =~= Seq::<char>::empty());
            }
            if e.len() == 0 {
                PrecheckSignal { tool, status: PrecheckStatus::Fail, summary: "Failed".to_owned(), command }
            } else {
                PrecheckSignal { tool, status: PrecheckStatus::Fail, summary: ex, command }
            }
        },
    }
}

} // verus!
