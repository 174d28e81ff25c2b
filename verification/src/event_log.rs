//! Progress events as text: the lines a run's log receives for each event
//! (after its timestamp), the lines shown on the error stream, and the
//! one-line spinner status of an interactive terminal.
use vstd::prelude::*;
use crate::progress::{
    convergence_name, duration_text, format_convergence, format_duration, format_parallel_status,
    format_startup_phase, format_startup_status, parallel_status_text, startup_phase_name, startup_status_name,
    AgentFindingPreview, ProgressEvent,
};
use crate::report::{join_strs, strs};
use crate::summary::preview_models;
use crate::text::{decimal, join_with, push_decimal, push_str, push_string};

verus! {

pub open spec fn bool_text(b: bool) -> Seq<char> {
    if b {
        "true"@
    } else {
        "false"@
    }
}

fn bool_str(b: bool) -> (r: &'static str)
    ensures
        r@ == bool_text(b),
{
    if b {
        "true"
    } else {
        "false"
    }
}

pub open spec fn count_suffix(count: Option<usize>) -> Seq<char> {
    match count {
        Some(c) => " count="@ + decimal(c as nat),
        None => seq![],
    }
}

pub open spec fn duration_suffix(d: Option<u64>) -> Seq<char> {
    match d {
        Some(t) => " duration="@ + duration_text(t),
        None => seq![],
    }
}

pub open spec fn highlight_lines(hs: Seq<(Seq<char>, Seq<char>, Seq<char>)>) -> Seq<char>
    decreases hs.len(),
{
    if hs.len() == 0 {
        seq![]
    } else {
        let h = hs.last();
        highlight_lines(hs.drop_last()) + "[agent-review]   ["@ + h.0 + "] "@ + h.1 + " "@ + h.2 + "\n"@
    }
}

/// The log lines of an event.
pub open spec fn log_event_spec(e: ProgressEvent) -> Seq<char> {
    match e {
        ProgressEvent::RunHeader {
            reviewers,
            max_rounds,
            changed_files,
            changed_lines,
            convergence_enabled,
            context_enabled,
        } => "[progress] run:header agents="@ + join_with(strs(reviewers@), ","@) + " max_rounds="@ + decimal(
            max_rounds as nat,
        ) + " changed_files="@ + decimal(changed_files as nat) + " changed_lines="@ + decimal(changed_lines as nat)
            + " convergence_enabled="@ + bool_text(convergence_enabled) + " context_enabled="@ + bool_text(
            context_enabled,
        ) + "\n"@,
        ProgressEvent::PhaseStart { phase } => "[progress] phase:start "@ + phase@ + "\n"@,
        ProgressEvent::PhaseDone { phase } => "[progress] phase:done "@ + phase@ + "\n"@,
        ProgressEvent::AnalyzerStart => "[progress] analyzer:start\n"@,
        ProgressEvent::AnalyzerDone => "[progress] analyzer:done\n"@,
        ProgressEvent::StartupPhase { phase, status, count, duration_tenths, detail } => "[progress] startup:"@
            + startup_phase_name(phase) + " "@ + startup_status_name(status) + count_suffix(count) + duration_suffix(
            duration_tenths,
        ) + " "@ + detail@ + "\n"@,
        ProgressEvent::AnalysisReady { markdown } => "[analysis]\n"@ + markdown@ + "\n"@,
        ProgressEvent::SystemContextReady { markdown } => "[system-context]\n"@ + markdown@ + "\n"@,
        ProgressEvent::RoundStart { round, total_rounds, agents } => "[progress] round:"@ + decimal(round as nat)
            + " start (agents: "@ + join_with(strs(agents@), ","@) + ")\n"@,
        ProgressEvent::ParallelStatus { round, statuses } => "[progress] round:"@ + decimal(round as nat)
            + " status "@ + parallel_status_text(statuses@) + "\n"@,
        ProgressEvent::AgentStart { round, id } => "[progress] agent:start round="@ + decimal(round as nat) + " id="@
            + id@ + "\n"@,
        ProgressEvent::AgentReview { round, id, summary, highlights, details } => "[agent-review] round="@ + decimal(
            round as nat,
        ) + " id="@ + id@ + " "@ + summary@ + "\n[agent-review] details:\n"@ + details@ + "\n"@ + highlight_lines(
            preview_models(highlights@),
        ),
        ProgressEvent::AgentDone { round, id } => "[progress] agent:done round="@ + decimal(round as nat) + " id="@
            + id@ + "\n"@,
        ProgressEvent::AgentError { round, id, message } => "[progress] agent:error round="@ + decimal(round as nat)
            + " id="@ + id@ + " msg="@ + message@ + "\n"@,
        ProgressEvent::RoundDone { round } => "[progress] round:"@ + decimal(round as nat) + " done\n"@,
        ProgressEvent::ConvergenceJudgment { round, verdict, rationale } => "[progress] convergence round="@
            + decimal(round as nat) + " verdict="@ + convergence_name(verdict) + " rationale="@ + rationale@ + "\n"@,
        ProgressEvent::RoundComplete { round, total_rounds } => "[progress] round:"@ + decimal(round as nat) + "/"@
            + decimal(total_rounds as nat) + " complete\n"@,
        ProgressEvent::AutoFixReady => "[progress] autofix:ready\n"@,
        ProgressEvent::Completed(_) => seq![],
        ProgressEvent::Canceled => "[progress] canceled\n"@,
    }
}

fn push_highlights(out: &mut String, hs: &Vec<AgentFindingPreview>)
    ensures
        final(out)@ == old(out)@ + highlight_lines(preview_models(hs@)),
{
    let ghost m = preview_models(hs@);
    let ghost start = out@;
    let mut i: usize = 0;
    while i < hs.len()
        invariant
            i <= hs@.len(),
            m == preview_models(hs@),
            out@ == start + highlight_lines(m.take(i as int)),
        decreases hs.len() - i,
    {
        assert(m.take(i + 1).drop_last() =~= m.take(i as int));
        assert(m.take(i + 1).last() == (hs@[i as int].severity@, hs@[i as int].location@, hs@[i as int].message@));
        push_str(out, "[agent-review]   [");
        push_string(out, &hs[i].severity);
        push_str(out, "] ");
        push_string(out, &hs[i].location);
        push_str(out, " ");
        push_string(out, &hs[i].message);
        push_str(out, "\n");
        assert(out@ =~= start + highlight_lines(m.take(i + 1)));
        i += 1;
    }
    assert(m.take(m.len() as int) =~= m);
}

fn push_startup(out: &mut String, count: Option<usize>, duration_tenths: Option<u64>)
    ensures
        final(out)@ == old(out)@ + count_suffix(count) + duration_suffix(duration_tenths),
{
    match count {
        Some(c) => {
            push_str(out, " count=");
            push_decimal(out, c as u64);
        },
        None => {},
    }
    match duration_tenths {
        Some(t) => {
            push_str(out, " duration=");
            let d = format_duration(t);
            push_string(out, &d);
        },
        None => {},
    }
}

/// The lines the log receives for an event (a finished report writes its
/// own sections, so it adds none here).
pub fn log_event_text(event: &ProgressEvent) -> (r: String)
    ensures
        r@ == log_event_spec(*event),
{
    let mut out = String::new();
    match event {
        ProgressEvent::RunHeader {
            reviewers,
            max_rounds,
            changed_files,
            changed_lines,
            convergence_enabled,
            context_enabled,
        } => {
            push_str(&mut out, "[progress] run:header agents=");
            let j = join_strs(reviewers, ",");
            push_string(&mut out, &j);
            push_str(&mut out, " max_rounds=");
            push_decimal(&mut out, *max_rounds as u64);
            push_str(&mut out, " changed_files=");
            push_decimal(&mut out, *changed_files as u64);
            push_str(&mut out, " changed_lines=");
            push_decimal(&mut out, *changed_lines as u64);
            push_str(&mut out, " convergence_enabled=");
            push_str(&mut out, bool_str(*convergence_enabled));
            push_str(&mut out, " context_enabled=");
            push_str(&mut out, bool_str(*context_enabled));
            push_str(&mut out, "\n");
        },
        ProgressEvent::PhaseStart { phase } => {
            push_str(&mut out, "[progress] phase:start ");
            push_string(&mut out, phase);
            push_str(&mut out, "\n");
        },
        ProgressEvent::PhaseDone { phase } => {
            push_str(&mut out, "[progress] phase:done ");
            push_string(&mut out, phase);
            push_str(&mut out, "\n");
        },
        ProgressEvent::AnalyzerStart => {
            push_str(&mut out, "[progress] analyzer:start\n");
        },
        ProgressEvent::AnalyzerDone => {
            push_str(&mut out, "[progress] analyzer:done\n");
        },
        ProgressEvent::StartupPhase { phase, status, count, duration_tenths, detail } => {
            push_str(&mut out, "[progress] startup:");
            push_str(&mut out, format_startup_phase(*phase));
            push_str(&mut out, " ");
            push_str(&mut out, format_startup_status(*status));
            push_startup(&mut out, *count, *duration_tenths);
            push_str(&mut out, " ");
            push_string(&mut out, detail);
            push_str(&mut out, "\n");
        },
        ProgressEvent::AnalysisReady { markdown } => {
            push_str(&mut out, "[analysis]\n");
            push_string(&mut out, markdown);
            push_str(&mut out, "\n");
        },
        ProgressEvent::SystemContextReady { markdown } => {
            push_str(&mut out, "[system-context]\n");
            push_string(&mut out, markdown);
            push_str(&mut out, "\n");
        },
        ProgressEvent::RoundStart { round, total_rounds, agents } => {
            push_str(&mut out, "[progress] round:");
            push_decimal(&mut out, *round as u64);
            push_str(&mut out, " start (agents: ");
            let j = join_strs(agents, ",");
            push_string(&mut out, &j);
            push_str(&mut out, ")\n");
        },
        ProgressEvent::ParallelStatus { round, statuses } => {
            push_str(&mut out, "[progress] round:");
            push_decimal(&mut out, *round as u64);
            push_str(&mut out, " status ");
            let st = format_parallel_status(statuses.as_slice());
            push_string(&mut out, &st);
            push_str(&mut out, "\n");
        },
        ProgressEvent::AgentStart { round, id } => {
            push_str(&mut out, "[progress] agent:start round=");
            push_decimal(&mut out, *round as u64);
            push_str(&mut out, " id=");
            push_string(&mut out, id);
            push_str(&mut out, "\n");
        },
        ProgressEvent::AgentReview { round, id, summary, highlights, details } => {
            push_str(&mut out, "[agent-review] round=");
            push_decimal(&mut out, *round as u64);
            push_str(&mut out, " id=");
            push_string(&mut out, id);
            push_str(&mut out, " ");
            push_string(&mut out, summary);
            push_str(&mut out, "\n[agent-review] details:\n");
            push_string(&mut out, details);
            push_str(&mut out, "\n");
            push_highlights(&mut out, highlights);
        },
        ProgressEvent::AgentDone { round, id } => {
            push_str(&mut out, "[progress] agent:done round=");
            push_decimal(&mut out, *round as u64);
            push_str(&mut out, " id=");
            push_string(&mut out, id);
            push_str(&mut out, "\n");
        },
        ProgressEvent::AgentError { round, id, message } => {
            push_str(&mut out, "[progress] agent:error round=");
            push_decimal(&mut out, *round as u64);
            push_str(&mut out, " id=");
            push_string(&mut out, id);
            push_str(&mut out, " msg=");
            push_string(&mut out, message);
            push_str(&mut out, "\n");
        },
        ProgressEvent::RoundDone { round } => {
            push_str(&mut out, "[progress] round:");
            push_decimal(&mut out, *round as u64);
            push_str(&mut out, " done\n");
        },
        ProgressEvent::ConvergenceJudgment { round, verdict, rationale } => {
            push_str(&mut out, "[progress] convergence round=");
            push_decimal(&mut out, *round as u64);
            push_str(&mut out, " verdict=");
            push_str(&mut out, format_convergence(*verdict));
            push_str(&mut out, " rationale=");
            push_string(&mut out, rationale);
            push_str(&mut out, "\n");
        },
        ProgressEvent::RoundComplete { round, total_rounds } => {
            push_str(&mut out, "[progress] round:");
            push_decimal(&mut out, *round as u64);
            push_str(&mut out, "/");
            push_decimal(&mut out, *total_rounds as u64);
            push_str(&mut out, " complete\n");
        },
        ProgressEvent::AutoFixReady => {
            push_str(&mut out, "[progress] autofix:ready\n");
        },
        ProgressEvent::Completed(_) => {},
        ProgressEvent::Canceled => {
            push_str(&mut out, "[progress] canceled\n");
        },
    }
    assert(out@ =~= log_event_spec(*event));
    out
}

/// The lines the error stream shows for an event: the log's lines, except
/// for the run header, the analyzer's markdown and round completion.
pub open spec fn progress_event_spec(e: ProgressEvent) -> Seq<char> {
    match e {
        ProgressEvent::RunHeader { reviewers, max_rounds, changed_lines, .. } => "Configuration loaded\nFound local changes ("@
            + decimal(changed_lines as nat) + " lines)\nAgents: "@ + join_with(strs(reviewers@), ", "@)
            + "\nMax rounds: "@ + decimal(max_rounds as nat) + "\n"@,
        ProgressEvent::AnalysisReady { markdown } => "\n--- Analysis ---\n"@ + markdown@ + "\n\n"@,
        ProgressEvent::SystemContextReady { markdown } => "--- System Context ---\n"@ + markdown@ + "\n\n"@,
        ProgressEvent::RoundComplete { round, total_rounds } => "-- Round "@ + decimal(round as nat) + "/"@ + decimal(
            total_rounds as nat,
        ) + " complete --\n"@,
        _ => log_event_spec(e),
    }
}

pub fn progress_event_text(event: &ProgressEvent) -> (r: String)
    ensures
        r@ == progress_event_spec(*event),
{
    match event {
        ProgressEvent::RunHeader { reviewers, max_rounds, changed_lines, .. } => {
            let mut out = "Configuration loaded\nFound local changes (".to_owned();
            push_decimal(&mut out, *changed_lines as u64);
            push_str(&mut out, " lines)\nAgents: ");
            let j = join_strs(reviewers, ", ");
            push_string(&mut out, &j);
            push_str(&mut out, "\nMax rounds: ");
            push_decimal(&mut out, *max_rounds as u64);
            push_str(&mut out, "\n");
            out
        },
        ProgressEvent::AnalysisReady { markdown } => {
            let mut out = "\n--- Analysis ---\n".to_owned();
            push_string(&mut out, markdown);
            push_str(&mut out, "\n\n");
            out
        },
        ProgressEvent::SystemContextReady { markdown } => {
            let mut out = "--- System Context ---\n".to_owned();
            push_string(&mut out, markdown);
            push_str(&mut out, "\n\n");
            out
        },
        ProgressEvent::RoundComplete { round, total_rounds } => {
            let mut out = "-- Round ".to_owned();
            push_decimal(&mut out, *round as u64);
            push_str(&mut out, "/");
            push_decimal(&mut out, *total_rounds as u64);
            push_str(&mut out, " complete --\n");
            out
        },
        _ => log_event_text(event),
    }
}

// ---------------------------------------------------------------------
// Spinner status line
// ---------------------------------------------------------------------

/// The spinner of an interactive terminal: its frame, the current phase,
/// the current round, and the agents' status line.
#[derive(Clone, Debug)]
pub struct SpinnerState {
    pub frame: usize,
    pub phase: String,
    pub round: Option<u8>,
    pub statuses: String,
}

impl SpinnerState {
    pub fn new() -> (r: Self)
        ensures
            r.frame == 0,
            r.phase@.len() == 0,
            r.round is None,
            r.statuses@.len() == 0,
    {
        SpinnerState { frame: 0, phase: String::new(), round: None, statuses: String::new() }
    }
}

pub open spec fn spinner_frames() -> Seq<Seq<char>> {
    seq!["⠋"@, "⠙"@, "⠹"@, "⠸"@, "⠼"@, "⠴"@, "⠦"@, "⠧"@, "⠇"@, "⠏"@]
}

fn spinner_frame(i: usize) -> (r: &'static str)
    requires
        i < 10,
    ensures
        r@ == spinner_frames()[i as int],
{
    if i == 0 {
        "⠋"
    } else if i == 1 {
        "⠙"
    } else if i == 2 {
        "⠹"
    } else if i == 3 {
        "⠸"
    } else if i == 4 {
        "⠼"
    } else if i == 5 {
        "⠴"
    } else if i == 6 {
        "⠦"
    } else if i == 7 {
        "⠧"
    } else if i == 8 {
        "⠇"
    } else {
        "⠏"
    }
}

/// The spinner's phase, round and status after an event.
pub open spec fn spinner_fields(phase: Seq<char>, round: Option<u8>, statuses: Seq<char>, e: ProgressEvent) -> (Seq<char>, Option<u8>, Seq<char>) {
    match e {
        ProgressEvent::PhaseStart { phase: p } => (p@, round, statuses),
        ProgressEvent::StartupPhase { phase: p, status, .. } => ("startup:"@ + startup_phase_name(p) + " "@
            + startup_status_name(status), round, statuses),
        ProgressEvent::RoundStart { round: r, .. } => (phase, Some(r), statuses),
        ProgressEvent::ParallelStatus { statuses: st, .. } => (phase, round, parallel_status_text(st@)),
        ProgressEvent::PhaseDone { phase: p } => (p@ + " done"@, round, statuses),
        _ => (phase, round, statuses),
    }
}

/// The status line for a frame and the spinner's fields.
pub open spec fn spinner_line(frame: usize, phase: Seq<char>, round: Option<u8>, statuses: Seq<char>) -> Seq<char> {
    "\r\u{1b}[36m"@ + spinner_frames()[(frame % 10) as int] + "\u{1b}[0m \u{1b}[33m"@ + (if phase.len() == 0 {
        "initializing"@
    } else {
        phase
    }) + "\u{1b}[0m ("@ + match round {
        Some(r) => "round "@ + decimal(r as nat),
        None => "startup"@,
    } + ")"@ + if statuses.len() == 0 {
        seq![]
    } else {
        " | "@ + statuses
    }
}

pub open spec fn ends_run(e: ProgressEvent) -> bool {
    e is Completed || e is Canceled
}

impl SpinnerState {
    /// Takes an event: a finished or canceled run ends the line; any other
    /// event updates the fields, draws the next frame and advances it.
    pub fn step(&mut self, event: &ProgressEvent) -> (r: String)
        ensures
            ends_run(*event) ==> r@ == "\n"@ && final(self).frame == old(self).frame && final(self).phase@ == old(
                self,
            ).phase@ && final(self).round == old(self).round && final(self).statuses@ == old(self).statuses@,
            !ends_run(*event) ==> {
                let f = spinner_fields(old(self).phase@, old(self).round, old(self).statuses@, *event);
                &&& (final(self).phase@, final(self).round, final(self).statuses@) == f
                &&& final(self).frame == if old(self).frame == usize::MAX {
                    0
                } else {
                    old(self).frame + 1
                }
                &&& r@ == spinner_line(old(self).frame, f.0, f.1, f.2)
            },
    {
        if let ProgressEvent::Completed(_) = event {
            return "\n".to_owned();
        }
        if let ProgressEvent::Canceled = event {
            return "\n".to_owned();
        }
        self.update_fields(event);
        let line = self.render_line();
        self.frame = if self.frame == usize::MAX {
            0
        } else {
            self.frame + 1
        };
        line
    }

    fn update_fields(&mut self, event: &ProgressEvent)
        ensures
            (final(self).phase@, final(self).round, final(self).statuses@) == spinner_fields(
                old(self).phase@,
                old(self).round,
                old(self).statuses@,
                *event,
            ),
            final(self).frame == old(self).frame,
    {
        match event {
            ProgressEvent::PhaseStart { phase } => {
                self.phase = phase.clone();
            },
            ProgressEvent::StartupPhase { phase, status, .. } => {
                let mut p = "startup:".to_owned();
                push_str(&mut p, format_startup_phase(*phase));
                push_str(&mut p, " ");
                push_str(&mut p, format_startup_status(*status));
                self.phase = p;
            },
            ProgressEvent::RoundStart { round, .. } => {
                self.round = Some(*round);
            },
            ProgressEvent::ParallelStatus { statuses, .. } => {
                self.statuses = format_parallel_status(statuses.as_slice());
            },
            ProgressEvent::PhaseDone { phase } => {
                let mut p = phase.clone();
                push_str(&mut p, " done");
                self.phase = p;
            },
            _ => {},
        }
    }

    fn render_line(&self) -> (r: String)
        ensures
            r@ == spinner_line(self.frame, self.phase@, self.round, self.statuses@),
    {
        let frame = spinner_frame(self.frame % 10);
        let mut line = "\r\u{1b}[36m".to_owned();
        push_str(&mut line, frame);
        push_str(&mut line, "\u{1b}[0m \u{1b}[33m");
        if crate::text::chars_of(self.phase.as_str()).len() == 0 {
            push_str(&mut line, "initializing");
        } else {
            push_string(&mut line, &self.phase);
        }
        push_str(&mut line, "\u{1b}[0m (");
        match self.round {
            Some(r) => {
                push_str(&mut line, "round ");
                push_decimal(&mut line, r as u64);
            },
            None => push_str(&mut line, "startup"),
        }
        push_str(&mut line, ")");
        if crate::text::chars_of(self.statuses.as_str()).len() > 0 {
            push_str(&mut line, " | ");
            push_string(&mut line, &self.statuses);
        }
        line
    }
}


/// A log entry holding a JSON report: the stamped `[report]` header line,
/// then the JSON on a line of its own.
pub open spec fn log_json_spec(timestamp: Seq<char>, json: Seq<char>) -> Seq<char> {
    "["@ + timestamp + "] [report]\n"@ + json + "\n"@
}

pub fn write_log_json(timestamp: &str, json: &str) -> (r: String)
    ensures
        r@ == log_json_spec(timestamp@, json@),
{
    let mut out = String::new();
    push_str(&mut out, "[");
    push_str(&mut out, timestamp);
    push_str(&mut out, "] [report]\n");
    push_str(&mut out, json);
    push_str(&mut out, "\n");
    out
}

} // verus!
