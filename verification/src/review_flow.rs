//! The course of a multi-round review as a state machine: which round runs
//! next, when the convergence judge is asked, and when the run stops. The
//! caller performs each action (running a round's agents, asking the judge)
//! and hands back what came of it as the next event.
use vstd::prelude::*;
use crate::plugin::ConvergenceDecision;
use crate::progress::ConvergenceVerdict;
use crate::rounds::{
    decision_model, judgement, judgement_spec, round_end, round_end_spec, skip_rationale,
    skip_rationale_text, RoundCounts, RoundEnd,
};

verus! {

/// Where a run stands.
#[derive(Clone, Copy, Debug, PartialEq, Eq, Structural)]
pub enum RunPhase {
    /// The round `round` is being run.
    Reviewing,
    /// The round `round` is over and the convergence judge was asked.
    AwaitingJudge,
    /// No more rounds run.
    Finished,
}

/// A run's state: its phase, the current round (from one), the rounds it
/// may run, and the counts after the round before and after this one.
#[derive(Clone, Copy, Debug, PartialEq, Eq, Structural)]
pub struct RunState {
    pub phase: RunPhase,
    pub round: u8,
    pub total_rounds: usize,
    pub previous: RoundCounts,
    pub current: RoundCounts,
}

/// What the caller reports back.
#[derive(Clone, Debug)]
pub enum RunEvent {
    /// The current round is over: the counts of all findings known so far,
    /// and whether every agent of the round finished without error.
    RoundDone { counts: RoundCounts, clean: bool },
    /// The convergence judge answered, or gave no answer (`None`).
    JudgeAnswered(Option<ConvergenceDecision>),
}

/// What the caller does next.
#[derive(Clone, Debug)]
pub enum RunAction {
    /// Report the judgement of the round just over, if any, then run `round`.
    RunRound { round: u8, judgement: Option<ConvergenceDecision> },
    /// Ask the convergence judge about `round`.
    AskJudge { round: u8 },
    /// Report the judgement of the last round, if any, and stop the rounds.
    Finish { judgement: Option<ConvergenceDecision> },
    /// The event does not fit the phase: nothing changes.
    Ignore,
}

pub enum ActionModel {
    RunRound { round: u8, judgement: Option<(ConvergenceVerdict, Seq<char>)> },
    AskJudge { round: u8 },
    Finish { judgement: Option<(ConvergenceVerdict, Seq<char>)> },
    Ignore,
}

pub enum EventModel {
    RoundDone { counts: RoundCounts, clean: bool },
    JudgeAnswered(Option<(ConvergenceVerdict, Seq<char>)>),
}

pub open spec fn action_model(a: RunAction) -> ActionModel {
    match a {
        RunAction::RunRound { round, judgement } => ActionModel::RunRound { round, judgement: decision_model(judgement) },
        RunAction::AskJudge { round } => ActionModel::AskJudge { round },
        RunAction::Finish { judgement } => ActionModel::Finish { judgement: decision_model(judgement) },
        RunAction::Ignore => ActionModel::Ignore,
    }
}

pub open spec fn event_model(e: RunEvent) -> EventModel {
    match e {
        RunEvent::RoundDone { counts, clean } => EventModel::RoundDone { counts, clean },
        RunEvent::JudgeAnswered(d) => EventModel::JudgeAnswered(decision_model(d)),
    }
}

/// A state the machine can be in: a round from one up to the rounds it may
/// run, which fit in a `u8`.
pub open spec fn run_wf(s: RunState) -> bool {
    1 <= s.round && s.round as int <= s.total_rounds && s.total_rounds <= 255
}

/// A run of `total_rounds` rounds starts with round one.
pub open spec fn start_spec(total_rounds: usize) -> (RunState, ActionModel) {
    (
        RunState {
            phase: RunPhase::Reviewing,
            round: 1,
            total_rounds,
            previous: RoundCounts { findings: 0, critical: 0 },
            current: RoundCounts { findings: 0, critical: 0 },
        },
        ActionModel::RunRound { round: 1, judgement: None },
    )
}

/// After a round (and its judgement, if any) without convergence: the next
/// round when one is left, the current counts becoming the previous ones;
/// else the run stops.
pub open spec fn advance_spec(s: RunState, j: Option<(ConvergenceVerdict, Seq<char>)>) -> (RunState, ActionModel) {
    if (s.round as int) < s.total_rounds {
        (
            RunState {
                phase: RunPhase::Reviewing,
                round: (s.round + 1) as u8,
                total_rounds: s.total_rounds,
                previous: s.current,
                current: s.current,
            },
            ActionModel::RunRound { round: (s.round + 1) as u8, judgement: j },
        )
    } else {
        (RunState { phase: RunPhase::Finished, ..s }, ActionModel::Finish { judgement: j })
    }
}

/// One step: a finished round stops the run early (nothing found, every
/// agent done, rounds left), asks the judge (rounds left), or moves on; a
/// judgement of convergence stops the run, any other moves on; an event that
/// does not fit the phase changes nothing.
pub open spec fn step_spec(s: RunState, e: EventModel) -> (RunState, ActionModel) {
    match (s.phase, e) {
        (RunPhase::Reviewing, EventModel::RoundDone { counts, clean }) => {
            let t = RunState { current: counts, ..s };
            match round_end_spec(s.round, s.total_rounds, counts.findings, clean) {
                RoundEnd::SkipRemaining => (
                    RunState { phase: RunPhase::Finished, ..t },
                    ActionModel::Finish { judgement: Some((ConvergenceVerdict::Converged, skip_rationale())) },
                ),
                RoundEnd::AskJudge => (RunState { phase: RunPhase::AwaitingJudge, ..t }, ActionModel::AskJudge { round: s.round }),
                RoundEnd::Proceed => advance_spec(t, None),
            }
        },
        (RunPhase::AwaitingJudge, EventModel::JudgeAnswered(d)) => {
            let j = judgement_spec(d, s.round, s.current, s.previous);
            if j.0 == ConvergenceVerdict::Converged {
                (RunState { phase: RunPhase::Finished, ..s }, ActionModel::Finish { judgement: Some(j) })
            } else {
                advance_spec(s, Some(j))
            }
        },
        _ => (s, ActionModel::Ignore),
    }
}

/// The first state and action of a run of `total_rounds` rounds.
pub fn review_start(total_rounds: usize) -> (r: (RunState, RunAction))
    requires
        1 <= total_rounds <= 255,
    ensures
        (r.0, action_model(r.1)) == start_spec(total_rounds),
        run_wf(r.0),
{
    (
        RunState {
            phase: RunPhase::Reviewing,
            round: 1,
            total_rounds,
            previous: RoundCounts { findings: 0, critical: 0 },
            current: RoundCounts { findings: 0, critical: 0 },
        },
        RunAction::RunRound { round: 1, judgement: None },
    )
}

fn advance(s: RunState, j: Option<ConvergenceDecision>) -> (r: (RunState, RunAction))
    requires
        run_wf(s),
    ensures
        (r.0, action_model(r.1)) == advance_spec(s, decision_model(j)),
        run_wf(r.0),
{
    if (s.round as usize) < s.total_rounds {
        let next = s.round + 1;
        (
            RunState { phase: RunPhase::Reviewing, round: next, total_rounds: s.total_rounds, previous: s.current, current: s.current },
            RunAction::RunRound { round: next, judgement: j },
        )
    } else {
        (RunState { phase: RunPhase::Finished, ..s }, RunAction::Finish { judgement: j })
    }
}

/// The next state and action of a run after an event.
pub fn review_step(state: &RunState, event: RunEvent) -> (r: (RunState, RunAction))
    requires
        run_wf(*state),
    ensures
        (r.0, action_model(r.1)) == step_spec(*state, event_model(event)),
        run_wf(r.0),
{
    let s = *state;
    match s.phase {
        RunPhase::Reviewing => match event {
            RunEvent::RoundDone { counts, clean } => {
                let t = RunState { current: counts, ..s };
                match round_end(s.round, s.total_rounds, counts.findings, clean) {
                    RoundEnd::SkipRemaining => (
                        RunState { phase: RunPhase::Finished, ..t },
                        RunAction::Finish {
                            judgement: Some(
                                ConvergenceDecision { verdict: ConvergenceVerdict::Converged, rationale: skip_rationale_text() },
                            ),
                        },
                    ),
                    RoundEnd::AskJudge => (RunState { phase: RunPhase::AwaitingJudge, ..t }, RunAction::AskJudge { round: s.round }),
                    RoundEnd::Proceed => advance(t, None),
                }
            },
            RunEvent::JudgeAnswered(_) => (s, RunAction::Ignore),
        },
        RunPhase::AwaitingJudge => match event {
            RunEvent::JudgeAnswered(d) => {
                let j = judgement(d, s.round, s.current, s.previous);
                if j.verdict == ConvergenceVerdict::Converged {
                    (RunState { phase: RunPhase::Finished, ..s }, RunAction::Finish { judgement: Some(j) })
                } else {
                    advance(s, Some(j))
                }
            },
            RunEvent::RoundDone { .. } => (s, RunAction::Ignore),
        },
        RunPhase::Finished => (s, RunAction::Ignore),
    }
}

/// A run never goes back a round and never runs more rounds than it may;
/// once finished it stays finished; and a round is run only while rounds
/// are left.
pub proof fn law_rounds_bounded(s: RunState, e: EventModel)
    requires
        run_wf(s),
    ensures
        ({
            let (t, a) = step_spec(s, e);
            &&& run_wf(t)
            &&& s.round <= t.round <= s.round + 1
            &&& t.total_rounds == s.total_rounds
            &&& (s.phase == RunPhase::Finished ==> t == s && a is Ignore)
            &&& (a matches ActionModel::RunRound { round, .. } ==> round == t.round && round == s.round + 1
                && round as int <= s.total_rounds)
            &&& (a is Finish ==> t.phase == RunPhase::Finished)
        }),
{
}

/// What follows an attempt of the focus analyzer.
#[derive(Clone, Copy, Debug, PartialEq, Eq, Structural)]
pub enum AnalyzerNext {
    /// The attempt succeeded: its focus areas are used.
    UseResult,
    /// The attempt failed and tries are left: try again.
    Retry,
    /// The last try failed: record the failure and use the fallback focus.
    FallBack,
}

/// The tries the focus analyzer gets.
pub fn analyzer_attempts() -> (r: u8)
    ensures
        r == 2,
{
    2
}

/// After try `attempt` (from one) of `attempts`: use a success, else try
/// again while tries are left, else fall back.
pub fn analyzer_next(attempt: u8, attempts: u8, succeeded: bool) -> (r: AnalyzerNext)
    ensures
        r == (if succeeded {
            AnalyzerNext::UseResult
        } else if attempt < attempts {
            AnalyzerNext::Retry
        } else {
            AnalyzerNext::FallBack
        }),
{
    if succeeded {
        AnalyzerNext::UseResult
    } else if attempt < attempts {
        AnalyzerNext::Retry
    } else {
        AnalyzerNext::FallBack
    }
}

} // verus!
