//! The vCPU run loop's decisions: keep stepping, stop, or fail.
use vstd::prelude::*;

verus! {

/// How one step of a vCPU ended.
#[derive(Debug, Clone, PartialEq, Eq)]
pub enum StepOutcome {
    /// The exit was handled; whether the guest keeps running.
    Ran(bool),
    /// The run was interrupted (a kick to look at the shutdown flag).
    Interrupted,
    /// The run failed.
    Failed(String),
}

/// What the run loop does next.
#[derive(Debug, Clone, PartialEq, Eq)]
pub enum RunAction {
    Continue,
    Stop,
    Fail(String),
}

/// The loop's decision after a step: an interrupted run goes round again
/// (the shutdown flag is checked there), a failure ends the loop with an
/// error, and a handled exit continues while the guest runs.
pub fn next_run_action(outcome: StepOutcome) -> (r: RunAction)
    ensures
        outcome == StepOutcome::Ran(true) ==> r == RunAction::Continue,
        outcome == StepOutcome::Ran(false) ==> r == RunAction::Stop,
        outcome == StepOutcome::Interrupted ==> r == RunAction::Continue,
        outcome matches StepOutcome::Failed(e) ==> r == RunAction::Fail(e),
{
    match outcome {
        StepOutcome::Ran(true) => RunAction::Continue,
        StepOutcome::Ran(false) => RunAction::Stop,
        StepOutcome::Interrupted => RunAction::Continue,
        StepOutcome::Failed(e) => RunAction::Fail(e),
    }
}

} // verus!
