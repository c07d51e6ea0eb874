//! Reinforcement-learning environments: whether a step may be taken, and the episode
//! counters a step moves. Observations and rewards are floating-point and are computed
//! outside the library.

use vstd::prelude::*;
use crate::error::AppError;
use crate::text::str_to_string;

verus! {

/// What happens when a step is asked of an environment.
#[derive(Debug)]
pub enum StepOutcome {
    /// The step is refused with this error.
    Refused(AppError),
    /// The episode has used all its steps: it is marked done and the state returned as is.
    OutOfSteps,
    /// The step is taken.
    Advance,
}

/// Whether an environment that is `active`, whose episode is `done` or not, at `step`
/// of at most `max_steps`, takes a step: an inactive environment refuses, then a finished
/// episode refuses, then an episode at its last step ends.
pub fn step_outcome(active: bool, done: bool, step: usize, max_steps: usize) -> (r: StepOutcome)
    ensures
        !active ==> (r matches StepOutcome::Refused(AppError::Internal(m))
            && m@ == "Environment is not active"@),
        active && done ==> (r matches StepOutcome::Refused(AppError::Internal(m))
            && m@ == "Episode is done, please reset"@),
        active && !done && step >= max_steps ==> r is OutOfSteps,
        active && !done && step < max_steps ==> r is Advance,
{
    if !active {
        StepOutcome::Refused(AppError::Internal(str_to_string("Environment is not active")))
    } else if done {
        StepOutcome::Refused(AppError::Internal(str_to_string("Episode is done, please reset")))
    } else if step >= max_steps {
        StepOutcome::OutOfSteps
    } else {
        StepOutcome::Advance
    }
}

/// An environment's counters: the step of the current episode, the steps taken over all
/// episodes, and the episodes finished.
#[derive(Debug, Clone, Copy, PartialEq, Eq, Structural)]
pub struct EpisodeCounters {
    pub step: usize,
    pub total_steps: usize,
    pub episode_count: usize,
}

/// The counters after a step that was taken: one more step in the episode and overall,
/// and one more finished episode when the step ended it.
pub fn after_step(c: EpisodeCounters, done: bool) -> (r: EpisodeCounters)
    requires
        c.step < usize::MAX,
        c.total_steps < usize::MAX,
        c.episode_count < usize::MAX,
    ensures
        r.step == c.step + 1,
        r.total_steps == c.total_steps + 1,
        r.episode_count == c.episode_count + if done { 1int } else { 0int },
{
    EpisodeCounters {
        step: c.step + 1,
        total_steps: c.total_steps + 1,
        episode_count: if done { c.episode_count + 1 } else { c.episode_count },
    }
}

/// The counters after a reset: a new episode at step zero with no steps counted; the
/// finished episodes stay counted.
pub fn after_reset(c: EpisodeCounters) -> (r: EpisodeCounters)
    ensures
        r == (EpisodeCounters { step: 0, total_steps: 0, episode_count: c.episode_count }),
{
    EpisodeCounters { step: 0, total_steps: 0, episode_count: c.episode_count }
}

} // verus!
