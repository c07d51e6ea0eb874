use mahakala::error::AppError;
use mahakala::rl_environment::{after_reset, after_step, step_outcome, EpisodeCounters, StepOutcome};

#[test]
fn step_guards() {
    match step_outcome(false, false, 0, 10) {
        StepOutcome::Refused(AppError::Internal(m)) => assert_eq!(m, "Environment is not active"),
        _ => panic!("inactive environments refuse"),
    }
    match step_outcome(true, true, 0, 10) {
        StepOutcome::Refused(AppError::Internal(m)) => assert_eq!(m, "Episode is done, please reset"),
        _ => panic!("finished episodes refuse"),
    }
    assert!(matches!(step_outcome(true, false, 10, 10), StepOutcome::OutOfSteps));
    assert!(matches!(step_outcome(true, false, 9, 10), StepOutcome::Advance));
}

#[test]
fn counters_move_with_steps_and_resets() {
    let c = EpisodeCounters { step: 0, total_steps: 0, episode_count: 0 };
    let c = after_step(c, false);
    let c = after_step(c, true);
    assert_eq!(c, EpisodeCounters { step: 2, total_steps: 2, episode_count: 1 });
    assert_eq!(after_reset(c), EpisodeCounters { step: 0, total_steps: 0, episode_count: 1 });
}
