use countdown_timer::model::{Effect, TimerStatus};
use countdown_timer::timer::{
    pause_timer, remaining_at, resume_timer, start_timer, stop_timer, tick_timer, TimerState,
};

#[test]
fn new_timer_is_idle_and_empty() {
    let timer = TimerState::new();
    assert_eq!(timer.status(), TimerStatus::Idle);
    assert_eq!(timer.deadline(), None);
    assert_eq!(timer.remaining_seconds(), 0);
    assert!(timer.notify_thresholds().is_empty());
    assert!(!timer.has_fired(0));
}

#[test]
fn start_sets_state_and_reports_status_then_tick() {
    let mut timer = TimerState::new();
    let effects = start_timer(&mut timer, 5_000, 5, vec![2, 1]);
    assert_eq!(
        effects,
        vec![Effect::Status(TimerStatus::Running), Effect::Tick(300)]
    );
    assert_eq!(timer.status(), TimerStatus::Running);
    assert_eq!(timer.remaining_seconds(), 300);
    assert_eq!(timer.deadline(), Some(305_000));
    assert_eq!(timer.notify_thresholds(), &vec![120, 60]);
    assert!(!timer.has_fired(120));
    assert!(!timer.has_fired(60));
}

#[test]
fn start_with_zero_duration_expires_at_first_step() {
    let mut timer = TimerState::new();
    let effects = start_timer(&mut timer, 42, 0, vec![]);
    assert_eq!(
        effects,
        vec![Effect::Status(TimerStatus::Running), Effect::Tick(0)]
    );
    assert_eq!(timer.deadline(), Some(42));
    let (effects, finished) = tick_timer(&mut timer, 1_042);
    assert!(finished);
    assert_eq!(
        effects,
        vec![
            Effect::Tick(0),
            Effect::FinishedNotice,
            Effect::Status(TimerStatus::Idle)
        ]
    );
    assert_eq!(timer.status(), TimerStatus::Idle);
    assert_eq!(timer.deadline(), None);
}

#[test]
fn start_again_replaces_thresholds_and_clears_fired() {
    let mut timer = TimerState::new();
    start_timer(&mut timer, 0, 1, vec![1]);
    tick_timer(&mut timer, 1_000);
    assert!(timer.has_fired(60));
    let effects = start_timer(&mut timer, 2_000, 2, vec![1, 0]);
    assert_eq!(
        effects,
        vec![Effect::Status(TimerStatus::Running), Effect::Tick(120)]
    );
    assert_eq!(timer.deadline(), Some(122_000));
    assert_eq!(timer.notify_thresholds(), &vec![60, 0]);
    assert!(!timer.has_fired(60));
}

#[test]
fn remaining_rounds_down_and_saturates() {
    assert_eq!(remaining_at(10_000, 0), 10);
    assert_eq!(remaining_at(10_000, 1), 9);
    assert_eq!(remaining_at(10_000, 9_000), 1);
    assert_eq!(remaining_at(10_000, 9_001), 0);
    assert_eq!(remaining_at(10_000, 10_000), 0);
    assert_eq!(remaining_at(10_000, 99_000), 0);
}

#[test]
fn pause_keeps_remaining_and_reports_paused() {
    let mut timer = TimerState::new();
    start_timer(&mut timer, 0, 5, vec![]);
    let effects = pause_timer(&mut timer, 61_500);
    assert_eq!(effects, vec![Effect::Status(TimerStatus::Paused)]);
    assert_eq!(timer.status(), TimerStatus::Paused);
    assert_eq!(timer.deadline(), None);
    assert_eq!(timer.remaining_seconds(), 238);
}

#[test]
fn pause_when_not_running_changes_nothing() {
    let mut timer = TimerState::new();
    assert!(pause_timer(&mut timer, 10).is_empty());
    assert_eq!(timer.status(), TimerStatus::Idle);
    assert_eq!(timer.remaining_seconds(), 0);
    assert_eq!(timer.deadline(), None);

    start_timer(&mut timer, 0, 1, vec![1]);
    pause_timer(&mut timer, 10_000);
    let effects = pause_timer(&mut timer, 20_000);
    assert!(effects.is_empty());
    assert_eq!(timer.status(), TimerStatus::Paused);
    assert_eq!(timer.remaining_seconds(), 50);
    assert_eq!(timer.deadline(), None);
    assert_eq!(timer.notify_thresholds(), &vec![60]);
}

#[test]
fn resume_when_not_paused_changes_nothing() {
    let mut timer = TimerState::new();
    assert!(resume_timer(&mut timer, 10).is_empty());
    assert_eq!(timer.status(), TimerStatus::Idle);
    assert_eq!(timer.deadline(), None);

    start_timer(&mut timer, 0, 1, vec![]);
    let effects = resume_timer(&mut timer, 5_000);
    assert!(effects.is_empty());
    assert_eq!(timer.status(), TimerStatus::Running);
    assert_eq!(timer.deadline(), Some(60_000));
    assert_eq!(timer.remaining_seconds(), 60);
}

#[test]
fn resume_sets_deadline_from_remaining() {
    let mut timer = TimerState::new();
    start_timer(&mut timer, 0, 5, vec![]);
    pause_timer(&mut timer, 60_000);
    let effects = resume_timer(&mut timer, 1_000_000);
    assert_eq!(effects, vec![Effect::Status(TimerStatus::Running)]);
    assert_eq!(timer.status(), TimerStatus::Running);
    assert_eq!(timer.remaining_seconds(), 240);
    assert_eq!(timer.deadline(), Some(1_240_000));
}

#[test]
fn pause_resume_round_trip_ends_after_the_remainder() {
    let mut timer = TimerState::new();
    start_timer(&mut timer, 0, 2, vec![]);
    pause_timer(&mut timer, 30_000);
    assert_eq!(timer.remaining_seconds(), 90);
    resume_timer(&mut timer, 500_000);
    let (_, finished) = tick_timer(&mut timer, 589_000);
    assert!(!finished);
    assert_eq!(timer.remaining_seconds(), 1);
    let (effects, finished) = tick_timer(&mut timer, 590_000);
    assert!(finished);
    assert_eq!(effects[0], Effect::Tick(0));
    assert_eq!(timer.status(), TimerStatus::Idle);
}

#[test]
fn stop_resets_from_every_status() {
    let mut idle = TimerState::new();
    assert_eq!(
        stop_timer(&mut idle),
        vec![Effect::Tick(0), Effect::Status(TimerStatus::Idle)]
    );
    assert_eq!(idle.status(), TimerStatus::Idle);
    assert_eq!(idle.remaining_seconds(), 0);

    let mut running = TimerState::new();
    start_timer(&mut running, 0, 3, vec![3]);
    tick_timer(&mut running, 1_000);
    assert!(running.has_fired(180));
    assert_eq!(
        stop_timer(&mut running),
        vec![Effect::Tick(0), Effect::Status(TimerStatus::Idle)]
    );
    assert_eq!(running.status(), TimerStatus::Idle);
    assert_eq!(running.deadline(), None);
    assert_eq!(running.remaining_seconds(), 0);
    assert!(!running.has_fired(180));
    assert_eq!(running.notify_thresholds(), &vec![180]);

    let mut paused = TimerState::new();
    start_timer(&mut paused, 0, 3, vec![]);
    pause_timer(&mut paused, 2_000);
    assert_eq!(
        stop_timer(&mut paused),
        vec![Effect::Tick(0), Effect::Status(TimerStatus::Idle)]
    );
    assert_eq!(paused.status(), TimerStatus::Idle);
    assert_eq!(paused.remaining_seconds(), 0);
    assert_eq!(paused.deadline(), None);
}

#[test]
fn step_does_nothing_unless_running() {
    let mut timer = TimerState::new();
    let (effects, finished) = tick_timer(&mut timer, 1_000);
    assert!(effects.is_empty());
    assert!(!finished);
    assert_eq!(timer.status(), TimerStatus::Idle);

    start_timer(&mut timer, 0, 1, vec![1]);
    pause_timer(&mut timer, 500);
    let (effects, finished) = tick_timer(&mut timer, 100_000);
    assert!(effects.is_empty());
    assert!(!finished);
    assert_eq!(timer.status(), TimerStatus::Paused);
    assert_eq!(timer.remaining_seconds(), 59);
    assert!(!timer.has_fired(60));
}

#[test]
fn step_fires_due_thresholds_in_order_once_each() {
    let mut timer = TimerState::new();
    start_timer(&mut timer, 0, 10, vec![1, 5, 1, 3, 5]);
    let (effects, finished) = tick_timer(&mut timer, 421_000);
    assert!(!finished);
    assert_eq!(
        effects,
        vec![
            Effect::Tick(179),
            Effect::ThresholdNotice(300),
            Effect::ThresholdNotice(180)
        ]
    );
    assert!(timer.has_fired(300));
    assert!(timer.has_fired(180));
    assert!(!timer.has_fired(60));
    let (effects, _) = tick_timer(&mut timer, 422_000);
    assert_eq!(effects, vec![Effect::Tick(178)]);
    let (effects, _) = tick_timer(&mut timer, 540_000);
    assert_eq!(
        effects,
        vec![Effect::Tick(60), Effect::ThresholdNotice(60)]
    );
}

#[test]
fn step_after_the_end_emits_nothing_more() {
    let mut timer = TimerState::new();
    start_timer(&mut timer, 0, 1, vec![]);
    let (_, finished) = tick_timer(&mut timer, 60_000);
    assert!(finished);
    let (effects, finished) = tick_timer(&mut timer, 61_000);
    assert!(effects.is_empty());
    assert!(!finished);
    assert_eq!(timer.status(), TimerStatus::Idle);
    assert_eq!(timer.remaining_seconds(), 0);
}
