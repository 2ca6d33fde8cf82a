//! The timer's state record, its four commands and the step of the ticking
//! task. Each function takes the clock reading it needs, changes the state
//! and returns, in order, the effects that the host should carry out.

use std::collections::HashSet;
use vstd::prelude::*;
use crate::model::{
    due_notices, fired_by, idle_view, lemma_contains_last, minutes_to_seconds, notice_effects,
    paused, resumed, seconds_left, started, stopped, tick_effects, tick_finishes, ticked, Effect,
    TimerStatus, TimerView, MILLIS_PER_SECOND, SECONDS_PER_MINUTE,
};

verus! {

broadcast use vstd::std_specs::hash::group_hash_axioms;

/// The state of the one countdown.
pub struct TimerState {
    status: TimerStatus,
    /// Present only while running.
    end_at: Option<u64>,
    /// Seconds; authoritative while paused or idle.
    remaining: u64,
    notify_at: Vec<u64>,
    notified: HashSet<u64>,
}

impl View for TimerState {
    type V = TimerView;

    closed spec fn view(&self) -> TimerView {
        TimerView {
            status: self.status,
            deadline: self.end_at,
            remaining_seconds: self.remaining,
            notify_thresholds: self.notify_at@,
            fired_thresholds: self.notified@,
        }
    }
}

impl TimerState {
    /// An idle timer with no thresholds.
    pub fn new() -> (timer: Self)
        ensures
            timer@ == idle_view(),
            timer@.wf(),
    {
        TimerState {
            status: TimerStatus::Idle,
            end_at: None,
            remaining: 0,
            notify_at: Vec::new(),
            notified: HashSet::new(),
        }
    }

    pub fn status(&self) -> (status: TimerStatus)
        ensures
            status == self@.status,
    {
        self.status
    }

    pub fn deadline(&self) -> (deadline: Option<u64>)
        ensures
            deadline == self@.deadline,
    {
        self.end_at
    }

    pub fn remaining_seconds(&self) -> (remaining: u64)
        ensures
            remaining == self@.remaining_seconds,
    {
        self.remaining
    }

    pub fn notify_thresholds(&self) -> (thresholds: &Vec<u64>)
        ensures
            thresholds@ == self@.notify_thresholds,
    {
        &self.notify_at
    }

    /// Whether the threshold has been notified in the current run.
    pub fn has_fired(&self, threshold: u64) -> (fired: bool)
        ensures
            fired == self@.fired_thresholds.contains(threshold),
    {
        self.notified.contains(&threshold)
    }
}

/// Whole seconds from `now` until `deadline`, rounded down and never
/// negative.
pub fn remaining_at(deadline: u64, now: u64) -> (remaining: u64)
    ensures
        remaining == seconds_left(deadline, now),
{
    if now >= deadline {
        0
    } else {
        (deadline - now) / MILLIS_PER_SECOND
    }
}

/// Each entry, given in minutes, as seconds.
fn thresholds_in_seconds(notify_minutes: &Vec<u64>) -> (thresholds: Vec<u64>)
    requires
        forall|i: int|
            0 <= i < notify_minutes@.len() ==> notify_minutes@[i] * SECONDS_PER_MINUTE
                <= u64::MAX,
    ensures
        thresholds@ == minutes_to_seconds(notify_minutes@),
{
    let mut thresholds: Vec<u64> = Vec::new();
    let mut i: usize = 0;
    while i < notify_minutes.len()
        invariant
            i <= notify_minutes@.len(),
            thresholds@ == minutes_to_seconds(notify_minutes@.take(i as int)),
            forall|k: int|
                0 <= k < notify_minutes@.len() ==> notify_minutes@[k] * SECONDS_PER_MINUTE
                    <= u64::MAX,
        decreases notify_minutes@.len() - i,
    {
        thresholds.push(notify_minutes[i] * SECONDS_PER_MINUTE);
        i += 1;
        assert(thresholds@ =~= minutes_to_seconds(notify_minutes@.take(i as int)));
    }
    assert(notify_minutes@.take(i as int) =~= notify_minutes@);
    thresholds
}

/// Begins a countdown of `minutes` at `now`, with a notice at each of
/// `notify_minutes` minutes remaining. Whatever the timer was doing is
/// replaced. Reports the new status, then the first tick.
pub fn start_timer(timer: &mut TimerState, now: u64, minutes: u64, notify_minutes: Vec<u64>) -> (effects:
    Vec<Effect>)
    requires
        now + minutes * SECONDS_PER_MINUTE * MILLIS_PER_SECOND <= u64::MAX,
        forall|i: int|
            0 <= i < notify_minutes@.len() ==> notify_minutes@[i] * SECONDS_PER_MINUTE
                <= u64::MAX,
    ensures
        final(timer)@ == started(now, minutes, notify_minutes@),
        final(timer)@.wf(),
        effects@ == seq![
            Effect::Status(TimerStatus::Running),
            Effect::Tick((minutes * SECONDS_PER_MINUTE) as u64),
        ],
{
    let total_seconds: u64 = minutes * SECONDS_PER_MINUTE;
    let end_at: u64 = now + total_seconds * MILLIS_PER_SECOND;
    timer.status = TimerStatus::Running;
    timer.remaining = total_seconds;
    timer.end_at = Some(end_at);
    timer.notify_at = thresholds_in_seconds(&notify_minutes);
    timer.notified.clear();
    let first_tick: u64 = remaining_at(end_at, now);
    assert(first_tick == total_seconds) by (nonlinear_arith)
        requires
            end_at == now + total_seconds * 1000,
            first_tick == seconds_left(end_at, now),
            total_seconds >= 0,
    ;
    let mut effects: Vec<Effect> = Vec::new();
    effects.push(Effect::Status(TimerStatus::Running));
    effects.push(Effect::Tick(first_tick));
    assert(effects@ =~= seq![
        Effect::Status(TimerStatus::Running),
        Effect::Tick((minutes * SECONDS_PER_MINUTE) as u64),
    ]);
    effects
}

/// Suspends a running countdown at `now` and reports the new status. On a
/// timer that is not running it changes nothing and reports nothing.
pub fn pause_timer(timer: &mut TimerState, now: u64) -> (effects: Vec<Effect>)
    ensures
        final(timer)@ == paused(old(timer)@, now),
        old(timer)@.wf() ==> final(timer)@.wf(),
        old(timer)@.status != TimerStatus::Running ==> final(timer)@ == old(timer)@,
        effects@ == if old(timer)@.status == TimerStatus::Running {
            seq![Effect::Status(TimerStatus::Paused)]
        } else {
            Seq::<Effect>::empty()
        },
{
    let mut effects: Vec<Effect> = Vec::new();
    match timer.status {
        TimerStatus::Running => {},
        _ => {
            return effects;
        },
    }
    match timer.end_at {
        Some(end_at) => {
            timer.remaining = remaining_at(end_at, now);
        },
        None => {},
    }
    timer.end_at = None;
    timer.status = TimerStatus::Paused;
    effects.push(Effect::Status(TimerStatus::Paused));
    assert(effects@ =~= seq![Effect::Status(TimerStatus::Paused)]);
    effects
}

/// Continues a paused countdown at `now` and reports the new status. On a
/// timer that is not paused it changes nothing and reports nothing.
pub fn resume_timer(timer: &mut TimerState, now: u64) -> (effects: Vec<Effect>)
    requires
        old(timer)@.status == TimerStatus::Paused ==> now + old(timer)@.remaining_seconds
            * MILLIS_PER_SECOND <= u64::MAX,
    ensures
        final(timer)@ == resumed(old(timer)@, now),
        old(timer)@.wf() ==> final(timer)@.wf(),
        old(timer)@.status != TimerStatus::Paused ==> final(timer)@ == old(timer)@,
        effects@ == if old(timer)@.status == TimerStatus::Paused {
            seq![Effect::Status(TimerStatus::Running)]
        } else {
            Seq::<Effect>::empty()
        },
{
    let mut effects: Vec<Effect> = Vec::new();
    match timer.status {
        TimerStatus::Paused => {},
        _ => {
            return effects;
        },
    }
    timer.end_at = Some(now + timer.remaining * MILLIS_PER_SECOND);
    timer.status = TimerStatus::Running;
    effects.push(Effect::Status(TimerStatus::Running));
    assert(effects@ =~= seq![Effect::Status(TimerStatus::Running)]);
    effects
}

/// Cancels the countdown, whatever its status, and reports a tick of zero,
/// then the idle status.
pub fn stop_timer(timer: &mut TimerState) -> (effects: Vec<Effect>)
    ensures
        final(timer)@ == stopped(old(timer)@),
        final(timer)@.wf(),
        final(timer)@.status == TimerStatus::Idle,
        final(timer)@.deadline.is_none(),
        final(timer)@.remaining_seconds == 0,
        final(timer)@.fired_thresholds == Set::<u64>::empty(),
        final(timer)@.notify_thresholds == old(timer)@.notify_thresholds,
        effects@ == seq![Effect::Tick(0), Effect::Status(TimerStatus::Idle)],
{
    timer.status = TimerStatus::Idle;
    timer.end_at = None;
    timer.remaining = 0;
    timer.notified.clear();
    let mut effects: Vec<Effect> = Vec::new();
    effects.push(Effect::Tick(0));
    effects.push(Effect::Status(TimerStatus::Idle));
    assert(effects@ =~= seq![Effect::Tick(0), Effect::Status(TimerStatus::Idle)]);
    effects
}

/// Appending a threshold to the due ones appends its notice.
proof fn lemma_notice_effects_push(due: Seq<u64>, t: u64)
    ensures
        notice_effects(due.push(t)) == notice_effects(due).push(Effect::ThresholdNotice(t)),
{
    assert(notice_effects(due.push(t)) =~= notice_effects(due).push(Effect::ThresholdNotice(t)));
}

/// One step of the ticking task, taken at `now` after its one-second wait.
/// Unless the timer is counting, nothing changes and nothing is reported.
/// Else the remaining time is read off the deadline and reported, each
/// threshold that is due and has not fired yet is notified once and marked as
/// fired, and at zero the timer turns idle, with the completion notice and
/// the status report. The result says whether the task ends here.
pub fn tick_timer(timer: &mut TimerState, now: u64) -> (outcome: (Vec<Effect>, bool))
    ensures
        final(timer)@ == ticked(old(timer)@, now),
        old(timer)@.wf() ==> final(timer)@.wf(),
        outcome.0@ == tick_effects(old(timer)@, now),
        outcome.1 == tick_finishes(old(timer)@, now),
        !old(timer)@.is_counting() ==> final(timer)@ == old(timer)@ && outcome.0@.len() == 0,
{
    let mut effects: Vec<Effect> = Vec::new();
    match timer.status {
        TimerStatus::Running => {},
        _ => {
            return (effects, false);
        },
    }
    let end_at: u64 = match timer.end_at {
        Some(t) => t,
        None => {
            return (effects, false);
        },
    };
    let remaining: u64 = remaining_at(end_at, now);
    timer.remaining = remaining;
    effects.push(Effect::Tick(remaining));
    let ghost thresholds = timer.notify_at@;
    let ghost fired = timer.notified@;
    let ghost mut due: Seq<u64> = Seq::empty();
    let mut i: usize = 0;
    while i < timer.notify_at.len()
        invariant
            i <= thresholds.len(),
            timer.notify_at@ == thresholds,
            timer.status == old(timer).status,
            timer.end_at == old(timer).end_at,
            timer.remaining == remaining,
            due == due_notices(thresholds.take(i as int), fired, remaining),
            timer.notified@ == fired_by(thresholds.take(i as int), fired, remaining),
            effects@ == seq![Effect::Tick(remaining)] + notice_effects(due),
        decreases thresholds.len() - i,
    {
        let notify_sec: u64 = timer.notify_at[i];
        let ghost earlier = thresholds.take(i as int);
        let ghost upto = thresholds.take(i as int + 1);
        proof {
            assert(upto.drop_last() =~= earlier);
            assert(upto.last() == notify_sec);
            assert forall|t: u64| upto.contains(t) <==> (earlier.contains(t) || t == notify_sec) by {
                lemma_contains_last(upto, t);
            }
        }
        if remaining <= notify_sec && !timer.notified.contains(&notify_sec) {
            effects.push(Effect::ThresholdNotice(notify_sec));
            timer.notified.insert(notify_sec);
            proof {
                lemma_notice_effects_push(due, notify_sec);
                due = due.push(notify_sec);
                assert(effects@ =~= seq![Effect::Tick(remaining)] + notice_effects(due));
            }
        }
        i += 1;
        assert(timer.notified@ =~= fired_by(upto, fired, remaining));
    }
    assert(thresholds.take(i as int) =~= thresholds);
    let finished: bool = remaining == 0;
    if finished {
        timer.status = TimerStatus::Idle;
        timer.end_at = None;
        effects.push(Effect::FinishedNotice);
        effects.push(Effect::Status(TimerStatus::Idle));
    }
    assert(effects@ =~= tick_effects(old(timer)@, now));
    (effects, finished)
}

} // verus!
