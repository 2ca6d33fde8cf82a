//! What holds of the transitions over whole runs of the ticking task.

use vstd::prelude::*;
use crate::model::{
    due_notices, finish_effects, lemma_contains_last, notice_effects, paused, resumed, seconds_left, started, stopped,
    tick_effects, tick_finishes, ticked, Effect, TimerStatus, TimerView, MILLIS_PER_SECOND,
    SECONDS_PER_MINUTE,
};

verus! {

/// How often `e` stands in `effects`.
pub open spec fn occurrences(effects: Seq<Effect>, e: Effect) -> nat
    decreases effects.len(),
{
    if effects.len() == 0 {
        0
    } else {
        occurrences(effects.drop_last(), e) + if effects.last() == e {
            1nat
        } else {
            0nat
        }
    }
}

/// The state after one step of the ticking task at each of `times` in turn,
/// with no command in between.
pub open spec fn run_ticks(s: TimerView, times: Seq<u64>) -> TimerView
    decreases times.len(),
{
    if times.len() == 0 {
        s
    } else {
        ticked(run_ticks(s, times.drop_last()), times.last())
    }
}

/// All that those steps emit, in order.
pub open spec fn run_effects(s: TimerView, times: Seq<u64>) -> Seq<Effect>
    decreases times.len(),
{
    if times.len() == 0 {
        Seq::empty()
    } else {
        run_effects(s, times.drop_last()) + tick_effects(
            run_ticks(s, times.drop_last()),
            times.last(),
        )
    }
}

/// Whether at one of `times` at most `level` seconds are left until
/// `deadline`.
pub open spec fn reaches(deadline: u64, times: Seq<u64>, level: u64) -> bool {
    exists|i: int| 0 <= i < times.len() && seconds_left(deadline, #[trigger] times[i]) <= level
}

proof fn lemma_occurrences_concat(a: Seq<Effect>, b: Seq<Effect>, e: Effect)
    ensures
        occurrences(a + b, e) == occurrences(a, e) + occurrences(b, e),
    decreases b.len(),
{
    if b.len() == 0 {
        assert(a + b =~= a);
    } else {
        lemma_occurrences_concat(a, b.drop_last(), e);
        assert((a + b).drop_last() =~= a + b.drop_last());
        assert((a + b).last() == b.last());
    }
}

proof fn lemma_occurrences_one(x: Effect, e: Effect)
    ensures
        occurrences(seq![x], e) == if x == e { 1nat } else { 0nat },
{
    assert(seq![x].drop_last() =~= Seq::<Effect>::empty());
    assert(seq![x].last() == x);
    assert(occurrences(seq![x].drop_last(), e) == 0);
}

proof fn lemma_occurrences_finish(remaining: u64, e: Effect)
    ensures
        occurrences(finish_effects(remaining), e) == if remaining == 0 && (e
            == Effect::FinishedNotice || e == Effect::Status(TimerStatus::Idle)) {
            1nat
        } else {
            0nat
        },
{
    if remaining == 0 {
        let a = seq![Effect::FinishedNotice];
        let b = seq![Effect::Status(TimerStatus::Idle)];
        assert(finish_effects(remaining) =~= a + b);
        lemma_occurrences_concat(a, b, e);
        lemma_occurrences_one(Effect::FinishedNotice, e);
        lemma_occurrences_one(Effect::Status(TimerStatus::Idle), e);
    }
}

/// Among the notices of one step, the one for `t` stands once if `t` is a
/// threshold that is due and has not fired, and else not at all; nothing but
/// threshold notices stands among them.
pub proof fn due_notices_occurrences(
    thresholds: Seq<u64>,
    fired: Set<u64>,
    remaining: u64,
    e: Effect,
)
    ensures
        occurrences(notice_effects(due_notices(thresholds, fired, remaining)), e) == match e {
            Effect::ThresholdNotice(t) => if thresholds.contains(t) && remaining <= t
                && !fired.contains(t) {
                1nat
            } else {
                0nat
            },
            _ => 0nat,
        },
    decreases thresholds.len(),
{
    if thresholds.len() == 0 {
        assert(notice_effects(due_notices(thresholds, fired, remaining)) =~= Seq::<
            Effect,
        >::empty());
        if let Effect::ThresholdNotice(t) = e {
            assert(!thresholds.contains(t));
        }
    } else {
        let earlier = thresholds.drop_last();
        let last = thresholds.last();
        let before = due_notices(earlier, fired, remaining);
        due_notices_occurrences(earlier, fired, remaining, e);
        if let Effect::ThresholdNotice(t) = e {
            lemma_contains_last(thresholds, t);
        }
        if remaining <= last && !fired.contains(last) && !earlier.contains(last) {
            assert(notice_effects(before.push(last)) =~= notice_effects(before).push(
                Effect::ThresholdNotice(last),
            ));
            assert(notice_effects(before).push(Effect::ThresholdNotice(last)).drop_last()
                =~= notice_effects(before));
        }
    }
}

/// How often `e` stands among the effects of one step of a counting timer.
proof fn lemma_tick_occurrences(s: TimerView, now: u64, e: Effect)
    requires
        s.is_counting(),
    ensures
        occurrences(tick_effects(s, now), e) == ({
            let remaining = seconds_left(s.deadline.unwrap(), now);
            match e {
                Effect::Tick(r) => if r == remaining { 1nat } else { 0nat },
                Effect::ThresholdNotice(t) => if s.notify_thresholds.contains(t) && remaining <= t
                    && !s.fired_thresholds.contains(t) {
                    1nat
                } else {
                    0nat
                },
                _ => if remaining == 0 && (e == Effect::FinishedNotice || e == Effect::Status(
                    TimerStatus::Idle,
                )) {
                    1nat
                } else {
                    0nat
                },
            }
        }),
{
    let remaining = seconds_left(s.deadline.unwrap(), now);
    let head = seq![Effect::Tick(remaining)];
    let notices = notice_effects(due_notices(s.notify_thresholds, s.fired_thresholds, remaining));
    let tail = finish_effects(remaining);
    lemma_occurrences_concat(head + notices, tail, e);
    lemma_occurrences_concat(head, notices, e);
    lemma_occurrences_one(Effect::Tick(remaining), e);
    due_notices_occurrences(s.notify_thresholds, s.fired_thresholds, remaining, e);
    lemma_occurrences_finish(remaining, e);
}

proof fn lemma_reaches_push(deadline: u64, times: Seq<u64>, level: u64)
    requires
        times.len() > 0,
    ensures
        reaches(deadline, times, level) <==> (reaches(deadline, times.drop_last(), level)
            || seconds_left(deadline, times.last()) <= level),
{
    let init = times.drop_last();
    if reaches(deadline, times, level) {
        let i = choose|i: int|
            0 <= i < times.len() && seconds_left(deadline, #[trigger] times[i]) <= level;
        if i < times.len() - 1 {
            assert(seconds_left(deadline, init[i]) <= level);
        }
    }
    if reaches(deadline, init, level) {
        let i = choose|i: int|
            0 <= i < init.len() && seconds_left(deadline, #[trigger] init[i]) <= level;
        assert(seconds_left(deadline, times[i]) <= level);
    }
    if seconds_left(deadline, times.last()) <= level {
        assert(seconds_left(deadline, times[times.len() - 1]) <= level);
    }
}

proof fn lemma_reaches_above(deadline: u64, times: Seq<u64>, low: u64, level: u64)
    requires
        low <= level,
        reaches(deadline, times, low),
    ensures
        reaches(deadline, times, level),
{
    let i = choose|i: int|
        0 <= i < times.len() && seconds_left(deadline, #[trigger] times[i]) <= low;
    assert(seconds_left(deadline, times[i]) <= level);
}

/// The state of a counting timer after a run of steps, and how often `e` was
/// emitted in it.
proof fn lemma_run(s: TimerView, times: Seq<u64>, e: Effect)
    requires
        s.is_counting(),
    ensures
        ({
            let d = s.deadline.unwrap();
            let end = run_ticks(s, times);
            let done = reaches(d, times, 0);
            &&& end.notify_thresholds == s.notify_thresholds
            &&& end.status == if done { TimerStatus::Idle } else { TimerStatus::Running }
            &&& end.deadline == if done { None } else { Some(d) }
            &&& forall|t: u64|
                end.fired_thresholds.contains(t) <==> (s.fired_thresholds.contains(t) || (
                s.notify_thresholds.contains(t) && reaches(d, times, t)))
            &&& match e {
                Effect::Tick(r) => r == 0 ==> occurrences(run_effects(s, times), e) == if done {
                    1nat
                } else {
                    0nat
                },
                Effect::ThresholdNotice(t) => occurrences(run_effects(s, times), e)
                    == if s.notify_thresholds.contains(t) && !s.fired_thresholds.contains(t)
                    && reaches(d, times, t) {
                    1nat
                } else {
                    0nat
                },
                _ => occurrences(run_effects(s, times), e) == if done && (e
                    == Effect::FinishedNotice || e == Effect::Status(TimerStatus::Idle)) {
                    1nat
                } else {
                    0nat
                },
            }
        }),
    decreases times.len(),
{
    let d = s.deadline.unwrap();
    if times.len() == 0 {
        assert(!reaches(d, times, 0));
        assert forall|t: u64| !reaches(d, times, t) by {}
    } else {
        let init = times.drop_last();
        let now = times.last();
        let mid = run_ticks(s, init);
        let remaining = seconds_left(d, now);
        lemma_run(s, init, e);
        lemma_reaches_push(d, times, 0);
        lemma_occurrences_concat(run_effects(s, init), tick_effects(mid, now), e);
        assert forall|t: u64|
            reaches(d, times, t) <==> (reaches(d, init, t) || remaining <= t) by {
            lemma_reaches_push(d, times, t);
        }
        assert forall|t: u64| reaches(d, init, 0) implies #[trigger] reaches(d, init, t) by {
            lemma_reaches_above(d, init, 0, t);
        }
        if mid.is_counting() {
            lemma_tick_occurrences(mid, now, e);
        } else {
            assert(tick_effects(mid, now) =~= Seq::<Effect>::empty());
        }
    }
}

/// A counting timer that is stepped at `times`, with no command in between,
/// turns idle exactly if one of the steps finds no whole second left, and
/// else keeps running towards the same deadline. In the first case the steps
/// emit exactly one tick of zero, one completion notice and one report of
/// the idle status; in the second none of them.
pub proof fn countdown_finishes_once(s: TimerView, times: Seq<u64>)
    requires
        s.is_counting(),
    ensures
        ({
            let done = reaches(s.deadline.unwrap(), times, 0);
            let count: nat = if done { 1 } else { 0 };
            &&& run_ticks(s, times).status == if done {
                TimerStatus::Idle
            } else {
                TimerStatus::Running
            }
            &&& run_ticks(s, times).deadline == if done { None } else { s.deadline }
            &&& occurrences(run_effects(s, times), Effect::Tick(0)) == count
            &&& occurrences(run_effects(s, times), Effect::FinishedNotice) == count
            &&& occurrences(run_effects(s, times), Effect::Status(TimerStatus::Idle)) == count
        }),
{
    lemma_run(s, times, Effect::Tick(0));
    lemma_run(s, times, Effect::FinishedNotice);
    lemma_run(s, times, Effect::Status(TimerStatus::Idle));
}

/// A step at or after the moment at which the whole duration has elapsed
/// since the start finds no time left, and so ends the countdown.
pub proof fn started_countdown_expires(now: u64, minutes: u64, notify_minutes: Seq<u64>, at: u64)
    requires
        now + minutes * SECONDS_PER_MINUTE * MILLIS_PER_SECOND <= u64::MAX,
        at >= now + minutes * SECONDS_PER_MINUTE * MILLIS_PER_SECOND,
    ensures
        tick_finishes(started(now, minutes, notify_minutes), at),
        ticked(started(now, minutes, notify_minutes), at).status == TimerStatus::Idle,
{
}

/// In a run of steps of a counting timer, with no command in between, the
/// notice for `t` is emitted once if `t` is a threshold that had not fired
/// and some step finds at most `t` seconds left, and else not at all. As
/// this holds of every run, it holds of each run cut off before the first
/// such step, which emits none, and of the run up to it, which emits the one:
/// the notice comes at the first step that finds at most `t` seconds left.
pub proof fn threshold_fires_once(s: TimerView, times: Seq<u64>, t: u64)
    requires
        s.is_counting(),
    ensures
        occurrences(run_effects(s, times), Effect::ThresholdNotice(t)) == if s.notify_thresholds.contains(
            t,
        ) && !s.fired_thresholds.contains(t) && reaches(s.deadline.unwrap(), times, t) {
            1nat
        } else {
            0nat
        },
        run_ticks(s, times).fired_thresholds.contains(t) <==> (s.fired_thresholds.contains(t) || (
        s.notify_thresholds.contains(t) && reaches(s.deadline.unwrap(), times, t))),
{
    lemma_run(s, times, Effect::ThresholdNotice(t));
}

/// A countdown that is paused before its time is up and resumed later keeps
/// what was left at the pause: the duration less the time that had passed,
/// rounded down to whole seconds. After the resume it ends once that
/// remainder has passed since the resume, and not before the last second of
/// it has begun, however long the pause was.
pub proof fn pause_resume_round_trip(
    now: u64,
    minutes: u64,
    notify_minutes: Seq<u64>,
    pause_at: u64,
    resume_at: u64,
)
    requires
        now + minutes * SECONDS_PER_MINUTE * MILLIS_PER_SECOND <= u64::MAX,
        now <= pause_at < now + minutes * SECONDS_PER_MINUTE * MILLIS_PER_SECOND,
        resume_at + minutes * SECONDS_PER_MINUTE * MILLIS_PER_SECOND <= u64::MAX,
    ensures
        ({
            let total = minutes * SECONDS_PER_MINUTE;
            let elapsed = pause_at - now;
            let held = paused(started(now, minutes, notify_minutes), pause_at);
            let again = resumed(held, resume_at);
            let left = held.remaining_seconds;
            &&& held.status == TimerStatus::Paused
            &&& held.deadline.is_none()
            &&& left == (total * MILLIS_PER_SECOND - elapsed) / (MILLIS_PER_SECOND as int)
            &&& total - left - 1 <= elapsed / (MILLIS_PER_SECOND as int) <= total - left
            &&& again.status == TimerStatus::Running
            &&& again.remaining_seconds == left
            &&& again.deadline == Some((resume_at + left * MILLIS_PER_SECOND) as u64)
            &&& again.fired_thresholds == held.fired_thresholds
            &&& again.wf()
            &&& forall|at: u64|
                at >= resume_at + left * MILLIS_PER_SECOND ==> #[trigger] tick_finishes(again, at)
            &&& forall|at: u64|
                at + MILLIS_PER_SECOND <= resume_at + left * MILLIS_PER_SECOND
                    ==> !#[trigger] tick_finishes(again, at)
        }),
{
    let total = minutes * SECONDS_PER_MINUTE;
    let elapsed = pause_at - now;
    let left = (total * 1000 - elapsed) / 1000;
    assert(0 <= left <= total && total - left - 1 <= elapsed / 1000 <= total - left);
    assert(left * 1000 <= total * 1000) by (nonlinear_arith)
        requires
            left <= total,
    ;
    let again = resumed(paused(started(now, minutes, notify_minutes), pause_at), resume_at);
    let due = (resume_at + left * 1000) as u64;
    assert forall|at: u64| at + 1000 <= due implies seconds_left(due, at) != 0 by {
        assert((due - at) / 1000 >= 1) by (nonlinear_arith)
            requires
                due - at >= 1000,
        ;
    }
}

/// The notice for a threshold comes at the first step that finds no more
/// seconds left than the threshold says, and at none before: if the steps
/// before `times[k]` all find more than `t` seconds left and the one at
/// `times[k]` does not, then the steps before emit no notice for `t`, and
/// that step emits exactly one.
pub proof fn threshold_fires_at_first_due_step(s: TimerView, times: Seq<u64>, t: u64, k: int)
    requires
        s.is_counting(),
        s.notify_thresholds.contains(t),
        !s.fired_thresholds.contains(t),
        0 <= k < times.len(),
        forall|j: int| 0 <= j < k ==> seconds_left(s.deadline.unwrap(), #[trigger] times[j]) > t,
        seconds_left(s.deadline.unwrap(), times[k]) <= t,
    ensures
        occurrences(run_effects(s, times.take(k)), Effect::ThresholdNotice(t)) == 0,
        occurrences(
            tick_effects(run_ticks(s, times.take(k)), times[k]),
            Effect::ThresholdNotice(t),
        ) == 1,
        !run_ticks(s, times.take(k)).fired_thresholds.contains(t),
        run_ticks(s, times.take(k + 1)).fired_thresholds.contains(t),
{
    let d = s.deadline.unwrap();
    let before = times.take(k);
    let upto = times.take(k + 1);
    assert(!reaches(d, before, t)) by {
        if reaches(d, before, t) {
            let j = choose|j: int|
                0 <= j < before.len() && seconds_left(d, #[trigger] before[j]) <= t;
            assert(before[j] == times[j]);
        }
    }
    assert(!reaches(d, before, 0)) by {
        if reaches(d, before, 0) {
            lemma_reaches_above(d, before, 0, t);
        }
    }
    lemma_run(s, before, Effect::ThresholdNotice(t));
    lemma_tick_occurrences(run_ticks(s, before), times[k], Effect::ThresholdNotice(t));
    assert(upto[k] == times[k]);
    assert(reaches(d, upto, t));
    lemma_run(s, upto, Effect::ThresholdNotice(t));
}

/// A countdown started at `now` and stepped at `times`, with no command in
/// between and at least one step at or after the moment at which its whole
/// duration has elapsed, ends idle. Its steps emit exactly one tick of zero,
/// one completion notice and one report of the idle status, and exactly one
/// notice for each of its thresholds.
pub proof fn started_run_completes(
    now: u64,
    minutes: u64,
    notify_minutes: Seq<u64>,
    times: Seq<u64>,
)
    requires
        now + minutes * SECONDS_PER_MINUTE * MILLIS_PER_SECOND <= u64::MAX,
        exists|i: int|
            0 <= i < times.len() && #[trigger] times[i] >= now + minutes * SECONDS_PER_MINUTE
                * MILLIS_PER_SECOND,
    ensures
        ({
            let s = started(now, minutes, notify_minutes);
            let emitted = run_effects(s, times);
            &&& run_ticks(s, times).status == TimerStatus::Idle
            &&& run_ticks(s, times).deadline.is_none()
            &&& run_ticks(s, times).remaining_seconds == 0
            &&& occurrences(emitted, Effect::Tick(0)) == 1
            &&& occurrences(emitted, Effect::FinishedNotice) == 1
            &&& occurrences(emitted, Effect::Status(TimerStatus::Idle)) == 1
            &&& forall|t: u64|
                s.notify_thresholds.contains(t) ==> #[trigger] occurrences(
                    emitted,
                    Effect::ThresholdNotice(t),
                ) == 1
            &&& forall|t: u64|
                !s.notify_thresholds.contains(t) ==> #[trigger] occurrences(
                    emitted,
                    Effect::ThresholdNotice(t),
                ) == 0
        }),
{
    let s = started(now, minutes, notify_minutes);
    let d = s.deadline.unwrap();
    let i = choose|i: int|
        0 <= i < times.len() && #[trigger] times[i] >= now + minutes * SECONDS_PER_MINUTE
            * MILLIS_PER_SECOND;
    assert(seconds_left(d, times[i]) == 0);
    assert(reaches(d, times, 0));
    countdown_finishes_once(s, times);
    lemma_run_remaining(s, times);
    assert forall|t: u64|
        #[trigger] occurrences(run_effects(s, times), Effect::ThresholdNotice(t)) == if s.notify_thresholds.contains(
            t,
        ) {
            1nat
        } else {
            0nat
        } by {
        lemma_reaches_above(d, times, 0, t);
        threshold_fires_once(s, times, t);
    }
}

/// Once a run of steps has ended the countdown, no seconds remain.
proof fn lemma_run_remaining(s: TimerView, times: Seq<u64>)
    requires
        s.is_counting(),
        reaches(s.deadline.unwrap(), times, 0),
    ensures
        run_ticks(s, times).remaining_seconds == 0,
    decreases times.len(),
{
    let d = s.deadline.unwrap();
    if times.len() > 0 {
        let init = times.drop_last();
        lemma_reaches_push(d, times, 0);
        lemma_run(s, init, Effect::FinishedNotice);
        if reaches(d, init, 0) {
            lemma_run_remaining(s, init);
        }
    }
}

/// Every transition leaves a well-formed state well-formed, and a start or a
/// stop makes one whatever came before.
pub proof fn transitions_keep_well_formed(
    s: TimerView,
    now: u64,
    minutes: u64,
    notify_minutes: Seq<u64>,
)
    ensures
        started(now, minutes, notify_minutes).wf(),
        stopped(s).wf(),
        s.wf() ==> paused(s, now).wf() && resumed(s, now).wf() && ticked(s, now).wf(),
{
}

/// As the clock advances, the time left until a deadline never grows.
pub proof fn remaining_never_grows(deadline: u64, earlier: u64, later: u64)
    requires
        earlier <= later,
    ensures
        seconds_left(deadline, later) <= seconds_left(deadline, earlier),
{
}

} // verus!
