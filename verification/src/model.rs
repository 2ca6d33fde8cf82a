//! The mathematical model of the timer: its abstract state, the effects it
//! asks of the host, and the transitions as spec functions.

use vstd::prelude::*;

verus! {

/// Clock readings are whole milliseconds since an epoch that the host picks.
pub const MILLIS_PER_SECOND: u64 = 1000;

pub const SECONDS_PER_MINUTE: u64 = 60;

/// What the countdown is doing.
#[derive(Clone, Copy, Debug, PartialEq, Eq, Structural)]
pub enum TimerStatus {
    /// No countdown is active.
    Idle,
    /// The countdown advances with the clock.
    Running,
    /// The countdown is suspended and keeps its remaining time.
    Paused,
}

/// Something the engine asks the host to do. Delivery is best effort: the
/// engine never learns whether it worked.
#[derive(Clone, Copy, Debug, PartialEq, Eq)]
pub enum Effect {
    /// Report the seconds that remain.
    Tick(u64),
    /// Report a change of status.
    Status(TimerStatus),
    /// Notify that the threshold, in seconds remaining, has been reached.
    ThresholdNotice(u64),
    /// Notify that the countdown has reached zero.
    FinishedNotice,
}

/// The abstract state of a timer.
pub struct TimerView {
    pub status: TimerStatus,
    /// The clock reading at which the remaining time reaches zero.
    pub deadline: Option<u64>,
    pub remaining_seconds: u64,
    /// The thresholds in the order the caller gave them.
    pub notify_thresholds: Seq<u64>,
    /// The thresholds already notified in the current run.
    pub fired_thresholds: Set<u64>,
}

impl TimerView {
    /// A deadline is present exactly while running, and only known
    /// thresholds have fired.
    pub open spec fn wf(self) -> bool {
        &&& self.status == TimerStatus::Running <==> self.deadline.is_some()
        &&& forall|t: u64| #[trigger]
            self.fired_thresholds.contains(t) ==> self.notify_thresholds.contains(t)
    }

    /// Whether the next step will advance the countdown.
    pub open spec fn is_counting(self) -> bool {
        self.status == TimerStatus::Running && self.deadline.is_some()
    }
}

/// Whole seconds from `now` until `deadline`, rounded down, zero once the
/// deadline has passed.
pub open spec fn seconds_left(deadline: u64, now: u64) -> u64 {
    if now >= deadline {
        0
    } else {
        ((deadline - now) / (MILLIS_PER_SECOND as int)) as u64
    }
}

/// Each entry, given in minutes, as seconds.
pub open spec fn minutes_to_seconds(minutes: Seq<u64>) -> Seq<u64> {
    Seq::new(minutes.len(), |i: int| (minutes[i] * SECONDS_PER_MINUTE) as u64)
}

/// The state of a timer that has just been created.
pub open spec fn idle_view() -> TimerView {
    TimerView {
        status: TimerStatus::Idle,
        deadline: None,
        remaining_seconds: 0,
        notify_thresholds: Seq::empty(),
        fired_thresholds: Set::empty(),
    }
}

/// The state after a countdown of `minutes` is started at `now`.
pub open spec fn started(now: u64, minutes: u64, notify_minutes: Seq<u64>) -> TimerView {
    TimerView {
        status: TimerStatus::Running,
        deadline: Some((now + minutes * SECONDS_PER_MINUTE * MILLIS_PER_SECOND) as u64),
        remaining_seconds: (minutes * SECONDS_PER_MINUTE) as u64,
        notify_thresholds: minutes_to_seconds(notify_minutes),
        fired_thresholds: Set::empty(),
    }
}

/// The state after a pause at `now`: a running timer keeps what is left of
/// its time, any other is unchanged.
pub open spec fn paused(s: TimerView, now: u64) -> TimerView {
    if s.status == TimerStatus::Running {
        TimerView {
            status: TimerStatus::Paused,
            deadline: None,
            remaining_seconds: match s.deadline {
                Some(d) => seconds_left(d, now),
                None => s.remaining_seconds,
            },
            ..s
        }
    } else {
        s
    }
}

/// The state after a resume at `now`: a paused timer gets a deadline that
/// lies its remaining time ahead, any other is unchanged.
pub open spec fn resumed(s: TimerView, now: u64) -> TimerView {
    if s.status == TimerStatus::Paused {
        TimerView {
            status: TimerStatus::Running,
            deadline: Some((now + s.remaining_seconds * MILLIS_PER_SECOND) as u64),
            ..s
        }
    } else {
        s
    }
}

/// The state after a stop.
pub open spec fn stopped(s: TimerView) -> TimerView {
    TimerView {
        status: TimerStatus::Idle,
        deadline: None,
        remaining_seconds: 0,
        fired_thresholds: Set::empty(),
        ..s
    }
}

/// The thresholds that fire when `remaining` seconds are left: those not
/// fired before that are at or above `remaining`, in the caller's order, each
/// value at its first occurrence only.
pub open spec fn due_notices(thresholds: Seq<u64>, fired: Set<u64>, remaining: u64) -> Seq<u64>
    decreases thresholds.len(),
{
    if thresholds.len() == 0 {
        Seq::empty()
    } else {
        let earlier = thresholds.drop_last();
        let t = thresholds.last();
        let before = due_notices(earlier, fired, remaining);
        if remaining <= t && !fired.contains(t) && !earlier.contains(t) {
            before.push(t)
        } else {
            before
        }
    }
}

/// The thresholds that count as fired once `remaining` seconds are left.
pub open spec fn fired_by(thresholds: Seq<u64>, fired: Set<u64>, remaining: u64) -> Set<u64> {
    Set::new(|t: u64| fired.contains(t) || (thresholds.contains(t) && remaining <= t))
}

/// One notice effect for each threshold, in order.
pub open spec fn notice_effects(due: Seq<u64>) -> Seq<Effect> {
    Seq::new(due.len(), |i: int| Effect::ThresholdNotice(due[i]))
}

/// The state after one step of the ticking task at `now`.
pub open spec fn ticked(s: TimerView, now: u64) -> TimerView {
    if s.is_counting() {
        let remaining = seconds_left(s.deadline.unwrap(), now);
        TimerView {
            status: if remaining == 0 { TimerStatus::Idle } else { TimerStatus::Running },
            deadline: if remaining == 0 { None } else { s.deadline },
            remaining_seconds: remaining,
            notify_thresholds: s.notify_thresholds,
            fired_thresholds: fired_by(s.notify_thresholds, s.fired_thresholds, remaining),
        }
    } else {
        s
    }
}

/// What is emitted once a step has found that no time is left.
pub open spec fn finish_effects(remaining: u64) -> Seq<Effect> {
    if remaining == 0 {
        seq![Effect::FinishedNotice, Effect::Status(TimerStatus::Idle)]
    } else {
        Seq::empty()
    }
}

/// The effects of one step of the ticking task at `now`: nothing unless the
/// timer is counting; else the tick, the notices that are due, and at zero
/// the completion notice and the change to idle.
pub open spec fn tick_effects(s: TimerView, now: u64) -> Seq<Effect> {
    if s.is_counting() {
        let remaining = seconds_left(s.deadline.unwrap(), now);
        seq![Effect::Tick(remaining)] + notice_effects(
            due_notices(s.notify_thresholds, s.fired_thresholds, remaining),
        ) + finish_effects(remaining)
    } else {
        Seq::empty()
    }
}

/// Whether a step at `now` ends the ticking task.
pub open spec fn tick_finishes(s: TimerView, now: u64) -> bool {
    s.is_counting() && seconds_left(s.deadline.unwrap(), now) == 0
}

/// A value stands in a sequence that is not empty exactly if it is the last
/// entry or stands among those before.
pub proof fn lemma_contains_last(s: Seq<u64>, t: u64)
    requires
        s.len() > 0,
    ensures
        s.contains(t) <==> (s.drop_last().contains(t) || s.last() == t),
{
    let init = s.drop_last();
    if s.contains(t) {
        let k = choose|k: int| 0 <= k < s.len() && s[k] == t;
        if k < s.len() - 1 {
            assert(init[k] == t);
        }
    }
    if init.contains(t) {
        let k = choose|k: int| 0 <= k < init.len() && init[k] == t;
        assert(s[k] == t);
    }
    assert(s[s.len() - 1] == s.last());
}

} // verus!
