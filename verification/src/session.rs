//! Sessions: the three kinds of timed session and their time arithmetic.
//!
//! A session owns a baseline instant and, for the countdown and alarm kinds,
//! a target instant, all in milliseconds on one monotone timescale chosen by
//! the caller. Remaining and elapsed time are pure functions of the session
//! and a sampled `now`.

use vstd::prelude::*;

verus! {

/// Number of milliseconds in a day.
pub const DAY_MILLIS: u64 = 86_400_000;

/// Number of seconds in a day.
pub const DAY_SECS: u64 = 86_400;

/// Largest baseline the clock can hand out (clamped wall-clock milliseconds).
pub const MAX_BASELINE_MILLIS: u64 = 0x7fff_ffff_ffff_ffff;

/// One timed session. Countdown and alarm sessions trigger when the clock
/// reaches their target instant; a stopwatch never triggers and runs until
/// it is told to stop.
pub enum Session {
    Countdown { baseline_millis: u64, target_millis: u64 },
    Stopwatch { baseline_millis: u64 },
    Alarm { baseline_millis: u64, target_millis: u64 },
}

impl Session {
    /// The baseline instant the session measures itself against.
    pub open spec fn baseline_spec(self) -> u64 {
        match self {
            Session::Countdown { baseline_millis, .. } => baseline_millis,
            Session::Stopwatch { baseline_millis } => baseline_millis,
            Session::Alarm { baseline_millis, .. } => baseline_millis,
        }
    }

    /// The instant at which the session triggers (stopwatch: never; treated
    /// as its baseline, unused).
    pub open spec fn target_spec(self) -> u64 {
        match self {
            Session::Countdown { target_millis, .. } => target_millis,
            Session::Stopwatch { baseline_millis } => baseline_millis,
            Session::Alarm { target_millis, .. } => target_millis,
        }
    }

    /// Well-formedness: a countdown has a positive duration and an alarm's
    /// derived target lies strictly after its construction instant.
    pub open spec fn wf(self) -> bool {
        match self {
            Session::Countdown { baseline_millis, target_millis } => baseline_millis
                < target_millis,
            Session::Stopwatch { .. } => true,
            Session::Alarm { baseline_millis, target_millis } => baseline_millis < target_millis,
        }
    }

    /// Milliseconds still to run at `now`: never negative, exactly zero at
    /// and after the target instant.
    pub open spec fn remaining_spec(self, now: u64) -> u64 {
        if now >= self.target_spec() {
            0
        } else {
            (self.target_spec() - now) as u64
        }
    }

    /// Milliseconds run since the baseline at `now` (zero if the clock reads
    /// before the baseline).
    pub open spec fn elapsed_spec(self, now: u64) -> u64 {
        if now >= self.baseline_spec() {
            (now - self.baseline_spec()) as u64
        } else {
            0
        }
    }

    /// The trigger condition: the clock has reached the target. A stopwatch
    /// never triggers.
    pub open spec fn triggered_spec(self, now: u64) -> bool {
        !(self is Stopwatch) && now >= self.target_spec()
    }

    /// Starts a countdown of `duration_secs` seconds at `baseline_millis`.
    /// The target saturates at the end of the timescale for durations too
    /// long to represent in milliseconds.
    pub fn countdown(baseline_millis: u64, duration_secs: u64) -> (r: Session)
        requires
            duration_secs > 0,
            baseline_millis <= MAX_BASELINE_MILLIS,
        ensures
            r.wf(),
            r is Countdown,
            r.baseline_spec() == baseline_millis,
            r.target_spec() == if baseline_millis + duration_secs * 1000 <= u64::MAX {
                (baseline_millis + duration_secs * 1000) as u64
            } else {
                u64::MAX
            },
    {
        let target = match duration_secs.checked_mul(1000) {
            Some(d) => match baseline_millis.checked_add(d) {
                Some(t) => t,
                None => u64::MAX,
            },
            None => u64::MAX,
        };
        Session::Countdown { baseline_millis, target_millis: target }
    }

    /// Starts a stopwatch at `baseline_millis`.
    pub fn stopwatch(baseline_millis: u64) -> (r: Session)
        ensures
            r.wf(),
            r == (Session::Stopwatch { baseline_millis }),
    {
        Session::Stopwatch { baseline_millis }
    }

    /// Resolves an alarm target and starts an alarm session.
    ///
    /// `now_secs_of_day` is the clock's seconds past local midnight at the
    /// construction instant `baseline_millis`; `target_secs_of_day` is the
    /// requested time of day. A time of day strictly later than now resolves
    /// to today; one earlier than or equal to now rolls to the same time
    /// tomorrow, exactly one day after today's occurrence. The target is
    /// therefore always strictly in the future, by at most one day.
    pub fn alarm(baseline_millis: u64, now_secs_of_day: u32, target_secs_of_day: u32) -> (r:
        Session)
        requires
            now_secs_of_day < DAY_SECS,
            target_secs_of_day < DAY_SECS,
            baseline_millis <= MAX_BASELINE_MILLIS,
        ensures
            r.wf(),
            r is Alarm,
            r.baseline_spec() == baseline_millis,
            r.target_spec() - r.baseline_spec() == alarm_delay_secs(
                now_secs_of_day as nat,
                target_secs_of_day as nat,
            ) * 1000,
            r.target_spec() - r.baseline_spec() <= DAY_MILLIS,
    {
        let delay_secs: u64 = if target_secs_of_day > now_secs_of_day {
            (target_secs_of_day - now_secs_of_day) as u64
        } else {
            DAY_SECS - (now_secs_of_day as u64) + (target_secs_of_day as u64)
        };
        let target = baseline_millis + delay_secs * 1000;
        Session::Alarm { baseline_millis, target_millis: target }
    }

    /// Milliseconds still to run at `now`, as `remaining_spec` states.
    pub fn remaining_millis(&self, now: u64) -> (r: u64)
        ensures
            r == self.remaining_spec(now),
    {
        let target = match self {
            Session::Countdown { target_millis, .. } => *target_millis,
            Session::Stopwatch { baseline_millis } => *baseline_millis,
            Session::Alarm { target_millis, .. } => *target_millis,
        };
        if now >= target {
            0
        } else {
            target - now
        }
    }

    /// Milliseconds run since the baseline at `now`, as `elapsed_spec`
    /// states.
    pub fn elapsed_millis(&self, now: u64) -> (r: u64)
        ensures
            r == self.elapsed_spec(now),
    {
        let baseline = match self {
            Session::Countdown { baseline_millis, .. } => *baseline_millis,
            Session::Stopwatch { baseline_millis } => *baseline_millis,
            Session::Alarm { baseline_millis, .. } => *baseline_millis,
        };
        if now >= baseline {
            now - baseline
        } else {
            0
        }
    }

    /// Whether the session has reached its target at `now`, as
    /// `triggered_spec` states.
    pub fn is_triggered(&self, now: u64) -> (r: bool)
        ensures
            r == self.triggered_spec(now),
    {
        match self {
            Session::Countdown { target_millis, .. } => now >= *target_millis,
            Session::Stopwatch { .. } => false,
            Session::Alarm { target_millis, .. } => now >= *target_millis,
        }
    }
}

/// Seconds from a clock reading `now_secs_of_day` past midnight until the
/// next occurrence of `target_secs_of_day`: the requested time today if it is
/// strictly later than now, the same time tomorrow otherwise.
pub open spec fn alarm_delay_secs(now_secs_of_day: nat, target_secs_of_day: nat) -> nat {
    if target_secs_of_day > now_secs_of_day {
        (target_secs_of_day - now_secs_of_day) as nat
    } else {
        (target_secs_of_day + 86_400 - now_secs_of_day) as nat
    }
}

/// Alarm target resolution always lands strictly in the future and within a
/// day: a time of day already passed (or equal to now) resolves to exactly
/// one day after today's occurrence of that time; a time still to come
/// resolves to today.
pub proof fn lemma_alarm_resolution(now_secs_of_day: nat, target_secs_of_day: nat)
    requires
        now_secs_of_day < 86_400,
        target_secs_of_day < 86_400,
    ensures
        0 < alarm_delay_secs(now_secs_of_day, target_secs_of_day) <= 86_400,
        target_secs_of_day > now_secs_of_day ==> alarm_delay_secs(
            now_secs_of_day,
            target_secs_of_day,
        ) == target_secs_of_day - now_secs_of_day,
        target_secs_of_day <= now_secs_of_day ==> alarm_delay_secs(
            now_secs_of_day,
            target_secs_of_day,
        ) as int == (target_secs_of_day - now_secs_of_day) + 86_400,
{
}

/// Countdown and alarm remaining time is monotonically non-increasing as the
/// clock advances, and is exactly zero at and after the target instant —
/// never negative, and never positive once the session has triggered.
pub proof fn lemma_remaining_monotone(s: Session, now1: u64, now2: u64)
    requires
        s.wf(),
        now1 <= now2,
    ensures
        s.remaining_spec(now2) <= s.remaining_spec(now1),
        s.remaining_spec(now2) == 0 <==> now2 >= s.target_spec(),
        !(s is Stopwatch) ==> (s.remaining_spec(now2) == 0 <==> s.triggered_spec(now2)),
{
}

/// Stopwatch elapsed time is monotonically non-decreasing as the clock
/// advances.
pub proof fn lemma_elapsed_monotone(s: Session, now1: u64, now2: u64)
    requires
        now1 <= now2,
    ensures
        s.elapsed_spec(now1) <= s.elapsed_spec(now2),
{
}

} // verus!
