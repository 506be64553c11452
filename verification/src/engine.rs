//! The interactive loop, as an explicit state machine with one step per
//! tick.
//!
//! The caller owns the clock, the display and the input device: each tick it
//! samples `now`, translates any input read during the bounded wait into a
//! control signal, and calls `step`. The returned action says what to do —
//! render the pending view, render the completed view and fire the one-shot
//! side effects, keep waiting for an acknowledgement, or leave. The state
//! machine guarantees that the notification action is handed out at most
//! once per session, never before the trigger condition is true against the
//! authoritative clock, and never after a cancellation that precedes the
//! trigger.

use vstd::prelude::*;

use crate::session::Session;

verus! {

/// The control signal a countdown or alarm tick can carry: nothing, or a
/// cancel/acknowledge request (the quit key or interrupt combination).
#[derive(Clone, Copy, PartialEq, Eq, Structural, Debug)]
pub enum Signal {
    Idle,
    Cancel,
}

/// Where the loop stands.
#[derive(Clone, Copy, PartialEq, Eq, Structural, Debug)]
pub enum Phase {
    /// Pre-trigger: rendering the in-progress view and polling for a cancel.
    Running,
    /// Triggered: the completed view is up; waiting for an acknowledgement.
    Ringing,
    /// Finished, by cancellation or acknowledgement.
    Exited,
}

/// What the caller must do after a tick.
#[derive(PartialEq, Eq, Debug)]
pub enum TickAction {
    /// Render the in-progress view showing this much time left.
    RenderPending { remaining_millis: u64 },
    /// Render the completed view and fire the completion side effects
    /// (sound and desktop notification), exactly now and never again.
    RenderTriggeredAndNotify,
    /// Keep waiting for the acknowledgement signal.
    AwaitAcknowledge,
    /// Leave the display and end the session.
    Quit,
}

/// The cooperative loop driving one countdown or alarm session.
pub struct SessionLoop {
    pub session: Session,
    pub phase: Phase,
    pub fired: bool,
}

impl SessionLoop {
    /// Well-formedness: the session is a countdown or alarm, and the
    /// side effects have fired exactly on the transition into `Ringing`.
    pub open spec fn wf(self) -> bool {
        &&& self.session.wf()
        &&& !(self.session is Stopwatch)
        &&& (self.phase is Ringing ==> self.fired)
        &&& (self.phase is Running ==> !self.fired)
    }

    /// Starts the loop for a countdown or alarm session.
    pub fn new(session: Session) -> (r: SessionLoop)
        requires
            session.wf(),
            !(session is Stopwatch),
        ensures
            r.wf(),
            r.session == session,
            r.phase is Running,
            !r.fired,
    {
        SessionLoop { session, phase: Phase::Running, fired: false }
    }

    /// One tick: what `step` does, as a pure function of the pre-state, the
    /// sampled clock and the signal.
    pub open spec fn step_spec(pre: SessionLoop, now: u64, signal: Signal) -> (SessionLoop,
        TickAction) {
        match pre.phase {
            Phase::Running => {
                if pre.session.triggered_spec(now) {
                    (
                        SessionLoop { phase: Phase::Ringing, fired: true, ..pre },
                        TickAction::RenderTriggeredAndNotify,
                    )
                } else if signal is Cancel {
                    (SessionLoop { phase: Phase::Exited, ..pre }, TickAction::Quit)
                } else {
                    (pre, TickAction::RenderPending { remaining_millis: pre.session.remaining_spec(now) })
                }
            },
            Phase::Ringing => {
                if signal is Cancel {
                    (SessionLoop { phase: Phase::Exited, ..pre }, TickAction::Quit)
                } else {
                    (pre, TickAction::AwaitAcknowledge)
                }
            },
            Phase::Exited => (pre, TickAction::Quit),
        }
    }

    /// One tick of the loop. The trigger check reads the authoritative
    /// clock value `now`, never a count of ticks, so the notification can
    /// not fire early; a cancel in the pre-trigger phase exits without any
    /// side effect; once the side effects have fired they never fire again.
    pub fn step(&mut self, now: u64, signal: Signal) -> (r: TickAction)
        requires
            old(self).wf(),
        ensures
            (*final(self), r) == SessionLoop::step_spec(*old(self), now, signal),
            final(self).wf(),
            final(self).session == old(self).session,
            old(self).fired ==> final(self).fired,
            r is RenderTriggeredAndNotify <==> (old(self).phase is Running
                && old(self).session.triggered_spec(now)),
            r is RenderTriggeredAndNotify ==> !old(self).fired && final(self).fired && now
                >= old(self).session.target_spec(),
            final(self).fired != old(self).fired ==> r is RenderTriggeredAndNotify,
            old(self).phase is Running && !old(self).session.triggered_spec(now) && signal
                is Cancel ==> final(self).phase is Exited && !final(self).fired && r is Quit,
    {
        match self.phase {
            Phase::Running => {
                if self.session.is_triggered(now) {
                    self.phase = Phase::Ringing;
                    self.fired = true;
                    TickAction::RenderTriggeredAndNotify
                } else if signal == Signal::Cancel {
                    self.phase = Phase::Exited;
                    TickAction::Quit
                } else {
                    let remaining = self.session.remaining_millis(now);
                    TickAction::RenderPending { remaining_millis: remaining }
                }
            },
            Phase::Ringing => {
                if signal == Signal::Cancel {
                    self.phase = Phase::Exited;
                    TickAction::Quit
                } else {
                    TickAction::AwaitAcknowledge
                }
            },
            Phase::Exited => TickAction::Quit,
        }
    }
}

/// Urgency of the remaining time on a countdown display: the colour tier of
/// the rendered time value.
#[derive(Clone, Copy, PartialEq, Eq, Structural, Debug)]
pub enum ColorTier {
    /// Under ten seconds left.
    Red,
    /// Under a minute left.
    Yellow,
    /// A minute or more left.
    Green,
}

/// The colour tier for a countdown with this much time left.
pub fn color_tier(remaining_millis: u64) -> (r: ColorTier)
    ensures
        r is Red <==> remaining_millis / 1000 < 10,
        r is Yellow <==> (10 <= remaining_millis / 1000 < 60),
        r is Green <==> remaining_millis / 1000 >= 60,
{
    let remaining_secs = remaining_millis / 1000;
    if remaining_secs < 10 {
        ColorTier::Red
    } else if remaining_secs < 60 {
        ColorTier::Yellow
    } else {
        ColorTier::Green
    }
}

/// The control signal a stopwatch tick can carry: keep running, stop and
/// report, or leave the display while the stopwatch keeps running in the
/// background.
#[derive(Clone, Copy, PartialEq, Eq, Structural, Debug)]
pub enum StopwatchSignal {
    Continue,
    Stop,
    Background,
}

/// Where the stopwatch loop stands.
#[derive(Clone, Copy, PartialEq, Eq, Structural, Debug)]
pub enum StopwatchPhase {
    /// Rendering the elapsed time and polling for a signal.
    Running,
    /// Stopped: the final elapsed time has been reported and the persisted
    /// record released.
    Stopped,
    /// The display was left but the stopwatch keeps running: the persisted
    /// record is retained for a later invocation.
    Backgrounded,
}

/// What the caller must do after a stopwatch tick.
#[derive(PartialEq, Eq, Debug)]
pub enum StopwatchAction {
    /// Render the in-progress view showing this much time elapsed.
    ShowElapsed { elapsed_millis: u64 },
    /// Leave the display, print the final elapsed time and delete the
    /// persisted record.
    FinishAndClear { elapsed_millis: u64 },
    /// Leave the display and keep the persisted record so a later
    /// invocation can stop the stopwatch.
    DetachKeepRecord,
}

/// The cooperative loop driving one stopwatch session. `record_present`
/// tracks whether the persisted record for this stopwatch still exists.
pub struct StopwatchLoop {
    pub session: Session,
    pub phase: StopwatchPhase,
    pub record_present: bool,
}

impl StopwatchLoop {
    /// Well-formedness: the session is a stopwatch, and the persisted record
    /// exists exactly as long as the stopwatch has not been stopped.
    pub open spec fn wf(self) -> bool {
        &&& self.session is Stopwatch
        &&& (self.phase is Stopped <==> !self.record_present)
    }

    /// Starts the loop for a stopwatch session whose baseline has just been
    /// persisted.
    pub fn new(session: Session) -> (r: StopwatchLoop)
        requires
            session is Stopwatch,
        ensures
            r.wf(),
            r.session == session,
            r.phase is Running,
            r.record_present,
    {
        StopwatchLoop { session, phase: StopwatchPhase::Running, record_present: true }
    }

    /// One tick of the stopwatch loop: continue shows the elapsed time; stop
    /// reports the final elapsed time and releases the persisted record;
    /// background leaves the display with the record retained. Only a stop
    /// releases the record.
    pub fn step(&mut self, now: u64, signal: StopwatchSignal) -> (r: StopwatchAction)
        requires
            old(self).wf(),
            old(self).phase is Running,
        ensures
            final(self).wf(),
            final(self).session == old(self).session,
            signal is Continue ==> final(self).phase is Running && final(self).record_present
                && r == (StopwatchAction::ShowElapsed {
                elapsed_millis: old(self).session.elapsed_spec(now),
            }),
            signal is Stop ==> final(self).phase is Stopped && !final(self).record_present && r
                == (StopwatchAction::FinishAndClear {
                elapsed_millis: old(self).session.elapsed_spec(now),
            }),
            signal is Background ==> final(self).phase is Backgrounded
                && final(self).record_present && r is DetachKeepRecord,
    {
        match signal {
            StopwatchSignal::Continue => {
                let elapsed = self.session.elapsed_millis(now);
                StopwatchAction::ShowElapsed { elapsed_millis: elapsed }
            },
            StopwatchSignal::Stop => {
                let elapsed = self.session.elapsed_millis(now);
                self.phase = StopwatchPhase::Stopped;
                self.record_present = false;
                StopwatchAction::FinishAndClear { elapsed_millis: elapsed }
            },
            StopwatchSignal::Background => {
                self.phase = StopwatchPhase::Backgrounded;
                StopwatchAction::DetachKeepRecord
            },
        }
    }
}

/// The loop state after consuming a sequence of ticks, each a sampled clock
/// value paired with a signal.
pub open spec fn run_steps(l: SessionLoop, ticks: Seq<(u64, Signal)>) -> SessionLoop
    decreases ticks.len(),
{
    if ticks.len() == 0 {
        l
    } else {
        run_steps(SessionLoop::step_spec(l, ticks[0].0, ticks[0].1).0, ticks.drop_first())
    }
}

/// How many of a sequence of ticks hand out the notification action.
pub open spec fn notify_count(l: SessionLoop, ticks: Seq<(u64, Signal)>) -> nat
    decreases ticks.len(),
{
    if ticks.len() == 0 {
        0
    } else {
        (if SessionLoop::step_spec(l, ticks[0].0, ticks[0].1).1 is RenderTriggeredAndNotify {
            1nat
        } else {
            0nat
        }) + notify_count(SessionLoop::step_spec(l, ticks[0].0, ticks[0].1).0, ticks.drop_first())
    }
}

proof fn lemma_step_spec_ok(l: SessionLoop, now: u64, signal: Signal)
    requires
        l.wf(),
    ensures
        SessionLoop::step_spec(l, now, signal).0.wf(),
        SessionLoop::step_spec(l, now, signal).0.session == l.session,
        l.fired ==> SessionLoop::step_spec(l, now, signal).0.fired,
        (SessionLoop::step_spec(l, now, signal).1 is RenderTriggeredAndNotify <==> (!l.fired
            && SessionLoop::step_spec(l, now, signal).0.fired)),
        l.phase is Exited ==> SessionLoop::step_spec(l, now, signal).0 == l,
{
}

/// Completion side effects fire exactly once per session lifetime: over any
/// sequence of ticks, the notification action is handed out exactly once if
/// the run carries the loop from not-yet-fired to fired, and never
/// otherwise — in particular never again after the tick that fired it, no
/// matter how many ticks follow.
pub proof fn lemma_notify_exactly_once(l: SessionLoop, ticks: Seq<(u64, Signal)>)
    requires
        l.wf(),
    ensures
        run_steps(l, ticks).wf(),
        run_steps(l, ticks).session == l.session,
        l.fired ==> run_steps(l, ticks).fired,
        notify_count(l, ticks) == if !l.fired && run_steps(l, ticks).fired {
            1nat
        } else {
            0nat
        },
    decreases ticks.len(),
{
    if ticks.len() == 0 {
    } else {
        let (l2, a) = SessionLoop::step_spec(l, ticks[0].0, ticks[0].1);
        lemma_step_spec_ok(l, ticks[0].0, ticks[0].1);
        lemma_notify_exactly_once(l2, ticks.drop_first());
    }
}

/// Cancellation during the pre-trigger phase produces no completion side
/// effects: if no tick's clock value reaches the trigger condition, the
/// notification action is never handed out, the loop never reaches the
/// fired state, and a cancel signal among the ticks leaves the loop exited.
pub proof fn lemma_cancel_before_trigger_no_notify(l: SessionLoop, ticks: Seq<(u64, Signal)>)
    requires
        l.wf(),
        l.phase is Running || l.phase is Exited,
        !l.fired,
        forall|i: int|
            0 <= i < ticks.len() ==> !l.session.triggered_spec(#[trigger] ticks[i].0),
    ensures
        notify_count(l, ticks) == 0,
        !run_steps(l, ticks).fired,
        run_steps(l, ticks).phase is Running || run_steps(l, ticks).phase is Exited,
        l.phase is Exited ==> run_steps(l, ticks).phase is Exited,
        (exists|i: int| 0 <= i < ticks.len() && #[trigger] ticks[i].1 is Cancel) ==> run_steps(
            l,
            ticks,
        ).phase is Exited,
    decreases ticks.len(),
{
    if ticks.len() == 0 {
    } else {
        let (l2, a) = SessionLoop::step_spec(l, ticks[0].0, ticks[0].1);
        lemma_step_spec_ok(l, ticks[0].0, ticks[0].1);
        assert(l2.session == l.session);
        assert(forall|i: int|
            0 <= i < ticks.drop_first().len() ==> !l2.session.triggered_spec(
                #[trigger] ticks.drop_first()[i].0,
            )) by {
            assert(forall|i: int|
                0 <= i < ticks.drop_first().len() ==> ticks.drop_first()[i] == ticks[i + 1]);
        }
        lemma_cancel_before_trigger_no_notify(l2, ticks.drop_first());
        if exists|i: int| 0 <= i < ticks.len() && #[trigger] ticks[i].1 is Cancel {
            let i = choose|i: int| 0 <= i < ticks.len() && #[trigger] ticks[i].1 is Cancel;
            if i == 0 {
                assert(l2.phase is Exited);
            } else {
                assert(ticks.drop_first()[i - 1] == ticks[i]);
                assert(exists|j: int|
                    0 <= j < ticks.drop_first().len() && #[trigger] ticks.drop_first()[j].1
                        is Cancel);
            }
        }
    }
}

} // verus!
