use clockeroo::engine::Phase;
use clockeroo::engine::SessionLoop;
use clockeroo::engine::Signal;
use clockeroo::engine::StopwatchAction;
use clockeroo::engine::StopwatchLoop;
use clockeroo::engine::StopwatchPhase;
use clockeroo::engine::StopwatchSignal;
use clockeroo::engine::TickAction;
use clockeroo::Session;
use clockeroo::TimeOfDay;

#[test]
fn completion_fires_exactly_once() {
    let mut l = SessionLoop::new(Session::countdown(0, 5));
    let mut notifies = 0;
    let ticks: [(u64, Signal); 8] = [
        (1_000, Signal::Idle),
        (2_500, Signal::Idle),
        (4_999, Signal::Idle),
        (5_000, Signal::Idle),
        (5_100, Signal::Idle),
        (6_000, Signal::Idle),
        (90_000, Signal::Idle),
        (95_000, Signal::Cancel),
    ];
    for (now, signal) in ticks {
        if l.step(now, signal) == TickAction::RenderTriggeredAndNotify {
            notifies += 1;
        }
    }
    assert_eq!(notifies, 1);
    assert!(l.fired);
    assert_eq!(l.phase, Phase::Exited);
}

#[test]
fn pending_view_shows_remaining_time() {
    let mut l = SessionLoop::new(Session::countdown(0, 120));
    assert_eq!(
        l.step(30_000, Signal::Idle),
        TickAction::RenderPending { remaining_millis: 90_000 }
    );
    assert_eq!(l.phase, Phase::Running);
    assert!(!l.fired);
}

#[test]
fn cancel_before_trigger_fires_nothing() {
    let mut l = SessionLoop::new(Session::countdown(0, 60));
    assert_eq!(
        l.step(1_000, Signal::Idle),
        TickAction::RenderPending { remaining_millis: 59_000 }
    );
    assert_eq!(l.step(2_000, Signal::Cancel), TickAction::Quit);
    assert_eq!(l.phase, Phase::Exited);
    assert!(!l.fired);
    // The loop stays exited and silent however often it is poked.
    assert_eq!(l.step(120_000, Signal::Idle), TickAction::Quit);
    assert_eq!(l.step(240_000, Signal::Cancel), TickAction::Quit);
    assert!(!l.fired);
}

#[test]
fn triggered_loop_waits_for_acknowledgement() {
    let mut l = SessionLoop::new(Session::countdown(0, 1));
    assert_eq!(l.step(1_000, Signal::Idle), TickAction::RenderTriggeredAndNotify);
    assert_eq!(l.phase, Phase::Ringing);
    assert_eq!(l.step(2_000, Signal::Idle), TickAction::AwaitAcknowledge);
    assert_eq!(l.step(3_000, Signal::Idle), TickAction::AwaitAcknowledge);
    assert_eq!(l.step(4_000, Signal::Cancel), TickAction::Quit);
    assert_eq!(l.phase, Phase::Exited);
}

#[test]
fn alarm_loop_triggers_at_target() {
    // 06:00:00 now, alarm for 07:30:00.
    let session = Session::alarm(10_000, 21_600, 27_000);
    let mut l = SessionLoop::new(session);
    assert_eq!(
        l.step(10_000, Signal::Idle),
        TickAction::RenderPending { remaining_millis: 5_400_000 }
    );
    assert_eq!(l.step(5_409_999, Signal::Idle), TickAction::RenderPending { remaining_millis: 1 });
    assert_eq!(l.step(5_410_000, Signal::Idle), TickAction::RenderTriggeredAndNotify);
    assert_eq!(l.step(5_500_000, Signal::Cancel), TickAction::Quit);
}

#[test]
fn stopwatch_stop_reports_and_clears_record() {
    let mut l = StopwatchLoop::new(Session::stopwatch(1_000));
    assert!(l.record_present);
    assert_eq!(
        l.step(2_500, StopwatchSignal::Continue),
        StopwatchAction::ShowElapsed { elapsed_millis: 1_500 }
    );
    assert_eq!(l.phase, StopwatchPhase::Running);
    assert_eq!(
        l.step(10_250, StopwatchSignal::Stop),
        StopwatchAction::FinishAndClear { elapsed_millis: 9_250 }
    );
    assert_eq!(l.phase, StopwatchPhase::Stopped);
    assert!(!l.record_present);
}

#[test]
fn stopwatch_background_keeps_record() {
    let mut l = StopwatchLoop::new(Session::stopwatch(1_000));
    assert_eq!(
        l.step(3_000, StopwatchSignal::Background),
        StopwatchAction::DetachKeepRecord
    );
    assert_eq!(l.phase, StopwatchPhase::Backgrounded);
    assert!(l.record_present);
}

#[test]
fn clocked_starters_hand_out_consistent_sessions() {
    let countdown = clockeroo::start_countdown(60);
    assert_eq!(countdown.phase, Phase::Running);
    assert!(!countdown.fired);
    match countdown.session {
        Session::Countdown { baseline_millis, target_millis } => {
            assert_eq!(target_millis - baseline_millis, 60_000);
        }
        _ => panic!("expected a countdown session"),
    }

    let alarm = clockeroo::start_alarm(TimeOfDay { hour: 7, minute: 20 });
    assert_eq!(alarm.phase, Phase::Running);
    match alarm.session {
        Session::Alarm { baseline_millis, target_millis } => {
            let delay = target_millis - baseline_millis;
            assert!(delay > 0);
            assert!(delay <= 86_400_000);
            // The delay is whole seconds of day arithmetic.
            assert_eq!(delay % 1000, 0);
        }
        _ => panic!("expected an alarm session"),
    }

    let (watch, record) = clockeroo::start_stopwatch();
    assert_eq!(watch.phase, StopwatchPhase::Running);
    assert!(watch.record_present);
    match watch.session {
        Session::Stopwatch { baseline_millis } => {
            assert_eq!(baseline_millis, record.start_millis);
        }
        _ => panic!("expected a stopwatch session"),
    }
}
