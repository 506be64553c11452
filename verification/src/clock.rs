//! Reading the wall clock, and starting clocked sessions.
//!
//! The one outside call of the library lives here: a single reading of the
//! local wall clock. Everything computed from a reading is verified; the
//! reading itself depends on the moment of the call, so its contract states
//! only what holds of every outcome.

use vstd::prelude::*;

use chrono::Timelike;

use crate::engine::SessionLoop;
use crate::engine::StopwatchLoop;
use crate::persist::StopwatchRecord;
use crate::session::alarm_delay_secs;
use crate::session::Session;
use crate::session::DAY_MILLIS;
use crate::session::DAY_SECS;
use crate::session::MAX_BASELINE_MILLIS;
use crate::time_of_day::TimeOfDay;

verus! {

/// Relies on chrono's `Local::now`, `DateTime::timestamp_millis` and
/// `Timelike::num_seconds_from_midnight`: one reading of the local wall
/// clock, as milliseconds since the Unix epoch and non-leap seconds past
/// local midnight. The reading depends on the moment of the call, so nothing
/// is promised of the first component; the second is below a day's seconds
/// by `NaiveTime`'s invariant ("Every value in 00:00:00-23:59:59 maps to an
/// integer in 0-86399"). Caveat: `Local::now` goes through `Utc::now`, which
/// panics when the system clock reads before the Unix epoch; on a platform
/// whose clock can be set before 1970 this wrapper panics with it (the
/// clamp downstream handles only a negative reading that returns).
#[verifier::external_body]
fn read_local_clock() -> (r: (i64, u32))
    ensures
        r.1 < DAY_SECS,
{
    let now = chrono::Local::now();
    (now.timestamp_millis(), now.num_seconds_from_midnight())
}

/// A wall-clock reading as a baseline: milliseconds since the epoch, with a
/// clock set before the epoch reading as zero.
fn clamp_baseline(millis: i64) -> (r: u64)
    ensures
        r == if millis >= 0 {
            millis as u64
        } else {
            0u64
        },
        r <= MAX_BASELINE_MILLIS,
{
    if millis >= 0 {
        millis as u64
    } else {
        0
    }
}

/// The current wall clock, clamped to the session timescale. Later readings
/// drive the loops as their `now` values.
pub fn clock_now_millis() -> (r: u64)
    ensures
        r <= MAX_BASELINE_MILLIS,
{
    let (millis, _) = read_local_clock();
    clamp_baseline(millis)
}

/// Starts a countdown session of `duration_secs` seconds against the wall
/// clock, ready to be driven tick by tick.
pub fn start_countdown(duration_secs: u64) -> (r: SessionLoop)
    requires
        duration_secs > 0,
    ensures
        r.wf(),
        r.session is Countdown,
        r.phase is Running,
        !r.fired,
        r.session.baseline_spec() + duration_secs * 1000 <= u64::MAX ==> r.session.target_spec()
            == r.session.baseline_spec() + duration_secs * 1000,
        r.session.baseline_spec() + duration_secs * 1000 > u64::MAX ==> r.session.target_spec()
            == u64::MAX,
{
    let (millis, _) = read_local_clock();
    let baseline = clamp_baseline(millis);
    let session = Session::countdown(baseline, duration_secs);
    SessionLoop::new(session)
}

/// Starts an alarm session for the time of day `t` against the wall clock:
/// the target resolves to today if `t` is still to come, to tomorrow
/// otherwise, so it always lies strictly ahead, by at most one day.
pub fn start_alarm(t: TimeOfDay) -> (r: SessionLoop)
    requires
        t.wf(),
    ensures
        r.wf(),
        r.session is Alarm,
        r.phase is Running,
        !r.fired,
        0 < r.session.target_spec() - r.session.baseline_spec() <= DAY_MILLIS,
        exists|now_secs_of_day: nat|
            now_secs_of_day < DAY_SECS && r.session.target_spec() - r.session.baseline_spec()
                == #[trigger] alarm_delay_secs(
                now_secs_of_day,
                (t.hour * 3600 + t.minute * 60) as nat,
            ) * 1000,
{
    let (millis, now_secs_of_day) = read_local_clock();
    let baseline = clamp_baseline(millis);
    let target_secs_of_day = t.seconds_of_day();
    let session = Session::alarm(baseline, now_secs_of_day, target_secs_of_day);
    proof {
        assert(session.target_spec() - session.baseline_spec() == alarm_delay_secs(
            now_secs_of_day as nat,
            (t.hour * 3600 + t.minute * 60) as nat,
        ) * 1000);
    }
    SessionLoop::new(session)
}

/// Starts a stopwatch session against the wall clock, together with the
/// record to persist: the record's timestamp is exactly the session's
/// baseline, so a later invocation resumes the same measurement.
pub fn start_stopwatch() -> (r: (StopwatchLoop, StopwatchRecord))
    ensures
        r.0.wf(),
        r.0.phase is Running,
        r.0.record_present,
        r.0.session == (Session::Stopwatch { baseline_millis: r.1.start_millis }),
{
    let (millis, _) = read_local_clock();
    let baseline = clamp_baseline(millis);
    let session = Session::stopwatch(baseline);
    let record = StopwatchRecord { start_millis: baseline };
    (StopwatchLoop::new(session), record)
}

} // verus!
