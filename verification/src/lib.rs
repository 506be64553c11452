//! Terminal countdown timer, stopwatch and alarm clock: the time-tracking
//! core. Sessions measure remaining or elapsed milliseconds against a
//! baseline; a cooperative tick state machine drives rendering, cancellation
//! and exactly-once completion side effects; a persisted record lets a
//! stopwatch be resumed by a later process invocation.

use vstd::prelude::*;

pub mod clock;
pub mod digits;
pub mod duration;
pub mod engine;
pub mod errors;
pub mod persist;
pub mod session;
pub mod time_of_day;

pub use clock::clock_now_millis;
pub use clock::start_alarm;
pub use clock::start_countdown;
pub use clock::start_stopwatch;
pub use persist::resolve_stop;
pub use persist::StopReport;
pub use persist::StopwatchRecord;

pub use digits::format_duration;
pub use digits::format_stopwatch;
pub use duration::parse_duration;
pub use errors::ParseError;
pub use engine::color_tier;
pub use engine::ColorTier;
pub use engine::Phase;
pub use engine::SessionLoop;
pub use engine::Signal;
pub use engine::StopwatchAction;
pub use engine::StopwatchLoop;
pub use engine::StopwatchPhase;
pub use engine::StopwatchSignal;
pub use engine::TickAction;
pub use session::Session;
pub use time_of_day::hour_to_24;
pub use time_of_day::parse_alarm_time;
pub use time_of_day::TimeOfDay;

verus! {

} // verus!
