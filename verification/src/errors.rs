//! User input errors of the two parsers. Malformed input is reported, never
//! retried; the caller restates the accepted grammar and exits non-zero.

use vstd::prelude::*;

verus! {

/// Why a duration or time-of-day string was rejected.
#[derive(Clone, Copy, PartialEq, Eq, Structural, Debug)]
pub enum ParseError {
    /// The duration string is not in the grammar (digit runs each closed by
    /// `h`, `m` or `s`, or one bare digit run), or adds up to zero seconds.
    InvalidDuration,
    /// The duration adds up to more seconds than the machine can count.
    DurationTooLarge,
    /// The time string is not `hours:minutes` with an optional am/pm suffix.
    InvalidTimeFormat,
    /// The hour of a 12-hour time is outside 1 through 12.
    InvalidHour,
    /// The hour or minute is out of range for a time of day.
    InvalidTime,
}

} // verus!
