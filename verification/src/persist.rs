//! The persisted stopwatch record.
//!
//! A stopwatch start is durably recorded as a wall-clock timestamp so that a
//! later, separate invocation can resume querying it (a monotonic reading
//! would be meaningless in another process). One record exists at a time:
//! starting a new stopwatch overwrites it, stopping deletes it, and no lock
//! protects concurrent writers — the last writer wins. The record travels as
//! its decimal rendering; decoding what was encoded gives the record back
//! exactly, so elapsed time measured through a persisted record agrees with
//! what the original session would have measured.

use vstd::prelude::*;

use crate::digits::all_digits;
use crate::digits::decimal_seq;
use crate::digits::decimal_string;
use crate::digits::digit_val;
use crate::digits::digits_val;
use crate::digits::is_digit_char;
use crate::digits::lemma_decimal_seq_val;
use crate::session::Session;

verus! {

/// A recorded stopwatch start: milliseconds of wall-clock time since the
/// epoch at the instant the stopwatch began.
#[derive(Clone, Copy, PartialEq, Eq, Structural, Debug)]
pub struct StopwatchRecord {
    pub start_millis: u64,
}

/// The stored form of a record: the decimal rendering of its timestamp.
pub open spec fn record_encoding(rec: StopwatchRecord) -> Seq<char> {
    decimal_seq(rec.start_millis as nat)
}

/// What decoding a stored record yields: the denoted timestamp when the
/// text is a non-empty run of digits whose value the machine can count,
/// nothing otherwise.
pub open spec fn record_decoding(s: Seq<char>) -> Option<StopwatchRecord> {
    if s.len() > 0 && all_digits(s) && digits_val(s) <= u64::MAX {
        Some(StopwatchRecord { start_millis: digits_val(s) as u64 })
    } else {
        None
    }
}

/// The value of a prefix of a run of digits never exceeds the value of the
/// whole run.
proof fn lemma_digits_val_take_le(s: Seq<char>, j: int)
    requires
        0 <= j <= s.len(),
    ensures
        digits_val(s.take(j)) <= digits_val(s),
    decreases s.len() - j,
{
    if j == s.len() {
        assert(s.take(j) =~= s);
    } else {
        assert(s.take(j + 1).drop_last() =~= s.take(j));
        assert(s.take(j + 1).last() == s[j]);
        assert(digits_val(s.take(j + 1)) == digits_val(s.take(j)) * 10 + digit_val(s[j]));
        lemma_digits_val_take_le(s, j + 1);
    }
}

impl StopwatchRecord {
    /// The record as text, ready to be written to the well-known location.
    pub fn encode(&self) -> (r: String)
        ensures
            r@ == record_encoding(*self),
    {
        decimal_string(self.start_millis)
    }

    /// Reads a record back from its stored text, as `record_decoding`
    /// states.
    pub fn decode(s: &str) -> (r: Option<StopwatchRecord>)
        ensures
            r == record_decoding(s@),
    {
        let n = s.unicode_len();
        if n == 0 {
            return None;
        }
        let mut k: usize = 0;
        let mut v: u64 = 0;
        proof {
            assert(s@.take(0) =~= Seq::<char>::empty());
        }
        while k < n
            invariant
                k <= n == s@.len(),
                all_digits(s@.take(k as int)),
                v == digits_val(s@.take(k as int)),
            decreases n - k,
        {
            let c = s.get_char(k);
            let u = c as u32;
            if !(48 <= u && u <= 57) {
                assert(!is_digit_char(s@[k as int]));
                return None;
            }
            let d = (u - 48) as u64;
            proof {
                assert(s@.take(k + 1).drop_last() =~= s@.take(k as int));
                assert(s@.take(k + 1).last() == s@[k as int]);
                assert(digits_val(s@.take(k + 1)) == digits_val(s@.take(k as int)) * 10
                    + digit_val(s@[k as int]));
            }
            let widened = match v.checked_mul(10) {
                Some(v10) => v10.checked_add(d),
                None => None,
            };
            match widened {
                Some(next) => {
                    v = next;
                },
                None => {
                    proof {
                        lemma_digits_val_take_le(s@, k + 1);
                    }
                    return None;
                },
            }
            k = k + 1;
        }
        proof {
            assert(s@.take(n as int) =~= s@);
        }
        Some(StopwatchRecord { start_millis: v })
    }

    /// The stopwatch session this record stands for, measuring from the
    /// recorded start.
    pub fn session(&self) -> (r: Session)
        ensures
            r == (Session::Stopwatch { baseline_millis: self.start_millis }),
    {
        Session::stopwatch(self.start_millis)
    }
}

/// Decoding an encoded record gives the record back exactly.
pub proof fn lemma_record_round_trip(rec: StopwatchRecord)
    ensures
        record_decoding(record_encoding(rec)) == Some(rec),
{
    lemma_decimal_seq_val(rec.start_millis as nat);
}

/// Elapsed time resumed through the persisted record is consistent with the
/// original invocation: a second process that decodes what the first wrote
/// reconstructs a session whose elapsed time at every instant equals that of
/// the session the first process was running.
pub proof fn lemma_resumed_elapsed_consistent(rec: StopwatchRecord, now: u64)
    ensures
        record_decoding(record_encoding(rec)) matches Some(resumed) && (Session::Stopwatch {
            baseline_millis: resumed.start_millis,
        }).elapsed_spec(now) == (Session::Stopwatch {
            baseline_millis: rec.start_millis,
        }).elapsed_spec(now),
{
    lemma_record_round_trip(rec);
}

/// The outcome of querying a previously persisted stopwatch.
#[derive(PartialEq, Eq, Debug)]
pub enum StopReport {
    /// No stopwatch is recorded: a benign, informational condition.
    NoRecord,
    /// The recorded stopwatch, with its elapsed milliseconds at the query
    /// instant.
    Stopped { elapsed_millis: u64 },
}

/// Resolves a `stopwatch stop` query: reports the elapsed time of the
/// recorded stopwatch at `now_millis`, or that none is recorded.
pub fn resolve_stop(rec: Option<StopwatchRecord>, now_millis: u64) -> (r: StopReport)
    ensures
        match rec {
            Some(record) => r == (StopReport::Stopped {
                elapsed_millis: (Session::Stopwatch {
                    baseline_millis: record.start_millis,
                }).elapsed_spec(now_millis),
            }),
            None => r is NoRecord,
        },
{
    match rec {
        Some(record) => {
            let session = record.session();
            let elapsed = session.elapsed_millis(now_millis);
            StopReport::Stopped { elapsed_millis: elapsed }
        },
        None => StopReport::NoRecord,
    }
}

} // verus!
