//! Times of day and parsing time strings.
//!
//! A time string is `hours:minutes`, optionally followed by an `am` or `pm`
//! suffix (either case). With the suffix the hour is a 12-hour hour, 1
//! through 12, and is converted to 24-hour form; without it the hour is a
//! 24-hour hour, 0 through 23. Minutes run 0 through 59.

use vstd::prelude::*;

use crate::digits::all_digits;
use crate::digits::digit_val;
use crate::digits::digits_val;
use crate::digits::is_digit_char;
use crate::errors::ParseError;

verus! {

/// A time of day in 24-hour form, to minute precision.
#[derive(Clone, Copy, PartialEq, Eq, Structural, Debug)]
pub struct TimeOfDay {
    pub hour: u32,
    pub minute: u32,
}

impl TimeOfDay {
    /// Well-formedness: a real time of day.
    pub open spec fn wf(self) -> bool {
        self.hour < 24 && self.minute < 60
    }

    /// The hour, 0 through 23.
    pub fn hour(&self) -> (r: u32)
        ensures
            r == self.hour,
    {
        self.hour
    }

    /// The minute, 0 through 59.
    pub fn minute(&self) -> (r: u32)
        ensures
            r == self.minute,
    {
        self.minute
    }

    /// Seconds past midnight of this time of day.
    pub fn seconds_of_day(&self) -> (r: u32)
        requires
            self.wf(),
        ensures
            r == self.hour * 3600 + self.minute * 60,
            r < 86_400,
    {
        self.hour * 3600 + self.minute * 60
    }
}

/// True of the characters closing an am/pm suffix.
pub open spec fn is_m_char(c: char) -> bool {
    c == 'm' || c == 'M'
}

/// True of the characters opening an `am` suffix.
pub open spec fn is_a_char(c: char) -> bool {
    c == 'a' || c == 'A'
}

/// True of the characters opening a `pm` suffix.
pub open spec fn is_p_char(c: char) -> bool {
    c == 'p' || c == 'P'
}

/// The meridiem suffix of a time string: `Some(false)` for `am`,
/// `Some(true)` for `pm`, `None` when the string carries neither.
pub open spec fn meridiem_of(s: Seq<char>) -> Option<bool> {
    if s.len() >= 2 && is_m_char(s.last()) && is_a_char(s[s.len() - 2]) {
        Some(false)
    } else if s.len() >= 2 && is_m_char(s.last()) && is_p_char(s[s.len() - 2]) {
        Some(true)
    } else {
        None
    }
}

/// The index of the first colon of `s`, or -1 when `s` has none.
pub open spec fn first_colon_at(s: Seq<char>) -> int
    decreases s.len(),
{
    if s.len() == 0 {
        -1
    } else if s[0] == ':' {
        0
    } else {
        let rest = first_colon_at(s.drop_first());
        if rest < 0 {
            -1
        } else {
            rest + 1
        }
    }
}

proof fn lemma_first_colon_found(s: Seq<char>, i: int)
    requires
        0 <= i < s.len(),
        s[i] == ':',
        forall|t: int| 0 <= t < i ==> s[t] != ':',
    ensures
        first_colon_at(s) == i,
    decreases i,
{
    if i == 0 {
    } else {
        assert(s.drop_first()[i - 1] == s[i]);
        assert(forall|t: int| 0 <= t < i - 1 ==> s.drop_first()[t] == s[t + 1]);
        lemma_first_colon_found(s.drop_first(), i - 1);
    }
}

proof fn lemma_first_colon_none(s: Seq<char>)
    requires
        forall|t: int| 0 <= t < s.len() ==> s[t] != ':',
    ensures
        first_colon_at(s) == -1,
    decreases s.len(),
{
    if s.len() == 0 {
    } else {
        assert(forall|t: int| 0 <= t < s.drop_first().len() ==> s.drop_first()[t] == s[t + 1]);
        lemma_first_colon_none(s.drop_first());
    }
}

/// True when the body of a time string splits at its first colon into a
/// non-empty run of digits for the hour and one for the minute.
pub open spec fn split_ok(body: Seq<char>) -> bool {
    let i = first_colon_at(body);
    &&& 1 <= i
    &&& i + 1 < body.len()
    &&& all_digits(body.take(i))
    &&& all_digits(body.skip(i + 1))
}

/// The hour digits of a well-split time body denote this value.
pub open spec fn split_hour(body: Seq<char>) -> nat {
    digits_val(body.take(first_colon_at(body)))
}

/// The minute digits of a well-split time body denote this value.
pub open spec fn split_minute(body: Seq<char>) -> nat {
    digits_val(body.skip(first_colon_at(body) + 1))
}

/// A 12-hour hour with its meridiem, as a 24-hour hour: 12 am is hour 0,
/// 12 pm is hour 12, any other pm hour gains twelve, any other am hour
/// stands.
pub open spec fn hour24_spec(hour12: nat, is_pm: bool) -> nat {
    if is_pm {
        if hour12 == 12 {
            12
        } else {
            hour12 + 12
        }
    } else {
        if hour12 == 12 {
            0
        } else {
            hour12
        }
    }
}

/// What parsing a time string yields: the body before any meridiem suffix
/// must split into hour and minute digits; with a suffix the hour must be a
/// 12-hour hour and is converted, without one it must be a 24-hour hour; the
/// minute must be below 60.
pub open spec fn alarm_time_spec(s: Seq<char>) -> Result<TimeOfDay, ParseError> {
    let mer = meridiem_of(s);
    let body = if mer is Some {
        s.take(s.len() - 2)
    } else {
        s
    };
    if !split_ok(body) {
        Err(ParseError::InvalidTimeFormat)
    } else {
        let h = split_hour(body);
        let m = split_minute(body);
        match mer {
            Some(is_pm) => if h < 1 || h > 12 {
                Err(ParseError::InvalidHour)
            } else if m > 59 {
                Err(ParseError::InvalidTime)
            } else {
                Ok(TimeOfDay { hour: hour24_spec(h, is_pm) as u32, minute: m as u32 })
            },
            None => if h > 23 || m > 59 {
                Err(ParseError::InvalidTime)
            } else {
                Ok(TimeOfDay { hour: h as u32, minute: m as u32 })
            },
        }
    }
}

/// Converts a 12-hour hour and its meridiem to 24-hour form: `12 am` maps
/// to hour 0, `12 pm` stays 12, any other `pm` hour is the hour modulo 12
/// plus 12, and any other `am` hour stands unchanged.
pub fn hour_to_24(hour12: u32, is_pm: bool) -> (r: u32)
    requires
        1 <= hour12 <= 12,
    ensures
        r == hour24_spec(hour12 as nat, is_pm),
        is_pm && hour12 != 12 ==> r == (hour12 % 12) + 12,
        is_pm && hour12 == 12 ==> r == 12,
        !is_pm && hour12 == 12 ==> r == 0,
        !is_pm && hour12 != 12 ==> r == hour12,
        r < 24,
{
    if is_pm && hour12 != 12 {
        hour12 + 12
    } else if !is_pm && hour12 == 12 {
        0
    } else {
        hour12
    }
}

/// Value denoted by a run of digits, saturated just above the largest value
/// the parsers care to distinguish.
pub open spec fn capped_value(n: nat) -> nat {
    if n > 10_000 {
        10_000
    } else {
        n
    }
}

/// Reads the characters of `s` from `from` (inclusive) to `to` (exclusive):
/// `Some` with their saturated value when the range is a non-empty run of
/// digits, `None` otherwise.
fn digits_value_capped(s: &str, from: usize, to: usize) -> (r: Option<u32>)
    requires
        from <= to <= s@.len(),
    ensures
        match r {
            Some(v) => from < to && all_digits(s@.subrange(from as int, to as int)) && v
                == capped_value(digits_val(s@.subrange(from as int, to as int))),
            None => !(from < to && all_digits(s@.subrange(from as int, to as int))),
        },
{
    if from == to {
        return None;
    }
    let ghost sub = s@.subrange(from as int, to as int);
    let mut k: usize = from;
    let mut v: u32 = 0;
    proof {
        assert(sub.take(0) =~= Seq::<char>::empty());
    }
    while k < to
        invariant
            from <= k <= to <= s@.len(),
            sub == s@.subrange(from as int, to as int),
            all_digits(sub.take(k - from)),
            v == capped_value(digits_val(sub.take(k - from))),
        decreases to - k,
    {
        let c = s.get_char(k);
        proof {
            assert(sub[k - from] == s@[k as int]);
        }
        let u = c as u32;
        if !(48 <= u && u <= 57) {
            assert(!is_digit_char(sub[k - from]));
            return None;
        }
        let d = u - 48;
        proof {
            let j = k - from;
            assert(sub.take(j + 1).drop_last() =~= sub.take(j));
            assert(sub.take(j + 1).last() == sub[j]);
            assert(digits_val(sub.take(j + 1)) == digits_val(sub.take(j)) * 10 + digit_val(
                sub[j],
            ));
        }
        let t = v * 10 + d;
        v = if t > 10_000 {
            10_000
        } else {
            t
        };
        k = k + 1;
    }
    proof {
        assert(sub.take(to - from) =~= sub);
    }
    Some(v)
}

/// Parses a time string into a time of day, as `alarm_time_spec` states:
/// the accepted grammar is `hours:minutes` with an optional case-blind
/// `am`/`pm` suffix, a malformed body is `InvalidTimeFormat`, a 12-hour hour
/// outside 1 through 12 is `InvalidHour`, and an hour or minute out of range
/// is `InvalidTime`.
pub fn parse_alarm_time(s: &str) -> (r: Result<TimeOfDay, ParseError>)
    ensures
        r == alarm_time_spec(s@),
        r matches Ok(t) ==> t.wf(),
{
    let n = s.unicode_len();
    let meridiem: Option<bool> = if n >= 2 {
        let closer = s.get_char(n - 1);
        let opener = s.get_char(n - 2);
        if closer == 'm' || closer == 'M' {
            if opener == 'a' || opener == 'A' {
                Some(false)
            } else if opener == 'p' || opener == 'P' {
                Some(true)
            } else {
                None
            }
        } else {
            None
        }
    } else {
        None
    };
    proof {
        if n >= 2 {
            assert(s@.last() == s@[n - 1]);
        }
        assert(meridiem == meridiem_of(s@));
    }
    let body_len = if meridiem.is_some() {
        n - 2
    } else {
        n
    };
    let ghost body = s@.take(body_len as int);
    proof {
        assert(forall|t: int| 0 <= t < body.len() ==> body[t] == s@[t]);
        if meridiem is None {
            assert(body =~= s@);
        }
    }

    let mut j: usize = 0;
    let mut found = false;
    while j < body_len && !found
        invariant
            j <= body_len <= s@.len(),
            body == s@.take(body_len as int),
            forall|t: int| 0 <= t < j ==> body[t] != ':',
            found ==> j < body_len && body[j as int] == ':',
        decreases body_len - j, (if found { 0int } else { 1int }),
    {
        if s.get_char(j) == ':' {
            found = true;
        } else {
            j = j + 1;
        }
    }
    if !found {
        proof {
            lemma_first_colon_none(body);
        }
        return Err(ParseError::InvalidTimeFormat);
    }
    proof {
        lemma_first_colon_found(body, j as int);
    }
    let colon = j;

    let hour_digits = digits_value_capped(s, 0, colon);
    proof {
        assert(body.take(colon as int) =~= s@.subrange(0, colon as int));
    }
    let minute_digits = digits_value_capped(s, colon + 1, body_len);
    proof {
        assert(body.skip(colon + 1) =~= s@.subrange(colon + 1, body_len as int));
    }
    let (hv, mv) = match (hour_digits, minute_digits) {
        (Some(hv), Some(mv)) => (hv, mv),
        _ => {
            return Err(ParseError::InvalidTimeFormat);
        },
    };
    assert(split_ok(body));
    assert(hv == capped_value(split_hour(body)));
    assert(mv == capped_value(split_minute(body)));

    match meridiem {
        Some(is_pm) => {
            if hv < 1 || hv > 12 {
                Err(ParseError::InvalidHour)
            } else if mv > 59 {
                Err(ParseError::InvalidTime)
            } else {
                Ok(TimeOfDay { hour: hour_to_24(hv, is_pm), minute: mv })
            }
        },
        None => {
            if hv > 23 {
                Err(ParseError::InvalidTime)
            } else if mv > 59 {
                Err(ParseError::InvalidTime)
            } else {
                Ok(TimeOfDay { hour: hv, minute: mv })
            }
        },
    }
}

} // verus!
