//! Parsing duration strings.
//!
//! The accepted grammar is one or more components — a non-empty run of
//! digits closed by a unit marker `h`, `m` or `s` (either case), worth its
//! value times 3600, 60 or 1 seconds — or a single bare run of digits,
//! counting as seconds. Anything else, and a string whose components add up
//! to zero seconds, is a user input error.

use vstd::prelude::*;

use crate::digits::all_digits;
use crate::digits::digit_val;
use crate::digits::digits_val;
use crate::digits::is_digit_char;
use crate::errors::ParseError;

verus! {

/// True of the hour markers `h` and `H`.
pub open spec fn is_hour_marker(c: char) -> bool {
    c == 'h' || c == 'H'
}

/// True of the minute markers `m` and `M`.
pub open spec fn is_minute_marker(c: char) -> bool {
    c == 'm' || c == 'M'
}

/// True of the second markers `s` and `S`.
pub open spec fn is_second_marker(c: char) -> bool {
    c == 's' || c == 'S'
}

/// True of the unit markers `h`, `m` and `s`, either case.
pub open spec fn is_unit_marker(c: char) -> bool {
    is_hour_marker(c) || is_minute_marker(c) || is_second_marker(c)
}

/// The duration grammar: one or more digit runs each closed by a unit
/// marker, or one bare digit run. Pointwise: the string is non-empty, every
/// character is a digit or a unit marker, every marker directly follows a
/// digit (so no run it closes is empty), and the string either ends on a
/// marker or is digits throughout (the bare-integer form — a trailing
/// unmarked run after components is not in the grammar).
pub open spec fn duration_grammar_ok(s: Seq<char>) -> bool {
    &&& s.len() > 0
    &&& forall|i: int| 0 <= i < s.len() ==> is_digit_char(#[trigger] s[i]) || is_unit_marker(s[i])
    &&& forall|i: int|
        0 <= i < s.len() && is_unit_marker(#[trigger] s[i]) ==> i > 0 && is_digit_char(s[i - 1])
    &&& (is_unit_marker(s.last()) || all_digits(s))
}

/// The total seconds the components of a duration string add up to, read
/// left to right with a pending decimal run `cur` and the seconds gathered
/// so far `acc`: a digit extends the run, a unit marker closes it with the
/// unit's factor, and a run left open at the end counts as seconds. On a
/// string in the grammar every character takes one of those arms; the
/// pass-over arm makes the fold total, and `parse_duration` accepts no
/// string that reaches it.
pub open spec fn duration_fold(s: Seq<char>, cur: nat, acc: nat) -> nat
    decreases s.len(),
{
    if s.len() == 0 {
        acc + cur
    } else {
        let c = s[0];
        if is_digit_char(c) {
            duration_fold(s.drop_first(), cur * 10 + digit_val(c), acc)
        } else if is_hour_marker(c) {
            duration_fold(s.drop_first(), 0, acc + cur * 3600)
        } else if is_minute_marker(c) {
            duration_fold(s.drop_first(), 0, acc + cur * 60)
        } else if is_second_marker(c) {
            duration_fold(s.drop_first(), 0, acc + cur)
        } else {
            duration_fold(s.drop_first(), cur, acc)
        }
    }
}

/// The total seconds a duration string denotes.
pub open spec fn duration_total_secs(s: Seq<char>) -> nat {
    duration_fold(s, 0, 0)
}

/// The fold never drops what has been gathered: its result is at least the
/// pending run plus the seconds so far.
proof fn lemma_duration_fold_lower(s: Seq<char>, cur: nat, acc: nat)
    ensures
        duration_fold(s, cur, acc) >= acc + cur,
    decreases s.len(),
{
    if s.len() == 0 {
    } else {
        let c = s[0];
        if is_digit_char(c) {
            lemma_duration_fold_lower(s.drop_first(), cur * 10 + digit_val(c), acc);
        } else if is_hour_marker(c) {
            lemma_duration_fold_lower(s.drop_first(), 0, acc + cur * 3600);
        } else if is_minute_marker(c) {
            lemma_duration_fold_lower(s.drop_first(), 0, acc + cur * 60);
        } else if is_second_marker(c) {
            lemma_duration_fold_lower(s.drop_first(), 0, acc + cur);
        } else {
            lemma_duration_fold_lower(s.drop_first(), cur, acc);
        }
    }
}

/// Powers of ten.
pub open spec fn pow10(n: nat) -> nat
    decreases n,
{
    if n == 0 {
        1
    } else {
        10 * pow10((n - 1) as nat)
    }
}

/// Seconds per unit of a unit marker.
pub open spec fn unit_factor(c: char) -> nat {
    if is_hour_marker(c) {
        3600
    } else if is_minute_marker(c) {
        60
    } else {
        1
    }
}

proof fn lemma_digits_val_cons(c: char, s: Seq<char>)
    ensures
        digits_val(seq![c] + s) == digit_val(c) * pow10(s.len()) + digits_val(s),
    decreases s.len(),
{
    if s.len() == 0 {
        assert(seq![c] + s =~= seq![c]);
        assert((seq![c]).drop_last() =~= Seq::<char>::empty());
        assert((seq![c]).last() == c);
        assert(digits_val(Seq::<char>::empty()) == 0);
        assert(digit_val(c) * 1 == digit_val(c));
    } else {
        let s0 = s.drop_last();
        let l = s.last();
        assert(seq![c] + s =~= (seq![c] + s0).push(l));
        assert(((seq![c] + s0).push(l)).drop_last() =~= seq![c] + s0);
        assert(((seq![c] + s0).push(l)).last() == l);
        lemma_digits_val_cons(c, s0);
        assert(digits_val(seq![c] + s) == (digit_val(c) * pow10(s0.len()) + digits_val(s0)) * 10
            + digit_val(l));
        assert((digit_val(c) * pow10(s0.len()) + digits_val(s0)) * 10 == digit_val(c) * (pow10(
            s0.len(),
        ) * 10) + digits_val(s0) * 10) by (nonlinear_arith);
        assert(pow10(s.len()) == 10 * pow10(s0.len()));
    }
}

proof fn lemma_fold_digits(digits: Seq<char>, t: Seq<char>, cur: nat, acc: nat)
    requires
        all_digits(digits),
    ensures
        duration_fold(digits + t, cur, acc) == duration_fold(
            t,
            cur * pow10(digits.len()) + digits_val(digits),
            acc,
        ),
    decreases digits.len(),
{
    if digits.len() == 0 {
        assert(digits + t =~= t);
        assert(digits =~= Seq::<char>::empty());
        assert(cur * 1 == cur);
    } else {
        let c = digits[0];
        let rest = digits.drop_first();
        assert((digits + t).len() > 0);
        assert((digits + t)[0] == c);
        assert((digits + t).drop_first() =~= rest + t);
        assert(is_digit_char(c));
        lemma_fold_digits(rest, t, cur * 10 + digit_val(c), acc);
        lemma_digits_val_cons(c, rest);
        assert(digits =~= seq![c] + rest);
        assert((cur * 10 + digit_val(c)) * pow10(rest.len()) == cur * (10 * pow10(rest.len()))
            + digit_val(c) * pow10(rest.len())) by (nonlinear_arith);
        assert(pow10(digits.len()) == 10 * pow10(rest.len()));
    }
}

proof fn lemma_fold_acc(s: Seq<char>, cur: nat, acc: nat)
    ensures
        duration_fold(s, cur, acc) == acc + duration_fold(s, cur, 0),
    decreases s.len(),
{
    if s.len() == 0 {
    } else {
        let c = s[0];
        let rest = s.drop_first();
        if is_digit_char(c) {
            lemma_fold_acc(rest, cur * 10 + digit_val(c), acc);
            lemma_fold_acc(rest, cur * 10 + digit_val(c), 0);
        } else if is_hour_marker(c) {
            lemma_fold_acc(rest, 0, acc + cur * 3600);
            lemma_fold_acc(rest, 0, cur * 3600);
        } else if is_minute_marker(c) {
            lemma_fold_acc(rest, 0, acc + cur * 60);
            lemma_fold_acc(rest, 0, cur * 60);
        } else if is_second_marker(c) {
            lemma_fold_acc(rest, 0, acc + cur);
            lemma_fold_acc(rest, 0, cur);
        } else {
            lemma_fold_acc(rest, cur, acc);
            lemma_fold_acc(rest, cur, 0);
        }
    }
}

/// A duration string made of components adds up component by component: a
/// run of digits closed by a unit marker contributes its value times the
/// unit's factor, whatever follows and in whatever order the components
/// stand.
pub proof fn lemma_duration_component(digits: Seq<char>, marker: char, rest: Seq<char>)
    requires
        all_digits(digits),
        digits.len() > 0,
        is_hour_marker(marker) || is_minute_marker(marker) || is_second_marker(marker),
    ensures
        duration_total_secs(digits + seq![marker] + rest) == digits_val(digits) * unit_factor(
            marker,
        ) + duration_total_secs(rest),
{
    let tail = seq![marker] + rest;
    assert(digits + seq![marker] + rest =~= digits + tail);
    lemma_fold_digits(digits, tail, 0, 0);
    assert(0 * pow10(digits.len()) == 0);
    assert(tail[0] == marker);
    assert(tail.drop_first() =~= rest);
    assert(!is_digit_char(marker));
    lemma_fold_acc(rest, 0, digits_val(digits) * unit_factor(marker));
}

/// A bare run of digits, with no unit marker, counts as that many seconds.
pub proof fn lemma_duration_bare(digits: Seq<char>)
    requires
        all_digits(digits),
    ensures
        duration_total_secs(digits) == digits_val(digits),
{
    lemma_fold_digits(digits, Seq::<char>::empty(), 0, 0);
    assert(digits + Seq::<char>::empty() =~= digits);
    assert(0 * pow10(digits.len()) == 0);
}

/// Stepping past position `i` of `s` relates the suffix at `i` to the
/// suffix at `i + 1`.
proof fn lemma_skip_step(s: Seq<char>, i: int)
    requires
        0 <= i < s.len(),
    ensures
        s.skip(i).len() == s.len() - i,
        s.skip(i)[0] == s[i],
        s.skip(i).drop_first() =~= s.skip(i + 1),
{
}

/// Parses a duration string into whole seconds.
///
/// Returns the components' total when the string is in the grammar and the
/// total is positive and countable in seconds; rejects a string outside the
/// grammar, and one whose components add up to zero, as `InvalidDuration`;
/// rejects a total the machine cannot count as `DurationTooLarge`.
pub fn parse_duration(s: &str) -> (r: Result<u64, ParseError>)
    ensures
        match r {
            Ok(d) => duration_grammar_ok(s@) && 0 < duration_total_secs(s@) <= u64::MAX && d
                == duration_total_secs(s@),
            Err(e) => (e is InvalidDuration && (!duration_grammar_ok(s@) || duration_total_secs(s@)
                == 0)) || (e is DurationTooLarge && duration_grammar_ok(s@) && duration_total_secs(
                s@,
            ) > u64::MAX),
        },
{
    let n = s.unicode_len();
    if n == 0 {
        return Err(ParseError::InvalidDuration);
    }
    // First pass: hold the string to the grammar.
    let mut i: usize = 0;
    let mut run_open = false;
    let mut seen_marker = false;
    while i < n
        invariant
            n == s@.len(),
            i <= n,
            forall|j: int| 0 <= j < i ==> is_digit_char(#[trigger] s@[j]) || is_unit_marker(s@[j]),
            forall|j: int|
                0 <= j < i && is_unit_marker(#[trigger] s@[j]) ==> j > 0 && is_digit_char(
                    s@[j - 1],
                ),
            run_open == (i > 0 && is_digit_char(s@[i - 1])),
            seen_marker == exists|j: int| 0 <= j < i && is_unit_marker(#[trigger] s@[j]),
        decreases n - i,
    {
        let c = s.get_char(i);
        let u = c as u32;
        if 48 <= u && u <= 57 {
            assert(is_digit_char(s@[i as int]));
            run_open = true;
        } else if c == 'h' || c == 'H' || c == 'm' || c == 'M' || c == 's' || c == 'S' {
            assert(is_unit_marker(s@[i as int]));
            if !run_open {
                assert(!(i as int > 0 && is_digit_char(s@[i as int - 1])));
                assert(!duration_grammar_ok(s@));
                return Err(ParseError::InvalidDuration);
            }
            run_open = false;
            seen_marker = true;
        } else {
            assert(!is_digit_char(s@[i as int]) && !is_unit_marker(s@[i as int]));
            assert(!duration_grammar_ok(s@));
            return Err(ParseError::InvalidDuration);
        }
        i = i + 1;
    }
    if run_open && seen_marker {
        // Digits after the last marker: neither the component form nor a
        // bare integer.
        proof {
            assert(is_digit_char(s@[n - 1]));
            assert(!is_unit_marker(s@.last()));
            let w = choose|j: int| 0 <= j < n && is_unit_marker(#[trigger] s@[j]);
            assert(!is_digit_char(s@[w]));
            assert(!all_digits(s@));
        }
        return Err(ParseError::InvalidDuration);
    }
    proof {
        if !seen_marker {
            assert forall|j: int| 0 <= j < s@.len() implies is_digit_char(#[trigger] s@[j]) by {
                if is_unit_marker(s@[j]) {
                    assert(exists|t: int| 0 <= t < n && is_unit_marker(#[trigger] s@[t]));
                }
            }
            assert(all_digits(s@));
        } else {
            assert(!(n as int > 0 && is_digit_char(s@[n - 1])));
            assert(is_unit_marker(s@[n - 1]));
            assert(is_unit_marker(s@.last()));
        }
        assert(duration_grammar_ok(s@));
    }
    // Second pass: add the components up.
    let mut i: usize = 0;
    let mut cur: u64 = 0;
    let mut acc: u64 = 0;
    proof {
        assert(s@.skip(0) =~= s@);
    }
    while i < n
        invariant
            n == s@.len(),
            i <= n,
            duration_grammar_ok(s@),
            duration_total_secs(s@) == duration_fold(s@.skip(i as int), cur as nat, acc as nat),
        decreases n - i,
    {
        let c = s.get_char(i);
        proof {
            lemma_skip_step(s@, i as int);
        }
        let u = c as u32;
        if 48 <= u && u <= 57 {
            let d = (u - 48) as u64;
            assert(is_digit_char(c) && digit_val(c) == d);
            let widened = match cur.checked_mul(10) {
                Some(c10) => c10.checked_add(d),
                None => None,
            };
            match widened {
                Some(next) => {
                    cur = next;
                },
                None => {
                    proof {
                        lemma_duration_fold_lower(
                            s@.skip(i as int + 1),
                            cur as nat * 10 + digit_val(c),
                            acc as nat,
                        );
                    }
                    return Err(ParseError::DurationTooLarge);
                },
            }
        } else if c == 'h' || c == 'H' {
            let closed = match cur.checked_mul(3600) {
                Some(weight) => acc.checked_add(weight),
                None => None,
            };
            match closed {
                Some(next) => {
                    acc = next;
                    cur = 0;
                },
                None => {
                    proof {
                        lemma_duration_fold_lower(
                            s@.skip(i as int + 1),
                            0,
                            acc as nat + cur as nat * 3600,
                        );
                    }
                    return Err(ParseError::DurationTooLarge);
                },
            }
        } else if c == 'm' || c == 'M' {
            let closed = match cur.checked_mul(60) {
                Some(weight) => acc.checked_add(weight),
                None => None,
            };
            match closed {
                Some(next) => {
                    acc = next;
                    cur = 0;
                },
                None => {
                    proof {
                        lemma_duration_fold_lower(
                            s@.skip(i as int + 1),
                            0,
                            acc as nat + cur as nat * 60,
                        );
                    }
                    return Err(ParseError::DurationTooLarge);
                },
            }
        } else if c == 's' || c == 'S' {
            match acc.checked_add(cur) {
                Some(next) => {
                    acc = next;
                    cur = 0;
                },
                None => {
                    proof {
                        lemma_duration_fold_lower(s@.skip(i as int + 1), 0, acc as nat + cur as nat);
                    }
                    return Err(ParseError::DurationTooLarge);
                },
            }
        } else {
            assert(!is_digit_char(c) && !is_hour_marker(c) && !is_minute_marker(c)
                && !is_second_marker(c));
        }
        i = i + 1;
    }
    proof {
        assert(s@.skip(n as int) =~= Seq::<char>::empty());
    }
    match acc.checked_add(cur) {
        Some(total) => {
            if total == 0 {
                Err(ParseError::InvalidDuration)
            } else {
                Ok(total)
            }
        },
        None => Err(ParseError::DurationTooLarge),
    }
}

} // verus!
