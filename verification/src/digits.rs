//! Decimal digits: spec-level digit sequences and their numeric values, and
//! executable rendering of numbers as zero-padded decimal strings.

use vstd::prelude::*;

verus! {

/// True of the ten ASCII digit characters.
pub open spec fn is_digit_char(c: char) -> bool {
    48 <= c as int <= 57
}

/// Numeric value of an ASCII digit character.
pub open spec fn digit_val(c: char) -> nat
    recommends
        is_digit_char(c),
{
    if is_digit_char(c) {
        (c as int - 48) as nat
    } else {
        0
    }
}

/// The ASCII digit character for a value below ten.
pub open spec fn digit_char(d: nat) -> char
    recommends
        d < 10,
{
    if d == 0 {
        '0'
    } else if d == 1 {
        '1'
    } else if d == 2 {
        '2'
    } else if d == 3 {
        '3'
    } else if d == 4 {
        '4'
    } else if d == 5 {
        '5'
    } else if d == 6 {
        '6'
    } else if d == 7 {
        '7'
    } else if d == 8 {
        '8'
    } else {
        '9'
    }
}

/// The usual decimal rendering of `n`, most significant digit first,
/// without leading zeros (a single zero for `n == 0`).
pub open spec fn decimal_seq(n: nat) -> Seq<char>
    decreases n,
{
    if n < 10 {
        seq![digit_char(n)]
    } else {
        decimal_seq(n / 10).push(digit_char(n % 10))
    }
}

/// Numeric value of a sequence of ASCII digit characters.
pub open spec fn digits_val(s: Seq<char>) -> nat
    decreases s.len(),
{
    if s.len() == 0 {
        0
    } else {
        digits_val(s.drop_last()) * 10 + digit_val(s.last())
    }
}

/// True when every character of `s` is an ASCII digit.
pub open spec fn all_digits(s: Seq<char>) -> bool {
    forall|i: int| 0 <= i < s.len() ==> is_digit_char(#[trigger] s[i])
}

proof fn lemma_digit_char_val(d: nat)
    requires
        d < 10,
    ensures
        is_digit_char(digit_char(d)),
        digit_val(digit_char(d)) == d,
{
}

/// Reading back the decimal rendering of a number yields the number:
/// `decimal_seq` is a right inverse of `digits_val`, and produces a
/// non-empty string of digits.
pub proof fn lemma_decimal_seq_val(n: nat)
    ensures
        decimal_seq(n).len() >= 1,
        all_digits(decimal_seq(n)),
        digits_val(decimal_seq(n)) == n,
    decreases n,
{
    if n < 10 {
        lemma_digit_char_val(n);
        let s = decimal_seq(n);
        assert(s =~= seq![digit_char(n)]);
        assert(s.drop_last() =~= Seq::<char>::empty());
        assert(digits_val(Seq::<char>::empty()) == 0);
        assert(s.last() == digit_char(n));
        assert(digits_val(s) == digits_val(s.drop_last()) * 10 + digit_val(s.last()));
    } else {
        lemma_decimal_seq_val(n / 10);
        lemma_digit_char_val(n % 10);
        let s = decimal_seq(n);
        assert(s =~= decimal_seq(n / 10).push(digit_char(n % 10)));
        assert(s.drop_last() =~= decimal_seq(n / 10));
        assert(s.last() == digit_char(n % 10));
        assert(digits_val(s) == (n / 10) * 10 + n % 10);
    }
}

/// A single ASCII digit as a string slice.
fn digit_literal(d: u64) -> (r: &'static str)
    requires
        d < 10,
    ensures
        r@ =~= seq![digit_char(d as nat)],
{
    proof {
        reveal_strlit("0");
        reveal_strlit("1");
        reveal_strlit("2");
        reveal_strlit("3");
        reveal_strlit("4");
        reveal_strlit("5");
        reveal_strlit("6");
        reveal_strlit("7");
        reveal_strlit("8");
        reveal_strlit("9");
    }
    if d == 0 {
        "0"
    } else if d == 1 {
        "1"
    } else if d == 2 {
        "2"
    } else if d == 3 {
        "3"
    } else if d == 4 {
        "4"
    } else if d == 5 {
        "5"
    } else if d == 6 {
        "6"
    } else if d == 7 {
        "7"
    } else if d == 8 {
        "8"
    } else {
        "9"
    }
}

/// Renders `n` in decimal, without padding.
pub fn decimal_string(n: u64) -> (r: String)
    ensures
        r@ == decimal_seq(n as nat),
    decreases n,
{
    if n < 10 {
        let r = String::from_str(digit_literal(n));
        assert(r@ =~= decimal_seq(n as nat));
        r
    } else {
        let mut r = decimal_string(n / 10);
        r.append(digit_literal(n % 10));
        assert(r@ =~= decimal_seq(n as nat));
        r
    }
}

/// The decimal rendering of `n` padded with zeros on the left to at least
/// `width` characters.
pub open spec fn padded_decimal_seq(n: nat, width: nat) -> Seq<char>
    decreases width,
{
    let s = decimal_seq(n);
    if s.len() >= width {
        s
    } else {
        padded_decimal_seq(n, (width - 1) as nat).insert(0, '0')
    }
}

proof fn lemma_decimal_seq_len_1(n: nat)
    ensures
        (decimal_seq(n).len() == 1) == (n < 10),
        n < 10 ==> decimal_seq(n) =~= seq![digit_char(n)],
{
    if n >= 10 {
        lemma_decimal_seq_val(n / 10);
    }
}

/// Renders `n` in decimal, zero-padded on the left to at least two characters.
pub fn padded_decimal_string(n: u64) -> (r: String)
    ensures
        r@ == padded_decimal_seq(n as nat, 2),
{
    proof {
        reveal_strlit("0");
        lemma_decimal_seq_len_1(n as nat);
    }
    if n < 10 {
        let mut r = String::from_str("0");
        r.append(digit_literal(n));
        assert(padded_decimal_seq(n as nat, 1) == decimal_seq(n as nat));
        assert(r@ =~= padded_decimal_seq(n as nat, 2));
        r
    } else {
        let r = decimal_string(n);
        assert(decimal_seq(n as nat).len() >= 2) by {
            lemma_decimal_seq_len_1(n as nat);
            lemma_decimal_seq_val(n as nat);
        }
        r
    }
}

/// Renders `n` in decimal, zero-padded on the left to at least three
/// characters.
fn padded3_decimal_string(n: u64) -> (r: String)
    requires
        n < 1000,
    ensures
        r@ == padded_decimal_seq(n as nat, 3),
{
    proof {
        reveal_strlit("0");
        lemma_decimal_seq_len_1(n as nat);
        assert(padded_decimal_seq(n as nat, 1) == decimal_seq(n as nat));
    }
    if n < 10 {
        let mut r = String::from_str("0");
        let tail = padded_decimal_string(n);
        r.append(tail.as_str());
        assert(r@ =~= padded_decimal_seq(n as nat, 3));
        r
    } else if n < 100 {
        let mut r = String::from_str("0");
        let tail = decimal_string(n);
        r.append(tail.as_str());
        assert(decimal_seq(n as nat).len() == 2) by {
            lemma_decimal_seq_len_1((n as nat) / 10);
            lemma_decimal_seq_len_1(n as nat);
        }
        assert(padded_decimal_seq(n as nat, 2) == decimal_seq(n as nat));
        assert(r@ =~= padded_decimal_seq(n as nat, 3));
        r
    } else {
        let r = decimal_string(n);
        assert(decimal_seq(n as nat).len() == 3) by {
            lemma_decimal_seq_len_1(((n as nat) / 10) / 10);
            lemma_decimal_seq_len_1((n as nat) / 10);
            lemma_decimal_seq_len_1(n as nat);
        }
        r
    }
}

/// The display form of an elapsed stopwatch time in milliseconds: the whole
/// seconds as `duration_display` renders them, a dot, and the millisecond
/// remainder zero-padded to three characters.
pub open spec fn stopwatch_display(elapsed_millis: nat) -> Seq<char> {
    duration_display(elapsed_millis / 1000) + seq!['.'] + padded_decimal_seq(
        elapsed_millis % 1000,
        3,
    )
}

/// Formats an elapsed stopwatch time in milliseconds for display, as
/// `stopwatch_display` describes.
pub fn format_stopwatch(elapsed_millis: u64) -> (r: String)
    ensures
        r@ == stopwatch_display(elapsed_millis as nat),
{
    proof {
        reveal_strlit(".");
    }
    let mut r = format_duration(elapsed_millis / 1000);
    r.append(".");
    let tail = padded3_decimal_string(elapsed_millis % 1000);
    r.append(tail.as_str());
    assert(r@ =~= stopwatch_display(elapsed_millis as nat));
    r
}

/// The display form of a whole number of seconds: `HH:MM:SS` when at least
/// an hour, `MM:SS` otherwise, each field zero-padded to two characters
/// (the hour field widens beyond two digits when it must).
pub open spec fn duration_display(total_secs: nat) -> Seq<char> {
    let hours = total_secs / 3600;
    let minutes = (total_secs % 3600) / 60;
    let seconds = total_secs % 60;
    if hours > 0 {
        padded_decimal_seq(hours, 2) + seq![':'] + padded_decimal_seq(minutes, 2) + seq![':']
            + padded_decimal_seq(seconds, 2)
    } else {
        padded_decimal_seq(minutes, 2) + seq![':'] + padded_decimal_seq(seconds, 2)
    }
}

/// Formats a duration given in whole seconds for display, as
/// `duration_display` describes.
pub fn format_duration(total_secs: u64) -> (r: String)
    ensures
        r@ == duration_display(total_secs as nat),
{
    proof {
        reveal_strlit(":");
    }
    let hours = total_secs / 3600;
    let minutes = (total_secs % 3600) / 60;
    let seconds = total_secs % 60;
    if hours > 0 {
        let mut r = padded_decimal_string(hours);
        r.append(":");
        let m = padded_decimal_string(minutes);
        r.append(m.as_str());
        r.append(":");
        let s = padded_decimal_string(seconds);
        r.append(s.as_str());
        assert(r@ =~= duration_display(total_secs as nat));
        r
    } else {
        let mut r = padded_decimal_string(minutes);
        r.append(":");
        let s = padded_decimal_string(seconds);
        r.append(s.as_str());
        assert(r@ =~= duration_display(total_secs as nat));
        r
    }
}

} // verus!
