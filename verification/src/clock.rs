//! The local wall clock.
use vstd::prelude::*;
use crate::text::{all_ascii_digits, is_ascii_digit};

verus! {

/// The two ways the program writes a time: with a space or with an
/// underscore between the date and the time of day.
pub open spec fn timestamp_pattern(pattern: Seq<char>) -> bool {
    pattern == "%m-%d-%Y %H:%M:%S"@ || pattern == "%m-%d-%Y_%H:%M:%S"@
}

/// The character between the date and the time of day in a pattern.
pub open spec fn pattern_separator(pattern: Seq<char>) -> char {
    if pattern == "%m-%d-%Y %H:%M:%S"@ {
        ' '
    } else {
        '_'
    }
}

/// Two ASCII digits at `i` and `i + 1`.
pub open spec fn two_digits(t: Seq<char>, i: int) -> bool {
    is_ascii_digit(t[i]) && is_ascii_digit(t[i + 1])
}

/// A year as `chrono` writes `%Y`: four or more digits, with a sign in
/// front for a year before 0 or after 9999.
pub open spec fn year_text(y: Seq<char>) -> bool {
    ||| (y.len() >= 4 && all_ascii_digits(y))
    ||| (y.len() >= 5 && (y[0] == '+' || y[0] == '-') && all_ascii_digits(y.drop_first()))
}

/// A time written as `MM-DD-YYYY`, `sep`, `HH:MM:SS`, each field in
/// digits, the year as `year_text` says.
pub open spec fn stamp_shaped(t: Seq<char>, sep: char) -> bool {
    let n = t.len() as int;
    &&& n >= 19
    &&& two_digits(t, 0) && t[2] == '-' && two_digits(t, 3) && t[5] == '-'
    &&& year_text(t.subrange(6, n - 9))
    &&& t[n - 9] == sep
    &&& two_digits(t, n - 8) && t[n - 6] == ':'
    &&& two_digits(t, n - 5) && t[n - 3] == ':'
    &&& two_digits(t, n - 2)
}

/// The current local time written with a `chrono` format pattern
/// (`chrono::Local::now().format(pattern).to_string()`). Only the two
/// patterns of `timestamp_pattern` are taken: `to_string` panics on a
/// pattern that `chrono` cannot read. Which time comes back depends on the
/// clock and the machine's time zone; every result has the shape of
/// `stamp_shaped`: `chrono` writes month, day, hour, minute and second
/// with two digits each, and the year with four digits, or more digits
/// after a sign outside the years 0 to 9999.
#[verifier::external_body]
pub(crate) fn local_timestamp(pattern: &str) -> (r: String)
    requires
        timestamp_pattern(pattern@),
    ensures
        stamp_shaped(r@, pattern_separator(pattern@)),
{
    chrono::Local::now().format(pattern).to_string()
}

/// A time of the shape that `local_timestamp` gives.
pub proof fn lemma_sample_stamp(sep: char)
    ensures
        stamp_shaped(seq!['0', '1', '-', '0', '1', '-', '2', '0', '0', '0', sep, '0', '0', ':', '0', '0', ':', '0', '0'], sep),
{
    let t = seq!['0', '1', '-', '0', '1', '-', '2', '0', '0', '0', sep, '0', '0', ':', '0', '0', ':', '0', '0'];
    let y = t.subrange(6, 10);
    assert(y =~= seq!['2', '0', '0', '0']);
    assert(all_ascii_digits(y));
}

} // verus!
