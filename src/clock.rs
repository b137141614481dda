//! The local time, read through chrono.
use vstd::prelude::*;

verus! {

/// The strftime pattern of a flush directory's name: the local date and time
/// to the second, such as `2024.03.09 17-05-42`.
pub const STAMP_FORMAT: &'static str = "%Y.%m.%d %H-%M-%S";

/// A decimal digit.
pub open spec fn is_digit(c: char) -> bool {
    '0' <= c && c <= '9'
}

/// Every character is a decimal digit.
pub open spec fn all_digits(s: Seq<char>) -> bool {
    forall|i: int| 0 <= i < s.len() ==> is_digit(#[trigger] s[i])
}

/// A year as `%Y` writes it: four digits for the years 0 to 9999, else a
/// sign followed by at least four digits.
pub open spec fn is_year_text(y: Seq<char>) -> bool {
    ||| y.len() == 4 && all_digits(y)
    ||| y.len() >= 5 && (y[0] == '+' || y[0] == '-') && all_digits(y.drop_first())
}

/// The part of a stamp after the year: `.MM.DD HH-MM-SS`.
pub open spec fn is_clock_text(t: Seq<char>) -> bool {
    &&& t.len() == 15
    &&& t[0] == '.' && t[3] == '.' && t[6] == ' ' && t[9] == '-' && t[12] == '-'
    &&& is_digit(t[1]) && is_digit(t[2])
    &&& is_digit(t[4]) && is_digit(t[5])
    &&& is_digit(t[7]) && is_digit(t[8])
    &&& is_digit(t[10]) && is_digit(t[11])
    &&& is_digit(t[13]) && is_digit(t[14])
}

/// Text in the shape that [`STAMP_FORMAT`] gives: a year, then
/// `.MM.DD HH-MM-SS`.
pub open spec fn is_stamp(s: Seq<char>) -> bool {
    &&& s.len() >= 19
    &&& is_year_text(s.take(s.len() - 15))
    &&& is_clock_text(s.skip(s.len() - 15))
}

/// Relies on `DateTime::<Local>::from(SystemTime)` and `DateTime::format`:
/// the current local time written with a strftime pattern.  chrono turns a
/// clock that reads before 1970 into a negative timestamp rather than
/// failing; it fails only beyond its range of about 262,000 years either
/// side of year 0, which no system clock reaches.  With the library's pattern, `%Y` writes four digits for the
/// years 0 to 9999 and a sign with at least four digits otherwise, and each
/// other field writes two zero-padded digits.  The text depends on the
/// clock, so nothing more is stated of it.  chrono panics when it renders an
/// invalid pattern, so only the library's own pattern is admitted.
#[verifier::external_body]
pub(crate) fn local_time_formatted(pattern: &str) -> (r: String)
    requires
        pattern@ == STAMP_FORMAT@,
    ensures
        is_stamp(r@),
{
    chrono::DateTime::<chrono::Local>::from(std::time::SystemTime::now()).format(pattern).to_string()
}

} // verus!
