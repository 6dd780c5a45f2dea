//! The configuration value the pipeline consumes, and the errors a bad
//! configuration raises.

use vstd::prelude::*;

verus! {

/// An error in the configuration, detected while the pipeline is built
/// and before any network call.
#[derive(Debug)]
pub enum ConfigError {
    /// The start date is not a calendar date in the form `DD/MM/YYYY`;
    /// the offending text is carried along.
    InvalidDate(String),
    /// A pattern in the ignore list is not a valid regular expression;
    /// the offending source is carried along.
    InvalidPattern(String),
}

/// True exactly when `c` is a decimal digit.
pub open spec fn is_digit(c: char) -> bool {
    ('0' as int) <= (c as int) <= ('9' as int)
}

/// The value of the decimal digit `c`.
pub open spec fn digit_val(c: char) -> int {
    (c as int) - ('0' as int)
}

/// The day of the month a date string writes, from its first two digits.
pub open spec fn spec_day(s: Seq<char>) -> int {
    10 * digit_val(s[0]) + digit_val(s[1])
}

/// The month a date string writes, from its middle two digits.
pub open spec fn spec_month(s: Seq<char>) -> int {
    10 * digit_val(s[3]) + digit_val(s[4])
}

/// The year a date string writes, from its last four digits.
pub open spec fn spec_year(s: Seq<char>) -> int {
    1000 * digit_val(s[6]) + 100 * digit_val(s[7]) + 10 * digit_val(s[8]) + digit_val(s[9])
}

/// The Gregorian leap-year rule.
pub open spec fn is_leap_year(y: int) -> bool {
    (y % 4 == 0 && y % 100 != 0) || y % 400 == 0
}

/// How many days the given month of the given year has.
pub open spec fn days_in_month(m: int, y: int) -> int {
    if m == 2 {
        if is_leap_year(y) {
            29
        } else {
            28
        }
    } else if m == 4 || m == 6 || m == 9 || m == 11 {
        30
    } else {
        31
    }
}

/// True exactly when `s` is a calendar date in the form `DD/MM/YYYY`:
/// two digits, a slash, two digits, a slash and four digits, writing a
/// month from 1 to 12 and a day that month has in that year.
pub open spec fn valid_start_date(s: Seq<char>) -> bool {
    &&& s.len() == 10
    &&& s[2] == '/'
    &&& s[5] == '/'
    &&& is_digit(s[0]) && is_digit(s[1])
    &&& is_digit(s[3]) && is_digit(s[4])
    &&& is_digit(s[6]) && is_digit(s[7]) && is_digit(s[8]) && is_digit(s[9])
    &&& 1 <= spec_month(s) <= 12
    &&& 1 <= spec_day(s) <= days_in_month(spec_month(s), spec_year(s))
}

/// The value of `c` as a decimal digit, or nothing when it is none.
fn char_digit(c: char) -> (r: Option<u32>)
    ensures
        r is Some <==> is_digit(c),
        r matches Some(v) ==> v == digit_val(c),
{
    if '0' <= c && c <= '9' {
        Some(c as u32 - '0' as u32)
    } else {
        None
    }
}

/// Check that `s` is a calendar date in the form `DD/MM/YYYY`.
pub fn validate_start_date(s: &str) -> (r: bool)
    ensures
        r == valid_start_date(s@),
{
    if s.unicode_len() != 10 {
        return false;
    }
    if s.get_char(2) != '/' || s.get_char(5) != '/' {
        return false;
    }
    let d0 = char_digit(s.get_char(0));
    let d1 = char_digit(s.get_char(1));
    let m0 = char_digit(s.get_char(3));
    let m1 = char_digit(s.get_char(4));
    let y0 = char_digit(s.get_char(6));
    let y1 = char_digit(s.get_char(7));
    let y2 = char_digit(s.get_char(8));
    let y3 = char_digit(s.get_char(9));
    match (d0, d1, m0, m1, y0, y1, y2, y3) {
        (
            Some(d0),
            Some(d1),
            Some(m0),
            Some(m1),
            Some(y0),
            Some(y1),
            Some(y2),
            Some(y3),
        ) => {
            let day: u32 = 10 * d0 + d1;
            let month: u32 = 10 * m0 + m1;
            let year: u32 = 1000 * y0 + 100 * y1 + 10 * y2 + y3;
            if month < 1 || month > 12 {
                return false;
            }
            let leap: bool = (year % 4 == 0 && year % 100 != 0) || year % 400 == 0;
            let month_days: u32 = if month == 2 {
                if leap {
                    29
                } else {
                    28
                }
            } else if month == 4 || month == 6 || month == 9 || month == 11 {
                30
            } else {
                31
            };
            1 <= day && day <= month_days
        },
        _ => false,
    }
}

/// The configuration the pipeline consumes, already materialised: how
/// the loading from files or command-line arguments happens is the
/// surrounding program's business, not the pipeline's.
pub struct Config {
    /// The first date of the window to clean, in the form `DD/MM/YYYY`.
    pub start_date: String,
    /// How many days the window spans; always positive.
    pub days: i64,
    /// The backend identifier of the calendar to clean.
    pub calendar_id: String,
    /// The colour tags of events to leave alone.
    pub ignored_colours: Vec<String>,
    /// Sources of the name patterns of events to leave alone.
    pub ignored_regex: Vec<String>,
}

impl Config {
    /// Assemble the configuration from its already-loaded parts. Fails
    /// exactly when the start date is not a calendar date in the form
    /// `DD/MM/YYYY`; a malformed ignore pattern is caught later, when the
    /// filters are built from the configuration.
    pub fn build(
        start_date: String,
        days: i64,
        calendar_id: String,
        ignored_colours: Vec<String>,
        ignored_regex: Vec<String>,
    ) -> (r: Result<Config, ConfigError>)
        requires
            days >= 1,
        ensures
            r is Ok <==> valid_start_date(start_date@),
            r matches Ok(c) ==> {
                &&& c.start_date == start_date
                &&& c.days == days
                &&& c.calendar_id == calendar_id
                &&& c.ignored_colours == ignored_colours
                &&& c.ignored_regex == ignored_regex
            },
            r matches Err(e) ==> (e matches ConfigError::InvalidDate(d) && d == start_date),
    {
        if !validate_start_date(start_date.as_str()) {
            return Err(ConfigError::InvalidDate(start_date));
        }
        Ok(Config { start_date, days, calendar_id, ignored_colours, ignored_regex })
    }
}

} // verus!
