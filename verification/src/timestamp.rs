//! The time stamp that Time/Date and the `.LOG` feature insert, in the
//! form Notepad uses: `hh:mm AM mm/dd/yyyy`, written by `chrono`.

use vstd::prelude::*;

use crate::strings::{decimal, digit_char};

verus! {

/// The `chrono` format of the time stamp.
pub const TIME_DATE_FORMAT: &'static str = "%I:%M %p %m/%d/%Y";

/// The `chrono` format of the time stamp that the `.LOG` feature appends,
/// on a line of its own.
pub const LOG_STAMP_FORMAT: &'static str = "\n%I:%M %p %m/%d/%Y\n";

/// A leap year of the proleptic Gregorian calendar.
pub open spec fn is_leap_year(year: int) -> bool {
    year % 4 == 0 && (year % 100 != 0 || year % 400 == 0)
}

/// The number of days of `month` (1 to 12) of `year`.
pub open spec fn days_in_month(year: int, month: int) -> int {
    if month == 2 {
        if is_leap_year(year) { 29 } else { 28 }
    } else if month == 4 || month == 6 || month == 9 || month == 11 {
        30
    } else {
        31
    }
}

/// A date and a time of day that `chrono` can represent: a year in its
/// range, a month, a day of that month, an hour and a minute.
pub open spec fn valid_local_time(year: int, month: int, day: int, hour: int, minute: int) -> bool {
    &&& -262143 <= year <= 262142
    &&& 1 <= month <= 12
    &&& 1 <= day <= days_in_month(year, month)
    &&& 0 <= hour < 24
    &&& 0 <= minute < 60
}

/// `n` (below 100) in two digits.
pub open spec fn two_digits(n: int) -> Seq<char> {
    seq![digit_char((n / 10) as nat), digit_char((n % 10) as nat)]
}

/// `n` (0 to 9999) in four digits.
pub open spec fn four_digits(n: int) -> Seq<char> {
    seq![
        digit_char((n / 1000) as nat),
        digit_char((n / 100 % 10) as nat),
        digit_char((n / 10 % 10) as nat),
        digit_char((n % 10) as nat),
    ]
}

/// The year as `%Y` writes it: four digits from 0 to 9999; outside that
/// range a sign, then the digits, zero-padded to four.
pub open spec fn year_text(year: int) -> Seq<char> {
    if 0 <= year <= 9999 {
        four_digits(year)
    } else if year > 9999 {
        seq!['+'] + decimal(year as nat)
    } else if year >= -9999 {
        seq!['-'] + four_digits(-year)
    } else {
        seq!['-'] + decimal((-year) as nat)
    }
}

/// The hour on a twelve-hour clock: 12, 1, ..., 11.
pub open spec fn hour12(hour: int) -> int {
    if hour % 12 == 0 { 12 } else { hour % 12 }
}

/// The time stamp of a moment: `hh:mm AM mm/dd/yyyy`, with `PM` from noon
/// on.
#[verifier::opaque]
pub open spec fn time_date_text(year: int, month: int, day: int, hour: int, minute: int) -> Seq<char> {
    two_digits(hour12(hour)) + seq![':'] + two_digits(minute) + seq![' '] + (if hour < 12 {
        seq!['A', 'M']
    } else {
        seq!['P', 'M']
    }) + seq![' '] + two_digits(month) + seq!['/'] + two_digits(day) + seq!['/'] + year_text(year)
}

/// Formats a date and time of day (at second 0) with `chrono`:
/// `NaiveDate::from_ymd_opt`, `NaiveDate::and_hms_opt`, then
/// `NaiveDateTime::format(fmt)`, for `fmt` one of the two stamp formats.
/// The contract states the text, as chrono's documentation and its
/// formatting code give `%I`, `%M`, `%p` (English `AM`/`PM`), `%m`, `%d` and
/// `%Y` (a sign before years outside 0 to 9999): [`time_date_text`] for
/// [`TIME_DATE_FORMAT`], and the same between two line breaks for
/// [`LOG_STAMP_FORMAT`] (chrono writes the white space of a format as it
/// stands). Both date and time exist for the admitted fields, so neither
/// `unwrap` fails, and neither format holds a specifier that chrono refuses.
#[verifier::external_body]
fn chrono_format(fmt: &str, year: i32, month: u32, day: u32, hour: u32, minute: u32) -> (r: String)
    requires
        valid_local_time(year as int, month as int, day as int, hour as int, minute as int),
        fmt@ == TIME_DATE_FORMAT@ || fmt@ == LOG_STAMP_FORMAT@,
    ensures
        fmt@ == TIME_DATE_FORMAT@ ==> r@ == time_date_text(
            year as int,
            month as int,
            day as int,
            hour as int,
            minute as int,
        ),
        fmt@ == LOG_STAMP_FORMAT@ ==> r@ == "\n"@ + time_date_text(
            year as int,
            month as int,
            day as int,
            hour as int,
            minute as int,
        ) + "\n"@,
{
    let date = chrono::NaiveDate::from_ymd_opt(year, month, day).unwrap();
    date.and_hms_opt(hour, minute, 0).unwrap().format(fmt).to_string()
}

/// A local date and time of day, to the minute.
pub struct LocalTime {
    year: i32,
    month: u32,
    day: u32,
    hour: u32,
    minute: u32,
}

impl LocalTime {
    #[verifier::type_invariant]
    spec fn inv(self) -> bool {
        valid_local_time(self.year as int, self.month as int, self.day as int, self.hour as int, self.minute as int)
    }

    pub closed spec fn year(self) -> int {
        self.year as int
    }

    pub closed spec fn month(self) -> int {
        self.month as int
    }

    pub closed spec fn day(self) -> int {
        self.day as int
    }

    pub closed spec fn hour(self) -> int {
        self.hour as int
    }

    pub closed spec fn minute(self) -> int {
        self.minute as int
    }

    /// The moment with these fields, if it is a valid one.
    pub fn new(year: i32, month: u32, day: u32, hour: u32, minute: u32) -> (r: Option<LocalTime>)
        ensures
            r is Some <==> valid_local_time(year as int, month as int, day as int, hour as int, minute as int),
            r matches Some(t) ==> t.year() == year && t.month() == month && t.day() == day
                && t.hour() == hour && t.minute() == minute,
    {
        let days: u32 = if month == 2 {
            if year % 4 == 0 && (year % 100 != 0 || year % 400 == 0) {
                29
            } else {
                28
            }
        } else if month == 4 || month == 6 || month == 9 || month == 11 {
            30
        } else {
            31
        };
        if -262143 <= year && year <= 262142 && 1 <= month && month <= 12 && 1 <= day && day <= days
            && hour < 24 && minute < 60 {
            Some(LocalTime { year, month, day, hour, minute })
        } else {
            None
        }
    }
}

/// The `.LOG` time stamp's text for `t`: the time stamp on a line of its
/// own.
pub open spec fn log_stamp_text(t: LocalTime) -> Seq<char> {
    "\n"@ + stamp_text(t) + "\n"@
}

/// The time stamp that the `.LOG` feature appends for `t`, on a line of its
/// own.
pub fn log_stamp(t: &LocalTime) -> (r: String)
    ensures
        r@ == log_stamp_text(*t),
{
    proof {
        use_type_invariant(t);
    }
    chrono_format(LOG_STAMP_FORMAT, t.year, t.month, t.day, t.hour, t.minute)
}

/// The time stamp's text for `t`: `hh:mm AM mm/dd/yyyy`.
pub open spec fn stamp_text(t: LocalTime) -> Seq<char> {
    time_date_text(t.year(), t.month(), t.day(), t.hour(), t.minute())
}

/// The time stamp of `t`: `hh:mm AM mm/dd/yyyy`.
pub fn time_date_stamp(t: &LocalTime) -> (r: String)
    ensures
        r@ == stamp_text(*t),
{
    proof {
        use_type_invariant(t);
    }
    chrono_format(TIME_DATE_FORMAT, t.year, t.month, t.day, t.hour, t.minute)
}

} // verus!
