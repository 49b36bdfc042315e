//! The status line: the local wall-clock time to the minute.
use vstd::prelude::*;
use chrono::{Datelike, Timelike};

verus! {

/// A local date and time of day, to the minute.
#[derive(Clone, Copy, Debug, PartialEq, Eq, Structural)]
pub struct WallMinute {
    pub year: i32,
    pub month: u32,
    pub day: u32,
    pub hour: u32,
    pub minute: u32,
}

/// Whether `y` is a leap year of the proleptic Gregorian calendar.
pub open spec fn is_leap(y: int) -> bool {
    y % 4 == 0 && (y % 100 != 0 || y % 400 == 0)
}

/// The number of days of month `m` of year `y`.
pub open spec fn days_in_month(y: int, m: int) -> int {
    if m == 2 {
        if is_leap(y) { 29 } else { 28 }
    } else if m == 4 || m == 6 || m == 9 || m == 11 {
        30
    } else {
        31
    }
}

impl WallMinute {
    /// A real calendar date within the years that chrono represents, and a
    /// time of day.
    pub open spec fn wf(&self) -> bool {
        &&& -262143 <= self.year <= 262142
        &&& 1 <= self.month <= 12
        &&& 1 <= self.day <= days_in_month(self.year as int, self.month as int)
        &&& self.hour < 24
        &&& self.minute < 60
    }
}

/// The decimal digit `d`.
pub open spec fn digit(d: int) -> char {
    if d == 0 {
        '0'
    } else if d == 1 {
        '1'
    } else if d == 2 {
        '2'
    } else if d == 3 {
        '3'
    } else if d == 4 {
        '4'
    } else if d == 5 {
        '5'
    } else if d == 6 {
        '6'
    } else if d == 7 {
        '7'
    } else if d == 8 {
        '8'
    } else {
        '9'
    }
}

/// `n` below 100 as two digits, with a leading zero.
pub open spec fn two_digits(n: int) -> Seq<char> {
    seq![digit(n / 10), digit(n % 10)]
}

/// `n` below 10000 as four digits, with leading zeros.
pub open spec fn four_digits(n: int) -> Seq<char> {
    seq![digit(n / 1000), digit(n / 100 % 10), digit(n / 10 % 10), digit(n % 10)]
}

/// The status text of `t`: `YYYY-MM-DD HH:MM`.
pub open spec fn minute_text(t: WallMinute) -> Seq<char> {
    four_digits(t.year as int) + seq!['-'] + two_digits(t.month as int) + seq!['-']
        + two_digits(t.day as int) + seq![' '] + two_digits(t.hour as int) + seq![':']
        + two_digits(t.minute as int)
}

/// The strftime pattern of the status text.
pub open spec fn minute_pattern() -> Seq<char> {
    "%Y-%m-%d %H:%M"@
}

/// Relies on chrono's `NaiveDate::from_ymd_opt` and `NaiveDate::and_hms_opt`,
/// which accept exactly the valid dates and times of day, and on
/// `NaiveDateTime::format_with_items` with the items of `%Y-%m-%d %H:%M`,
/// which writes a year in 0..=9999 as four zero-padded digits and each other
/// field as two.
#[verifier::external_body]
fn format_minute(t: &WallMinute, pattern: &str) -> (r: Option<String>)
    requires
        pattern@ == minute_pattern(),
    ensures
        r is Some <==> t.wf(),
        r is Some && 0 <= t.year <= 9999 ==> r->Some_0@ == minute_text(*t),
{
    match chrono::NaiveDate::from_ymd_opt(t.year, t.month, t.day) {
        Some(d) => match d.and_hms_opt(t.hour, t.minute, 0) {
            Some(dt) => Some(dt.format_with_items(chrono::format::StrftimeItems::new(pattern)).to_string()),
            None => None,
        },
        None => None,
    }
}

/// Relies on chrono's `Local::now` read through `Datelike` and `Timelike`:
/// the local date and time now, which chrono holds as a valid date and a
/// time of day.
#[verifier::external_body]
fn local_now() -> (r: WallMinute)
    ensures
        r.wf(),
{
    let now = chrono::Local::now();
    WallMinute { year: now.year(), month: now.month(), day: now.day(), hour: now.hour(), minute: now.minute() }
}

/// The status text of `t`.
pub fn status_text(t: &WallMinute) -> (r: String)
    requires
        t.wf(),
    ensures
        0 <= t.year <= 9999 ==> r@ == minute_text(*t),
{
    match format_minute(t, "%Y-%m-%d %H:%M") {
        Some(s) => s,
        None => String::new(),
    }
}

/// The local time now and its status text.
pub fn current_status() -> (r: (WallMinute, String))
    ensures
        r.0.wf(),
        0 <= r.0.year <= 9999 ==> r.1@ == minute_text(r.0),
{
    let now = local_now();
    let text = status_text(&now);
    (now, text)
}

} // verus!
