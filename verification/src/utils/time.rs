//! The clock text of the bar: `HH:MM  Day Mon DD`.
use vstd::prelude::*;

use crate::text::{char_of_digit, chars_of, concat, digit_char, string_of};

verus! {

broadcast use vstd::string::group_string_axioms;

/// A local time as the clock shows it: hour (0–23), minute (0–59), day of the
/// week counted from Monday (0 = Monday, …, 6 = Sunday), month (1–12) and day
/// of the month (1–31).
#[derive(Debug, Clone, Copy)]
pub struct ClockTime {
    pub hour: u32,
    pub minute: u32,
    pub weekday: u32,
    pub month: u32,
    pub day: u32,
}

/// The fields are in their ranges.
pub open spec fn valid_clock_time(t: ClockTime) -> bool {
    &&& t.hour < 24
    &&& t.minute < 60
    &&& t.weekday < 7
    &&& 1 <= t.month <= 12
    &&& 1 <= t.day <= 31
}

/// A number below one hundred as two digits, with a leading zero.
pub open spec fn two_digits(n: nat) -> Seq<char> {
    seq![digit_char(n / 10), digit_char(n % 10)]
}

/// The English three-letter name of a day of the week, counted from Monday.
pub open spec fn weekday_abbr(d: nat) -> Seq<char> {
    if d == 0 {
        "Mon"@
    } else if d == 1 {
        "Tue"@
    } else if d == 2 {
        "Wed"@
    } else if d == 3 {
        "Thu"@
    } else if d == 4 {
        "Fri"@
    } else if d == 5 {
        "Sat"@
    } else {
        "Sun"@
    }
}

/// The English three-letter name of a month, counted from 1 (January).
pub open spec fn month_abbr(m: nat) -> Seq<char> {
    if m == 1 {
        "Jan"@
    } else if m == 2 {
        "Feb"@
    } else if m == 3 {
        "Mar"@
    } else if m == 4 {
        "Apr"@
    } else if m == 5 {
        "May"@
    } else if m == 6 {
        "Jun"@
    } else if m == 7 {
        "Jul"@
    } else if m == 8 {
        "Aug"@
    } else if m == 9 {
        "Sep"@
    } else if m == 10 {
        "Oct"@
    } else if m == 11 {
        "Nov"@
    } else {
        "Dec"@
    }
}

/// The time of day: `HH:MM`.
pub open spec fn time_of(t: ClockTime) -> Seq<char> {
    two_digits(t.hour as nat) + ":"@ + two_digits(t.minute as nat)
}

/// The date: `Day Mon DD`.
pub open spec fn date_of(t: ClockTime) -> Seq<char> {
    weekday_abbr(t.weekday as nat) + " "@ + month_abbr(t.month as nat) + " "@ + two_digits(
        t.day as nat,
    )
}

/// The clock: `HH:MM  Day Mon DD`.
pub open spec fn clock_of(t: ClockTime) -> Seq<char> {
    time_of(t) + "  "@ + date_of(t)
}

/// Two digits with a leading zero.
fn two_digit_chars(n: u32) -> (r: Vec<char>)
    requires
        n < 100,
    ensures
        r@ == two_digits(n as nat),
{
    let mut r: Vec<char> = Vec::new();
    r.push(char_of_digit(n / 10));
    r.push(char_of_digit(n % 10));
    assert(r@ =~= two_digits(n as nat));
    r
}

/// The three-letter name of a day of the week.
fn weekday_name(d: u32) -> (r: &'static str)
    requires
        d < 7,
    ensures
        r@ == weekday_abbr(d as nat),
{
    if d == 0 {
        "Mon"
    } else if d == 1 {
        "Tue"
    } else if d == 2 {
        "Wed"
    } else if d == 3 {
        "Thu"
    } else if d == 4 {
        "Fri"
    } else if d == 5 {
        "Sat"
    } else {
        "Sun"
    }
}

/// The three-letter name of a month.
fn month_name(m: u32) -> (r: &'static str)
    requires
        1 <= m <= 12,
    ensures
        r@ == month_abbr(m as nat),
{
    if m == 1 {
        "Jan"
    } else if m == 2 {
        "Feb"
    } else if m == 3 {
        "Mar"
    } else if m == 4 {
        "Apr"
    } else if m == 5 {
        "May"
    } else if m == 6 {
        "Jun"
    } else if m == 7 {
        "Jul"
    } else if m == 8 {
        "Aug"
    } else if m == 9 {
        "Sep"
    } else if m == 10 {
        "Oct"
    } else if m == 11 {
        "Nov"
    } else {
        "Dec"
    }
}

fn time_chars(t: &ClockTime) -> (r: Vec<char>)
    requires
        valid_clock_time(*t),
    ensures
        r@ == time_of(*t),
{
    let a = concat(&two_digit_chars(t.hour), &chars_of(":"));
    concat(&a, &two_digit_chars(t.minute))
}

fn date_chars(t: &ClockTime) -> (r: Vec<char>)
    requires
        valid_clock_time(*t),
    ensures
        r@ == date_of(*t),
{
    let a = concat(&chars_of(weekday_name(t.weekday)), &chars_of(" "));
    let b = concat(&a, &chars_of(month_name(t.month)));
    let c = concat(&b, &chars_of(" "));
    concat(&c, &two_digit_chars(t.day))
}

/// The time of day, `HH:MM` (e.g. "23:26").
pub fn time_text(t: &ClockTime) -> (r: String)
    requires
        valid_clock_time(*t),
    ensures
        r@ == time_of(*t),
{
    string_of(&time_chars(t))
}

/// The date, `Day Mon DD` (e.g. "Fri Jan 03").
pub fn date_text(t: &ClockTime) -> (r: String)
    requires
        valid_clock_time(*t),
    ensures
        r@ == date_of(*t),
{
    string_of(&date_chars(t))
}

/// The clock, `HH:MM  Day Mon DD` (e.g. "23:26  Fri Jan 03").
pub fn clock_text(t: &ClockTime) -> (r: String)
    requires
        valid_clock_time(*t),
    ensures
        r@ == clock_of(*t),
{
    let a = concat(&time_chars(t), &chars_of("  "));
    string_of(&concat(&a, &date_chars(t)))
}

} // verus!
