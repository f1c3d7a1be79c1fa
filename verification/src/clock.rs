//! Calendar readings as plain values, and the zero-padded decimal stamps
//! used for synthesized note and folder names.

use vstd::prelude::*;

use chrono::{Datelike, Timelike};

verus! {

/// A wall-clock reading, already broken into calendar fields.
#[derive(Clone, Copy)]
pub struct ClockTime {
    pub year: u16,
    pub month: u8,
    pub day: u8,
    pub hour: u8,
    pub minute: u8,
    pub second: u8,
}

impl ClockTime {
    /// Field ranges of a calendar reading; the year is kept to four digits.
    pub open spec fn wf(&self) -> bool {
        &&& self.year <= 9999
        &&& 1 <= self.month <= 12
        &&& 1 <= self.day <= 31
        &&& self.hour <= 23
        &&& self.minute <= 59
        &&& self.second <= 59
    }
}

/// Relies on chrono::Utc::now and the Datelike/Timelike accessors: the
/// month ranges over 1 to 12, the day over 1 to 31, the hour over 0 to 23,
/// the minute and the second over 0 to 59. The year is any i32.
#[verifier::external_body]
fn now_raw() -> (r: (i32, u32, u32, u32, u32, u32))
    ensures
        1 <= r.1 <= 12,
        1 <= r.2 <= 31,
        r.3 <= 23,
        r.4 <= 59,
        r.5 <= 59,
{
    let now = chrono::Utc::now();
    (now.year(), now.month(), now.day(), now.hour(), now.minute(), now.second())
}

/// The current UTC time, with the year clamped to the four-digit range.
pub fn now_utc() -> (t: ClockTime)
    ensures
        t.wf(),
{
    let (y, mo, d, h, mi, s) = now_raw();
    let year: u16 = if y < 0 {
        0
    } else if y > 9999 {
        9999
    } else {
        y as u16
    };
    ClockTime {
        year,
        month: mo as u8,
        day: d as u8,
        hour: h as u8,
        minute: mi as u8,
        second: s as u8,
    }
}

pub open spec fn digit_char(d: int) -> char {
    if d == 0 {
        '0'
    } else if d == 1 {
        '1'
    } else if d == 2 {
        '2'
    } else if d == 3 {
        '3'
    } else if d == 4 {
        '4'
    } else if d == 5 {
        '5'
    } else if d == 6 {
        '6'
    } else if d == 7 {
        '7'
    } else if d == 8 {
        '8'
    } else {
        '9'
    }
}

fn digit_str(d: u8) -> (r: &'static str)
    requires
        d <= 9,
    ensures
        r@ == seq![digit_char(d as int)],
{
    proof {
        reveal_strlit("0");
        reveal_strlit("1");
        reveal_strlit("2");
        reveal_strlit("3");
        reveal_strlit("4");
        reveal_strlit("5");
        reveal_strlit("6");
        reveal_strlit("7");
        reveal_strlit("8");
        reveal_strlit("9");
    }
    match d {
        0 => "0",
        1 => "1",
        2 => "2",
        3 => "3",
        4 => "4",
        5 => "5",
        6 => "6",
        7 => "7",
        8 => "8",
        _ => "9",
    }
}

/// A number under 100 as exactly two decimal digits.
pub open spec fn two_digit_chars(n: int) -> Seq<char> {
    seq![digit_char(n / 10), digit_char(n % 10)]
}

/// A number under 10000 as exactly four decimal digits.
pub open spec fn four_digit_chars(n: int) -> Seq<char> {
    seq![
        digit_char(n / 1000),
        digit_char((n / 100) % 10),
        digit_char((n / 10) % 10),
        digit_char(n % 10),
    ]
}

fn append_two_digits(s: &mut String, n: u8)
    requires
        n <= 99,
    ensures
        final(s)@ == old(s)@ + two_digit_chars(n as int),
{
    s.append(digit_str(n / 10));
    s.append(digit_str(n % 10));
    proof {
        assert(s@ =~= old(s)@ + two_digit_chars(n as int));
    }
}

fn append_four_digits(s: &mut String, n: u16)
    requires
        n <= 9999,
    ensures
        final(s)@ == old(s)@ + four_digit_chars(n as int),
{
    s.append(digit_str((n / 1000) as u8));
    s.append(digit_str(((n / 100) % 10) as u8));
    s.append(digit_str(((n / 10) % 10) as u8));
    s.append(digit_str((n % 10) as u8));
    proof {
        assert(s@ =~= old(s)@ + four_digit_chars(n as int));
    }
}

/// The two-digit year-month-day stamp naming the folder a quick note
/// lands in.
pub open spec fn short_date_chars(t: ClockTime) -> Seq<char> {
    two_digit_chars((t.year as int) % 100) + "-"@ + two_digit_chars(t.month as int) + "-"@
        + two_digit_chars(t.day as int)
}

/// The second-resolution stamp used for a synthesized note name.
pub open spec fn note_stamp_chars(t: ClockTime) -> Seq<char> {
    short_date_chars(t) + "_"@ + two_digit_chars(t.hour as int) + "-"@ + two_digit_chars(
        t.minute as int,
    ) + "-"@ + two_digit_chars(t.second as int)
}

/// The minute-resolution stamp used for a synthesized folder name.
pub open spec fn folder_stamp_chars(t: ClockTime) -> Seq<char> {
    four_digit_chars(t.year as int) + "-"@ + two_digit_chars(t.month as int) + "-"@
        + two_digit_chars(t.day as int) + "_"@ + two_digit_chars(t.hour as int) + "-"@
        + two_digit_chars(t.minute as int)
}

pub fn short_date_string(t: &ClockTime) -> (r: String)
    requires
        t.wf(),
    ensures
        r@ == short_date_chars(*t),
{
    let mut s = String::new();
    append_two_digits(&mut s, (t.year % 100) as u8);
    s.append("-");
    append_two_digits(&mut s, t.month);
    s.append("-");
    append_two_digits(&mut s, t.day);
    proof {
        assert(s@ =~= short_date_chars(*t));
    }
    s
}

pub fn note_stamp_string(t: &ClockTime) -> (r: String)
    requires
        t.wf(),
    ensures
        r@ == note_stamp_chars(*t),
{
    let mut s = short_date_string(t);
    s.append("_");
    append_two_digits(&mut s, t.hour);
    s.append("-");
    append_two_digits(&mut s, t.minute);
    s.append("-");
    append_two_digits(&mut s, t.second);
    proof {
        assert(s@ =~= note_stamp_chars(*t));
    }
    s
}

pub fn folder_stamp_string(t: &ClockTime) -> (r: String)
    requires
        t.wf(),
    ensures
        r@ == folder_stamp_chars(*t),
{
    let mut s = String::new();
    append_four_digits(&mut s, t.year);
    s.append("-");
    append_two_digits(&mut s, t.month);
    s.append("-");
    append_two_digits(&mut s, t.day);
    s.append("_");
    append_two_digits(&mut s, t.hour);
    s.append("-");
    append_two_digits(&mut s, t.minute);
    proof {
        assert(s@ =~= folder_stamp_chars(*t));
    }
    s
}

} // verus!
