//! Calendar dates and timestamps as plain values.
//!
//! A visit's creation time is held as a calendar date plus a time of day,
//! both as small integers, so that time-scoped queries can be stated and
//! checked arithmetically. Dates compare lexicographically by year, month
//! and day, which matches chronological order.

use vstd::prelude::*;

verus! {

/// A calendar date. Valid dates have a four-digit year, a month in
/// `1..=12` and a day in `1..=31`; whether the day exists in the month is
/// not checked, since a date that names no real day simply matches no
/// visit.
#[derive(Clone, Copy, PartialEq, Eq, Structural, Debug)]
pub struct Date {
    pub year: u16,
    pub month: u8,
    pub day: u8,
}

impl Date {
    pub open spec fn valid(self) -> bool {
        self.year <= 9999 && 1 <= self.month <= 12 && 1 <= self.day <= 31
    }
}

/// Whether `a` is on or before `b` in chronological order.
pub open spec fn date_le(a: Date, b: Date) -> bool {
    ||| a.year < b.year
    ||| (a.year == b.year && a.month < b.month)
    ||| (a.year == b.year && a.month == b.month && a.day <= b.day)
}

/// Chronological comparison of two dates.
pub fn date_le_exec(a: &Date, b: &Date) -> (r: bool)
    ensures
        r == date_le(*a, *b),
{
    if a.year != b.year {
        a.year < b.year
    } else if a.month != b.month {
        a.month < b.month
    } else {
        a.day <= b.day
    }
}

/// `date_le` is a total order on dates.
pub proof fn lemma_date_le_total_order(a: Date, b: Date, c: Date)
    ensures
        date_le(a, a),
        date_le(a, b) && date_le(b, a) ==> a == b,
        date_le(a, b) && date_le(b, c) ==> date_le(a, c),
        date_le(a, b) || date_le(b, a),
{
}

/// A date and a time of day, the creation time of one visit.
#[derive(Clone, Copy, PartialEq, Eq, Structural, Debug)]
pub struct Timestamp {
    pub date: Date,
    pub hour: u8,
    pub minute: u8,
    pub second: u8,
}

impl Timestamp {
    pub open spec fn valid(self) -> bool {
        self.date.valid() && self.hour < 24 && self.minute < 60 && self.second < 60
    }
}

/// Whether timestamp `a` is at or before `b` in chronological order.
pub open spec fn ts_le(a: Timestamp, b: Timestamp) -> bool {
    if a.date != b.date {
        date_le(a.date, b.date)
    } else if a.hour != b.hour {
        a.hour < b.hour
    } else if a.minute != b.minute {
        a.minute < b.minute
    } else {
        a.second <= b.second
    }
}

/// Chronological comparison of two timestamps.
pub fn ts_le_exec(a: &Timestamp, b: &Timestamp) -> (r: bool)
    ensures
        r == ts_le(*a, *b),
{
    if a.date.year != b.date.year || a.date.month != b.date.month || a.date.day != b.date.day {
        date_le_exec(&a.date, &b.date)
    } else if a.hour != b.hour {
        a.hour < b.hour
    } else if a.minute != b.minute {
        a.minute < b.minute
    } else {
        a.second <= b.second
    }
}

/// Value of an ASCII decimal digit, or an out-of-range marker.
pub open spec fn is_digit(c: char) -> bool {
    48 <= c as u32 <= 57
}

pub open spec fn digit_val(c: char) -> int {
    c as u32 - 48
}

/// The year named by four digit characters.
pub open spec fn spec_year_of(s: Seq<char>, at: int) -> int {
    digit_val(s[at]) * 1000 + digit_val(s[at + 1]) * 100 + digit_val(s[at + 2]) * 10 + digit_val(
        s[at + 3],
    )
}

/// The two-digit number starting at `at`.
pub open spec fn spec_two_of(s: Seq<char>, at: int) -> int {
    digit_val(s[at]) * 10 + digit_val(s[at + 1])
}

/// What a `YYYY-MM-DD` string denotes: a date whose month and day are in
/// range, or nothing if the text is not exactly in that shape.
pub open spec fn spec_parse_date(s: Seq<char>) -> Option<Date> {
    if s.len() == 10 && is_digit(s[0]) && is_digit(s[1]) && is_digit(s[2]) && is_digit(s[3])
        && s[4] == '-' && is_digit(s[5]) && is_digit(s[6]) && s[7] == '-' && is_digit(s[8])
        && is_digit(s[9]) {
        let y = spec_year_of(s, 0);
        let m = spec_two_of(s, 5);
        let d = spec_two_of(s, 8);
        if 1 <= m <= 12 && 1 <= d <= 31 {
            Some(Date { year: y as u16, month: m as u8, day: d as u8 })
        } else {
            None
        }
    } else {
        None
    }
}

/// What a `YYYY-MM` string denotes: a year and a month in range.
pub open spec fn spec_parse_month(s: Seq<char>) -> Option<(u16, u8)> {
    if s.len() == 7 && is_digit(s[0]) && is_digit(s[1]) && is_digit(s[2]) && is_digit(s[3]) && s[4]
        == '-' && is_digit(s[5]) && is_digit(s[6]) {
        let y = spec_year_of(s, 0);
        let m = spec_two_of(s, 5);
        if 1 <= m <= 12 {
            Some((y as u16, m as u8))
        } else {
            None
        }
    } else {
        None
    }
}

/// What a `YYYY` string denotes.
pub open spec fn spec_parse_year(s: Seq<char>) -> Option<u16> {
    if s.len() == 4 && is_digit(s[0]) && is_digit(s[1]) && is_digit(s[2]) && is_digit(s[3]) {
        Some(spec_year_of(s, 0) as u16)
    } else {
        None
    }
}

/// Reads one character as a decimal digit.
fn digit_of(s: &str, i: usize) -> (r: Option<u32>)
    requires
        i < s@.len(),
    ensures
        r is Some <==> is_digit(s@[i as int]),
        r is Some ==> r->0 == digit_val(s@[i as int]) && r->0 <= 9,
{
    let c = s.get_char(i);
    let v = c as u32;
    if 48 <= v && v <= 57 {
        Some(v - 48)
    } else {
        None
    }
}

/// Parses a `YYYY-MM-DD` string; rejects any other shape and any month or
/// day out of range.
pub fn parse_date(s: &str) -> (r: Option<Date>)
    ensures
        r == spec_parse_date(s@),
        r is Some ==> r->0.valid(),
{
    if s.unicode_len() != 10 {
        return None;
    }
    if s.get_char(4) != '-' || s.get_char(7) != '-' {
        return None;
    }
    let y = match parse_year_at(s, 0) {
        Some(v) => v,
        None => { return None; },
    };
    let m = match parse_two_at(s, 5) {
        Some(v) => v,
        None => { return None; },
    };
    let d = match parse_two_at(s, 8) {
        Some(v) => v,
        None => { return None; },
    };
    if 1 <= m && m <= 12 && 1 <= d && d <= 31 {
        Some(Date { year: y as u16, month: m as u8, day: d as u8 })
    } else {
        None
    }
}

/// Parses a `YYYY-MM` string.
pub fn parse_month(s: &str) -> (r: Option<(u16, u8)>)
    ensures
        r == spec_parse_month(s@),
        r matches Some(ym) ==> ym.0 <= 9999 && 1 <= ym.1 <= 12,
{
    if s.unicode_len() != 7 {
        return None;
    }
    if s.get_char(4) != '-' {
        return None;
    }
    let y = match parse_year_at(s, 0) {
        Some(v) => v,
        None => { return None; },
    };
    let m = match parse_two_at(s, 5) {
        Some(v) => v,
        None => { return None; },
    };
    if 1 <= m && m <= 12 {
        Some((y as u16, m as u8))
    } else {
        None
    }
}

/// Parses a `YYYY` string.
pub fn parse_year(s: &str) -> (r: Option<u16>)
    ensures
        r == spec_parse_year(s@),
        r is Some ==> r->0 <= 9999,
{
    if s.unicode_len() != 4 {
        return None;
    }
    match parse_year_at(s, 0) {
        Some(v) => Some(v as u16),
        None => None,
    }
}

/// Reads four digits as a year value.
fn parse_year_at(s: &str, at: usize) -> (r: Option<u32>)
    requires
        at + 4 <= s@.len() <= usize::MAX,
    ensures
        r is Some <==> is_digit(s@[at as int]) && is_digit(s@[at + 1]) && is_digit(s@[at + 2])
            && is_digit(s@[at + 3]),
        r is Some ==> r->0 == spec_year_of(s@, at as int) && r->0 <= 9999,
{
    let d0 = match digit_of(s, at) {
        Some(v) => v,
        None => { return None; },
    };
    let d1 = match digit_of(s, at + 1) {
        Some(v) => v,
        None => { return None; },
    };
    let d2 = match digit_of(s, at + 2) {
        Some(v) => v,
        None => { return None; },
    };
    let d3 = match digit_of(s, at + 3) {
        Some(v) => v,
        None => { return None; },
    };
    Some(d0 * 1000 + d1 * 100 + d2 * 10 + d3)
}

/// Reads two digits as a number.
fn parse_two_at(s: &str, at: usize) -> (r: Option<u32>)
    requires
        at + 2 <= s@.len() <= usize::MAX,
    ensures
        r is Some <==> is_digit(s@[at as int]) && is_digit(s@[at + 1]),
        r is Some ==> r->0 == spec_two_of(s@, at as int) && r->0 <= 99,
{
    let d0 = match digit_of(s, at) {
        Some(v) => v,
        None => { return None; },
    };
    let d1 = match digit_of(s, at + 1) {
        Some(v) => v,
        None => { return None; },
    };
    Some(d0 * 10 + d1)
}

} // verus!
