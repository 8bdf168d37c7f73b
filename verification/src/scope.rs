//! Time scopes: the optional filter that restricts a stats query to a
//! day, a month, a year, or an inclusive date range.
//!
//! A request carries the scope as text (a [`TimeQuery`]); the query layer
//! parses it into a [`TimeScope`] over plain values. A scope whose text
//! does not parse selects no visit at all, which is also what the raw
//! text would have matched against well-formed stored dates.

use vstd::prelude::*;

use crate::dates::{date_le, spec_parse_date, spec_parse_month, spec_parse_year, Date};

verus! {

/// A parsed time scope.
#[derive(Clone, Copy, PartialEq, Eq, Structural, Debug)]
pub enum TimeScope {
    /// Visits created on this calendar day.
    OnDate(Date),
    /// Visits created in this year and month.
    InMonth(u16, u8),
    /// Visits created in this year.
    InYear(u16),
    /// Visits created between the two dates, both ends included.
    Between(Date, Date),
}

/// Whether a visit created on day `d` falls under scope `s`.
pub open spec fn scope_matches(s: TimeScope, d: Date) -> bool {
    match s {
        TimeScope::OnDate(x) => d == x,
        TimeScope::InMonth(y, m) => d.year == y && d.month == m,
        TimeScope::InYear(y) => d.year == y,
        TimeScope::Between(a, b) => date_le(a, d) && date_le(d, b),
    }
}

/// Whether a visit created on day `d` falls under the optional scope `s`;
/// no scope means all time.
pub open spec fn opt_scope_matches(s: Option<TimeScope>, d: Date) -> bool {
    match s {
        None => true,
        Some(sc) => scope_matches(sc, d),
    }
}

/// Decides whether day `d` falls under scope `s`.
pub fn scope_matches_exec(s: &TimeScope, d: &Date) -> (r: bool)
    ensures
        r == scope_matches(*s, *d),
{
    match s {
        TimeScope::OnDate(x) => d.year == x.year && d.month == x.month && d.day == x.day,
        TimeScope::InMonth(y, m) => d.year == *y && d.month == *m,
        TimeScope::InYear(y) => d.year == *y,
        TimeScope::Between(a, b) => crate::dates::date_le_exec(a, d) && crate::dates::date_le_exec(
            d,
            b,
        ),
    }
}

/// A day scope selects exactly what the one-day range of the same day
/// selects.
pub proof fn lemma_date_scope_is_singleton_range(d: Date, x: Date)
    ensures
        scope_matches(TimeScope::OnDate(d), x) == scope_matches(TimeScope::Between(d, d), x),
{
    if date_le(d, x) && date_le(x, d) {
        crate::dates::lemma_date_le_total_order(d, x, d);
    }
}

/// A time scope as a request names it: text fields whose shape picks the
/// variant. Which fields are present in the query string decides which
/// variant is built; the text is parsed only when the scope is applied.
#[derive(Clone, Debug)]
pub enum TimeQuery {
    Date { date: String },
    Month { month: String },
    Year { year: String },
    Range { start_date: String, end_date: String },
}

impl TimeQuery {
    /// The parsed scope this query names, if its text is well-formed.
    pub open spec fn parsed(self) -> Option<TimeScope> {
        match self {
            TimeQuery::Date { date } => match spec_parse_date(date@) {
                Some(d) => Some(TimeScope::OnDate(d)),
                None => None,
            },
            TimeQuery::Month { month } => match spec_parse_month(month@) {
                Some(ym) => Some(TimeScope::InMonth(ym.0, ym.1)),
                None => None,
            },
            TimeQuery::Year { year } => match spec_parse_year(year@) {
                Some(y) => Some(TimeScope::InYear(y)),
                None => None,
            },
            TimeQuery::Range { start_date, end_date } => match (
                spec_parse_date(start_date@),
                spec_parse_date(end_date@),
            ) {
                (Some(a), Some(b)) => Some(TimeScope::Between(a, b)),
                _ => None,
            },
        }
    }

    /// Parses the scope's text. A `None` result means the text was not in
    /// the shape its field name demands, and the scope selects no visit.
    pub fn parse(&self) -> (r: Option<TimeScope>)
        ensures
            r == self.parsed(),
    {
        match self {
            TimeQuery::Date { date } => match crate::dates::parse_date(date.as_str()) {
                Some(d) => Some(TimeScope::OnDate(d)),
                None => None,
            },
            TimeQuery::Month { month } => match crate::dates::parse_month(month.as_str()) {
                Some(ym) => Some(TimeScope::InMonth(ym.0, ym.1)),
                None => None,
            },
            TimeQuery::Year { year } => match crate::dates::parse_year(year.as_str()) {
                Some(y) => Some(TimeScope::InYear(y)),
                None => None,
            },
            TimeQuery::Range { start_date, end_date } => {
                let a = crate::dates::parse_date(start_date.as_str());
                let b = crate::dates::parse_date(end_date.as_str());
                match (a, b) {
                    (Some(a), Some(b)) => Some(TimeScope::Between(a, b)),
                    _ => None,
                }
            },
        }
    }
}

/// The query parameters of a stats request: an optional time scope.
#[derive(Clone, Debug)]
pub struct QueryParams {
    pub time: Option<TimeQuery>,
}

/// Builds the time scope of a request from the query fields that were
/// present. The fields are mutually exclusive: `date` alone names a day,
/// `month` alone a month, `year` alone a year, and `start_date` with
/// `end_date` a range; no field at all means all time. Any other
/// combination is a malformed scope and is rejected.
pub fn select_time_query(
    date: Option<String>,
    month: Option<String>,
    year: Option<String>,
    start_date: Option<String>,
    end_date: Option<String>,
) -> (r: Result<QueryParams, ()>)
    ensures
        match r {
            Ok(q) => match (date, month, year, start_date, end_date) {
                (Some(d), None, None, None, None) => q.time matches Some(t) && t matches
                    TimeQuery::Date { date: qd } && qd == d,
                (None, Some(m), None, None, None) => q.time matches Some(t) && t matches
                    TimeQuery::Month { month: qm } && qm == m,
                (None, None, Some(y), None, None) => q.time matches Some(t) && t matches
                    TimeQuery::Year { year: qy } && qy == y,
                (None, None, None, Some(s), Some(e)) => q.time matches Some(t) && t matches
                    TimeQuery::Range { start_date: qs, end_date: qe } && qs == s && qe == e,
                (None, None, None, None, None) => q.time is None,
                _ => false,
            },
            Err(()) => !(match (date, month, year, start_date, end_date) {
                (Some(_), None, None, None, None) => true,
                (None, Some(_), None, None, None) => true,
                (None, None, Some(_), None, None) => true,
                (None, None, None, Some(_), Some(_)) => true,
                (None, None, None, None, None) => true,
                _ => false,
            }),
        },
{
    match (date, month, year, start_date, end_date) {
        (Some(d), None, None, None, None) => Ok(QueryParams {
            time: Some(TimeQuery::Date { date: d }),
        }),
        (None, Some(m), None, None, None) => Ok(QueryParams {
            time: Some(TimeQuery::Month { month: m }),
        }),
        (None, None, Some(y), None, None) => Ok(QueryParams {
            time: Some(TimeQuery::Year { year: y }),
        }),
        (None, None, None, Some(s), Some(e)) => Ok(QueryParams {
            time: Some(TimeQuery::Range { start_date: s, end_date: e }),
        }),
        (None, None, None, None, None) => Ok(QueryParams { time: None }),
        _ => Err(()),
    }
}

} // verus!
