use vstd::prelude::*;
use crate::dates::{rfc3339_seconds, calendar_midnight_seconds};
use crate::errors::ReportError;

verus! {

/// An inclusive interval `[since, until]` of epoch seconds. `since <= until`
/// is not enforced: an inverted range simply matches no commit.
pub struct TimeRange {
    /// Inclusive lower bound; defaults to 0.
    pub since: i64,
    /// Inclusive upper bound; defaults to `i64::MAX`.
    pub until: i64,
}

/// The timestamp a lenient date string denotes: the RFC 3339 reading where
/// the string is a full date-time, else the midnight of a bare `YYYY-MM-DD`
/// date, else nothing.
pub open spec fn lenient_seconds(s: Seq<char>) -> Option<i64> {
    match rfc3339_seconds(s) {
        Some(t) => Some(t),
        None => calendar_midnight_seconds(s),
    }
}

/// The bound a present-or-absent date string denotes, with `default` for the
/// absent case.
pub open spec fn bound_seconds(s: Option<Seq<char>>, default: i64) -> Option<i64> {
    match s {
        Some(text) => lenient_seconds(text),
        None => Some(default),
    }
}

/// Parses one date string leniently: first as an RFC 3339 date-time, then as
/// a bare `YYYY-MM-DD` calendar date taken as midnight UTC. Fails exactly
/// when neither format matches, carrying the offending string.
pub fn parse_lenient(s: &str) -> (r: Result<i64, ReportError>)
    ensures
        match r {
            Ok(t) => lenient_seconds(s@) == Some(t),
            Err(e) => {
                &&& lenient_seconds(s@) is None
                &&& e matches ReportError::InvalidDateFormat(m) && m@ == s@
            },
        },
{
    match crate::dates::parse_rfc3339_seconds(s) {
        Some(t) => Ok(t),
        None => match crate::dates::parse_calendar_midnight_seconds(s) {
            Some(t) => Ok(t),
            None => Err(ReportError::InvalidDateFormat(s.to_owned())),
        },
    }
}

/// Parses the two optional bounds of the report's time window. An absent
/// `since` defaults to 0, an absent `until` to `i64::MAX`; the resulting
/// `until` is treated as inclusive by the filter. Fails exactly when a
/// present bound parses in neither accepted format, carrying the first
/// offending string.
pub fn parse_time_range(since: Option<&str>, until: Option<&str>) -> (r: Result<
    TimeRange,
    ReportError,
>)
    ensures
        match r {
            Ok(tr) => {
                &&& bound_seconds(since.deep_view(), 0) == Some(tr.since)
                &&& bound_seconds(until.deep_view(), i64::MAX) == Some(tr.until)
            },
            Err(e) => {
                &&& bound_seconds(since.deep_view(), 0) is None || bound_seconds(
                    until.deep_view(),
                    i64::MAX,
                ) is None
                &&& e matches ReportError::InvalidDateFormat(m)
                &&& match since {
                    Some(s) if lenient_seconds(s@) is None => m@ == s@,
                    _ => until matches Some(u) && m@ == u@,
                }
            },
        },
{
    let since_ts: i64 = match since {
        Some(s) => match parse_lenient(s) {
            Ok(t) => t,
            Err(e) => {
                return Err(e);
            },
        },
        None => 0,
    };
    let until_ts: i64 = match until {
        Some(s) => match parse_lenient(s) {
            Ok(t) => t,
            Err(e) => {
                return Err(e);
            },
        },
        None => i64::MAX,
    };
    Ok(TimeRange { since: since_ts, until: until_ts })
}

} // verus!
