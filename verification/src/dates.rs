use vstd::prelude::*;

verus! {

/// Seconds per calendar day.
pub const SECONDS_PER_DAY: i64 = 86400;

/// Lowest timestamp the renderer accepts. Conservatively inside the range of
/// calendar dates the date library can represent (about 262,000 years either
/// side of the epoch); every realistic commit timestamp lies well within it.
pub const MIN_RENDER_TS: i64 = -8_000_000_000_000;

/// Highest timestamp the renderer accepts.
pub const MAX_RENDER_TS: i64 = 8_000_000_000_000;

/// The timestamp can be turned into a calendar date and time of day.
pub open spec fn renderable(t: i64) -> bool {
    MIN_RENDER_TS <= t <= MAX_RENDER_TS
}

/// Day number of a timestamp: floor of `t / 86400`, i.e. calendar days since
/// the epoch. Two timestamps fall on the same calendar date exactly when
/// their day numbers are equal.
pub open spec fn day_of(t: i64) -> int {
    t as int / (SECONDS_PER_DAY as int)
}

/// Second of the day of a timestamp: `t` modulo 86400, always in `[0, 86400)`.
pub open spec fn second_of_day(t: i64) -> int {
    t as int % (SECONDS_PER_DAY as int)
}

/// The instant an RFC 3339 date-time string denotes, in epoch seconds, or
/// `None` where the string is not a valid RFC 3339 date-time. A function of
/// the string alone.
pub uninterp spec fn rfc3339_seconds(s: Seq<char>) -> Option<i64>;

/// The epoch-second timestamp of midnight (00:00:00 UTC) of the calendar
/// date a `YYYY-MM-DD` string denotes, or `None` where the string is not a
/// valid date in that format. A function of the string alone.
pub uninterp spec fn calendar_midnight_seconds(s: Seq<char>) -> Option<i64>;

/// The date-and-time text of a timestamp, `YYYY-MM-DD HH:MM:SS` in UTC.
pub uninterp spec fn datetime_text(t: i64) -> Seq<char>;

/// The calendar-date text, `YYYY-MM-DD`, of a day number.
pub uninterp spec fn date_text(day: int) -> Seq<char>;

/// The time-of-day text, `HH:MM:SS`, of a second of the day.
pub uninterp spec fn time_text(sec: int) -> Seq<char>;

/// Relies on `chrono::DateTime::parse_from_rfc3339`, which parses a full
/// RFC 3339 date-time with timezone, and `DateTime::timestamp`, which
/// converts the parsed instant to epoch seconds. Both depend on the string
/// alone.
#[verifier::external_body]
pub(crate) fn parse_rfc3339_seconds(s: &str) -> (r: Option<i64>)
    ensures
        r == rfc3339_seconds(s@),
{
    match chrono::DateTime::parse_from_rfc3339(s) {
        Ok(dt) => Some(dt.timestamp()),
        Err(_) => None,
    }
}

/// Relies on `chrono::NaiveDate::parse_from_str` with format `%Y-%m-%d`,
/// `NaiveDate::and_hms_opt(0, 0, 0)` (midnight of the parsed date, always
/// representable), and `DateTime::timestamp`. All depend on the string alone.
#[verifier::external_body]
pub(crate) fn parse_calendar_midnight_seconds(s: &str) -> (r: Option<i64>)
    ensures
        r == calendar_midnight_seconds(s@),
{
    match chrono::NaiveDate::parse_from_str(s, "%Y-%m-%d") {
        Ok(d) => Some(d.and_hms_opt(0, 0, 0).unwrap().and_utc().timestamp()),
        Err(_) => None,
    }
}

/// Relies on `chrono::DateTime::<Utc>::from_timestamp`, which returns `Some`
/// for every number of seconds within about 262,000 years of the epoch, and
/// on the `Display` of `chrono::NaiveDateTime` (`YYYY-MM-DD HH:MM:SS`). The
/// text depends on the timestamp alone.
#[verifier::external_body]
pub(crate) fn format_datetime(t: i64) -> (r: String)
    requires
        renderable(t),
    ensures
        r@ == datetime_text(t),
{
    chrono::DateTime::<chrono::Utc>::from_timestamp(t, 0).unwrap().naive_utc().to_string()
}

/// Relies on `chrono::DateTime::<Utc>::from_timestamp` and the `Display` of
/// `chrono::NaiveDate` (`YYYY-MM-DD`). The library computes the calendar
/// date from the floor of `t / 86400`, so the text depends on the day number
/// alone.
#[verifier::external_body]
pub(crate) fn format_date(t: i64) -> (r: String)
    requires
        renderable(t),
    ensures
        r@ == date_text(day_of(t)),
{
    chrono::DateTime::<chrono::Utc>::from_timestamp(t, 0).unwrap().date_naive().to_string()
}

/// Relies on `chrono::DateTime::<Utc>::from_timestamp` and the `Display` of
/// `chrono::NaiveTime` (`HH:MM:SS`). The library computes the time of day
/// from `t` modulo 86400, so the text depends on the second of the day alone.
#[verifier::external_body]
pub(crate) fn format_time(t: i64) -> (r: String)
    requires
        renderable(t),
    ensures
        r@ == time_text(second_of_day(t)),
{
    chrono::DateTime::<chrono::Utc>::from_timestamp(t, 0).unwrap().naive_utc().time().to_string()
}

/// Day number of a timestamp, computed executably.
pub fn day_number(t: i64) -> (d: i64)
    ensures
        d == day_of(t),
{
    proof {
        vstd::arithmetic::div_mod::lemma_div_is_ordered(
            i64::MIN as int,
            t as int,
            SECONDS_PER_DAY as int,
        );
        vstd::arithmetic::div_mod::lemma_div_is_ordered(
            t as int,
            i64::MAX as int,
            SECONDS_PER_DAY as int,
        );
    }
    t.checked_div_euclid(SECONDS_PER_DAY).unwrap()
}

} // verus!
