//! Calendar arithmetic on UNIX timestamps (seconds, UTC), done by `chrono`.
use chrono::{DateTime, Datelike, Months, TimeZone, Utc};
use vstd::prelude::*;

verus! {

/// What `chrono` gives for the instant `ts` plus `months` calendar months
/// (`DateTime::<Utc>::checked_add_months`), as a timestamp.
pub uninterp spec fn months_later(ts: int, months: int) -> Option<int>;

/// The number of days from 1970-01-01 to the date (year, month, day) of the proleptic
/// Gregorian calendar (year 0 being 1 BCE), counting 400-year eras of 146097 days from
/// March of year 0.
pub open spec fn days_from_civil(y: int, m: int, d: int) -> int {
    let yp = if m <= 2 {
        y - 1
    } else {
        y
    };
    let era = yp / 400;
    let yoe = yp - era * 400;
    let doy = (153 * ((m + 9) % 12) + 2) / 5 + d - 1;
    era * 146097 + yoe * 365 + yoe / 4 - yoe / 100 + doy - 719468
}

/// The (year, month) of the proleptic Gregorian calendar that holds the day `z` days from
/// 1970-01-01 (the inverse of [`days_from_civil`]).
pub open spec fn civil_month(z: int) -> (int, int) {
    let n = z + 719468;
    let era = n / 146097;
    let doe = n - era * 146097;
    let yoe = (doe - doe / 1460 + doe / 36524 - doe / 146096) / 365;
    let doy = doe - (365 * yoe + yoe / 4 - yoe / 100);
    let mp = (5 * doy + 2) / 153;
    let m = if mp < 10 {
        mp + 3
    } else {
        mp - 9
    };
    (
        if m <= 2 {
            yoe + era * 400 + 1
        } else {
            yoe + era * 400
        },
        m,
    )
}

/// Whether `y` is a leap year of the proleptic Gregorian calendar.
pub open spec fn is_leap_year(y: int) -> bool {
    y % 4 == 0 && (y % 100 != 0 || y % 400 == 0)
}

/// The number of days of month `m` of year `y`.
pub open spec fn month_length(y: int, m: int) -> int {
    if m == 2 {
        if is_leap_year(y) {
            29
        } else {
            28
        }
    } else if m == 4 || m == 6 || m == 9 || m == 11 {
        30
    } else {
        31
    }
}

/// The instant of the given calendar date and time of day in UTC, as a timestamp: `None`
/// where the date is not one of `chrono`'s calendar or the time of day does not exist.
#[verifier::opaque]
pub open spec fn utc_timestamp(
    year: int,
    month: int,
    day: int,
    hour: int,
    min: int,
    sec: int,
) -> Option<int> {
    if min_year() <= year <= max_year() && 1 <= month <= 12 && 1 <= day <= month_length(
        year,
        month,
    ) && 0 <= hour < 24 && 0 <= min < 60 && 0 <= sec < 60 {
        Some(days_from_civil(year, month, day) * 86400 + hour * 3600 + min * 60 + sec)
    } else {
        None
    }
}

/// The first instant (day 1, 00:00:00 UTC) of the calendar month that holds `ts`.
pub open spec fn month_start(ts: int) -> Option<int> {
    match calendar_month(ts) {
        Some((y, m)) => utc_timestamp(y, m, 1, 0, 0, 0),
        None => None,
    }
}

/// The calendar (year, month) in UTC of the instant `ts`: that of its day, where `chrono`
/// can hold it.
#[verifier::opaque]
pub open spec fn calendar_month(ts: int) -> Option<(int, int)> {
    if valid_timestamp(ts) {
        Some(civil_month(ts / 86400))
    } else {
        None
    }
}

/// `chrono`: `DateTime::<Utc>::from_timestamp(ts, 0)` then `checked_add_months`, read
/// back with `timestamp`. Claims: the result is the named `months_later`; adding at
/// least one month gives a later instant (the documentation: it adds the months, keeping
/// the time of day and using the last day of a shorter month).
#[verifier::external_body]
pub(crate) fn add_months(ts: i64, months: u32) -> (r: Option<i64>)
    ensures
        opt_int(r) == months_later(ts as int, months as int),
        months > 0 ==> (r matches Some(x) ==> x > ts),
{
    let d = DateTime::from_timestamp(ts, 0)?;
    d.checked_add_months(Months::new(months)).map(|x| x.timestamp())
}

/// The first second that `chrono` can hold: -262143-01-01 00:00:00 UTC.
pub const MIN_TIMESTAMP: i64 = -8334601228800i64;

/// The last second that `chrono` can hold: 262142-12-31 23:59:59 UTC.
pub const MAX_TIMESTAMP: i64 = 8210266876799i64;

/// Whether `chrono` can hold the instant `ts`: its day lies between the first day of
/// year -262143 and the last day of year 262142 (`NaiveDate`'s range).
pub open spec fn valid_timestamp(ts: int) -> bool {
    MIN_TIMESTAMP <= ts <= MAX_TIMESTAMP
}

/// `chrono`: `DateTime::from_timestamp(ts, 0).is_some()`. Claims that this holds exactly
/// on `valid_timestamp` (the source: the day `ts.div_euclid(86_400) + 719_163`, counted
/// from 0001-01-01, must give a year in `MIN_YEAR..=MAX_YEAR`).
#[verifier::external_body]
pub(crate) fn is_valid_timestamp(ts: i64) -> (r: bool)
    ensures
        r == valid_timestamp(ts as int),
{
    DateTime::from_timestamp(ts, 0).is_some()
}

/// `chrono`: `Utc::now()`, as its timestamp (whole seconds) and the nanoseconds past it.
/// Claims only that `chrono` can hold the seconds (the source builds the instant with
/// `DateTime::from_timestamp` from the clock's seconds, which `timestamp` gives back) and
/// that the nanoseconds are below a second (they are the clock's `subsec_nanos`); which
/// instant comes back rests on the clock.
#[verifier::external_body]
pub(crate) fn utc_now() -> (r: (i64, u32))
    ensures
        valid_timestamp(r.0 as int),
        r.1 < 1_000_000_000,
{
    let now = Utc::now();
    (now.timestamp(), now.timestamp_subsec_nanos())
}

/// The instant `secs` seconds and `nanos` nanoseconds, rounded up to a whole second.
pub open spec fn seconds_up(secs: i64, nanos: u32) -> int {
    if nanos > 0 {
        secs + 1
    } else {
        secs as int
    }
}

/// A whole second `t` compares with the instant `secs` seconds and `nanos` nanoseconds
/// (below a second) as it compares with that instant rounded up to a whole second.
pub proof fn lemma_seconds_up_compares(t: int, secs: i64, nanos: u32)
    requires
        nanos < 1_000_000_000,
    ensures
        (t * 1_000_000_000 < secs * 1_000_000_000 + nanos) <==> t < seconds_up(secs, nanos),
        (t * 1_000_000_000 >= secs * 1_000_000_000 + nanos) <==> t >= seconds_up(secs, nanos),
{
}

/// The first year of `chrono`'s calendar (`NaiveDate`'s `MIN_YEAR`).
pub open spec fn min_year() -> int {
    -262143
}

/// The last year of `chrono`'s calendar (`NaiveDate`'s `MAX_YEAR`).
pub open spec fn max_year() -> int {
    262142
}

/// `chrono`: `TimeZone::with_ymd_and_hms(&Utc, ..)`, read back with `timestamp`. Claims
/// that the result is `utc_timestamp` of the same arguments (the source:
/// `NaiveDate::from_ymd_opt` accepts exactly the dates of the calendar's years,
/// `and_hms_opt` exactly the times below 24:00:00, `Utc`'s offset is zero, so
/// `from_local_datetime` gives a single instant, and `timestamp` counts the days from
/// 1970-01-01 times 86400 plus the seconds of the day).
#[verifier::external_body]
pub(crate) fn timestamp_of(
    year: i32,
    month: u32,
    day: u32,
    hour: u32,
    min: u32,
    sec: u32,
) -> (r: Option<i64>)
    ensures
        opt_int(r) == utc_timestamp(
            year as int,
            month as int,
            day as int,
            hour as int,
            min as int,
            sec as int,
        ),
{
    Utc.with_ymd_and_hms(year, month, day, hour, min, sec).single().map(|x| x.timestamp())
}

/// The first instant (day 1, 00:00:00 UTC) of the calendar month that holds `ts`.
pub(crate) fn first_of_month(ts: i64) -> (r: Option<i64>)
    ensures
        opt_int(r) == month_start(ts as int),
        valid_timestamp(ts as int) ==> r is Some,
{
    match year_and_month(ts) {
        Some((y, m)) => {
            proof {
                reveal(utc_timestamp);
            }
            timestamp_of(y, m, 1, 0, 0, 0)
        },
        None => None,
    }
}

/// `chrono`: `Datelike::year` and `Datelike::month` of `DateTime::from_timestamp(ts, 0)`.
/// Claims: the result is `calendar_month` of `ts` (the source: `from_timestamp` takes the
/// day `ts.div_euclid(86_400)` from 1970-01-01 to a proleptic Gregorian date); there is
/// one exactly where `from_timestamp` gives an instant (`valid_timestamp`); its year lies
/// in the calendar's years (every `NaiveDate` is built through a check of
/// `MIN_YEAR..=MAX_YEAR`) and its month in 1..=12 (the documentation of `month`).
#[verifier::external_body]
pub(crate) fn year_and_month(ts: i64) -> (r: Option<(i32, u32)>)
    ensures
        r is Some <==> valid_timestamp(ts as int),
        match r {
            Some((y, m)) => calendar_month(ts as int) == Some((y as int, m as int))
                && min_year() <= y <= max_year() && 1 <= m <= 12,
            None => calendar_month(ts as int) is None,
        },
{
    let d = DateTime::from_timestamp(ts, 0)?;
    Some((d.year(), d.month()))
}

/// The view of an optional timestamp.
pub open spec fn opt_int(a: Option<i64>) -> Option<int> {
    match a {
        Some(x) => Some(x as int),
        None => None,
    }
}

} // verus!
