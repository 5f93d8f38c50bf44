//! The clock and the calendar, through `chrono`.
use vstd::prelude::*;
use crate::models::Timestamp;
use chrono::Datelike;

verus! {

/// The current time (`Utc::now()`). Nothing is promised of its value but
/// that it is not before the Unix epoch: `Utc::now` panics on a system
/// clock set earlier (`expect("system time before Unix epoch")`).
#[verifier::external_body]
pub(crate) fn now() -> (res: Timestamp)
    ensures
        res.seconds >= 0,
{
    let t = chrono::Utc::now();
    Timestamp { seconds: t.timestamp(), nanos: t.timestamp_subsec_nanos() }
}

/// The instant `DateTime::parse_from_rfc3339` reads from `s`, in UTC.
pub uninterp spec fn parsed_rfc3339(s: Seq<char>) -> Option<Timestamp>;

/// `DateTime::parse_from_rfc3339(s)`, converted to UTC; `None` where chrono
/// refuses the text. What chrono accepts is named by `parsed_rfc3339`.
#[verifier::external_body]
pub(crate) fn parse_rfc3339(s: &str) -> (res: Option<Timestamp>)
    ensures
        res == parsed_rfc3339(s@),
{
    chrono::DateTime::parse_from_rfc3339(s).ok().map(|d| {
        let u = d.with_timezone(&chrono::Utc);
        Timestamp { seconds: u.timestamp(), nanos: u.timestamp_subsec_nanos() }
    })
}

/// The formats the library writes instants in.
pub open spec fn known_format(fmt: Seq<char>) -> bool {
    ||| fmt == "%Y-%m-%dT%H:%M:%S"@
    ||| fmt == "%Y-%m-%dT%H:%M:%SZ"@
    ||| fmt == "%Y-%m-%dT00:00:00Z"@
    ||| fmt == "%Y-%m-%dT23:59:59Z"@
    ||| fmt == "%Y-%m-%d"@
    ||| fmt == "%Y-%m-%dT%H:%M:%S%.3fZ"@
}

/// The text chrono's `format(fmt)` gives for the UTC instant `t`, or `None`
/// where chrono has no date for `t`.
pub uninterp spec fn formatted_utc(t: Timestamp, fmt: Seq<char>) -> Option<Seq<char>>;

pub open spec fn opt_string_view(o: Option<String>) -> Option<Seq<char>> {
    match o {
        Some(s) => Some(s@),
        None => None,
    }
}

/// `DateTime::<Utc>::from_timestamp(seconds, nanos)` formatted with
/// `format(fmt)`; `None` where the instant lies outside chrono's range. The
/// text itself is named by `formatted_utc`.
#[verifier::external_body]
pub(crate) fn format_utc(t: Timestamp, fmt: &str) -> (res: Option<String>)
    requires
        known_format(fmt@),
    ensures
        opt_string_view(res) == formatted_utc(t, fmt@),
{
    chrono::DateTime::from_timestamp(t.seconds, t.nanos).map(|d| d.format(fmt).to_string())
}

/// The text `DateTime::<Utc>::to_rfc3339` gives for the instant `t`, or
/// `None` where chrono has no date for `t`.
pub uninterp spec fn rfc3339_text(t: Timestamp) -> Option<Seq<char>>;

/// `DateTime::<Utc>::from_timestamp(seconds, nanos)` written with
/// `to_rfc3339()`; `None` where the instant lies outside chrono's range. The
/// text is named by `rfc3339_text`.
#[verifier::external_body]
pub(crate) fn format_rfc3339(t: Timestamp) -> (res: Option<String>)
    ensures
        opt_string_view(res) == rfc3339_text(t),
{
    chrono::DateTime::from_timestamp(t.seconds, t.nanos).map(|d| d.to_rfc3339())
}

// ───────────────────────────── calendar days ─────────────────────────────

/// A day of the proleptic Gregorian calendar (`chrono::NaiveDate`).
#[derive(Debug, Clone, Copy, PartialEq, Eq, Structural)]
pub struct CalendarDate {
    pub year: i32,
    /// 1 to 12
    pub month: u32,
    /// 1 to the number of days of the month
    pub day: u32,
}

pub open spec fn is_leap_year(y: int) -> bool {
    y % 4 == 0 && (y % 100 != 0 || y % 400 == 0)
}

/// The number of days of month `m` of year `y`.
pub open spec fn days_in_month(y: int, m: int) -> int {
    if m == 2 {
        if is_leap_year(y) {
            29
        } else {
            28
        }
    } else if m == 4 || m == 6 || m == 9 || m == 11 {
        30
    } else {
        31
    }
}

/// A day chrono can hold: its year lies in chrono's range (−262143 to
/// 262142) and its month and day exist.
pub open spec fn valid_date(d: CalendarDate) -> bool {
    &&& -262143 <= d.year <= 262142
    &&& 1 <= d.month <= 12
    &&& 1 <= d.day <= days_in_month(d.year as int, d.month as int)
}

/// `a` is not after `b`.
pub open spec fn date_le(a: CalendarDate, b: CalendarDate) -> bool {
    a.year < b.year || (a.year == b.year && (a.month < b.month || (a.month == b.month && a.day <= b.day)))
}

/// The last day of the month before month `m` of year `y`.
pub open spec fn previous_month_end(y: int, m: int) -> CalendarDate {
    if m == 1 {
        CalendarDate { year: (y - 1) as i32, month: 12, day: 31 }
    } else {
        CalendarDate { year: y as i32, month: (m - 1) as u32, day: days_in_month(y, m - 1) as u32 }
    }
}

/// The days of the months of year `y` before month `m`.
pub open spec fn days_before_month(y: int, m: int) -> int
    decreases m,
{
    if m <= 1 {
        0
    } else {
        days_before_month(y, m - 1) + days_in_month(y, m - 1)
    }
}

/// The number `Datelike::num_days_from_ce` gives a day of the proleptic
/// Gregorian calendar: January 1 of year 1 is day 1.
#[verifier::opaque]
pub open spec fn day_number(year: int, month: int, day: int) -> int {
    let y = year - 1;
    365 * y + y / 4 - y / 100 + y / 400 + days_before_month(year, month) + day
}

pub open spec fn day_number_of(d: CalendarDate) -> int {
    day_number(d.year as int, d.month as int, d.day as int)
}

/// `NaiveDate::num_days_from_ce` of a day.
#[verifier::external_body]
pub(crate) fn date_number(d: CalendarDate) -> (res: i32)
    requires
        valid_date(d),
    ensures
        res == day_number(d.year as int, d.month as int, d.day as int),
{
    chrono::NaiveDate::from_ymd_opt(d.year, d.month, d.day).unwrap().num_days_from_ce()
}

/// `weekday().num_days_from_monday()` of a day: 0 for a Monday to 6 for a
/// Sunday. (Day 1, January 1 of year 1, was a Monday.)
#[verifier::external_body]
pub(crate) fn weekday_from_monday(d: CalendarDate) -> (res: u32)
    requires
        valid_date(d),
    ensures
        res == (day_number(d.year as int, d.month as int, d.day as int) + 6) % 7,
{
    chrono::NaiveDate::from_ymd_opt(d.year, d.month, d.day).unwrap().weekday().num_days_from_monday()
}

/// `r` is the valid day `k` days before `d` (within a week): its number is
/// `k` less, its year the same or the one before; within the month it is
/// `d.day - k`, and the day before a 1st is the previous month's last.
pub open spec fn days_earlier(d: CalendarDate, k: int, r: CalendarDate) -> bool {
    &&& valid_date(r)
    &&& day_number_of(r) == day_number_of(d) - k
    &&& d.year - 1 <= r.year <= d.year
    &&& d.day > k ==> r == (CalendarDate { year: d.year, month: d.month, day: (d.day - k) as u32 })
    &&& (d.day == 1 && k == 1) ==> r == previous_month_end(d.year as int, d.month as int)
}

/// `r` is the valid day `k` days after `d` (within a week): its number is
/// `k` more, its year the same or the next; within the month it is
/// `d.day + k`.
pub open spec fn days_later(d: CalendarDate, k: int, r: CalendarDate) -> bool {
    &&& valid_date(r)
    &&& day_number_of(r) == day_number_of(d) + k
    &&& d.year <= r.year <= d.year + 1
    &&& d.day + k <= days_in_month(d.year as int, d.month as int) ==> r == (CalendarDate {
        year: d.year,
        month: d.month,
        day: (d.day + k) as u32,
    })
}

/// `checked_sub_days(Days::new(k))` of a day, for a week at most: the day
/// `k` days earlier.
#[verifier::external_body]
pub(crate) fn days_before(d: CalendarDate, k: u32) -> (res: CalendarDate)
    requires
        valid_date(d),
        d.year > -262143,
        k <= 6,
    ensures
        days_earlier(d, k as int, res),
{
    let n = chrono::NaiveDate::from_ymd_opt(d.year, d.month, d.day).unwrap();
    let r = n.checked_sub_days(chrono::Days::new(k as u64)).unwrap();
    CalendarDate { year: r.year(), month: r.month(), day: r.day() }
}

/// `checked_add_days(Days::new(k))` of a day, for a week at most: the day
/// `k` days later.
#[verifier::external_body]
pub(crate) fn days_after(d: CalendarDate, k: u32) -> (res: CalendarDate)
    requires
        valid_date(d),
        d.year < 262142,
        k <= 6,
    ensures
        days_later(d, k as int, res),
{
    let n = chrono::NaiveDate::from_ymd_opt(d.year, d.month, d.day).unwrap();
    let r = n.checked_add_days(chrono::Days::new(k as u64)).unwrap();
    CalendarDate { year: r.year(), month: r.month(), day: r.day() }
}

/// `checked_add_months(Months::new(k))` of the first day of month `m` of
/// year `y`: the first day of the month `k` months later.
#[verifier::external_body]
pub(crate) fn first_of_month_plus(y: i32, m: u32, k: u32) -> (res: CalendarDate)
    requires
        -262143 <= y < 262142,
        1 <= m <= 12,
        k <= 12,
    ensures
        res == (CalendarDate { year: (y + (m - 1 + k) / 12) as i32, month: ((m - 1 + k) % 12 + 1) as u32, day: 1 }),
{
    let n = chrono::NaiveDate::from_ymd_opt(y, m, 1).unwrap();
    let r = n.checked_add_months(chrono::Months::new(k)).unwrap();
    CalendarDate { year: r.year(), month: r.month(), day: r.day() }
}

/// The instant, in seconds since the epoch, of midnight UTC on the day
/// `NaiveDate::parse_from_str(s, "%Y-%m-%d")` reads from `s`, or `None`
/// where it reads none.
pub uninterp spec fn date_midnight(s: Seq<char>) -> Option<int>;

/// `NaiveDate::parse_from_str(s, "%Y-%m-%d")`, at midnight UTC, as seconds
/// since the epoch (named by `date_midnight`).
#[verifier::external_body]
pub(crate) fn parse_date_midnight(s: &str) -> (res: Option<i64>)
    ensures
        match res {
            Some(t) => date_midnight(s@) == Some(t as int),
            None => date_midnight(s@) is None,
        },
{
    chrono::NaiveDate::parse_from_str(s, "%Y-%m-%d").ok().map(|d| d.and_hms_opt(0, 0, 0).unwrap().and_utc().timestamp())
}

/// The text `{:?}` writes for the `DateTime<Utc>` at an instant, or `None`
/// where the instant lies outside chrono's range.
pub uninterp spec fn instant_debug_text(t: Timestamp) -> Option<Seq<char>>;

/// `DateTime::<Utc>::from_timestamp(seconds, nanos)` written with `{:?}`
/// (named by `instant_debug_text`).
#[verifier::external_body]
pub(crate) fn format_debug(t: Timestamp) -> (res: Option<String>)
    ensures
        opt_string_view(res) == instant_debug_text(t),
{
    chrono::DateTime::from_timestamp(t.seconds, t.nanos).map(|d| format!("{:?}", d))
}

/// How an error names the instant after which to retry, as `{:?}` writes an
/// `Option<DateTime<Utc>>`; an instant outside chrono's range is written by
/// its seconds.
pub open spec fn retry_after_text(o: Option<Timestamp>) -> Seq<char> {
    match o {
        None => "None"@,
        Some(t) => "Some("@ + match instant_debug_text(t) {
            Some(x) => x,
            None => crate::text::int_text(t.seconds as int),
        } + ")"@,
    }
}

/// `retry_after_text`.
pub fn retry_after(o: Option<Timestamp>) -> (res: String)
    ensures
        res@ == retry_after_text(o),
{
    match o {
        None => crate::text::owned("None"),
        Some(t) => {
            let mut s = crate::text::owned("Some(");
            match format_debug(t) {
                Some(x) => crate::text::push_str(&mut s, x.as_str()),
                None => crate::text::push_str(&mut s, crate::text::i64_text(t.seconds).as_str()),
            }
            crate::text::push_str(&mut s, ")");
            s
        },
    }
}

} // verus!
