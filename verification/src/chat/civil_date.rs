//! Calendar dates, and the calendar facts the companion calendar reads from `chrono`
//! (Gregorian arithmetic, weekdays) and `tyme4rs` (lunar dates, solar terms).
use vstd::prelude::*;

use crate::text::decimal;

use chrono::Datelike;
use tyme4rs::tyme::solar::SolarDay;

verus! {

/// A proleptic Gregorian date.
#[derive(Debug, Clone, Copy, PartialEq, Eq, Structural)]
pub struct CivilDate {
    pub year: i32,
    pub month: u32,
    pub day: u32,
}

pub open spec fn is_leap(year: int) -> bool {
    year % 4 == 0 && (year % 100 != 0 || year % 400 == 0)
}

pub open spec fn days_in_month(year: int, month: int) -> int {
    if month == 2 {
        if is_leap(year) {
            29
        } else {
            28
        }
    } else if month == 4 || month == 6 || month == 9 || month == 11 {
        30
    } else {
        31
    }
}

/// The dates `chrono::NaiveDate` represents: years -262143..=262142, real months and days.
pub open spec fn valid_date(year: int, month: int, day: int) -> bool {
    -262143 <= year <= 262142 && 1 <= month <= 12 && 1 <= day <= days_in_month(year, month)
}

pub open spec fn date_ok(d: CivilDate) -> bool {
    valid_date(d.year as int, d.month as int, d.day as int)
}

/// Dates `tyme4rs` can look up lunar dates and solar terms for: its solar years run 1..=9999
/// (a date early in year 1 reaches back into year 0 for the preceding solar term, a December
/// date of 9999 forward into 10000), and it refuses 5-14 October 1582, the days the Gregorian
/// reform dropped. Before the reform `tyme4rs` reads the numbers as a Julian date.
pub open spec fn lunar_range(d: CivilDate) -> bool {
    2 <= d.year <= 9998 && !(d.year == 1582 && d.month == 10 && 5 <= d.day <= 14)
}

/// Every day a calendar window of `days` days from `start` looks up, the day after its last
/// day included, is one `tyme4rs` can look up (an empty window looks up none).
pub open spec fn window_in_lunar_range(start: CivilDate, days: nat) -> bool {
    forall|k: i64|
        0 <= k <= days && days > 0 ==> match #[trigger] date_plus_days(start.year, start.month, start.day, k) {
            Some(d) => lunar_range(d),
            None => true,
        }
}

/// A decimal numeral padded on the left with zeros to `width` characters.
pub open spec fn zero_pad(s: Seq<char>, width: nat) -> Seq<char> {
    if s.len() >= width {
        s
    } else {
        Seq::new((width - s.len()) as nat, |_i: int| '0') + s
    }
}

/// `YYYY-MM-DD` for a year of at most four digits.
pub open spec fn iso_date(d: CivilDate) -> Seq<char> {
    zero_pad(decimal(d.year as nat), 4) + "-"@ + zero_pad(decimal(d.month as nat), 2) + "-"@
        + zero_pad(decimal(d.day as nat), 2)
}

/// Days from 1 January of year 0 to 1 January of `year` in the proleptic Gregorian calendar
/// (negative before year 0).
pub open spec fn days_before_year(year: int) -> int {
    365 * year + (year + 3) / 4 - (year + 99) / 100 + (year + 399) / 400
}

/// Days of the months of a year before `month`.
pub open spec fn days_before_month(year: int, month: int) -> int
    decreases month,
{
    if month <= 1 {
        0
    } else {
        days_before_month(year, month - 1) + days_in_month(year, month - 1)
    }
}

/// The day number of a date: days since 1 January of year 0.
pub open spec fn day_number(year: int, month: int, day: int) -> int {
    days_before_year(year) + days_before_month(year, month) + day - 1
}

/// The date `n` days after a date, as `NaiveDate::checked_add_signed` computes it: the date
/// `chrono` represents whose day number is `n` more, none when there is no such date.
pub open spec fn date_plus_days(year: i32, month: u32, day: u32, n: i64) -> Option<CivilDate> {
    let target = day_number(year as int, month as int, day as int) + n;
    if exists|e: CivilDate| date_ok(e) && day_number(e.year as int, e.month as int, e.day as int) == target {
        Some(choose|e: CivilDate| date_ok(e) && day_number(e.year as int, e.month as int, e.day as int) == target)
    } else {
        None
    }
}

/// ISO weekday number of a date, Monday = 1, as `Weekday::number_from_monday` gives it
/// (1 January of year 0 was a Saturday).
pub open spec fn weekday_number(year: i32, month: u32, day: u32) -> u32 {
    ((day_number(year as int, month as int, day as int) + 5) % 7 + 1) as u32
}

/// Lunar month (negative for a leap month) and lunar day of a date (a name for `tyme4rs`'s
/// `SolarDay::get_lunar_day`).
pub uninterp spec fn lunar_date_of(year: i32, month: u32, day: u32) -> (isize, usize);

/// Position of a date within its solar-term period and that term's index (a name for
/// `tyme4rs`'s `SolarDay::get_term_day`, `get_day_index` and `get_solar_term().get_index()`).
pub uninterp spec fn term_day_of(year: i32, month: u32, day: u32) -> (usize, usize);

/// `NaiveDate::from_ymd_opt(..).is_some()`: whether a date exists.
#[verifier::external_body]
pub(crate) fn date_exists(year: i32, month: u32, day: u32) -> (r: bool)
    ensures
        r == valid_date(year as int, month as int, day as int),
{
    chrono::NaiveDate::from_ymd_opt(year, month, day).is_some()
}

/// `NaiveDate::checked_add_signed` by `n` days (`Duration::days(n)`, which takes any `n` up to
/// `i64::MAX / 86400`): the date `n` days on, `None` past the last date `chrono` represents.
#[verifier::external_body]
pub(crate) fn add_days(date: CivilDate, n: i64) -> (r: Option<CivilDate>)
    requires
        date_ok(date),
        0 <= n <= 4294967296,
    ensures
        r == date_plus_days(date.year, date.month, date.day, n),
{
    let start = chrono::NaiveDate::from_ymd_opt(date.year, date.month, date.day).unwrap();
    match start.checked_add_signed(chrono::Duration::days(n)) {
        Some(d) => Some(CivilDate { year: d.year(), month: d.month(), day: d.day() }),
        None => None,
    }
}

/// A date reached by adding days is one `chrono` represents.
pub proof fn lemma_date_plus_days_ok(year: i32, month: u32, day: u32, n: i64)
    ensures
        date_plus_days(year, month, day, n) matches Some(d) ==> date_ok(d),
{
}

/// Adding `m` days to the date `k` days after a date is adding `k + m` days to it.
pub proof fn lemma_date_plus_days_add(start: CivilDate, k: i64, m: i64)
    requires
        date_plus_days(start.year, start.month, start.day, k) is Some,
        -0x1000_0000_0000_0000 <= k <= 0x1000_0000_0000_0000,
        -0x1000_0000_0000_0000 <= m <= 0x1000_0000_0000_0000,
    ensures
        ({
            let d = date_plus_days(start.year, start.month, start.day, k)->0;
            date_plus_days(d.year, d.month, d.day, m) == date_plus_days(
                start.year,
                start.month,
                start.day,
                (k + m) as i64,
            )
        }),
{
    let d = date_plus_days(start.year, start.month, start.day, k)->0;
    let base = day_number(start.year as int, start.month as int, start.day as int);
    assert(day_number(d.year as int, d.month as int, d.day as int) == base + k);
    let target = base + k + m;
    assert(day_number(d.year as int, d.month as int, d.day as int) + m == target);
    assert(day_number(start.year as int, start.month as int, start.day as int) + ((k + m) as i64)
        == target);
}

/// `Weekday::number_from_monday` of a date.
#[verifier::external_body]
pub(crate) fn weekday_from_monday(date: CivilDate) -> (r: u32)
    requires
        date_ok(date),
    ensures
        r == weekday_number(date.year, date.month, date.day),
        1 <= r <= 7,
{
    chrono::NaiveDate::from_ymd_opt(date.year, date.month, date.day).unwrap().weekday().number_from_monday()
}

/// `NaiveDate::format("%Y-%m-%d")`: the year zero-padded to four digits, month and day to two.
#[verifier::external_body]
pub(crate) fn iso_date_string(date: CivilDate) -> (r: String)
    requires
        date_ok(date),
        0 <= date.year <= 9999,
    ensures
        r@ == iso_date(date),
{
    chrono::NaiveDate::from_ymd_opt(date.year, date.month, date.day).unwrap().format("%Y-%m-%d").to_string()
}

/// `SolarDay::get_lunar_day`: lunar month and day of a date.
#[verifier::external_body]
pub(crate) fn lunar_date(date: CivilDate) -> (r: (isize, usize))
    requires
        date_ok(date),
        lunar_range(date),
    ensures
        r == lunar_date_of(date.year, date.month, date.day),
{
    let lunar = SolarDay::from_ymd(date.year as isize, date.month as usize, date.day as usize).get_lunar_day();
    (lunar.get_month(), lunar.get_day())
}

/// `SolarDay::get_term_day`: day index within the solar-term period, and the term's index.
#[verifier::external_body]
pub(crate) fn term_day(date: CivilDate) -> (r: (usize, usize))
    requires
        date_ok(date),
        lunar_range(date),
    ensures
        r == term_day_of(date.year, date.month, date.day),
{
    let term_day = SolarDay::from_ymd(date.year as isize, date.month as usize, date.day as usize).get_term_day();
    (term_day.get_day_index(), term_day.get_solar_term().get_index())
}

/// Whether a date is one `tyme4rs` can look up.
pub fn in_lunar_range(d: CivilDate) -> (r: bool)
    ensures
        r == lunar_range(d),
{
    2 <= d.year && d.year <= 9998 && !(d.year == 1582 && d.month == 10 && 5 <= d.day && d.day <= 14)
}

/// Whether every day a calendar window of `days` days from `start` looks up is one `tyme4rs`
/// can look up.
pub fn lunar_window_ok(start: CivilDate, days: u32) -> (r: bool)
    requires
        date_ok(start),
    ensures
        r == window_in_lunar_range(start, days as nat),
{
    if days == 0 {
        return true;
    }
    let mut k: u64 = 0;
    while k <= days as u64
        invariant
            date_ok(start),
            days > 0,
            k <= days as u64 + 1,
            forall|j: i64|
                0 <= j < k ==> match #[trigger] date_plus_days(start.year, start.month, start.day, j) {
                    Some(d) => lunar_range(d),
                    None => true,
                },
        decreases days as u64 + 1 - k,
    {
        match add_days(start, k as i64) {
            Some(d) => {
                if !in_lunar_range(d) {
                    return false;
                }
            },
            None => {},
        }
        k += 1;
    }
    true
}

} // verus!
