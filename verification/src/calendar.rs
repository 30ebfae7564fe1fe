//! Calendar dates of the proleptic Gregorian calendar, as chrono handles them:
//! reading a date cell of the price file, moving a date by a number of days, and
//! telling weekdays from weekends.
use chrono::Datelike;
use vstd::prelude::*;

verus! {

/// The first year that a chrono date can hold.
pub const MIN_YEAR: i32 = -262143;

/// The last year that a chrono date can hold.
pub const MAX_YEAR: i32 = 262142;

/// A calendar date: year (astronomical numbering, so 0 is 1 BCE), month 1 to 12,
/// day of the month from 1.
#[derive(Clone, Copy, Debug, PartialEq, Eq, Structural)]
pub struct Date {
    pub year: i32,
    pub month: u32,
    pub day: u32,
}

/// The days of the week, Monday first.
#[derive(Clone, Copy, Debug, PartialEq, Eq, Structural)]
pub enum DayOfWeek {
    Mon,
    Tue,
    Wed,
    Thu,
    Fri,
    Sat,
    Sun,
}

pub open spec fn is_leap_year(year: int) -> bool {
    (year % 4 == 0 && year % 100 != 0) || year % 400 == 0
}

pub open spec fn days_in_month(year: int, month: int) -> int {
    if month == 2 {
        if is_leap_year(year) {
            29
        } else {
            28
        }
    } else if month == 4 || month == 6 || month == 9 || month == 11 {
        30
    } else {
        31
    }
}

/// A date that exists in the calendar and lies in the range chrono covers.
pub open spec fn valid_date(d: Date) -> bool {
    &&& MIN_YEAR <= d.year <= MAX_YEAR
    &&& 1 <= d.month <= 12
    &&& 1 <= d.day <= days_in_month(d.year as int, d.month as int)
}

/// The number of days from 1970-01-01 to the date (negative before it).
pub open spec fn day_number(d: Date) -> int {
    let y: int = if d.month <= 2 { d.year - 1 } else { d.year as int };
    let era: int = y / 400;
    let year_of_era: int = y - era * 400;
    let shifted_month: int = if d.month > 2 { d.month - 3 } else { d.month + 9 };
    let day_of_year: int = (153 * shifted_month + 2) / 5 + d.day - 1;
    let day_of_era: int = year_of_era * 365 + year_of_era / 4 - year_of_era / 100 + day_of_year;
    era * 146097 + day_of_era - 719468
}

/// The day number of the first date chrono can hold.
pub open spec fn first_day_number() -> int {
    day_number(Date { year: MIN_YEAR, month: 1, day: 1 })
}

/// The day number of the last date chrono can hold.
pub open spec fn last_day_number() -> int {
    day_number(Date { year: MAX_YEAR, month: 12, day: 31 })
}

/// The day of the week of the day with the given number; 1970-01-01 was a Thursday.
pub open spec fn day_of_week_of_number(n: int) -> DayOfWeek {
    let k: int = (n + 3) % 7;
    if k == 0 {
        DayOfWeek::Mon
    } else if k == 1 {
        DayOfWeek::Tue
    } else if k == 2 {
        DayOfWeek::Wed
    } else if k == 3 {
        DayOfWeek::Thu
    } else if k == 4 {
        DayOfWeek::Fri
    } else if k == 5 {
        DayOfWeek::Sat
    } else {
        DayOfWeek::Sun
    }
}

pub open spec fn day_of_week(d: Date) -> DayOfWeek {
    day_of_week_of_number(day_number(d))
}

/// A day on which prices are quoted: any day but Saturday and Sunday.
pub open spec fn is_trading_day_number(n: int) -> bool {
    day_of_week_of_number(n) != DayOfWeek::Sat && day_of_week_of_number(n) != DayOfWeek::Sun
}

/// The date that chrono's `NaiveDate::parse_from_str` reads from `text` with the
/// strftime-style `format`, or `None` where it reports an error.
pub uninterp spec fn chrono_parsed_date(text: Seq<char>, format: Seq<char>) -> Option<Date>;

/// Calls `chrono::NaiveDate::parse_from_str(text, format)` and hands back the year,
/// month and day of the date it read. Claimed: the result is the named
/// `chrono_parsed_date(text, format)`, and a date it returns is a real calendar
/// date within chrono's range (chrono's `NaiveDate` cannot hold any other). Which
/// texts chrono accepts for a format is left unsaid.
#[verifier::external_body]
fn chrono_parse_date(text: &str, format: &str) -> (r: Option<Date>)
    ensures
        r == chrono_parsed_date(text@, format@),
        r matches Some(d) ==> valid_date(d),
{
    match chrono::NaiveDate::parse_from_str(text, format) {
        Ok(nd) => Some(Date { year: nd.year(), month: nd.month(), day: nd.day() }),
        Err(_) => None,
    }
}

/// Calls chrono's `Datelike::weekday` on the `NaiveDate` made by `from_ymd_opt`
/// from the date (which succeeds on every valid date). Claimed: the weekday of the
/// proleptic Gregorian calendar, counted from 1970-01-01, a Thursday.
#[verifier::external_body]
fn chrono_weekday(d: Date) -> (w: DayOfWeek)
    requires
        valid_date(d),
    ensures
        w == day_of_week(d),
{
    match chrono::NaiveDate::from_ymd_opt(d.year, d.month, d.day).unwrap().weekday() {
        chrono::Weekday::Mon => DayOfWeek::Mon,
        chrono::Weekday::Tue => DayOfWeek::Tue,
        chrono::Weekday::Wed => DayOfWeek::Wed,
        chrono::Weekday::Thu => DayOfWeek::Thu,
        chrono::Weekday::Fri => DayOfWeek::Fri,
        chrono::Weekday::Sat => DayOfWeek::Sat,
        chrono::Weekday::Sun => DayOfWeek::Sun,
    }
}

/// Calls chrono's `NaiveDate::checked_add_signed(Duration::try_days(days)?)` on the
/// `NaiveDate` made by `from_ymd_opt` from the date. Claimed: a date comes back
/// exactly when the day `days` days after (before, if negative) the given one lies
/// in chrono's range, and it is that day. (Within the range `days` is far inside
/// the bounds of chrono's `Duration`, whose `try_days` fails only beyond them.)
#[verifier::external_body]
fn chrono_checked_add_days(d: Date, days: i64) -> (r: Option<Date>)
    requires
        valid_date(d),
    ensures
        r is Some <==> first_day_number() <= day_number(d) + days <= last_day_number(),
        r matches Some(x) ==> valid_date(x) && day_number(x) == day_number(d) + days,
{
    let nd = chrono::NaiveDate::from_ymd_opt(d.year, d.month, d.day).unwrap()
        .checked_add_signed(chrono::Duration::try_days(days)?)?;
    Some(Date { year: nd.year(), month: nd.month(), day: nd.day() })
}

/// Reads the date cell of a row of the price file, written month/day/year
/// (`%m/%d/%Y`); `None` where chrono rejects the text.
pub fn parse_price_file_date(text: &str) -> (r: Option<Date>)
    ensures
        r == chrono_parsed_date(text@, "%m/%d/%Y"@),
        r matches Some(d) ==> valid_date(d),
{
    chrono_parse_date(text, "%m/%d/%Y")
}

/// Whether the date is a weekday, that is neither a Saturday nor a Sunday.
pub fn is_weekday(date: Date) -> (r: bool)
    requires
        valid_date(date),
    ensures
        r == is_trading_day_number(day_number(date)),
        r == (day_of_week(date) != DayOfWeek::Sat && day_of_week(date) != DayOfWeek::Sun),
        r == ((day_number(date) + 3) % 7 < 5),
{
    let weekday = chrono_weekday(date);
    weekday != DayOfWeek::Sat && weekday != DayOfWeek::Sun
}

/// The day whose price is predicted: `steps` days after the last training day.
pub fn prediction_day(end: Date, steps: i64) -> (r: Date)
    requires
        valid_date(end),
        first_day_number() <= day_number(end) + steps <= last_day_number(),
    ensures
        valid_date(r),
        day_number(r) == day_number(end) + steps,
{
    match chrono_checked_add_days(end, steps) {
        Some(day) => day,
        None => end,
    }
}

/// Whether the day `steps` days after `end` lies in the range of dates that
/// chrono can hold, so that the predicted day exists.
pub fn prediction_in_range(end: Date, steps: i64) -> (r: bool)
    requires
        valid_date(end),
    ensures
        r == (first_day_number() <= day_number(end) + steps <= last_day_number()),
{
    chrono_checked_add_days(end, steps).is_some()
}

/// Whether the predicted day, `steps` days after `end`, is a weekday, so that a
/// real price will exist to compare the prediction with.
pub fn prediction_is_weekday(end: Date, steps: i64) -> (r: bool)
    requires
        valid_date(end),
        first_day_number() <= day_number(end) + steps <= last_day_number(),
    ensures
        r == is_trading_day_number(day_number(end) + steps),
        r == ((day_number(end) + steps + 3) % 7 < 5),
{
    let day = prediction_day(end, steps);
    is_weekday(day)
}

/// Whether the simulation may be started: a price file has been picked and the
/// predicted day is a weekday.
pub fn simulation_allowed(file_specified: bool, end: Date, steps: i64) -> (r: bool)
    requires
        valid_date(end),
        first_day_number() <= day_number(end) + steps <= last_day_number(),
    ensures
        r == (file_specified && is_trading_day_number(day_number(end) + steps)),
        r == (file_specified && (day_number(end) + steps + 3) % 7 < 5),
{
    let weekday = prediction_is_weekday(end, steps);
    file_specified && weekday
}

/// The trading days are exactly Monday to Friday: Saturday and Sunday never are,
/// the other five days of the week always are.
pub proof fn lemma_trading_days_are_monday_to_friday(n: int)
    ensures
        is_trading_day_number(n) <==> (day_of_week_of_number(n) != DayOfWeek::Sat
            && day_of_week_of_number(n) != DayOfWeek::Sun),
        day_of_week_of_number(n) == DayOfWeek::Sat ==> !is_trading_day_number(n),
        day_of_week_of_number(n) == DayOfWeek::Sun ==> !is_trading_day_number(n),
        day_of_week_of_number(n) == DayOfWeek::Sat <==> (n + 3) % 7 == 5,
        day_of_week_of_number(n) == DayOfWeek::Sun <==> (n + 3) % 7 == 6,
        is_trading_day_number(n) <==> (n + 3) % 7 < 5,
{
}

/// Two days a week apart fall on the same day of the week.
pub proof fn lemma_day_of_week_repeats_weekly(d1: Date, d2: Date)
    requires
        valid_date(d1),
        valid_date(d2),
        day_number(d2) == day_number(d1) + 7,
    ensures
        day_of_week(d1) == day_of_week(d2),
{
    assert((day_number(d1) + 7 + 3) % 7 == (day_number(d1) + 3) % 7) by {
        vstd::arithmetic::div_mod::lemma_mod_add_multiples_vanish(day_number(d1) + 3, 7);
    }
}

/// Any seven consecutive days hold exactly five weekdays: Saturday and Sunday
/// are the only days that are not.
pub proof fn lemma_five_weekdays_in_a_week(n: int)
    ensures
        exists|s: int, u: int|
            n <= s < n + 7 && n <= u < n + 7 && s != u && #[trigger] day_of_week_of_number(s)
                == DayOfWeek::Sat && #[trigger] day_of_week_of_number(u) == DayOfWeek::Sun && (
            forall|k: int|
                n <= k < n + 7 && k != s && k != u ==> is_trading_day_number(k)) && !is_trading_day_number(
                s,
            ) && !is_trading_day_number(u),
{
    let r: int = (n + 3) % 7;
    let s: int = n + (12 - r) % 7;
    let u: int = n + (13 - r) % 7;
    assert(0 <= r < 7);
    assert((s + 3) % 7 == 5) by {
        vstd::arithmetic::div_mod::lemma_fundamental_div_mod(n + 3, 7);
    }
    assert((u + 3) % 7 == 6) by {
        vstd::arithmetic::div_mod::lemma_fundamental_div_mod(n + 3, 7);
    }
    assert forall|k: int| n <= k < n + 7 && k != s && k != u implies is_trading_day_number(k) by {
        vstd::arithmetic::div_mod::lemma_fundamental_div_mod(n + 3, 7);
        vstd::arithmetic::div_mod::lemma_fundamental_div_mod(k + 3, 7);
    }
    assert(day_of_week_of_number(s) == DayOfWeek::Sat);
    assert(day_of_week_of_number(u) == DayOfWeek::Sun);
    assert(n <= s < n + 7 && n <= u < n + 7 && s != u);
}

} // verus!
