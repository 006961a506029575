//! Weekly-report scheduling: deciding whether a new weekly report is due.
//!
//! A report is due when none was ever generated, or when the last one was
//! generated before the start of the current week (weeks start on
//! Sunday). The calendar work — reading the clock, parsing and rendering
//! dates, stepping a date back by days — is chrono's, behind trusted
//! wrappers; the decision itself is verified.

use vstd::prelude::*;
use chrono::Datelike;

verus! {

/// A calendar date, held as plain values.
#[derive(Clone, Copy, PartialEq, Eq, Structural, Debug)]
pub struct Date {
    pub year: i32,
    /// 1 through 12.
    pub month: u32,
    /// 1 through 31.
    pub day: u32,
}

/// The field ranges every date handed out by the wrappers satisfies.
pub open spec fn date_in_range(d: Date) -> bool {
    1 <= d.month <= 12 && 1 <= d.day <= 31
}

/// Chronological order of dates: lexicographic on (year, month, day).
pub open spec fn spec_date_lt(a: Date, b: Date) -> bool {
    ||| a.year < b.year
    ||| (a.year == b.year && a.month < b.month)
    ||| (a.year == b.year && a.month == b.month && a.day < b.day)
}

/// Compares two dates chronologically.
pub fn date_before(a: &Date, b: &Date) -> (r: bool)
    ensures
        r == spec_date_lt(*a, *b),
{
    if a.year != b.year {
        a.year < b.year
    } else if a.month != b.month {
        a.month < b.month
    } else {
        a.day < b.day
    }
}

/// Whether a report generated last on `last` (or never) is due again in
/// the week starting at `week_start`.
pub open spec fn spec_new_week(last: Option<Date>, week_start: Date) -> bool {
    match last {
        None => true,
        Some(l) => spec_date_lt(l, week_start),
    }
}

/// The weekly-report decision: due when no previous generation date is
/// known, or when the known one lies before the current week's start.
pub fn is_new_week(last: Option<Date>, week_start: Date) -> (r: bool)
    ensures
        r == spec_new_week(last, week_start),
{
    match last {
        None => true,
        Some(l) => date_before(&l, &week_start),
    }
}

/// Whether `y` is a leap year of the proleptic Gregorian calendar.
pub open spec fn is_leap_year(y: int) -> bool {
    y % 4 == 0 && (y % 100 != 0 || y % 400 == 0)
}

/// How many days month `m` of year `y` has.
pub open spec fn days_in_month(y: int, m: int) -> int {
    if m == 2 {
        if is_leap_year(y) {
            29
        } else {
            28
        }
    } else if m == 4 || m == 6 || m == 9 || m == 11 {
        30
    } else {
        31
    }
}

/// The calendar day before `d`. At the first representable year's first
/// day there is no earlier date to give, and `d` itself is returned;
/// chrono's range ends long before that year, so the date wrappers
/// never hand such a date out.
pub open spec fn spec_prev_day(d: Date) -> Date {
    if d.day > 1 {
        Date { year: d.year, month: d.month, day: (d.day - 1) as u32 }
    } else if d.month > 1 {
        Date {
            year: d.year,
            month: (d.month - 1) as u32,
            day: days_in_month(d.year as int, d.month - 1) as u32,
        }
    } else if d.year == i32::MIN {
        d
    } else {
        Date { year: (d.year - 1) as i32, month: 12, day: 31 }
    }
}

/// The calendar day `n` days before `d`.
pub open spec fn spec_days_back(d: Date, n: nat) -> Date
    decreases n,
{
    if n == 0 {
        d
    } else {
        spec_prev_day(spec_days_back(d, (n - 1) as nat))
    }
}

/// LAW (the week starts no later than today): stepping a date back by
/// any number of days never yields a later date.
pub proof fn lemma_week_start_not_later(d: Date, n: nat)
    ensures
        !spec_date_lt(d, spec_days_back(d, n)),
    decreases n,
{
    if n > 0 {
        lemma_week_start_not_later(d, (n - 1) as nat);
        let e = spec_days_back(d, (n - 1) as nat);
        let p = spec_prev_day(e);
        assert(!spec_date_lt(e, p));
        assert(!spec_date_lt(d, p));
    }
}

/// LAW (at most one report per day): a status naming day `d` is never
/// judged due again when checked on day `d` itself, whatever weekday it
/// is: the week's start lies no later than the day the status names.
pub proof fn lemma_status_written_today_not_due(d: Date, offset: nat)
    ensures
        !spec_new_week(Some(d), spec_days_back(d, offset)),
{
    lemma_week_start_not_later(d, offset);
}

/// The date that chrono's ISO (`%Y-%m-%d`) parser reads from `s`, if any.
pub uninterp spec fn parsed_date(s: Seq<char>) -> Option<(i32, u32, u32)>;

/// The text chrono renders for a calendar date with `%Y-%m-%d`.
pub uninterp spec fn date_text(ymd: (i32, u32, u32)) -> Seq<char>;

/// Relies on chrono::Local::now and the Datelike accessors: the current
/// local date, with month 1-12 and day 1-31, and its weekday's distance
/// from Sunday, 0-6.
#[verifier::external_body]
fn today_local() -> (r: (Date, u32))
    ensures
        date_in_range(r.0),
        r.1 <= 6,
{
    let today = chrono::Local::now().date_naive();
    let date = Date { year: today.year(), month: today.month(), day: today.day() };
    (date, today.weekday().num_days_from_sunday())
}

/// Relies on chrono::NaiveDate::from_ymd_opt and checked_sub_days:
/// stepping a real calendar date back by `days` whole days yields
/// exactly the date that many calendar days earlier (chrono and this
/// crate both reckon in the proleptic Gregorian calendar), or nothing
/// when the input is no real date or the result leaves chrono's range.
#[verifier::external_body]
fn date_minus_days(d: &Date, days: u32) -> (r: Option<Date>)
    ensures
        match r {
            Some(e) => e == spec_days_back(*d, days as nat) && date_in_range(e),
            None => true,
        },
{
    let nd = chrono::NaiveDate::from_ymd_opt(d.year, d.month, d.day)?;
    let e = nd.checked_sub_days(chrono::Days::new(days as u64))?;
    Some(Date { year: e.year(), month: e.month(), day: e.day() })
}

/// Relies on chrono's `FromStr` for `NaiveDate` (the ISO `%Y-%m-%d`
/// form): the parse is a function of the text alone, and a parsed date
/// lies in calendar field ranges.
#[verifier::external_body]
fn parse_status_date(s: &str) -> (r: Option<Date>)
    ensures
        match r {
            Some(d) => parsed_date(s@) == Some((d.year, d.month, d.day)) && date_in_range(d),
            None => parsed_date(s@) is None,
        },
{
    match s.parse::<chrono::NaiveDate>() {
        Ok(d) => Some(Date { year: d.year(), month: d.month(), day: d.day() }),
        Err(_) => None,
    }
}

/// Relies on chrono::NaiveDate::format with `%Y-%m-%d` and chrono's
/// `FromStr` for `NaiveDate`: the rendering is a function of the date
/// alone, and the parser reads the rendering back to the same date (the
/// formatter and parser use the same fixed items); an impossible
/// calendar date yields nothing.
#[verifier::external_body]
fn format_status_date(d: &Date) -> (r: Option<String>)
    ensures
        match r {
            Some(s) => s@ == date_text((d.year, d.month, d.day)) && parsed_date(s@) == Some(
                (d.year, d.month, d.day),
            ),
            None => true,
        },
{
    let nd = chrono::NaiveDate::from_ymd_opt(d.year, d.month, d.day)?;
    Some(nd.format("%Y-%m-%d").to_string())
}

/// Reads the clock and decides whether a weekly report is due, given the
/// text of the report-status file if one was readable. Due when the
/// status is absent or unparseable, or names a date before the start of
/// the current local week.
pub fn report_due(status_text: Option<&str>) -> (r: bool)
    ensures
        match status_text {
            None => r,
            Some(s) => parsed_date(s@) is None ==> r,
        },
{
    let (today, from_sunday) = today_local();
    let last = match status_text {
        Some(s) => parse_status_date(s),
        None => None,
    };
    match date_minus_days(&today, from_sunday) {
        Some(week_start) => is_new_week(last, week_start),
        // The week's start cannot be represented: fall back to "due",
        // the answer also given when nothing is known.
        None => true,
    }
}

/// The line to write back to the report-status file after a report was
/// generated: today's local date, rendered so that the status parser
/// reads it back to the very same date.
pub fn report_status_line() -> (r: Option<String>)
    ensures
        match r {
            Some(s) => exists|d: Date|
                date_in_range(d) && s@ == date_text((d.year, d.month, d.day)) && parsed_date(s@)
                    == Some((d.year, d.month, d.day)),
            None => true,
        },
{
    let (today, _) = today_local();
    match format_status_date(&today) {
        Some(s) => {
            proof {
                assert(date_in_range(today) && s@ == date_text(
                    (today.year, today.month, today.day),
                ) && parsed_date(s@) == Some((today.year, today.month, today.day)));
            }
            Some(s)
        },
        None => None,
    }
}

} // verus!
