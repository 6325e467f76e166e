//! Calendar dates of scheduled pickups and how they are ordered.

use chrono::{Datelike, NaiveDate};
use vstd::prelude::*;

verus! {

/// A calendar date without time of day or time zone.
///
/// Dates are ordered by year, then month, then day, which for dates of the
/// calendar is the order in which the days follow each other.
#[derive(Clone, Copy, Debug, PartialEq, Eq, Structural)]
pub struct PickupDate {
    pub year: i32,
    pub month: u32,
    pub day: u32,
}

/// The first year whose days `chrono` holds.
pub const MIN_YEAR: i32 = -262143;

/// The last year whose days `chrono` holds.
pub const MAX_YEAR: i32 = 262142;

/// `year` is a leap year of the proleptic Gregorian calendar, in which the
/// year before year 1 is year 0.
pub open spec fn leap_year(year: int) -> bool {
    year % 4 == 0 && (year % 100 != 0 || year % 400 == 0)
}

/// The number of days of month `month` in year `year`.
pub open spec fn days_in_month(year: int, month: int) -> int {
    if month == 2 {
        if leap_year(year) {
            29
        } else {
            28
        }
    } else if month == 4 || month == 6 || month == 9 || month == 11 {
        30
    } else {
        31
    }
}

impl PickupDate {
    /// `self` is a day of the proleptic Gregorian calendar, in a year from
    /// [`MIN_YEAR`] to [`MAX_YEAR`].
    pub open spec fn is_calendar_date(self) -> bool {
        &&& MIN_YEAR <= self.year <= MAX_YEAR
        &&& 1 <= self.month <= 12
        &&& 1 <= self.day <= days_in_month(self.year as int, self.month as int)
    }

    /// Whether `self` is a day of the calendar.
    pub fn is_valid(&self) -> (r: bool)
        ensures
            r == self.is_calendar_date(),
    {
        if self.year < MIN_YEAR || self.year > MAX_YEAR || self.month < 1 || self.month > 12
            || self.day < 1 {
            return false;
        }
        // 262400 is a multiple of 400 that lifts every year of the range above zero.
        let lifted: i32 = self.year + 262400;
        let leap = lifted % 4 == 0 && (lifted % 100 != 0 || lifted % 400 == 0);
        assert(leap == leap_year(self.year as int));
        let days: u32 = if self.month == 2 {
            if leap {
                29
            } else {
                28
            }
        } else if self.month == 4 || self.month == 6 || self.month == 9 || self.month == 11 {
            30
        } else {
            31
        };
        self.day <= days
    }

    /// `self` falls strictly earlier than `other`.
    pub open spec fn before(self, other: PickupDate) -> bool {
        self.year < other.year || (self.year == other.year && (self.month < other.month || (
        self.month == other.month && self.day < other.day)))
    }

    /// Whether `self` falls strictly earlier than `other`.
    pub fn is_before(&self, other: &PickupDate) -> (r: bool)
        ensures
            r == self.before(*other),
    {
        self.year < other.year || (self.year == other.year && (self.month < other.month || (
        self.month == other.month && self.day < other.day)))
    }

    /// Whether both name the same day.
    pub fn same_day(&self, other: &PickupDate) -> (r: bool)
        ensures
            r == (*self == *other),
    {
        self.year == other.year && self.month == other.month && self.day == other.day
    }
}

/// Of two different dates exactly one comes before the other, and no date
/// comes before itself.
pub proof fn lemma_before_is_total(a: PickupDate, b: PickupDate)
    ensures
        !a.before(a),
        a != b ==> (a.before(b) != b.before(a)),
        a == b ==> !a.before(b) && !b.before(a),
{
}

/// What comes before an earlier date comes before every later one.
pub proof fn lemma_before_is_transitive(a: PickupDate, b: PickupDate, c: PickupDate)
    requires
        a.before(b),
        b.before(c) || b == c,
    ensures
        a.before(c),
{
}


/// Day, full month name and four-digit year, as in `15 July 2025`.
pub const LONG_FORMAT: &'static str = "%d %B %Y";

/// Abbreviated weekday, then day, month and year in numbers, as in
/// `Tue 15/07/2025`.
pub const NUMERIC_FORMAT: &'static str = "%a %d/%m/%Y";

/// The label format of the map export: year, month and day in numbers.
pub const LABEL_FORMAT: &'static str = "%Y-%m-%d";

/// The formats in which a pickup date may be written, in the order in which
/// they are tried.
pub open spec fn pickup_formats() -> Seq<Seq<char>> {
    seq![LONG_FORMAT@, NUMERIC_FORMAT@]
}

/// The date that `chrono::NaiveDate::parse_from_str` reads from `text` under
/// the format string `format`; `None` where it reports an error.
pub uninterp spec fn parsed_date(text: Seq<char>, format: Seq<char>) -> Option<PickupDate>;

/// The text that `chrono` writes for the calendar date `date` under the
/// format string `format`; `None` where `date` is no date of the calendar
/// that `chrono` can hold, or `format` is no format string.
pub uninterp spec fn formatted_date(date: PickupDate, format: Seq<char>) -> Option<Seq<char>>;

/// Calls `chrono::NaiveDate::parse_from_str` and hands out year, month and
/// day of the date it returns. The contract names that result, and says that
/// a date that is read is a day of the calendar: a `NaiveDate` holds no
/// other.
#[verifier::external_body]
fn parse_date(text: &str, format: &str) -> (r: Option<PickupDate>)
    ensures
        r == parsed_date(text@, format@),
        r matches Some(date) ==> date.is_calendar_date(),
{
    let date = NaiveDate::parse_from_str(text, format).ok()?;
    Some(PickupDate { year: date.year(), month: date.month(), day: date.day() })
}

/// Makes the date with `chrono::NaiveDate::from_ymd_opt` and writes it with
/// `NaiveDate::format` and `DelayedFormat::write_to`. The contract names that
/// result, and says when there is one: never for what is no day of the
/// calendar, which `from_ymd_opt` refuses, and always for a day of the
/// calendar under the label format, whose three numbers `chrono` writes for
/// every date.
#[verifier::external_body]
fn format_date(date: PickupDate, format: &str) -> (r: Option<String>)
    ensures
        r.deep_view() == formatted_date(date, format@),
        r is Some ==> date.is_calendar_date(),
        date.is_calendar_date() && format@ == LABEL_FORMAT@ ==> r is Some,
{
    let day = NaiveDate::from_ymd_opt(date.year, date.month, date.day)?;
    let mut out = String::new();
    day.format(format).write_to(&mut out).ok()?;
    Some(out)
}

/// The date that the first of `formats` to accept `text` reads from it.
pub open spec fn first_parsed(text: Seq<char>, formats: Seq<Seq<char>>) -> Option<PickupDate>
    decreases formats.len(),
{
    if formats.len() == 0 {
        None
    } else if parsed_date(text, formats.first()) is Some {
        parsed_date(text, formats.first())
    } else {
        first_parsed(text, formats.drop_first())
    }
}

/// Tries `formats` in order on `text` and returns the date of the first that
/// parses; `None` where none does.
pub fn parse_with_formats(text: &str, formats: &[&str]) -> (r: Option<PickupDate>)
    ensures
        r == first_parsed(text@, formats.deep_view()),
        r matches Some(date) ==> date.is_calendar_date(),
{
    let ghost all = formats.deep_view();
    let mut i: usize = 0;
    assert(all.skip(0) =~= all);
    while i < formats.len()
        invariant
            0 <= i <= formats.len(),
            all == formats.deep_view(),
            all.len() == formats.len(),
            first_parsed(text@, all) == first_parsed(text@, all.skip(i as int)),
        decreases formats.len() - i,
    {
        let parsed = parse_date(text, formats[i]);
        proof {
            assert(all.skip(i as int).first() == formats[i as int]@);
            assert(all.skip(i as int).drop_first() =~= all.skip(i + 1));
        }
        if parsed.is_some() {
            return parsed;
        }
        i += 1;
    }
    None
}

/// Reads a pickup date in one of the two formats that the schedule service
/// uses, the long one tried first.
pub fn parse_pickup_date(text: &str) -> (r: Option<PickupDate>)
    ensures
        r == first_parsed(text@, pickup_formats()),
        r matches Some(date) ==> date.is_calendar_date(),
{
    let formats: [&str; 2] = [LONG_FORMAT, NUMERIC_FORMAT];
    assert(formats.deep_view() =~= pickup_formats());
    parse_with_formats(text, &formats)
}

/// The label of a date on the map: year, month and day in numbers, as in
/// `2025-07-15`. Every day of the calendar has a label, and nothing else has.
pub fn date_label(date: PickupDate) -> (r: Option<String>)
    ensures
        r.deep_view() == formatted_date(date, LABEL_FORMAT@),
        r is Some <==> date.is_calendar_date(),
{
    format_date(date, LABEL_FORMAT)
}

} // verus!
