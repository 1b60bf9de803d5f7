//! Calendar dates of the proleptic Gregorian calendar and their order.

use vstd::prelude::*;

verus! {

/// The first year in which a [`Date`] may lie. The range of years is the one
/// that the `time` crate holds with its `large-dates` feature off.
pub const MIN_YEAR: i32 = -9999;

/// The last year in which a [`Date`] may lie.
pub const MAX_YEAR: i32 = 9999;

/// Whether `year` is a leap year of the proleptic Gregorian calendar, in
/// astronomical year numbering.
pub open spec fn is_leap_year(year: int) -> bool {
    year % 4 == 0 && (year % 100 != 0 || year % 400 == 0)
}

/// The number of days of month `month` (1 to 12) in year `year`.
pub open spec fn days_in_month(year: int, month: int) -> int {
    if month == 2 {
        if is_leap_year(year) {
            29
        } else {
            28
        }
    } else if month == 4 || month == 6 || month == 9 || month == 11 {
        30
    } else {
        31
    }
}

/// A calendar date: a year, a month of that year (1 to 12) and a day of that
/// month (1 to 31).
///
/// The fields are plain values, so a `Date` can be written down that names no
/// day at all; [`Date::valid`] tells the dates that do.
#[derive(Clone, Copy, Debug, PartialEq, Eq, PartialOrd, Ord, Hash, Structural)]
pub struct Date {
    pub year: i32,
    pub month: u8,
    pub day: u8,
}

impl Date {
    /// The date names a day of the calendar between the first day of
    /// [`MIN_YEAR`] and the last day of [`MAX_YEAR`].
    pub open spec fn valid(self) -> bool {
        &&& MIN_YEAR <= self.year <= MAX_YEAR
        &&& 1 <= self.month <= 12
        &&& 1 <= self.day <= days_in_month(self.year as int, self.month as int)
    }

    /// `self` comes strictly earlier than `other`.
    pub open spec fn is_before(self, other: Date) -> bool {
        ||| self.year < other.year
        ||| self.year == other.year && self.month < other.month
        ||| self.year == other.year && self.month == other.month && self.day < other.day
    }

    /// `self` is `other` or comes earlier.
    pub open spec fn is_on_or_before(self, other: Date) -> bool {
        self == other || self.is_before(other)
    }

    /// `self` and `other` lie in the same month of the same year.
    pub open spec fn in_same_month(self, other: Date) -> bool {
        self.year == other.year && self.month == other.month
    }

    /// The earliest valid date.
    pub open spec fn first() -> Date {
        Date { year: MIN_YEAR, month: 1, day: 1 }
    }

    /// The latest valid date.
    pub open spec fn last() -> Date {
        Date { year: MAX_YEAR, month: 12, day: 31 }
    }

    /// The calendar day after `self`. Meaningful for a valid date other than
    /// [`Date::last`].
    pub open spec fn successor(self) -> Date {
        if self.day < days_in_month(self.year as int, self.month as int) {
            Date { year: self.year, month: self.month, day: (self.day + 1) as u8 }
        } else if self.month < 12 {
            Date { year: self.year, month: (self.month + 1) as u8, day: 1 }
        } else {
            Date { year: (self.year + 1) as i32, month: 1, day: 1 }
        }
    }

    /// The calendar day before `self`. Meaningful for a valid date other than
    /// [`Date::first`].
    pub open spec fn predecessor(self) -> Date {
        if self.day > 1 {
            Date { year: self.year, month: self.month, day: (self.day - 1) as u8 }
        } else if self.month > 1 {
            Date {
                year: self.year,
                month: (self.month - 1) as u8,
                day: days_in_month(self.year as int, self.month - 1) as u8,
            }
        } else {
            Date { year: (self.year - 1) as i32, month: 12, day: 31 }
        }
    }

    /// Tells whether the date names a day of the calendar.
    pub fn is_valid(&self) -> (valid: bool)
        ensures
            valid == self.valid(),
    {
        if self.year < MIN_YEAR || self.year > MAX_YEAR || self.month < 1 || self.month > 12
            || self.day < 1 {
            return false;
        }
        // 10000 is a multiple of 400, so the shifted year is a leap year
        // exactly when `self.year` is one, and it is positive.
        let shifted: u32 = (self.year + 10000) as u32;
        let leap = shifted % 4 == 0 && (shifted % 100 != 0 || shifted % 400 == 0);
        let length: u8 = if self.month == 2 {
            if leap {
                29
            } else {
                28
            }
        } else if self.month == 4 || self.month == 6 || self.month == 9 || self.month == 11 {
            30
        } else {
            31
        };
        self.day <= length
    }

    /// Makes the date of the given year, month and day, if there is such a
    /// day.
    pub fn new(year: i32, month: u8, day: u8) -> (made: Option<Date>)
        ensures
            made == (if (Date { year, month, day }).valid() {
                Some(Date { year, month, day })
            } else {
                None
            }),
    {
        let date = Date { year, month, day };
        if date.is_valid() {
            Some(date)
        } else {
            None
        }
    }
}

/// The day after a valid date that is not the last is a valid date, comes
/// later, and no valid date lies between the two.
pub proof fn lemma_successor_is_next(date: Date)
    requires
        date.valid(),
        date != Date::last(),
    ensures
        date.successor().valid(),
        date.is_before(date.successor()),
        date.successor().predecessor() == date,
        forall|other: Date|
            other.valid() && date.is_before(other) ==> #[trigger] date.successor().is_on_or_before(
                other,
            ),
{
}

/// The day before a valid date that is not the first is a valid date, comes
/// earlier, and no valid date lies between the two.
pub proof fn lemma_predecessor_is_previous(date: Date)
    requires
        date.valid(),
        date != Date::first(),
    ensures
        date.predecessor().valid(),
        date.predecessor().is_before(date),
        date.predecessor().successor() == date,
        forall|other: Date|
            other.valid() && other.is_before(date) ==> #[trigger] other.is_on_or_before(
                date.predecessor(),
            ),
{
}

/// Calls `time::Date::next_day` on the date that
/// `time::Date::from_calendar_date` makes of the same year, month and day,
/// and reads year, month and day off what comes back.
///
/// Believed of it: on 31 December 9999, the last date that `time` holds with
/// its `large-dates` feature off, it gives `None`, and on every other date
/// the next day of the calendar.
#[verifier::external_body]
pub(crate) fn next_day(date: Date) -> (next: Option<Date>)
    requires
        date.valid(),
    ensures
        next == (if date == Date::last() {
            None
        } else {
            Some(date.successor())
        }),
{
    let month = time::Month::try_from(date.month).ok()?;
    let day = time::Date::from_calendar_date(date.year, month, date.day).ok()?;
    let next = day.next_day()?;
    Some(Date { year: next.year(), month: u8::from(next.month()), day: next.day() })
}

/// Calls `time::Date::previous_day` on the date that
/// `time::Date::from_calendar_date` makes of the same year, month and day,
/// and reads year, month and day off what comes back.
///
/// Believed of it: on 1 January -9999, the first date that `time` holds with
/// its `large-dates` feature off, it gives `None`, and on every other date
/// the previous day of the calendar.
#[verifier::external_body]
pub(crate) fn previous_day(date: Date) -> (previous: Option<Date>)
    requires
        date.valid(),
    ensures
        previous == (if date == Date::first() {
            None
        } else {
            Some(date.predecessor())
        }),
{
    let month = time::Month::try_from(date.month).ok()?;
    let day = time::Date::from_calendar_date(date.year, month, date.day).ok()?;
    let previous = day.previous_day()?;
    Some(Date { year: previous.year(), month: u8::from(previous.month()), day: previous.day() })
}

} // verus!
