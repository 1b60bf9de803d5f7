//! Date rolling: the business-day conventions and the adjustment that each
//! of them makes.

use crate::calendar::{
    first_business_day_from, has_business_day_from, has_business_day_until,
    is_first_business_day_from, is_last_business_day_until, last_business_day_until,
    lemma_first_business_day_exists, lemma_first_business_day_is_unique,
    lemma_last_business_day_exists, lemma_last_business_day_is_unique, next_business_day,
    previous_business_day, Calendar,
};
use crate::date::{lemma_successor_is_next, next_day, Date, MAX_YEAR};
use vstd::prelude::*;

verus! {

/// The business-day conventions by which a date is rolled.
///
/// A payment date, or a date from which accrued interest is reckoned, may
/// fall on a day that is no business day of the calendar in use. It is then
/// moved forward or backward in time to a business day of that calendar; the
/// convention says which way, and how far.
#[derive(Clone, Copy, Debug, PartialEq, Eq, Structural)]
pub enum DateRollingConvention {
    /// Actual: the payment is made on the date itself, business day or not.
    Actual,
    /// Following business day: the date is rolled to the next business day.
    Following,
    /// Modified following business day: the date is rolled to the next
    /// business day, unless that day lies in another calendar month; then it
    /// is rolled to the previous business day instead. Month-end accounting
    /// calls for this. Two months are told apart by their number in the
    /// year, not by the year.
    ModifiedFollowing,
    /// Preceding business day: the date is rolled to the previous business
    /// day.
    Preceding,
    /// Modified preceding business day: the date is rolled to the previous
    /// business day, unless that day lies in another calendar month; then it
    /// is rolled to the next business day instead.
    ModifiedPreceding,
    /// Modified rolling business day: the date is rolled to the next business
    /// day. The rolled date is meant to be the base of the next coupon date,
    /// so that adjustments add up over a schedule. That is left to the
    /// caller: a single date is rolled as under `Following`, with no regard
    /// to the month.
    ModifiedRolling,
}

/// Rolling of coupon and payment dates according to a given convention.
///
/// Every [`Calendar`] is a `DateRoller`: it rolls a date to a business day
/// of its own.
pub trait DateRoller {
    /// Whether `date` can be rolled under `convention`: the date is valid and
    /// the business days that the convention looks for are there.
    spec fn can_roll(&self, date: Date, convention: DateRollingConvention) -> bool;

    /// The date to which `date` is rolled under `convention`.
    spec fn rolled_date(&self, date: Date, convention: DateRollingConvention) -> Date;

    /// Roll the date according to the given convention.
    fn roll_date(&self, date: Date, convention: &DateRollingConvention) -> (rolled: Date)
        requires
            self.can_roll(date, *convention),
        ensures
            rolled == self.rolled_date(date, *convention),
    ;

    /// Roll a list of dates according to the given convention, each by
    /// itself and in the order given.
    fn roll_dates(&self, dates: &[Date], convention: &DateRollingConvention) -> (rolled: Vec<Date>)
        requires
            forall|i: int|
                0 <= i < dates@.len() ==> self.can_roll(#[trigger] dates@[i], *convention),
        ensures
            rolled@.len() == dates@.len(),
            forall|i: int|
                0 <= i < dates@.len() ==> #[trigger] rolled@[i] == self.rolled_date(
                    dates@[i],
                    *convention,
                ),
    ;
}

impl<C: Calendar> DateRoller for C {
    open spec fn can_roll(&self, date: Date, convention: DateRollingConvention) -> bool {
        &&& date.valid()
        &&& match convention {
            DateRollingConvention::Actual => true,
            DateRollingConvention::Following => has_business_day_from(self, date),
            DateRollingConvention::ModifiedFollowing => {
                &&& has_business_day_from(self, date)
                &&& first_business_day_from(self, date).month != date.month
                    ==> has_business_day_until(self, date)
            },
            DateRollingConvention::Preceding => has_business_day_until(self, date),
            DateRollingConvention::ModifiedPreceding => {
                &&& has_business_day_until(self, date)
                &&& last_business_day_until(self, date).month != date.month
                    ==> has_business_day_from(self, date)
            },
            DateRollingConvention::ModifiedRolling => has_business_day_from(self, date),
        }
    }

    open spec fn rolled_date(&self, date: Date, convention: DateRollingConvention) -> Date {
        match convention {
            DateRollingConvention::Actual => date,
            DateRollingConvention::Following => first_business_day_from(self, date),
            DateRollingConvention::ModifiedFollowing => {
                let next = first_business_day_from(self, date);
                if next.month != date.month {
                    last_business_day_until(self, date)
                } else {
                    next
                }
            },
            DateRollingConvention::Preceding => last_business_day_until(self, date),
            DateRollingConvention::ModifiedPreceding => {
                let previous = last_business_day_until(self, date);
                if previous.month != date.month {
                    first_business_day_from(self, date)
                } else {
                    previous
                }
            },
            DateRollingConvention::ModifiedRolling => first_business_day_from(self, date),
        }
    }

    fn roll_date(&self, date: Date, convention: &DateRollingConvention) -> (rolled: Date)
        ensures
            rolled.valid(),
            *convention != DateRollingConvention::Actual ==> self.business_day(rolled),
    {
        proof {
            lemma_rolled_date_meets_convention(self, date, *convention);
        }
        match convention {
            DateRollingConvention::Actual => DateRollingConvention::roll_date_actual(date, self),
            DateRollingConvention::Following => {
                DateRollingConvention::roll_date_following(date, self)
            },
            DateRollingConvention::ModifiedFollowing => {
                DateRollingConvention::roll_date_modified_following(date, self)
            },
            DateRollingConvention::Preceding => {
                DateRollingConvention::roll_date_preceding(date, self)
            },
            DateRollingConvention::ModifiedPreceding => {
                DateRollingConvention::roll_date_modified_preceding(date, self)
            },
            DateRollingConvention::ModifiedRolling => {
                DateRollingConvention::roll_date_modified_rolling(date, self)
            },
        }
    }

    fn roll_dates(&self, dates: &[Date], convention: &DateRollingConvention) -> (rolled: Vec<Date>)
        ensures
            forall|i: int| 0 <= i < rolled@.len() ==> (#[trigger] rolled@[i]).valid(),
    {
        let mut rolled: Vec<Date> = Vec::new();
        let mut i: usize = 0;
        while i < dates.len()
            invariant
                i <= dates@.len(),
                rolled@.len() == i,
                forall|j: int|
                    0 <= j < dates@.len() ==> self.can_roll(#[trigger] dates@[j], *convention),
                forall|j: int|
                    0 <= j < i ==> #[trigger] rolled@[j] == self.rolled_date(dates@[j], *convention),
                forall|j: int| 0 <= j < i ==> (#[trigger] rolled@[j]).valid(),
            decreases dates@.len() - i,
        {
            rolled.push(self.roll_date(dates[i], convention));
            i += 1;
        }
        rolled
    }
}

impl Default for DateRollingConvention {
    /// The convention that holds where none is named: `Actual`.
    fn default() -> (convention: Self)
        ensures
            convention == DateRollingConvention::Actual,
    {
        DateRollingConvention::Actual
    }
}

impl DateRollingConvention {
    /// The name of the convention, as it is shown to people.
    pub open spec fn label(self) -> Seq<char> {
        match self {
            DateRollingConvention::Actual => "Actual"@,
            DateRollingConvention::Following => "Following"@,
            DateRollingConvention::ModifiedFollowing => "Modified Following"@,
            DateRollingConvention::Preceding => "Preceding"@,
            DateRollingConvention::ModifiedPreceding => "Modified Preceding"@,
            DateRollingConvention::ModifiedRolling => "Modified Rolling"@,
        }
    }

    /// Writes the convention's name out.
    pub fn to_string(&self) -> (text: String)
        ensures
            text@ == self.label(),
    {
        match self {
            Self::Actual => "Actual".to_owned(),
            Self::Following => "Following".to_owned(),
            Self::ModifiedFollowing => "Modified Following".to_owned(),
            Self::Preceding => "Preceding".to_owned(),
            Self::ModifiedPreceding => "Modified Preceding".to_owned(),
            Self::ModifiedRolling => "Modified Rolling".to_owned(),
        }
    }

    /// Rolls `date` under `Actual`: the date is left as it is.
    pub(crate) fn roll_date_actual<C: Calendar>(date: Date, _calendar: &C) -> (rolled: Date)
        ensures
            rolled == date,
    {
        date
    }

    /// Rolls `date` under `Following`: to the first business day on or
    /// after it.
    pub(crate) fn roll_date_following<C: Calendar>(date: Date, calendar: &C) -> (rolled: Date)
        requires
            date.valid(),
            has_business_day_from(calendar, date),
        ensures
            rolled == first_business_day_from(calendar, date),
    {
        next_business_day(date, calendar).unwrap()
    }

    /// Rolls `date` under `ModifiedFollowing`: to the first business day on
    /// or after it or, where the month number of that day is not the date's,
    /// to the last business day on or before it.
    pub(crate) fn roll_date_modified_following<C: Calendar>(
        date: Date,
        calendar: &C,
    ) -> (rolled: Date)
        requires
            date.valid(),
            has_business_day_from(calendar, date),
            first_business_day_from(calendar, date).month != date.month
                ==> has_business_day_until(calendar, date),
        ensures
            rolled == (if first_business_day_from(calendar, date).month != date.month {
                last_business_day_until(calendar, date)
            } else {
                first_business_day_from(calendar, date)
            }),
    {
        let mut new_date = next_business_day(date, calendar).unwrap();

        if new_date.month != date.month {
            new_date = previous_business_day(date, calendar).unwrap();
        }
        new_date
    }

    /// Rolls `date` under `ModifiedPreceding`: to the last business day on
    /// or before it or, where the month number of that day is not the date's,
    /// to the first business day on or after it.
    pub(crate) fn roll_date_modified_preceding<C: Calendar>(
        date: Date,
        calendar: &C,
    ) -> (rolled: Date)
        requires
            date.valid(),
            has_business_day_until(calendar, date),
            last_business_day_until(calendar, date).month != date.month
                ==> has_business_day_from(calendar, date),
        ensures
            rolled == (if last_business_day_until(calendar, date).month != date.month {
                first_business_day_from(calendar, date)
            } else {
                last_business_day_until(calendar, date)
            }),
    {
        let mut new_date = previous_business_day(date, calendar).unwrap();

        if new_date.month != date.month {
            new_date = next_business_day(date, calendar).unwrap();
        }
        new_date
    }

    /// Rolls `date` under `ModifiedRolling`: goes on by one day at a time
    /// until a business day is reached.
    pub(crate) fn roll_date_modified_rolling<C: Calendar>(
        date: Date,
        calendar: &C,
    ) -> (rolled: Date)
        requires
            date.valid(),
            has_business_day_from(calendar, date),
        ensures
            rolled == first_business_day_from(calendar, date),
    {
        let mut new_date = date;

        while !calendar.is_business_day(new_date)
            invariant
                date.valid(),
                new_date.valid(),
                date.is_on_or_before(new_date),
                has_business_day_from(calendar, new_date),
                forall|between: Date|
                    between.valid() && date.is_on_or_before(between) && between.is_before(new_date)
                        ==> !#[trigger] calendar.business_day(between),
            decreases MAX_YEAR - new_date.year, 12 - new_date.month, 31 - new_date.day,
        {
            proof {
                lemma_successor_is_next(new_date);
            }
            new_date = next_day(new_date).unwrap();
        }
        proof {
            lemma_first_business_day_is_unique(calendar, date, new_date);
        }
        new_date
    }

    /// Rolls `date` under `Preceding`: to the last business day on or
    /// before it.
    pub(crate) fn roll_date_preceding<C: Calendar>(date: Date, calendar: &C) -> (rolled: Date)
        requires
            date.valid(),
            has_business_day_until(calendar, date),
        ensures
            rolled == last_business_day_until(calendar, date),
    {
        previous_business_day(date, calendar).unwrap()
    }
}

/// Rolls `date` under `convention` where that can be done, and gives `None`
/// where it cannot: where the date is not valid, or the calendar has no
/// business day where the convention looks for one.
pub fn checked_roll_date<C: Calendar>(
    calendar: &C,
    date: Date,
    convention: &DateRollingConvention,
) -> (rolled: Option<Date>)
    ensures
        rolled == (if calendar.can_roll(date, *convention) {
            Some(calendar.rolled_date(date, *convention))
        } else {
            None
        }),
{
    if !date.is_valid() {
        return None;
    }
    let able = match convention {
        DateRollingConvention::Actual => true,
        DateRollingConvention::Following | DateRollingConvention::ModifiedRolling => {
            next_business_day(date, calendar).is_some()
        },
        DateRollingConvention::Preceding => previous_business_day(date, calendar).is_some(),
        DateRollingConvention::ModifiedFollowing => match next_business_day(date, calendar) {
            Some(next) => {
                next.month == date.month || previous_business_day(date, calendar).is_some()
            },
            None => false,
        },
        DateRollingConvention::ModifiedPreceding => match previous_business_day(date, calendar) {
            Some(previous) => {
                previous.month == date.month || next_business_day(date, calendar).is_some()
            },
            None => false,
        },
    };
    if able {
        Some(calendar.roll_date(date, convention))
    } else {
        None
    }
}

/// Some business day lies in the month of `date`, in the same year.
pub open spec fn has_business_day_in_month_of<C: Calendar>(calendar: &C, date: Date) -> bool {
    exists|day: Date|
        day.valid() && day.in_same_month(date) && #[trigger] calendar.business_day(day)
}

/// Under `Actual` every date is rolled to itself.
pub proof fn lemma_actual_keeps_the_date<C: Calendar>(calendar: &C, date: Date)
    ensures
        calendar.rolled_date(date, DateRollingConvention::Actual) == date,
        date.valid() ==> calendar.can_roll(date, DateRollingConvention::Actual),
{
}

/// A business day can be rolled under every convention, and is rolled to
/// itself.
pub proof fn lemma_business_day_is_kept<C: Calendar>(
    calendar: &C,
    date: Date,
    convention: DateRollingConvention,
)
    requires
        date.valid(),
        calendar.business_day(date),
    ensures
        calendar.can_roll(date, convention),
        calendar.rolled_date(date, convention) == date,
{
    lemma_first_business_day_is_unique(calendar, date, date);
    lemma_last_business_day_is_unique(calendar, date, date);
}

/// What a rolled date is, convention by convention: under `Following` and
/// `ModifiedRolling` the first business day on or after the date, under
/// `Preceding` the last business day on or before it, and under the two
/// modified conventions one of these two. It is a valid date and, except
/// under `Actual`, a business day.
pub proof fn lemma_rolled_date_meets_convention<C: Calendar>(
    calendar: &C,
    date: Date,
    convention: DateRollingConvention,
)
    requires
        calendar.can_roll(date, convention),
    ensures
        ({
            let rolled = calendar.rolled_date(date, convention);
            &&& rolled.valid()
            &&& convention != DateRollingConvention::Actual ==> calendar.business_day(rolled)
            &&& match convention {
                DateRollingConvention::Actual => rolled == date,
                DateRollingConvention::Following | DateRollingConvention::ModifiedRolling => {
                    is_first_business_day_from(calendar, date, rolled)
                },
                DateRollingConvention::Preceding => {
                    is_last_business_day_until(calendar, date, rolled)
                },
                DateRollingConvention::ModifiedFollowing
                | DateRollingConvention::ModifiedPreceding => {
                    ||| is_first_business_day_from(calendar, date, rolled)
                    ||| is_last_business_day_until(calendar, date, rolled)
                },
            }
        }),
{
    if has_business_day_from(calendar, date) {
        lemma_first_business_day_exists(calendar, date);
    }
    if has_business_day_until(calendar, date) {
        lemma_last_business_day_exists(calendar, date);
    }
}

/// `Following` and `ModifiedRolling` never roll a date backward, and
/// `Preceding` never rolls one forward.
pub proof fn lemma_roll_direction<C: Calendar>(calendar: &C, date: Date)
    ensures
        calendar.can_roll(date, DateRollingConvention::Following) ==> date.is_on_or_before(
            calendar.rolled_date(date, DateRollingConvention::Following),
        ),
        calendar.can_roll(date, DateRollingConvention::ModifiedRolling) ==> date.is_on_or_before(
            calendar.rolled_date(date, DateRollingConvention::ModifiedRolling),
        ),
        calendar.can_roll(date, DateRollingConvention::Preceding) ==> calendar.rolled_date(
            date,
            DateRollingConvention::Preceding,
        ).is_on_or_before(date),
{
    if calendar.can_roll(date, DateRollingConvention::Following) {
        lemma_rolled_date_meets_convention(calendar, date, DateRollingConvention::Following);
    }
    if calendar.can_roll(date, DateRollingConvention::ModifiedRolling) {
        lemma_rolled_date_meets_convention(calendar, date, DateRollingConvention::ModifiedRolling);
    }
    if calendar.can_roll(date, DateRollingConvention::Preceding) {
        lemma_rolled_date_meets_convention(calendar, date, DateRollingConvention::Preceding);
    }
}

/// Where the month of a valid date holds a business day, the first business
/// day on or after the date lies in that month, or the last one on or before
/// it does.
proof fn lemma_month_holds_a_nearest_business_day<C: Calendar>(calendar: &C, date: Date)
    requires
        date.valid(),
        has_business_day_in_month_of(calendar, date),
    ensures
        ({
            &&& has_business_day_from(calendar, date)
            &&& first_business_day_from(calendar, date).in_same_month(date)
        }) || ({
            &&& has_business_day_until(calendar, date)
            &&& last_business_day_until(calendar, date).in_same_month(date)
        }),
{
    let in_month = choose|day: Date|
        day.valid() && day.in_same_month(date) && #[trigger] calendar.business_day(day);
    if date.is_on_or_before(in_month) {
        lemma_first_business_day_exists(calendar, date);
    } else {
        lemma_last_business_day_exists(calendar, date);
    }
}

/// Where the month of a date holds a business day, the two modified
/// conventions roll the date to a day with the same month number.
pub proof fn lemma_modified_roll_keeps_month_number<C: Calendar>(
    calendar: &C,
    date: Date,
    convention: DateRollingConvention,
)
    requires
        convention == DateRollingConvention::ModifiedFollowing || convention
            == DateRollingConvention::ModifiedPreceding,
        calendar.can_roll(date, convention),
        has_business_day_in_month_of(calendar, date),
    ensures
        calendar.rolled_date(date, convention).month == date.month,
{
    lemma_month_holds_a_nearest_business_day(calendar, date);
}

/// Where the month of a date holds a business day, `ModifiedFollowing` rolls
/// the date to a day of that month, unless the first business day on or
/// after the date lies in the month of the same number of another year.
pub proof fn lemma_modified_following_stays_in_month<C: Calendar>(calendar: &C, date: Date)
    requires
        calendar.can_roll(date, DateRollingConvention::ModifiedFollowing),
        has_business_day_in_month_of(calendar, date),
        first_business_day_from(calendar, date).month == date.month
            ==> first_business_day_from(calendar, date).year == date.year,
    ensures
        calendar.rolled_date(date, DateRollingConvention::ModifiedFollowing).in_same_month(date),
{
    lemma_month_holds_a_nearest_business_day(calendar, date);
}

/// Where the month of a date holds a business day, `ModifiedPreceding` rolls
/// the date to a day of that month, unless the last business day on or
/// before the date lies in the month of the same number of another year.
pub proof fn lemma_modified_preceding_stays_in_month<C: Calendar>(calendar: &C, date: Date)
    requires
        calendar.can_roll(date, DateRollingConvention::ModifiedPreceding),
        has_business_day_in_month_of(calendar, date),
        last_business_day_until(calendar, date).month == date.month
            ==> last_business_day_until(calendar, date).year == date.year,
    ensures
        calendar.rolled_date(date, DateRollingConvention::ModifiedPreceding).in_same_month(date),
{
    lemma_month_holds_a_nearest_business_day(calendar, date);
}

} // verus!
