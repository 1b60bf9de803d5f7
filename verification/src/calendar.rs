//! Business-day calendars and the search for the nearest business day.

use crate::date::{
    lemma_predecessor_is_previous, lemma_successor_is_next, next_day, previous_day, Date,
    MAX_YEAR, MIN_YEAR,
};
use vstd::prelude::*;

verus! {

/// A business-day calendar: it answers, for every date, whether business is
/// done on it in some market. Weekends and holidays are its affair.
///
/// The answer depends on the calendar and the date alone:
/// [`Calendar::business_day`] is the set of business days, and
/// [`Calendar::is_business_day`] reports membership in it. All that is
/// proved of a rolled date is proved of calendars that keep to this. A
/// calendar written outside verified code gives `business_day` the body of
/// `is_business_day`.
pub trait Calendar {
    /// Whether `date` is a business day of this calendar.
    spec fn business_day(&self, date: Date) -> bool;

    /// Tells whether `date` is a business day. It is asked about valid dates
    /// only.
    fn is_business_day(&self, date: Date) -> (answer: bool)
        requires
            date.valid(),
        ensures
            answer == self.business_day(date),
    ;
}

/// Some business day lies on or after `date`.
pub open spec fn has_business_day_from<C: Calendar>(calendar: &C, date: Date) -> bool {
    exists|day: Date|
        day.valid() && date.is_on_or_before(day) && #[trigger] calendar.business_day(day)
}

/// Some business day lies on or before `date`.
pub open spec fn has_business_day_until<C: Calendar>(calendar: &C, date: Date) -> bool {
    exists|day: Date|
        day.valid() && day.is_on_or_before(date) && #[trigger] calendar.business_day(day)
}

/// `day` is the first business day on or after `date`: it is one, and no
/// date from `date` up to the day before it is.
pub open spec fn is_first_business_day_from<C: Calendar>(
    calendar: &C,
    date: Date,
    day: Date,
) -> bool {
    &&& day.valid()
    &&& date.is_on_or_before(day)
    &&& calendar.business_day(day)
    &&& forall|between: Date|
        between.valid() && date.is_on_or_before(between) && between.is_before(day)
            ==> !#[trigger] calendar.business_day(between)
}

/// `day` is the last business day on or before `date`: it is one, and no
/// date from the day after it up to `date` is.
pub open spec fn is_last_business_day_until<C: Calendar>(
    calendar: &C,
    date: Date,
    day: Date,
) -> bool {
    &&& day.valid()
    &&& day.is_on_or_before(date)
    &&& calendar.business_day(day)
    &&& forall|between: Date|
        between.valid() && day.is_before(between) && between.is_on_or_before(date)
            ==> !#[trigger] calendar.business_day(between)
}

/// The first business day on or after `date`, where there is one.
pub open spec fn first_business_day_from<C: Calendar>(calendar: &C, date: Date) -> Date {
    choose|day: Date| is_first_business_day_from(calendar, date, day)
}

/// The last business day on or before `date`, where there is one.
pub open spec fn last_business_day_until<C: Calendar>(calendar: &C, date: Date) -> Date {
    choose|day: Date| is_last_business_day_until(calendar, date, day)
}

/// At most one date is the first business day on or after `date`, so a date
/// that is one is [`first_business_day_from`].
pub proof fn lemma_first_business_day_is_unique<C: Calendar>(calendar: &C, date: Date, day: Date)
    requires
        is_first_business_day_from(calendar, date, day),
    ensures
        day == first_business_day_from(calendar, date),
{
}

/// At most one date is the last business day on or before `date`, so a date
/// that is one is [`last_business_day_until`].
pub proof fn lemma_last_business_day_is_unique<C: Calendar>(calendar: &C, date: Date, day: Date)
    requires
        is_last_business_day_until(calendar, date, day),
    ensures
        day == last_business_day_until(calendar, date),
{
}

/// Where some business day lies on or after a valid date, one of them is the
/// first, and [`first_business_day_from`] is that one.
pub proof fn lemma_first_business_day_exists<C: Calendar>(calendar: &C, date: Date)
    requires
        date.valid(),
        has_business_day_from(calendar, date),
    ensures
        is_first_business_day_from(calendar, date, first_business_day_from(calendar, date)),
{
    let later = choose|day: Date|
        day.valid() && date.is_on_or_before(day) && #[trigger] calendar.business_day(day);
    lemma_first_business_day_before(calendar, date, later);
}

/// Where some business day lies on or before a valid date, one of them is
/// the last, and [`last_business_day_until`] is that one.
pub proof fn lemma_last_business_day_exists<C: Calendar>(calendar: &C, date: Date)
    requires
        date.valid(),
        has_business_day_until(calendar, date),
    ensures
        is_last_business_day_until(calendar, date, last_business_day_until(calendar, date)),
{
    let earlier = choose|day: Date|
        day.valid() && day.is_on_or_before(date) && #[trigger] calendar.business_day(day);
    lemma_last_business_day_after(calendar, date, earlier);
}

/// Going forward from `date` day by day, a first business day is met no
/// later than at the business day `later`.
proof fn lemma_first_business_day_before<C: Calendar>(calendar: &C, date: Date, later: Date)
    requires
        date.valid(),
        later.valid(),
        date.is_on_or_before(later),
        calendar.business_day(later),
    ensures
        exists|day: Date| is_first_business_day_from(calendar, date, day),
    decreases MAX_YEAR - date.year, 12 - date.month, 31 - date.day,
{
    if calendar.business_day(date) {
        assert(is_first_business_day_from(calendar, date, date));
    } else {
        lemma_successor_is_next(date);
        lemma_first_business_day_before(calendar, date.successor(), later);
        let day = choose|day: Date| is_first_business_day_from(calendar, date.successor(), day);
        assert(is_first_business_day_from(calendar, date, day));
    }
}

/// Going backward from `date` day by day, a last business day is met no
/// earlier than at the business day `earlier`.
proof fn lemma_last_business_day_after<C: Calendar>(calendar: &C, date: Date, earlier: Date)
    requires
        date.valid(),
        earlier.valid(),
        earlier.is_on_or_before(date),
        calendar.business_day(earlier),
    ensures
        exists|day: Date| is_last_business_day_until(calendar, date, day),
    decreases date.year - MIN_YEAR, date.month, date.day,
{
    if calendar.business_day(date) {
        assert(is_last_business_day_until(calendar, date, date));
    } else {
        lemma_predecessor_is_previous(date);
        lemma_last_business_day_after(calendar, date.predecessor(), earlier);
        let day = choose|day: Date| is_last_business_day_until(calendar, date.predecessor(), day);
        assert(is_last_business_day_until(calendar, date, day));
    }
}

/// Finds the first business day on or after `date`, looking at one day
/// after the other. Gives `None` where no date from `date` on is a business
/// day.
pub fn next_business_day<C: Calendar>(date: Date, calendar: &C) -> (found: Option<Date>)
    requires
        date.valid(),
    ensures
        found.is_some() == has_business_day_from(calendar, date),
        found matches Some(day) ==> is_first_business_day_from(calendar, date, day),
        found matches Some(day) ==> day == first_business_day_from(calendar, date),
{
    let mut current = date;
    while !calendar.is_business_day(current)
        invariant
            date.valid(),
            current.valid(),
            date.is_on_or_before(current),
            forall|between: Date|
                between.valid() && date.is_on_or_before(between) && between.is_before(current)
                    ==> !#[trigger] calendar.business_day(between),
        decreases MAX_YEAR - current.year, 12 - current.month, 31 - current.day,
    {
        match next_day(current) {
            Some(next) => {
                proof {
                    lemma_successor_is_next(current);
                }
                current = next;
            },
            None => {
                return None;
            },
        }
    }
    proof {
        lemma_first_business_day_is_unique(calendar, date, current);
    }
    Some(current)
}

/// Finds the last business day on or before `date`, looking at one day
/// before the other. Gives `None` where no date up to `date` is a business
/// day.
pub fn previous_business_day<C: Calendar>(date: Date, calendar: &C) -> (found: Option<Date>)
    requires
        date.valid(),
    ensures
        found.is_some() == has_business_day_until(calendar, date),
        found matches Some(day) ==> is_last_business_day_until(calendar, date, day),
        found matches Some(day) ==> day == last_business_day_until(calendar, date),
{
    let mut current = date;
    while !calendar.is_business_day(current)
        invariant
            date.valid(),
            current.valid(),
            current.is_on_or_before(date),
            forall|between: Date|
                between.valid() && current.is_before(between) && between.is_on_or_before(date)
                    ==> !#[trigger] calendar.business_day(between),
        decreases current.year - MIN_YEAR, current.month, current.day,
    {
        match previous_day(current) {
            Some(previous) => {
                proof {
                    lemma_predecessor_is_previous(current);
                }
                current = previous;
            },
            None => {
                return None;
            },
        }
    }
    proof {
        lemma_last_business_day_is_unique(calendar, date, current);
    }
    Some(current)
}

} // verus!
