use date_rolling::{next_business_day, previous_business_day, Calendar, Date};

fn date(year: i32, month: u8, day: u8) -> Date {
    Date::new(year, month, day).unwrap()
}

/// A calendar on which the listed days are the only business days.
struct OpenOn(Vec<Date>);

impl Calendar for OpenOn {
    fn business_day(&self, date: Date) -> bool {
        self.is_business_day(date)
    }

    fn is_business_day(&self, date: Date) -> bool {
        self.0.contains(&date)
    }
}

fn in_time(year: i32, month: u8, day: u8) -> Option<time::Date> {
    let month = time::Month::try_from(month).ok()?;
    time::Date::from_calendar_date(year, month, day).ok()
}

#[test]
fn new_keeps_year_month_and_day() {
    let made = Date::new(2024, 6, 1).unwrap();
    assert_eq!((made.year, made.month, made.day), (2024, 6, 1));
    assert_eq!(made, Date { year: 2024, month: 6, day: 1 });
}

#[test]
fn new_knows_the_lengths_of_the_months() {
    let lengths = [31u8, 28, 31, 30, 31, 30, 31, 31, 30, 31, 30, 31];
    for (i, length) in lengths.iter().enumerate() {
        let month = i as u8 + 1;
        assert!(Date::new(2023, month, *length).is_some());
        assert!(Date::new(2023, month, *length + 1).is_none());
        assert!(Date::new(2023, month, 0).is_none());
    }
}

#[test]
fn new_knows_the_leap_years() {
    assert!(Date::new(2024, 2, 29).is_some());
    assert!(Date::new(2023, 2, 29).is_none());
    assert!(Date::new(1900, 2, 29).is_none());
    assert!(Date::new(2000, 2, 29).is_some());
    assert!(Date::new(2100, 2, 29).is_none());
    assert!(Date::new(0, 2, 29).is_some());
    assert!(Date::new(-4, 2, 29).is_some());
    assert!(Date::new(-100, 2, 29).is_none());
    assert!(Date::new(-400, 2, 29).is_some());
    assert!(Date::new(2024, 2, 30).is_none());
}

#[test]
fn new_refuses_months_that_are_none() {
    assert!(Date::new(2024, 0, 1).is_none());
    assert!(Date::new(2024, 13, 1).is_none());
    assert!(Date::new(2024, 255, 1).is_none());
}

#[test]
fn new_refuses_years_out_of_range() {
    assert!(Date::new(9999, 12, 31).is_some());
    assert!(Date::new(10000, 1, 1).is_none());
    assert!(Date::new(-9999, 1, 1).is_some());
    assert!(Date::new(-10000, 12, 31).is_none());
    assert!(Date::new(i32::MAX, 1, 1).is_none());
    assert!(Date::new(i32::MIN, 1, 1).is_none());
}

#[test]
fn is_valid_tells_what_new_makes() {
    assert!(Date { year: 2024, month: 2, day: 29 }.is_valid());
    assert!(!Date { year: 2023, month: 2, day: 29 }.is_valid());
    assert!(!Date { year: 2024, month: 4, day: 31 }.is_valid());
    assert!(!Date { year: 2024, month: 0, day: 10 }.is_valid());
}

#[test]
fn the_valid_dates_are_those_of_the_time_crate() {
    let years = [
        -10000, -9999, -9998, -401, -400, -101, -100, -5, -4, -1, 0, 1, 4, 100, 400, 1600, 1700,
        1900, 1999, 2000, 2023, 2024, 2100, 9998, 9999, 10000,
    ];
    for year in years {
        for month in 0u8..=13 {
            for day in 0u8..=32 {
                assert_eq!(
                    Date::new(year, month, day).is_some(),
                    in_time(year, month, day).is_some(),
                    "{year}-{month}-{day}"
                );
            }
        }
    }
}

#[test]
fn dates_are_ordered_by_year_then_month_then_day() {
    assert!(date(2023, 12, 31) < date(2024, 1, 1));
    assert!(date(2024, 1, 31) < date(2024, 2, 1));
    assert!(date(2024, 2, 1) < date(2024, 2, 2));
    assert!(date(-1, 12, 31) < date(0, 1, 1));
    assert_eq!(date(2024, 2, 2), date(2024, 2, 2));
}

#[test]
fn next_business_day_keeps_a_business_day() {
    let calendar = OpenOn(vec![date(2024, 6, 3)]);
    assert_eq!(next_business_day(date(2024, 6, 3), &calendar), Some(date(2024, 6, 3)));
    assert_eq!(previous_business_day(date(2024, 6, 3), &calendar), Some(date(2024, 6, 3)));
}

#[test]
fn next_business_day_finds_the_first_of_several() {
    let calendar = OpenOn(vec![date(2024, 6, 20), date(2024, 6, 5), date(2024, 6, 11)]);
    assert_eq!(next_business_day(date(2024, 6, 1), &calendar), Some(date(2024, 6, 5)));
    assert_eq!(next_business_day(date(2024, 6, 6), &calendar), Some(date(2024, 6, 11)));
    assert_eq!(next_business_day(date(2024, 6, 12), &calendar), Some(date(2024, 6, 20)));
    assert_eq!(next_business_day(date(2024, 6, 21), &calendar), None);
}

#[test]
fn previous_business_day_finds_the_last_of_several() {
    let calendar = OpenOn(vec![date(2024, 6, 20), date(2024, 6, 5), date(2024, 6, 11)]);
    assert_eq!(previous_business_day(date(2024, 6, 30), &calendar), Some(date(2024, 6, 20)));
    assert_eq!(previous_business_day(date(2024, 6, 19), &calendar), Some(date(2024, 6, 11)));
    assert_eq!(previous_business_day(date(2024, 6, 10), &calendar), Some(date(2024, 6, 5)));
    assert_eq!(previous_business_day(date(2024, 6, 4), &calendar), None);
}

#[test]
fn next_business_day_walks_over_months_and_years() {
    let calendar = OpenOn(vec![date(2025, 3, 1)]);
    assert_eq!(next_business_day(date(2024, 1, 30), &calendar), Some(date(2025, 3, 1)));
    let calendar = OpenOn(vec![date(2024, 2, 29)]);
    assert_eq!(next_business_day(date(2023, 2, 28), &calendar), Some(date(2024, 2, 29)));
}

#[test]
fn previous_business_day_walks_over_months_and_years() {
    let calendar = OpenOn(vec![date(2023, 11, 30)]);
    assert_eq!(previous_business_day(date(2025, 3, 1), &calendar), Some(date(2023, 11, 30)));
    let calendar = OpenOn(vec![date(2024, 2, 29)]);
    assert_eq!(previous_business_day(date(2024, 3, 1), &calendar), Some(date(2024, 2, 29)));
}

/// A calendar with one business day. It counts the days it is asked about,
/// and holds each of them against the day it was asked about before: by the
/// `time` crate's count of days the two must be neighbours.
struct Counting {
    open: Date,
    asked: std::cell::Cell<u32>,
    julian_day: std::cell::Cell<Option<i32>>,
}

impl Counting {
    fn open_on(open: Date) -> Self {
        Counting {
            open,
            asked: std::cell::Cell::new(0),
            julian_day: std::cell::Cell::new(None),
        }
    }
}

impl Calendar for Counting {
    fn business_day(&self, date: Date) -> bool {
        date == self.open
    }

    fn is_business_day(&self, date: Date) -> bool {
        let julian_day = in_time(date.year, date.month, date.day).unwrap().to_julian_day();
        if let Some(before) = self.julian_day.get() {
            assert_eq!((julian_day - before).abs(), 1, "{date:?}");
        }
        self.julian_day.set(Some(julian_day));
        self.asked.set(self.asked.get() + 1);
        date == self.open
    }
}

#[test]
fn next_business_day_looks_at_every_day_once() {
    let calendar = Counting::open_on(date(2025, 1, 1));
    assert_eq!(next_business_day(date(2024, 1, 1), &calendar), Some(date(2025, 1, 1)));
    // 2024 has 366 days; the day found is looked at too.
    assert_eq!(calendar.asked.get(), 367);
}

#[test]
fn previous_business_day_looks_at_every_day_once() {
    let calendar = Counting::open_on(date(2022, 12, 31));
    assert_eq!(previous_business_day(date(2023, 12, 31), &calendar), Some(date(2022, 12, 31)));
    assert_eq!(calendar.asked.get(), 366);
}

#[test]
fn next_business_day_ends_at_the_last_date() {
    let never = OpenOn(Vec::new());
    assert_eq!(next_business_day(date(9999, 12, 1), &never), None);
    assert_eq!(next_business_day(date(9999, 12, 31), &never), None);
    let last = OpenOn(vec![date(9999, 12, 31)]);
    assert_eq!(next_business_day(date(9999, 11, 30), &last), Some(date(9999, 12, 31)));
}

#[test]
fn previous_business_day_ends_at_the_first_date() {
    let never = OpenOn(Vec::new());
    assert_eq!(previous_business_day(date(-9999, 1, 31), &never), None);
    assert_eq!(previous_business_day(date(-9999, 1, 1), &never), None);
    let first = OpenOn(vec![date(-9999, 1, 1)]);
    assert_eq!(previous_business_day(date(-9999, 2, 1), &first), Some(date(-9999, 1, 1)));
}

#[test]
fn the_whole_range_of_dates_can_be_walked() {
    let last = Counting::open_on(date(9999, 12, 31));
    assert_eq!(next_business_day(date(-9999, 1, 1), &last), Some(date(9999, 12, 31)));
    // 19999 years, 4849 of them leap years.
    assert_eq!(last.asked.get(), 19999 * 365 + 4849);
    let first = Counting::open_on(date(-9999, 1, 1));
    assert_eq!(previous_business_day(date(9999, 12, 31), &first), Some(date(-9999, 1, 1)));
    assert_eq!(first.asked.get(), 19999 * 365 + 4849);
}
