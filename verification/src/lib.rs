//! Business-day adjustment of payment dates.
//!
//! A payment or accrual date that falls on a day on which a market is closed
//! is moved ("rolled") to a nearby business day. How it is moved is fixed by
//! a [`DateRollingConvention`]; which days are business days is answered by a
//! [`Calendar`]. A calendar rolls dates through [`DateRoller`], which every
//! calendar has.

pub mod calendar;
pub mod date;
pub mod date_rolling;

pub use calendar::{next_business_day, previous_business_day, Calendar};
pub use date::Date;
pub use date_rolling::{checked_roll_date, DateRoller, DateRollingConvention};
