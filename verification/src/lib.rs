//! A calendar and scheduling core: epoch-based date arithmetic on a civil
//! (Gregorian) calendar, week boundaries scoped to a month, holiday and
//! workday predicates, date parsing and formatting, a task model with
//! flexible durations, and a projection of recurring events onto the
//! workdays of a month.

pub mod date;
pub mod date_text;
pub mod duration;
pub mod month;
pub mod schedule;
pub mod task;
pub mod text;
pub mod week_day;
pub mod year;

pub use date::{Date, InvalidDate};
pub use date_text::ParseDateError;
pub use duration::{TimeSpan, TimeStamp, WorkingDuration};
pub use month::Month;
pub use schedule::{repeating_in_month, EitherEntry, Entry, Key, RepeatRule, RepeatingEvent};
pub use task::Task;
pub use week_day::WeekDay;
pub use year::Year;
