//! Calendar dates: validated construction, day-offset arithmetic from the
//! base date, weekday computation, holiday and workday predicates, and the
//! month-scoped week boundaries.

use vstd::prelude::*;

use crate::month::Month;
use crate::week_day::WeekDay;
use crate::year::{
    days_before_month, days_before_year, days_in_month_spec, index_of_ymd, is_leap_spec,
    lemma_days_before_month_full, lemma_days_before_month_monotonic,
    lemma_days_before_year_bounds, lemma_days_before_year_monotonic, lemma_month_prefix_step,
    lemma_ordinal_in_year, ordinal_spec, week_day_of_index, year_length_spec, Year, MAX_YEAR,
};

verus! {

/// A calendar day: a year, a month, and a 1-based day of that month.
///
/// The derived ordering is the calendar order, because the fields are ordered
/// year first, month second, day last.
#[derive(Debug, Clone, Copy, PartialEq, Eq, Structural, PartialOrd, Ord, Hash)]
pub struct Date {
    pub year: Year,
    pub month: Month,
    pub day: usize,
}

/// The error of constructing a date whose day is 0 or exceeds the length of
/// the month.
#[derive(Debug, Clone, Copy, PartialEq, Eq, Structural)]
pub struct InvalidDate {
    pub year: Year,
    pub month: Month,
    pub day: usize,
}

/// The fixed holiday rule: Dec 25, Dec 26, Jan 1, Jan 6 and Nov 1. The set is
/// admittedly incomplete; it is a replaceable predicate, not a final rule.
pub open spec fn is_holiday_spec(d: Date) -> bool {
    (d.month == Month::December && (d.day == 25 || d.day == 26)) || (d.month == Month::January
        && d.day == 1) || (d.month == Month::January && d.day == 6) || (d.month == Month::November
        && d.day == 1)
}

impl Date {
    /// Whether the day lies within its month: `1 <= day <= days in month`.
    pub open spec fn valid_spec(self) -> bool {
        1 <= self.day <= days_in_month_spec(self.leap_spec(), self.month.ordinal_spec())
    }

    /// Whether the year is small enough for day-offset arithmetic.
    pub open spec fn in_range_spec(self) -> bool {
        self.year.value <= MAX_YEAR
    }

    /// Whether this date's year is a leap year.
    pub open spec fn leap_spec(self) -> bool {
        is_leap_spec(self.year.value as int)
    }

    /// The 1-based day-of-year ordinal of this date.
    pub open spec fn ordinal_of_spec(self) -> int {
        ordinal_spec(self.leap_spec(), self.month.ordinal_spec(), self.day as int)
    }

    /// The canonical total-order key: the count of days from the base date up
    /// to and including this date.
    pub open spec fn index_spec(self) -> int {
        index_of_ymd(self.year.value as int, self.month.ordinal_spec(), self.day as int)
    }

    /// The weekday of this date.
    pub open spec fn week_day_spec(self) -> WeekDay {
        week_day_of_index(self.index_spec())
    }

    /// Whether this date is a workday: neither a holiday nor a Sunday.
    pub open spec fn is_workday_spec(self) -> bool {
        !is_holiday_spec(self) && self.week_day_spec() != WeekDay::Sunday
    }

    /// How many days this date's month has.
    pub open spec fn days_in_month_of_spec(self) -> int {
        days_in_month_spec(self.leap_spec(), self.month.ordinal_spec())
    }

    /// The date of the Monday of this date's week, clamped to day 1 where the
    /// week began in the previous month.
    pub open spec fn week_start_spec(self) -> Date {
        let offset = self.week_day_spec().ordinal_spec() - 1;
        Date {
            year: self.year,
            month: self.month,
            day: if self.day <= offset {
                1
            } else {
                (self.day - offset) as usize
            },
        }
    }

    /// The date of the Sunday of this date's week, clamped to the last day of
    /// the month where the week ends in the following month.
    pub open spec fn week_end_spec(self) -> Date {
        let distance = 7 - self.week_day_spec().ordinal_spec();
        Date {
            year: self.year,
            month: self.month,
            day: if self.day + distance > self.days_in_month_of_spec() {
                self.days_in_month_of_spec() as usize
            } else {
                (self.day + distance) as usize
            },
        }
    }

    /// The 1-based index of this date's week within its month. The first
    /// Monday-aligned block of up to 7 days is week 1; weeks never cross the
    /// month boundary.
    pub open spec fn week_number_spec(self) -> int {
        let first = Date { year: self.year, month: self.month, day: 1 };
        (first.week_day_spec().ordinal_spec() + 5 + self.day) / 7
    }

    /// Constructs the date, or reports `InvalidDate` exactly when the day is
    /// 0 or exceeds the length of the month.
    pub fn new(year: Year, month: Month, day: usize) -> (r: Result<Date, InvalidDate>)
        ensures
            r is Ok <==> 1 <= day <= days_in_month_spec(is_leap_spec(year.value as int),
                month.ordinal_spec()),
            r is Ok ==> r->Ok_0 == (Date { year, month, day }) && r->Ok_0.valid_spec(),
            r is Err ==> r->Err_0 == (InvalidDate { year, month, day }),
    {
        if year.number_of_days_in_month(month) < day || day == 0 {
            return Err(InvalidDate { year, month, day });
        }
        Ok(Date { year, month, day })
    }

    /// The year of this date.
    pub fn year(&self) -> (r: Year)
        ensures
            r == self.year,
    {
        self.year
    }

    /// The month of this date.
    pub fn month(&self) -> (r: Month)
        ensures
            r == self.month,
    {
        self.month
    }

    /// The day of the month of this date.
    pub fn day(&self) -> (r: usize)
        ensures
            r == self.day,
    {
        self.day
    }

    /// The first day of the given month.
    pub fn first_day(year: Year, month: Month) -> (r: Date)
        ensures
            r == (Date { year, month, day: 1 }),
            r.valid_spec(),
    {
        Date { year, month, day: 1 }
    }

    /// The last day of the given month.
    pub fn last_day(year: Year, month: Month) -> (r: Date)
        ensures
            r.year == year && r.month == month,
            r.day == days_in_month_spec(is_leap_spec(year.value as int), month.ordinal_spec()),
            r.valid_spec(),
    {
        Date { year, month, day: year.number_of_days_in_month(month) }
    }

    /// The weekday of this date.
    pub fn week_day(&self) -> (r: WeekDay)
        requires
            self.valid_spec(),
            self.in_range_spec(),
        ensures
            r == self.week_day_spec(),
    {
        self.year.week_day(self.month, self.day)
    }

    /// Whether this date falls under the fixed holiday rule.
    pub fn is_holiday(&self) -> (r: bool)
        ensures
            r == is_holiday_spec(*self),
    {
        (month_is(self.month, Month::December) && (self.day == 25 || self.day == 26)) || (month_is(
            self.month,
            Month::January,
        ) && self.day == 1) || (month_is(self.month, Month::January) && self.day == 6) || (
        month_is(self.month, Month::November) && self.day == 1)
    }

    /// Whether this date is a workday: it is not a holiday and its weekday is
    /// not Sunday.
    pub fn is_workday(&self) -> (r: bool)
        requires
            self.valid_spec(),
            self.in_range_spec(),
        ensures
            r == self.is_workday_spec(),
            r == (!is_holiday_spec(*self) && self.week_day_spec() != WeekDay::Sunday),
    {
        let wd = self.week_day();
        !self.is_holiday() && !week_day_is(wd, WeekDay::Sunday)
    }

    /// The 1-based day-of-year ordinal of this date.
    pub fn ordinal(&self) -> (r: usize)
        requires
            self.valid_spec(),
        ensures
            r == self.ordinal_of_spec(),
            1 <= r <= year_length_spec(self.year.value as int),
    {
        proof {
            lemma_ordinal_in_year(self.leap_spec(), self.month.ordinal_spec(), self.day as int);
        }
        self.year.days_before_month_of(self.month) + self.day
    }

    /// The count of days from the base date up to and including this date:
    /// the canonical total-order key of dates.
    pub fn days_since_base_date(&self) -> (r: usize)
        requires
            self.valid_spec(),
            self.in_range_spec(),
        ensures
            r == self.index_spec(),
            1 <= r <= days_before_year(MAX_YEAR as int + 1),
    {
        proof {
            lemma_days_before_year_bounds(self.year.value as int);
            lemma_days_before_year_bounds(MAX_YEAR as int + 1);
            lemma_days_before_year_monotonic(self.year.value as int + 1, MAX_YEAR as int + 1);
            lemma_ordinal_in_year(self.leap_spec(), self.month.ordinal_spec(), self.day as int);
        }
        self.year.days_since_base_date() + self.ordinal()
    }

    /// The date `days` days after this one, rolling the day over the month
    /// length and December over into the next year.
    pub fn add_days(self, days: usize) -> (r: Date)
        requires
            self.valid_spec(),
            self.in_range_spec(),
            self.index_spec() + days <= days_before_year(MAX_YEAR as int + 1),
        ensures
            r.valid_spec(),
            r.in_range_spec(),
            r.index_spec() == self.index_spec() + days,
    {
        let mut cur = self;
        let mut i: usize = 0;
        while i < days
            invariant
                i <= days,
                cur.valid_spec(),
                cur.in_range_spec(),
                cur.index_spec() == self.index_spec() + i,
                self.index_spec() + days <= days_before_year(MAX_YEAR as int + 1),
            decreases days - i,
        {
            let dim = cur.year.number_of_days_in_month(cur.month);
            if cur.day < dim {
                cur = Date { year: cur.year, month: cur.month, day: cur.day + 1 };
            } else if !month_is(cur.month, Month::December) {
                proof {
                    lemma_month_prefix_step(cur.leap_spec(), cur.month.ordinal_spec());
                }
                cur = Date { year: cur.year, month: cur.month.next(), day: 1 };
            } else {
                proof {
                    lemma_month_prefix_step(cur.leap_spec(), 12);
                    lemma_days_before_month_full(cur.leap_spec());
                }
                cur = Date { year: cur.year.next(), month: Month::January, day: 1 };
                proof {
                    // The new index stays within range, so the new year does too.
                    if cur.year.value > MAX_YEAR {
                        lemma_days_before_year_monotonic(MAX_YEAR as int + 1,
                            cur.year.value as int);
                        assert(false);
                    }
                }
            }
            i = i + 1;
        }
        cur
    }

    /// The date of the given 1-based day-of-year ordinal in the given year.
    /// An ordinal of 0 or beyond the year's length is a programming error and
    /// is excluded, not reported.
    pub fn from_ordinal(year: Year, ordinal: usize) -> (r: Date)
        requires
            year.value <= MAX_YEAR,
            1 <= ordinal <= year_length_spec(year.value as int),
        ensures
            r.valid_spec(),
            r.in_range_spec(),
            r.index_spec() == days_before_year(year.value as int) + ordinal,
    {
        proof {
            lemma_days_before_year_monotonic(year.value as int + 1, MAX_YEAR as int + 1);
        }
        Date::first_day(year, Month::January).add_days(ordinal - 1)
    }

    /// The unique date whose base-date offset is `days`.
    pub fn from_days_since_base_date(days: usize) -> (r: Date)
        requires
            1 <= days <= days_before_year(MAX_YEAR as int + 1),
        ensures
            r.valid_spec(),
            r.in_range_spec(),
            r.index_spec() == days,
    {
        let year = Year::from_days_since_base_date(days);
        let base = year.days_since_base_date();
        let ordinal = days - base;
        Date::from_ordinal(year, ordinal)
    }

    /// How many days lie between `start` and `end`: `None` where `end` is
    /// before `start`. This is what steps an inclusive date range.
    pub fn steps_between(start: &Date, end: &Date) -> (r: Option<usize>)
        requires
            start.valid_spec(),
            start.in_range_spec(),
            end.valid_spec(),
            end.in_range_spec(),
        ensures
            r is Some <==> start.index_spec() <= end.index_spec(),
            r is Some ==> r->0 == end.index_spec() - start.index_spec(),
    {
        let a = start.days_since_base_date();
        let b = end.days_since_base_date();
        if a <= b {
            Some(b - a)
        } else {
            None
        }
    }

    /// The date `count` days after this one, or `None` where that leaves the
    /// supported calendar range.
    pub fn forward_checked(self, count: usize) -> (r: Option<Date>)
        requires
            self.valid_spec(),
            self.in_range_spec(),
        ensures
            r is Some <==> self.index_spec() + count <= days_before_year(MAX_YEAR as int + 1),
            r is Some ==> r->0.valid_spec() && r->0.in_range_spec() && r->0.index_spec()
                == self.index_spec() + count,
    {
        let index = self.days_since_base_date();
        let limit = Year::new(MAX_YEAR + 1).days_since_base_date();
        if count <= limit - index {
            Some(self.add_days(count))
        } else {
            None
        }
    }

    /// The date `count` days before this one, or `None` where that falls
    /// before the base date.
    pub fn backward_checked(self, count: usize) -> (r: Option<Date>)
        requires
            self.valid_spec(),
            self.in_range_spec(),
        ensures
            r is Some <==> count < self.index_spec(),
            r is Some ==> r->0.valid_spec() && r->0.in_range_spec() && r->0.index_spec()
                == self.index_spec() - count,
    {
        let index = self.days_since_base_date();
        if count < index {
            Some(Date::from_days_since_base_date(index - count))
        } else {
            None
        }
    }

    /// The date of the Monday of this date's week, clamped to day 1 where
    /// the week began in the previous month.
    pub fn week_start(&self) -> (r: Date)
        requires
            self.valid_spec(),
            self.in_range_spec(),
        ensures
            r == self.week_start_spec(),
            r.valid_spec(),
            r.in_range_spec(),
            r.year == self.year && r.month == self.month,
            1 <= r.day <= self.day,
    {
        let distance = WeekDay::Monday.days_until(self.week_day());
        let day = if self.day <= distance {
            1
        } else {
            self.day - distance
        };
        Date { year: self.year, month: self.month, day }
    }

    /// The date of the Sunday of this date's week, clamped to the last day of
    /// the month where the week ends in the following month.
    pub fn week_end(&self) -> (r: Date)
        requires
            self.valid_spec(),
            self.in_range_spec(),
        ensures
            r == self.week_end_spec(),
            r.valid_spec(),
            r.in_range_spec(),
            r.year == self.year && r.month == self.month,
            self.day <= r.day <= self.days_in_month_of_spec(),
    {
        let distance = self.week_day().days_until(WeekDay::Sunday);
        let dim = self.year.number_of_days_in_month(self.month);
        let day = if self.day + distance > dim {
            dim
        } else {
            self.day + distance
        };
        Date { year: self.year, month: self.month, day }
    }

    /// The 1-based week index of this date within its month.
    pub fn week_number(&self) -> (r: usize)
        requires
            self.valid_spec(),
            self.in_range_spec(),
        ensures
            r == self.week_number_spec(),
    {
        let first = Date::first_day(self.year, self.month);
        apply_offset(first.week_day(), self.day) / 7
    }

    /// The date of the Monday that starts the following week of this month,
    /// or `None` exactly when that week lies in the next month.
    pub fn next_week_start(&self) -> (r: Option<Date>)
        requires
            self.valid_spec(),
            self.in_range_spec(),
        ensures
            r is Some <==> self.week_start_spec().day + 7 <= self.days_in_month_of_spec(),
            r is Some ==> r->0 == (Date {
                year: self.year,
                month: self.month,
                day: (self.week_start_spec().day + 7) as usize,
            }).week_start_spec(),
            r is Some ==> r->0.valid_spec() && r->0.in_range_spec() && r->0.year == self.year
                && r->0.month == self.month,
    {
        let ws = self.week_start();
        let dim = self.year.number_of_days_in_month(self.month);
        if ws.day + 7 <= dim {
            let next_week = Date { year: self.year, month: self.month, day: ws.day + 7 };
            Some(next_week.week_start())
        } else {
            None
        }
    }
}

/// Monday-aligns a day of the month so that dividing by 7 yields the 1-based
/// week index: the days of the first Monday-aligned block map to `7..=13`.
fn apply_offset(week_day: WeekDay, day: usize) -> (r: usize)
    requires
        day <= 31,
    ensures
        r == week_day.ordinal_spec() + 5 + day,
{
    let offset = week_day.as_usize() - 1;
    offset + 7 - 1 + day
}

/// Whether two months are the same.
fn month_is(a: Month, b: Month) -> (r: bool)
    ensures
        r == (a == b),
{
    a == b
}

/// Whether two weekdays are the same.
fn week_day_is(a: WeekDay, b: WeekDay) -> (r: bool)
    ensures
        r == (a == b),
{
    a == b
}

/// The base-date offset is injective on valid dates: two valid dates with the
/// same offset are the same date. Hence recovering a date from
/// `days_since_base_date` round-trips.
pub proof fn lemma_days_since_base_date_injective(a: Date, b: Date)
    requires
        a.valid_spec(),
        b.valid_spec(),
        a.index_spec() == b.index_spec(),
    ensures
        a == b,
{
    lemma_ordinal_in_year(a.leap_spec(), a.month.ordinal_spec(), a.day as int);
    lemma_ordinal_in_year(b.leap_spec(), b.month.ordinal_spec(), b.day as int);
    if a.year.value < b.year.value {
        lemma_days_before_year_monotonic(a.year.value as int + 1, b.year.value as int);
        assert(false);
    }
    if b.year.value < a.year.value {
        lemma_days_before_year_monotonic(b.year.value as int + 1, a.year.value as int);
        assert(false);
    }
    let leap = a.leap_spec();
    if a.month.ordinal_spec() < b.month.ordinal_spec() {
        lemma_days_before_month_monotonic(leap, a.month.ordinal_spec(), b.month.ordinal_spec());
        assert(false);
    }
    if b.month.ordinal_spec() < a.month.ordinal_spec() {
        lemma_days_before_month_monotonic(leap, b.month.ordinal_spec(), a.month.ordinal_spec());
        assert(false);
    }
    crate::month::lemma_month_ordinal_round_trip(a.month, 1);
    crate::month::lemma_month_ordinal_round_trip(b.month, 1);
}

/// A date lies between the start and the end of its own week, and all three
/// dates share a month.
pub proof fn lemma_week_bounds(d: Date)
    requires
        d.valid_spec(),
        d.in_range_spec(),
    ensures
        d.week_start_spec().valid_spec(),
        d.week_end_spec().valid_spec(),
        d.week_start_spec().year == d.year && d.week_start_spec().month == d.month,
        d.week_end_spec().year == d.year && d.week_end_spec().month == d.month,
        d.week_start_spec().day <= d.day <= d.week_end_spec().day,
{
}

/// The Monday one week after a week's start lies outside the month exactly
/// when stepping the week's start forward by seven days leaves the month:
/// every valid date seven days past the week's start then has another month
/// or year.
pub proof fn lemma_next_week_crosses_month(d: Date, e: Date)
    requires
        d.valid_spec(),
        d.in_range_spec(),
        e.valid_spec(),
        e.index_spec() == d.week_start_spec().index_spec() + 7,
    ensures
        (d.week_start_spec().day + 7 > d.days_in_month_of_spec()) <==> (e.year != d.year
            || e.month != d.month),
{
    let ws = d.week_start_spec();
    if ws.day + 7 <= d.days_in_month_of_spec() {
        let f = Date { year: d.year, month: d.month, day: (ws.day + 7) as usize };
        assert(f.valid_spec());
        assert(f.index_spec() == ws.index_spec() + 7);
        lemma_days_since_base_date_injective(e, f);
    } else {
        if e.year == d.year && e.month == d.month {
            assert(e.day == ws.day + 7);
            assert(false);
        }
    }
}

} // verus!
