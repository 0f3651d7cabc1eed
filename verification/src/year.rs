//! Calendar years: the Gregorian leap rule, month lengths, and the count of
//! days from the base date (the first day of year 0) to the start of a year.

use vstd::prelude::*;

use crate::month::Month;
use crate::week_day::WeekDay;

verus! {

/// Largest year for which day-offset arithmetic is offered. Every day offset
/// of a date up to this year fits comfortably in a `usize`.
pub const MAX_YEAR: usize = 1000000;

/// The Gregorian leap rule: divisible by 4, and not by 100 unless also by 400.
pub open spec fn is_leap_spec(y: int) -> bool {
    y % 4 == 0 && (y % 100 != 0 || y % 400 == 0)
}

/// How many days the month with the given 1-based ordinal has, in a leap or
/// a common year.
pub open spec fn days_in_month_spec(leap: bool, month: int) -> int
    recommends
        1 <= month <= 12,
{
    if month == 2 {
        if leap {
            29
        } else {
            28
        }
    } else if month == 4 || month == 6 || month == 9 || month == 11 {
        30
    } else {
        31
    }
}

/// How many days the year `y` has: 366 in a leap year, 365 otherwise.
pub open spec fn year_length_spec(y: int) -> int {
    if is_leap_spec(y) {
        366
    } else {
        365
    }
}

/// The number of days in all years before `y`, counted from the first day of
/// year 0. This is the base-date offset of the start of year `y`.
pub open spec fn days_before_year(y: int) -> int
    decreases y,
{
    if y <= 0 {
        0
    } else {
        days_before_year(y - 1) + year_length_spec(y - 1)
    }
}

/// The number of days in all months of the same year before the month with
/// the given 1-based ordinal.
pub open spec fn days_before_month(leap: bool, month: int) -> int
    decreases month,
{
    if month <= 1 {
        0
    } else {
        days_before_month(leap, month - 1) + days_in_month_spec(leap, month - 1)
    }
}

/// The 1-based day-of-year ordinal of the given (month ordinal, day) pair.
pub open spec fn ordinal_spec(leap: bool, month: int, day: int) -> int {
    days_before_month(leap, month) + day
}

/// The canonical total-order key of a date: the count of days from the base
/// date up to and including the date itself.
pub open spec fn index_of_ymd(y: int, month: int, day: int) -> int {
    days_before_year(y) + ordinal_spec(is_leap_spec(y), month, day)
}

/// The weekday of the date with the given base-date offset. Offset 367 (the
/// first day of year 1) is a Monday.
pub open spec fn week_day_of_index(i: int) -> WeekDay {
    WeekDay::from_monday_offset_spec((i + 4) % 7)
}

/// `days_before_year` grows by the year's own length from one year to the
/// next, and so is strictly increasing.
pub proof fn lemma_days_before_year_monotonic(a: int, b: int)
    requires
        0 <= a <= b,
    ensures
        days_before_year(a) <= days_before_year(b),
        a < b ==> days_before_year(a) + year_length_spec(a) <= days_before_year(b),
    decreases b - a,
{
    if a < b {
        lemma_days_before_year_monotonic(a + 1, b);
    }
}

/// The days before a year lie between 365 and 366 days per elapsed year.
pub proof fn lemma_days_before_year_bounds(y: int)
    requires
        y >= 0,
    ensures
        365 * y <= days_before_year(y) <= 366 * y,
    decreases y,
{
    if y > 0 {
        lemma_days_before_year_bounds(y - 1);
    }
}

/// The months of one year account for the whole year: the days before the
/// (fictitious) thirteenth month equal the year's length.
pub proof fn lemma_days_before_month_full(leap: bool)
    ensures
        days_before_month(leap, 13) == (if leap { 366int } else { 365int }),
{
    reveal_with_fuel(days_before_month, 13);
}

/// `days_before_month` grows by one month's length from one month to the next.
pub proof fn lemma_month_prefix_step(leap: bool, m: int)
    requires
        1 <= m <= 12,
    ensures
        days_before_month(leap, m + 1) == days_before_month(leap, m) + days_in_month_spec(leap, m),
{
}

/// `days_before_month` is monotone in the month ordinal.
pub proof fn lemma_days_before_month_monotonic(leap: bool, a: int, b: int)
    requires
        1 <= a <= b <= 13,
    ensures
        days_before_month(leap, a) <= days_before_month(leap, b),
        a < b ==> days_before_month(leap, a) + days_in_month_spec(leap, a)
            <= days_before_month(leap, b),
    decreases b - a,
{
    if a < b {
        lemma_days_before_month_monotonic(leap, a + 1, b);
    }
}

/// A day-of-year ordinal of a valid (month, day) pair lies in `1..=year length`.
pub proof fn lemma_ordinal_in_year(leap: bool, month: int, day: int)
    requires
        1 <= month <= 12,
        1 <= day <= days_in_month_spec(leap, month),
    ensures
        1 <= ordinal_spec(leap, month, day) <= (if leap { 366int } else { 365int }),
{
    lemma_days_before_month_monotonic(leap, 1, month);
    lemma_days_before_month_monotonic(leap, month, 13);
    lemma_days_before_month_full(leap);
}

/// A calendar year, identified by its number.
#[derive(Debug, Clone, Copy, PartialEq, Eq, Structural, PartialOrd, Ord, Hash)]
pub struct Year {
    pub value: usize,
}

impl Year {
    /// The year with the given number.
    pub fn new(value: usize) -> (r: Year)
        ensures
            r.value_spec() == value,
    {
        Year { value }
    }

    /// The number of this year.
    pub open spec fn value_spec(self) -> int {
        self.value as int
    }

    /// The number of this year.
    pub fn as_usize(self) -> (r: usize)
        ensures
            r == self.value_spec(),
    {
        self.value
    }

    /// The year after this one.
    pub fn next(self) -> (r: Year)
        requires
            self.value_spec() < usize::MAX,
        ensures
            r.value_spec() == self.value_spec() + 1,
    {
        Year { value: self.value + 1 }
    }

    /// Whether this year is a leap year under the Gregorian rule.
    pub fn is_leap_year(self) -> (r: bool)
        ensures
            r == is_leap_spec(self.value_spec()),
    {
        self.value % 4 == 0 && (self.value % 100 != 0 || self.value % 400 == 0)
    }

    /// How many days the given month has in this year.
    pub fn number_of_days_in_month(self, month: Month) -> (r: usize)
        ensures
            r == days_in_month_spec(is_leap_spec(self.value_spec()), month.ordinal_spec()),
            28 <= r <= 31,
    {
        match month {
            Month::February => {
                if self.is_leap_year() {
                    29
                } else {
                    28
                }
            },
            Month::April | Month::June | Month::September | Month::November => 30,
            _ => 31,
        }
    }

    /// How many days this year has: 366 in a leap year, 365 otherwise.
    pub fn days(self) -> (r: usize)
        ensures
            r == year_length_spec(self.value_spec()),
    {
        if self.is_leap_year() {
            366
        } else {
            365
        }
    }

    /// The count of days in all years before this one, measured from the
    /// base date. Consistent with summing `days()` over the intervening years.
    pub fn days_since_base_date(self) -> (r: usize)
        requires
            self.value_spec() <= MAX_YEAR + 1,
        ensures
            r == days_before_year(self.value_spec()),
    {
        let mut acc: usize = 0;
        let mut i: usize = 0;
        while i < self.value
            invariant
                i <= self.value <= MAX_YEAR + 1,
                acc == days_before_year(i as int),
            decreases self.value - i,
        {
            proof {
                lemma_days_before_year_bounds(i as int);
            }
            acc = acc + Year { value: i }.days();
            i = i + 1;
        }
        acc
    }

    /// The number of days in all months of this year before the given month.
    pub fn days_before_month_of(self, month: Month) -> (r: usize)
        ensures
            r == days_before_month(is_leap_spec(self.value_spec()), month.ordinal_spec()),
            r <= 366,
    {
        let ghost leap = is_leap_spec(self.value_spec());
        let mut acc: usize = 0;
        let mut cur = Month::January;
        while !month_eq(cur, month)
            invariant
                cur.ordinal_spec() <= month.ordinal_spec(),
                acc == days_before_month(leap, cur.ordinal_spec()),
                leap == is_leap_spec(self.value_spec()),
                acc <= 366,
            decreases 12 - cur.ordinal_spec(),
        {
            proof {
                lemma_days_before_month_monotonic(leap, cur.ordinal_spec() + 1, 13);
                lemma_days_before_month_full(leap);
            }
            acc = acc + self.number_of_days_in_month(cur);
            cur = cur.next();
        }
        acc
    }

    /// The weekday of the given day of the given month in this year, computed
    /// purely from the base-date offset.
    pub fn week_day(self, month: Month, day: usize) -> (r: WeekDay)
        requires
            self.value_spec() <= MAX_YEAR,
            1 <= day <= days_in_month_spec(is_leap_spec(self.value_spec()), month.ordinal_spec()),
        ensures
            r == week_day_of_index(index_of_ymd(self.value_spec(), month.ordinal_spec(),
                day as int)),
    {
        proof {
            lemma_days_before_year_bounds(self.value_spec());
        }
        let base = self.days_since_base_date();
        let prefix = self.days_before_month_of(month);
        let index = base + prefix + day;
        let offset = (index + 4) % 7;
        WeekDay::from_monday_offset(offset)
    }

    /// The year whose span of days contains the given base-date offset.
    pub fn from_days_since_base_date(days: usize) -> (r: Year)
        requires
            1 <= days <= days_before_year(MAX_YEAR as int + 1),
        ensures
            r.value_spec() <= MAX_YEAR,
            days_before_year(r.value_spec()) < days <= days_before_year(r.value_spec() + 1),
    {
        let mut year: usize = 0;
        let mut base: usize = 0;
        loop
            invariant
                year <= MAX_YEAR,
                base == days_before_year(year as int),
                base < days <= days_before_year(MAX_YEAR as int + 1),
            decreases MAX_YEAR - year,
        {
            proof {
                lemma_days_before_year_bounds(year as int);
            }
            let len = Year { value: year }.days();
            if days <= base + len {
                return Year { value: year };
            }
            proof {
                if year == MAX_YEAR {
                    assert(days <= days_before_year(MAX_YEAR as int + 1));
                }
            }
            base = base + len;
            year = year + 1;
        }
    }
}

/// Whether two months are the same.
fn month_eq(a: Month, b: Month) -> (r: bool)
    ensures
        r == (a == b),
        r == (a.ordinal_spec() == b.ordinal_spec()),
{
    a == b
}

} // verus!
