//! The seven days of the week, as a cyclic ordinal with Monday as the
//! canonical week start.

use vstd::prelude::*;

verus! {

/// A day of the week. Monday is the canonical start of a week.
#[derive(Debug, Clone, Copy, PartialEq, Eq, Structural, PartialOrd, Ord, Hash)]
pub enum WeekDay {
    Monday,
    Tuesday,
    Wednesday,
    Thursday,
    Friday,
    Saturday,
    Sunday,
}

impl WeekDay {
    /// The 1-based ordinal of this day: Monday is 1, Sunday is 7.
    pub open spec fn ordinal_spec(self) -> int {
        match self {
            WeekDay::Monday => 1,
            WeekDay::Tuesday => 2,
            WeekDay::Wednesday => 3,
            WeekDay::Thursday => 4,
            WeekDay::Friday => 5,
            WeekDay::Saturday => 6,
            WeekDay::Sunday => 7,
        }
    }

    /// The day of the week with the given 0-based offset from Monday:
    /// offset 0 is Monday, offset 6 is Sunday.
    pub open spec fn from_monday_offset_spec(offset: int) -> WeekDay
        recommends
            0 <= offset <= 6,
    {
        if offset == 0 {
            WeekDay::Monday
        } else if offset == 1 {
            WeekDay::Tuesday
        } else if offset == 2 {
            WeekDay::Wednesday
        } else if offset == 3 {
            WeekDay::Thursday
        } else if offset == 4 {
            WeekDay::Friday
        } else if offset == 5 {
            WeekDay::Saturday
        } else {
            WeekDay::Sunday
        }
    }

    /// The 1-based ordinal of this day: Monday is 1, Sunday is 7.
    pub fn as_usize(self) -> (r: usize)
        ensures
            r == self.ordinal_spec(),
            1 <= r <= 7,
    {
        match self {
            WeekDay::Monday => 1,
            WeekDay::Tuesday => 2,
            WeekDay::Wednesday => 3,
            WeekDay::Thursday => 4,
            WeekDay::Friday => 5,
            WeekDay::Saturday => 6,
            WeekDay::Sunday => 7,
        }
    }

    /// The day of the week with the given 0-based offset from Monday.
    pub fn from_monday_offset(offset: usize) -> (r: WeekDay)
        requires
            offset <= 6,
        ensures
            r == WeekDay::from_monday_offset_spec(offset as int),
    {
        match offset {
            0 => WeekDay::Monday,
            1 => WeekDay::Tuesday,
            2 => WeekDay::Wednesday,
            3 => WeekDay::Thursday,
            4 => WeekDay::Friday,
            5 => WeekDay::Saturday,
            _ => WeekDay::Sunday,
        }
    }

    /// The forward cyclic distance from `self` to `other`, in days.
    pub open spec fn days_until_spec(self, other: WeekDay) -> int {
        if self.ordinal_spec() <= other.ordinal_spec() {
            other.ordinal_spec() - self.ordinal_spec()
        } else {
            other.ordinal_spec() + 7 - self.ordinal_spec()
        }
    }

    /// How many days lie between `self` and the next `other`, walking
    /// forward through the week: 0 if the two are equal, at most 6 otherwise.
    pub fn days_until(self, other: WeekDay) -> (r: usize)
        ensures
            r == self.days_until_spec(other),
            r <= 6,
            r == 0 <==> self == other,
    {
        let a = self.as_usize();
        let b = other.as_usize();
        if a <= b {
            b - a
        } else {
            b + 7 - a
        }
    }
}

} // verus!
