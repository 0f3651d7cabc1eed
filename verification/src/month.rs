//! The twelve months of the civil calendar, as a cyclic ordinal in `1..=12`.

use vstd::prelude::*;

verus! {

/// A month of the year. Ordered in calendar order, January first.
#[derive(Debug, Clone, Copy, PartialEq, Eq, Structural, PartialOrd, Ord, Hash)]
pub enum Month {
    January,
    February,
    March,
    April,
    May,
    June,
    July,
    August,
    September,
    October,
    November,
    December,
}

impl Month {
    /// The 1-based calendar ordinal of this month: January is 1, December is 12.
    pub open spec fn ordinal_spec(self) -> int {
        match self {
            Month::January => 1,
            Month::February => 2,
            Month::March => 3,
            Month::April => 4,
            Month::May => 5,
            Month::June => 6,
            Month::July => 7,
            Month::August => 8,
            Month::September => 9,
            Month::October => 10,
            Month::November => 11,
            Month::December => 12,
        }
    }

    /// The month with the given 1-based ordinal.
    pub open spec fn from_ordinal_spec(ordinal: int) -> Month
        recommends
            1 <= ordinal <= 12,
    {
        if ordinal == 1 {
            Month::January
        } else if ordinal == 2 {
            Month::February
        } else if ordinal == 3 {
            Month::March
        } else if ordinal == 4 {
            Month::April
        } else if ordinal == 5 {
            Month::May
        } else if ordinal == 6 {
            Month::June
        } else if ordinal == 7 {
            Month::July
        } else if ordinal == 8 {
            Month::August
        } else if ordinal == 9 {
            Month::September
        } else if ordinal == 10 {
            Month::October
        } else if ordinal == 11 {
            Month::November
        } else {
            Month::December
        }
    }

    /// The 1-based calendar ordinal of this month.
    pub fn as_usize(self) -> (r: usize)
        ensures
            r == self.ordinal_spec(),
            1 <= r <= 12,
    {
        match self {
            Month::January => 1,
            Month::February => 2,
            Month::March => 3,
            Month::April => 4,
            Month::May => 5,
            Month::June => 6,
            Month::July => 7,
            Month::August => 8,
            Month::September => 9,
            Month::October => 10,
            Month::November => 11,
            Month::December => 12,
        }
    }

    /// The month with the given 1-based ordinal, or `None` if the ordinal is
    /// outside `1..=12`.
    pub fn from_ordinal(ordinal: usize) -> (r: Option<Month>)
        ensures
            r is Some <==> 1 <= ordinal <= 12,
            r is Some ==> r->0 == Month::from_ordinal_spec(ordinal as int),
    {
        match ordinal {
            1 => Some(Month::January),
            2 => Some(Month::February),
            3 => Some(Month::March),
            4 => Some(Month::April),
            5 => Some(Month::May),
            6 => Some(Month::June),
            7 => Some(Month::July),
            8 => Some(Month::August),
            9 => Some(Month::September),
            10 => Some(Month::October),
            11 => Some(Month::November),
            12 => Some(Month::December),
            _ => None,
        }
    }

    /// The successor of this month in the calendar cycle: December wraps
    /// around to January.
    pub open spec fn next_spec(self) -> Month {
        if self == Month::December {
            Month::January
        } else {
            Month::from_ordinal_spec(self.ordinal_spec() + 1)
        }
    }

    /// The successor of this month; December wraps around to January.
    pub fn next(self) -> (r: Month)
        ensures
            r == self.next_spec(),
            self != Month::December ==> r.ordinal_spec() == self.ordinal_spec() + 1,
            self == Month::December ==> r == Month::January,
    {
        match self {
            Month::January => Month::February,
            Month::February => Month::March,
            Month::March => Month::April,
            Month::April => Month::May,
            Month::May => Month::June,
            Month::June => Month::July,
            Month::July => Month::August,
            Month::August => Month::September,
            Month::September => Month::October,
            Month::October => Month::November,
            Month::November => Month::December,
            Month::December => Month::January,
        }
    }

    /// All twelve months, in calendar order.
    pub fn months() -> (r: Vec<Month>)
        ensures
            r@.len() == 12,
            forall|i: int| 0 <= i < 12 ==> (#[trigger] r@[i]).ordinal_spec() == i + 1,
    {
        let months = vec![
            Month::January,
            Month::February,
            Month::March,
            Month::April,
            Month::May,
            Month::June,
            Month::July,
            Month::August,
            Month::September,
            Month::October,
            Month::November,
            Month::December,
        ];
        assert(forall|i: int| 0 <= i < 12 ==> (#[trigger] months@[i]).ordinal_spec() == i + 1);
        months
    }
}

/// A month's ordinal is recovered by `from_ordinal_spec`, and conversely.
pub proof fn lemma_month_ordinal_round_trip(m: Month, ordinal: int)
    ensures
        Month::from_ordinal_spec(m.ordinal_spec()) == m,
        1 <= ordinal <= 12 ==> Month::from_ordinal_spec(ordinal).ordinal_spec() == ordinal,
{
}

} // verus!
