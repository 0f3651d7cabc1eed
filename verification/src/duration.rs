//! Work-time quantities: a duration in hours and minutes, a time of day, and
//! a span between two times of day.

use vstd::prelude::*;

verus! {

/// A quantity of working time: whole hours plus minutes below sixty.
#[derive(Debug, Clone, Copy, PartialEq, Eq, Structural, Hash)]
pub struct WorkingDuration {
    pub hours: usize,
    pub minutes: usize,
}

impl WorkingDuration {
    /// A duration keeps its minutes below sixty.
    pub open spec fn wf(self) -> bool {
        self.minutes < 60
    }

    /// The duration as a total count of minutes.
    pub open spec fn total_minutes(self) -> int {
        self.hours * 60 + self.minutes
    }

    /// The duration of the given hours and minutes.
    pub fn new(hours: usize, minutes: usize) -> (r: WorkingDuration)
        requires
            minutes < 60,
        ensures
            r == (WorkingDuration { hours, minutes }),
            r.wf(),
    {
        WorkingDuration { hours, minutes }
    }

    /// The zero duration.
    pub fn zero() -> (r: WorkingDuration)
        ensures
            r.total_minutes() == 0,
            r.wf(),
    {
        WorkingDuration { hours: 0, minutes: 0 }
    }

    /// The whole hours of this duration.
    pub fn hours(&self) -> (r: usize)
        ensures
            r == self.hours,
    {
        self.hours
    }

    /// The minutes of this duration beyond its whole hours.
    pub fn minutes(&self) -> (r: usize)
        ensures
            r == self.minutes,
    {
        self.minutes
    }

    /// This duration less `rhs`. The caller must ensure `rhs` does not exceed
    /// this duration; underflow is not defined away at this layer.
    pub fn sub(self, rhs: WorkingDuration) -> (r: WorkingDuration)
        requires
            self.wf(),
            rhs.wf(),
            rhs.total_minutes() <= self.total_minutes(),
        ensures
            r.wf(),
            r.total_minutes() == self.total_minutes() - rhs.total_minutes(),
    {
        if self.minutes >= rhs.minutes {
            WorkingDuration { hours: self.hours - rhs.hours, minutes: self.minutes - rhs.minutes }
        } else {
            WorkingDuration {
                hours: self.hours - rhs.hours - 1,
                minutes: self.minutes + 60 - rhs.minutes,
            }
        }
    }
}

/// A time of day, in hours and minutes.
#[derive(Debug, Clone, Copy, PartialEq, Eq, Structural, Hash)]
pub struct TimeStamp {
    pub hour: usize,
    pub min: usize,
}

impl TimeStamp {
    /// A time of day lies within the day: hour below 24, minute below 60.
    pub open spec fn wf(self) -> bool {
        self.hour < 24 && self.min < 60
    }

    /// The time of day as minutes past midnight.
    pub open spec fn total_minutes(self) -> int {
        self.hour * 60 + self.min
    }

    /// The time of day with the given hour and minute.
    pub fn new(hour: usize, min: usize) -> (r: TimeStamp)
        requires
            hour < 24,
            min < 60,
        ensures
            r == (TimeStamp { hour, min }),
            r.wf(),
    {
        TimeStamp { hour, min }
    }

    /// The hour of this time of day.
    pub fn hour(&self) -> (r: usize)
        ensures
            r == self.hour,
    {
        self.hour
    }

    /// The minute of this time of day.
    pub fn min(&self) -> (r: usize)
        ensures
            r == self.min,
    {
        self.min
    }
}

/// A span between two times of one day, start no later than end.
#[derive(Debug, Clone, Copy, PartialEq, Eq, Structural, Hash)]
pub struct TimeSpan {
    pub start: TimeStamp,
    pub end: TimeStamp,
}

impl TimeSpan {
    /// A span's two times lie within the day and its start is no later than
    /// its end.
    pub open spec fn wf(self) -> bool {
        self.start.wf() && self.end.wf() && self.start.total_minutes() <= self.end.total_minutes()
    }

    /// The span between the given times.
    pub fn new(start: TimeStamp, end: TimeStamp) -> (r: TimeSpan)
        requires
            start.wf(),
            end.wf(),
            start.total_minutes() <= end.total_minutes(),
        ensures
            r == (TimeSpan { start, end }),
            r.wf(),
    {
        TimeSpan { start, end }
    }

    /// Where the span begins.
    pub fn start(&self) -> (r: TimeStamp)
        ensures
            r == self.start,
    {
        self.start
    }

    /// Where the span ends.
    pub fn end(&self) -> (r: TimeStamp)
        ensures
            r == self.end,
    {
        self.end
    }
}

} // verus!
