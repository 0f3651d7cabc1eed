//! A schedulable unit of work: either a fixed duration or a flexible
//! placeholder whose duration is resolved later against a target total.

use vstd::prelude::*;

use crate::date::Date;
use crate::duration::{TimeStamp, WorkingDuration};

verus! {

/// One allocatable unit of work time, with an optional suggested date and
/// start, a splittability flag, and an optional flexible-slot index.
#[derive(Debug, Clone, Copy, PartialEq)]
pub struct Task {
    pub duration: WorkingDuration,
    pub suggested_date: Option<Date>,
    pub can_be_split: bool,
    pub start: Option<TimeStamp>,
    pub flex: Option<usize>,
}

impl Task {
    /// A concrete task with the given fixed duration: splittable, with no
    /// suggested date or start and no flexible slot.
    pub fn new_duration(duration: WorkingDuration) -> (r: Task)
        ensures
            r.duration == duration,
            r.suggested_date is None,
            r.can_be_split == true,
            r.start is None,
            r.flex is None,
    {
        Task { duration, suggested_date: None, can_be_split: true, start: None, flex: None }
    }

    /// A placeholder task for the given flexible slot: zero duration until it
    /// is resolved.
    pub fn new_flex(flex: usize) -> (r: Task)
        ensures
            r.duration.total_minutes() == 0,
            r.suggested_date is None,
            r.can_be_split == true,
            r.start is None,
            r.flex == Some(flex),
    {
        Task {
            duration: WorkingDuration::zero(),
            suggested_date: None,
            can_be_split: true,
            start: None,
            flex: Some(flex),
        }
    }

    /// The flexible-slot index, while the task is unresolved.
    pub fn flex(&self) -> (r: Option<usize>)
        ensures
            r == self.flex,
    {
        self.flex
    }

    /// Resolves a flexible task into a concrete one: the duration becomes
    /// `duration` and the flexible slot is cleared. A one-shot transition;
    /// nothing else changes.
    pub fn resolve_flex(&mut self, duration: WorkingDuration)
        ensures
            final(self).duration == duration,
            final(self).flex is None,
            final(self).suggested_date == old(self).suggested_date,
            final(self).can_be_split == old(self).can_be_split,
            final(self).start == old(self).start,
    {
        self.duration = duration;
        self.flex = None;
    }

    /// The same unit of work, now with the given suggested start time.
    pub fn with_start(self, start: TimeStamp) -> (r: Task)
        ensures
            r == (Task { start: Some(start), ..self }),
    {
        Task { start: Some(start), ..self }
    }

    /// The same unit of work, now with the given suggested date.
    pub fn with_suggested_date(self, date: Date) -> (r: Task)
        ensures
            r == (Task { suggested_date: Some(date), ..self }),
    {
        Task { suggested_date: Some(date), ..self }
    }

    /// The same unit of work, now with the given duration.
    pub fn with_duration(self, duration: WorkingDuration) -> (r: Task)
        ensures
            r == (Task { duration, ..self }),
    {
        Task { duration, ..self }
    }

    /// The task's duration.
    pub fn duration(&self) -> (r: WorkingDuration)
        ensures
            r == self.duration,
    {
        self.duration
    }

    /// The task's suggested date, if any.
    pub fn suggested_date(&self) -> (r: Option<Date>)
        ensures
            r == self.suggested_date,
    {
        self.suggested_date
    }

    /// Whether the task's time may be split across several days.
    pub fn can_be_split(&self) -> (r: bool)
        ensures
            r == self.can_be_split,
    {
        self.can_be_split
    }

    /// The task's suggested start time, if any.
    pub fn suggested_start(&self) -> (r: Option<TimeStamp>)
        ensures
            r == self.start,
    {
        self.start
    }

    /// The same unit of work with `rhs` subtracted from its duration, for consuming part
    /// of the task's time allotment. The caller must ensure `rhs` does not
    /// exceed the remaining duration.
    pub fn sub_duration(self, rhs: WorkingDuration) -> (r: Task)
        requires
            self.duration.wf(),
            rhs.wf(),
            rhs.total_minutes() <= self.duration.total_minutes(),
        ensures
            r.duration.wf(),
            r.duration.total_minutes() == self.duration.total_minutes() - rhs.total_minutes(),
            r.suggested_date == self.suggested_date,
            r.can_be_split == self.can_be_split,
            r.start == self.start,
            r.flex == self.flex,
    {
        Task { duration: self.duration.sub(rhs), ..self }
    }
}

} // verus!
