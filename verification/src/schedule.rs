//! Recurring events projected onto a month: each recurrence rule is tested
//! against every day of the month, and the matching events of each workday
//! are aggregated into one entry keyed by the day of the month.

use vstd::prelude::*;

use crate::date::Date;
use crate::duration::{TimeSpan, TimeStamp, WorkingDuration};
use crate::month::Month;
use crate::week_day::WeekDay;
use crate::year::{days_in_month_spec, is_leap_spec, Year, MAX_YEAR};

verus! {

/// A materialized schedule entry for one day: a label, a start and an end
/// time, and an optional pause, which this projection never fills.
#[derive(Debug, Clone, PartialEq)]
pub struct Entry {
    pub action: String,
    pub start: TimeStamp,
    pub end: TimeStamp,
    pub pause: Option<WorkingDuration>,
}

impl Entry {
    /// An entry with the given label, times and pause.
    pub fn new(action: String, start: TimeStamp, end: TimeStamp, pause: Option<WorkingDuration>)
        -> (r: Entry)
        ensures
            r == (Entry { action, start, end, pause }),
    {
        Entry { action, start, end, pause }
    }
}

/// A day's schedule payload: one entry, or several aggregated ones.
#[derive(Debug, Clone, PartialEq)]
pub enum EitherEntry {
    Entry(Entry),
    MultiEntry(Vec<Entry>),
}

/// The key of a projected entry: the day of the month it belongs to.
#[derive(Debug, Clone, Copy, PartialEq, Eq, Structural, Hash)]
pub struct Key {
    pub day: usize,
}

impl Key {
    /// The key of the given day of the month.
    pub fn from_day(day: usize) -> (r: Key)
        ensures
            r.day == day,
    {
        Key { day }
    }

    /// The day of the month this key names.
    pub fn day(&self) -> (r: usize)
        ensures
            r == self.day,
    {
        self.day
    }
}

/// When a recurring event recurs: every day, on one weekday of every week, or
/// on one day of every month.
#[derive(Debug, Clone, Copy, PartialEq, Eq, Structural, Hash)]
pub enum RepeatRule {
    Daily,
    WeeklyOn(WeekDay),
    MonthlyOn(usize),
}

/// A recurrence template: a rule saying on which dates the event recurs, and
/// the span of the day it occupies.
#[derive(Debug, Clone, Copy, PartialEq, Eq, Structural, Hash)]
pub struct RepeatingEvent {
    pub time_span: TimeSpan,
    pub repeats: RepeatRule,
}

impl RepeatingEvent {
    /// Whether the rule matches the given date, before any workday filter.
    pub open spec fn repeats_on_spec(self, d: Date) -> bool {
        match self.repeats {
            RepeatRule::Daily => true,
            RepeatRule::WeeklyOn(w) => d.week_day_spec() == w,
            RepeatRule::MonthlyOn(day) => d.day == day,
        }
    }

    /// The event with the given span and rule.
    pub fn new(time_span: TimeSpan, repeats: RepeatRule) -> (r: RepeatingEvent)
        ensures
            r == (RepeatingEvent { time_span, repeats }),
    {
        RepeatingEvent { time_span, repeats }
    }

    /// The span of the day the event occupies.
    pub fn time_span(&self) -> (r: TimeSpan)
        ensures
            r == self.time_span,
    {
        self.time_span
    }

    /// Whether the rule matches the given date.
    pub fn repeats_on(&self, date: Date) -> (r: bool)
        requires
            date.valid_spec(),
            date.in_range_spec(),
        ensures
            r == self.repeats_on_spec(date),
    {
        match self.repeats {
            RepeatRule::Daily => true,
            RepeatRule::WeeklyOn(w) => week_day_eq(date.week_day(), w),
            RepeatRule::MonthlyOn(day) => date.day == day,
        }
    }
}

/// The date of the given day in the given month.
pub open spec fn date_of(year: Year, month: Month, day: int) -> Date {
    Date { year, month, day: day as usize }
}

/// The entries the named events contribute on one date: one entry per event
/// whose rule matches the date, provided the date is a workday, in the
/// events' own order.
pub open spec fn entries_for(events: Seq<(String, RepeatingEvent)>, d: Date) -> Seq<Entry>
    decreases events.len(),
{
    if events.len() == 0 {
        Seq::<Entry>::empty()
    } else {
        entries_for(events.drop_last(), d) + if events.last().1.repeats_on_spec(d)
            && d.is_workday_spec() {
            seq![
                Entry {
                    action: events.last().0,
                    start: events.last().1.time_span.start,
                    end: events.last().1.time_span.end,
                    pause: None,
                },
            ]
        } else {
            Seq::<Entry>::empty()
        }
    }
}

/// On a date that is not a workday no event contributes an entry, whatever
/// its rule says: holiday and Sunday suppression is unconditional.
pub proof fn lemma_no_entries_on_nonworkday(events: Seq<(String, RepeatingEvent)>, d: Date)
    requires
        !d.is_workday_spec(),
    ensures
        entries_for(events, d) =~= Seq::<Entry>::empty(),
    decreases events.len(),
{
    if events.len() > 0 {
        lemma_no_entries_on_nonworkday(events.drop_last(), d);
    }
}

/// Expands the named recurring events over the given month: for each day of
/// the month, in ascending order, the events whose rules match that day are
/// aggregated into one entry keyed by the day — but only on workdays. A day
/// where no event matches, and every holiday and Sunday, yields nothing.
pub fn repeating_in_month(
    year: Year,
    month: Month,
    events: &Vec<(String, RepeatingEvent)>,
) -> (r: Vec<(Key, EitherEntry)>)
    requires
        year.value <= MAX_YEAR,
    ensures
        forall|k: int|
            0 <= k < r@.len() ==> {
                let d = date_of(year, month, #[trigger] r@[k].0.day as int);
                &&& 1 <= r@[k].0.day <= days_in_month_spec(is_leap_spec(year.value as int),
                    month.ordinal_spec())
                &&& d.is_workday_spec()
                &&& r@[k].1 is MultiEntry
                &&& r@[k].1->MultiEntry_0@ == entries_for(events@, d)
                &&& r@[k].1->MultiEntry_0@.len() > 0
            },
        forall|k1: int, k2: int|
            0 <= k1 < k2 < r@.len() ==> #[trigger] r@[k1].0.day < #[trigger] r@[k2].0.day,
        forall|dd: int|
            1 <= dd <= days_in_month_spec(is_leap_spec(year.value as int), month.ordinal_spec())
                && #[trigger] entries_for(events@, date_of(year, month, dd)).len() > 0 ==> exists|
                k: int,
            |
                0 <= k < r@.len() && #[trigger] r@[k].0.day == dd,
{
    let dim = year.number_of_days_in_month(month);
    let mut r: Vec<(Key, EitherEntry)> = Vec::new();
    let mut day: usize = 1;
    while day <= dim
        invariant
            1 <= day <= dim + 1,
            year.value <= MAX_YEAR,
            dim == days_in_month_spec(is_leap_spec(year.value as int), month.ordinal_spec()),
            forall|k: int|
                0 <= k < r@.len() ==> {
                    let d = date_of(year, month, #[trigger] r@[k].0.day as int);
                    &&& 1 <= r@[k].0.day < day
                    &&& d.is_workday_spec()
                    &&& r@[k].1 is MultiEntry
                    &&& r@[k].1->MultiEntry_0@ == entries_for(events@, d)
                    &&& r@[k].1->MultiEntry_0@.len() > 0
                },
            forall|k1: int, k2: int|
                0 <= k1 < k2 < r@.len() ==> #[trigger] r@[k1].0.day < #[trigger] r@[k2].0.day,
            forall|dd: int|
                1 <= dd < day && #[trigger] entries_for(events@, date_of(year, month, dd)).len()
                    > 0 ==> exists|k: int| 0 <= k < r@.len() && #[trigger] r@[k].0.day == dd,
        decreases dim + 1 - day,
    {
        let d = Date { year, month, day };
        let workday = d.is_workday();
        let mut es: Vec<Entry> = Vec::new();
        let mut j: usize = 0;
        while j < events.len()
            invariant
                j <= events@.len(),
                d == (Date { year, month, day }),
                d.valid_spec(),
                d.in_range_spec(),
                workday == d.is_workday_spec(),
                es@ == entries_for(events@.take(j as int), d),
            decreases events@.len() - j,
        {
            let pair = &events[j];
            proof {
                assert(events@.take(j as int + 1).drop_last() =~= events@.take(j as int));
                assert(events@.take(j as int + 1).last() == events@[j as int]);
            }
            if pair.1.repeats_on(d) && workday {
                es.push(
                    Entry {
                        action: pair.0.clone(),
                        start: pair.1.time_span.start,
                        end: pair.1.time_span.end,
                        pause: None,
                    },
                );
            }
            j = j + 1;
        }
        proof {
            assert(events@.take(events@.len() as int) =~= events@);
        }
        let ghost r_prev = r@;
        let ghost es_view = es@;
        if es.len() > 0 {
            proof {
                if !d.is_workday_spec() {
                    lemma_no_entries_on_nonworkday(events@, d);
                }
            }
            r.push((Key { day }, EitherEntry::MultiEntry(es)));
            proof {
                assert(r@[r@.len() - 1].0.day == day);
                assert(r@[r@.len() - 1].1->MultiEntry_0@ == es_view);
            }
        }
        proof {
            assert(date_of(year, month, day as int) == d);
            assert forall|dd: int|
                1 <= dd < day + 1 && #[trigger] entries_for(events@, date_of(year, month,
                    dd)).len() > 0 implies exists|k: int|
                0 <= k < r@.len() && #[trigger] r@[k].0.day == dd by {
                if dd == day {
                    assert(es_view.len() > 0);
                    assert(r@[r@.len() - 1].0.day == dd);
                } else {
                    let k = choose|k: int| 0 <= k < r_prev.len() && #[trigger] r_prev[k].0.day
                        == dd;
                    assert(r@[k] == r_prev[k]);
                    assert(r@[k].0.day == dd);
                }
            }
        }
        day = day + 1;
    }
    r
}

/// Whether two weekdays are the same.
fn week_day_eq(a: WeekDay, b: WeekDay) -> (r: bool)
    ensures
        r == (a == b),
{
    a == b
}

} // verus!
