use timesheet_core::{
    Date, EitherEntry, Key, Month, RepeatRule, RepeatingEvent, Task, TimeSpan, TimeStamp, WeekDay,
    WorkingDuration, Year,
};

fn span(sh: usize, sm: usize, eh: usize, em: usize) -> TimeSpan {
    TimeSpan::new(TimeStamp::new(sh, sm), TimeStamp::new(eh, em))
}

#[test]
fn test_task_new_duration_defaults() {
    let duration = WorkingDuration::new(2, 30);
    let task = Task::new_duration(duration);
    assert_eq!(task.duration(), duration);
    assert_eq!(task.suggested_date(), None);
    assert!(task.can_be_split());
    assert_eq!(task.suggested_start(), None);
    assert_eq!(task.flex(), None);
}

#[test]
fn test_task_new_flex_defaults() {
    let task = Task::new_flex(3);
    assert_eq!(task.flex(), Some(3));
    assert_eq!(task.duration(), WorkingDuration::new(0, 0));
    assert_eq!(task.suggested_date(), None);
    assert!(task.can_be_split());
    assert_eq!(task.suggested_start(), None);
}

#[test]
fn test_task_resolve_flex() {
    // Resolving a flexible task fixes its duration and clears the slot.
    let mut task = Task::new_flex(1);
    let duration = WorkingDuration::new(5, 15);
    task.resolve_flex(duration);
    assert_eq!(task.flex(), None);
    assert_eq!(task.duration(), duration);
}

#[test]
fn test_task_builders() {
    let date = Date::new(Year::new(2022), Month::May, 2).unwrap();
    let start = TimeStamp::new(9, 0);
    let task = Task::new_duration(WorkingDuration::new(1, 0))
        .with_suggested_date(date)
        .with_start(start)
        .with_duration(WorkingDuration::new(4, 45));
    assert_eq!(task.suggested_date(), Some(date));
    assert_eq!(task.suggested_start(), Some(start));
    assert_eq!(task.duration(), WorkingDuration::new(4, 45));
}

#[test]
fn test_task_sub_duration() {
    let task = Task::new_duration(WorkingDuration::new(4, 15));
    let rest = task.sub_duration(WorkingDuration::new(1, 30));
    assert_eq!(rest.duration(), WorkingDuration::new(2, 45));
    assert_eq!(rest.can_be_split(), task.can_be_split());
}

#[test]
fn test_working_duration_sub() {
    let a = WorkingDuration::new(3, 10);
    let b = WorkingDuration::new(1, 40);
    assert_eq!(a.sub(b), WorkingDuration::new(1, 30));
    assert_eq!(a.sub(a), WorkingDuration::new(0, 0));
    assert_eq!(WorkingDuration::zero().hours(), 0);
    assert_eq!(WorkingDuration::zero().minutes(), 0);
}

#[test]
fn test_time_span_accessors() {
    let s = span(8, 30, 12, 0);
    assert_eq!(s.start(), TimeStamp::new(8, 30));
    assert_eq!(s.end(), TimeStamp::new(12, 0));
    assert_eq!(s.start().hour(), 8);
    assert_eq!(s.start().min(), 30);
}

#[test]
fn test_repeats_on() {
    let weekly = RepeatingEvent::new(span(9, 0, 10, 0), RepeatRule::WeeklyOn(WeekDay::Monday));
    let monday = Date::new(Year::new(2022), Month::November, 7).unwrap();
    let tuesday = Date::new(Year::new(2022), Month::November, 8).unwrap();
    assert!(weekly.repeats_on(monday));
    assert!(!weekly.repeats_on(tuesday));

    let monthly = RepeatingEvent::new(span(9, 0, 10, 0), RepeatRule::MonthlyOn(15));
    assert!(monthly.repeats_on(Date::new(Year::new(2022), Month::June, 15).unwrap()));
    assert!(!monthly.repeats_on(Date::new(Year::new(2022), Month::June, 14).unwrap()));

    let daily = RepeatingEvent::new(span(9, 0, 10, 0), RepeatRule::Daily);
    assert!(daily.repeats_on(monday));
}

fn multi_entries(e: &EitherEntry) -> &Vec<timesheet_core::Entry> {
    match e {
        EitherEntry::MultiEntry(entries) => entries,
        EitherEntry::Entry(_) => panic!("expected an aggregated entry"),
    }
}

#[test]
fn test_projection_skips_non_workdays() {
    // A daily event matches every day of November 2022, but Nov 1 is a
    // holiday and the Sundays are the 6th, 13th, 20th and 27th: none of
    // those days may be emitted, even though the rule matches them.
    let events = vec![(
        "standup".to_string(),
        RepeatingEvent::new(span(9, 0, 9, 30), RepeatRule::Daily),
    )];
    let projected =
        timesheet_core::schedule::repeating_in_month(Year::new(2022), Month::November, &events);
    let days: Vec<usize> = projected.iter().map(|(k, _)| k.day()).collect();
    assert!(!days.contains(&1));
    for sunday in [6, 13, 20, 27] {
        assert!(!days.contains(&sunday));
    }
    // Every other day of the month is a workday and is emitted, in order.
    let expected: Vec<usize> = (1..=30)
        .filter(|d| ![1, 6, 13, 20, 27].contains(d))
        .collect();
    assert_eq!(days, expected);
    for (_, entry) in &projected {
        let entries = multi_entries(entry);
        assert_eq!(entries.len(), 1);
        assert_eq!(entries[0].action, "standup");
        assert_eq!(entries[0].start, TimeStamp::new(9, 0));
        assert_eq!(entries[0].end, TimeStamp::new(9, 30));
        assert_eq!(entries[0].pause, None);
    }
}

#[test]
fn test_projection_aggregates_matching_events() {
    let events = vec![
        (
            "lecture".to_string(),
            RepeatingEvent::new(span(10, 0, 12, 0), RepeatRule::WeeklyOn(WeekDay::Monday)),
        ),
        (
            "meeting".to_string(),
            RepeatingEvent::new(span(14, 0, 15, 0), RepeatRule::MonthlyOn(7)),
        ),
        (
            "seminar".to_string(),
            RepeatingEvent::new(span(16, 0, 17, 0), RepeatRule::WeeklyOn(WeekDay::Sunday)),
        ),
    ];
    let projected =
        timesheet_core::schedule::repeating_in_month(Year::new(2022), Month::November, &events);
    // The Mondays of November 2022 are the 7th, 14th, 21st and 28th; the 7th
    // also carries the monthly meeting. The Sunday seminar is suppressed.
    let days: Vec<usize> = projected.iter().map(|(k, _)| k.day()).collect();
    assert_eq!(days, vec![7, 14, 21, 28]);

    let first = multi_entries(&projected[0].1);
    assert_eq!(first.len(), 2);
    assert_eq!(first[0].action, "lecture");
    assert_eq!(first[1].action, "meeting");
    let second = multi_entries(&projected[1].1);
    assert_eq!(second.len(), 1);
    assert_eq!(second[0].action, "lecture");
}

#[test]
fn test_projection_empty_events() {
    let events: Vec<(String, RepeatingEvent)> = Vec::new();
    let projected =
        timesheet_core::schedule::repeating_in_month(Year::new(2022), Month::November, &events);
    assert!(projected.is_empty());
}

#[test]
fn test_key_round_trip() {
    let key = Key::from_day(17);
    assert_eq!(key.day(), 17);
}
