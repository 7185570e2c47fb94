use chrono::Datelike;
use preempt::context::Context;
use preempt::schedule::{build_schedule, get_priority_queue, get_task_priority, populate_time_block, PriorityClass};
use preempt::task::Task;
use preempt::time::{Date, TimeOfDay, Weekday};
use preempt::timeblock::TimeBlock;

fn hm(h: u32, m: u32) -> TimeOfDay {
    TimeOfDay::from_hms(h, m, 0).unwrap()
}

/// 2024-01-01, a Monday.
fn monday() -> Date {
    Date { days_from_ce: chrono::NaiveDate::from_ymd_opt(2024, 1, 1).unwrap().num_days_from_ce() }
}

fn task(name: &str, priority: i32, minutes: u64, context: &str) -> Task {
    Task::new_with_duration(
        name.to_string(),
        String::new(),
        priority,
        false,
        minutes * 60,
        Some(context.to_string()),
    )
}

fn window(start: TimeOfDay, end: TimeOfDay) -> TimeBlock {
    TimeBlock::new(start, end, monday(), monday())
}

fn summary(blocks: &[TimeBlock]) -> Vec<(String, u32, u32)> {
    blocks
        .iter()
        .map(|b| (b.name.clone().unwrap_or_default(), b.start_time.secs, b.end_time.secs))
        .collect()
}

fn at(h: u32, m: u32) -> u32 {
    h * 3600 + m * 60
}

fn entry(name: &str, start: u32, end: u32) -> (String, u32, u32) {
    (name.to_string(), start, end)
}

#[test]
fn classification_thresholds() {
    let cases = [
        (i32::MIN, PriorityClass::Low),
        (-5, PriorityClass::Low),
        (0, PriorityClass::Low),
        (2, PriorityClass::Low),
        (3, PriorityClass::Medium),
        (6, PriorityClass::Medium),
        (7, PriorityClass::Low),
        (8, PriorityClass::Low),
        (9, PriorityClass::Low),
        (10, PriorityClass::High),
        (11, PriorityClass::High),
        (i32::MAX, PriorityClass::High),
    ];
    for (p, class) in cases {
        assert_eq!(get_task_priority(&task("t", p, 25, "c")), class, "priority {}", p);
    }
}

#[test]
fn remaining_duration_after_slices() {
    let mut t = task("t", 1, 60, "c");
    t.do_work(1500);
    assert_eq!(t.duration_secs, 2100);
    assert!(t.has_work_remaining());
    t.do_work(1500);
    assert_eq!(t.duration_secs, 600);
    t.do_work(1500);
    assert_eq!(t.duration_secs, 0);
    assert!(!t.has_work_remaining());
    t.do_work(1500);
    assert_eq!(t.duration_secs, 0);
}

#[test]
fn one_high_task_fifty_minutes() {
    let tasks = vec![task("Write", 10, 50, "work")];
    let out = populate_time_block(tasks, window(hm(9, 0), hm(10, 0)));
    assert_eq!(
        summary(&out),
        vec![
            entry("Task - Write", at(9, 0), at(9, 25)),
            entry("Break (5 minutes)", at(9, 25), at(9, 30)),
            entry("Task - Write", at(9, 30), at(9, 55)),
            entry("Break (5 minutes)", at(9, 55), at(10, 0)),
        ]
    );
    assert!(out.iter().all(|b| b.start_date == monday() && b.end_date == monday()));
}

#[test]
fn four_medium_then_low() {
    let tasks = vec![
        task("L", 1, 25, "c"),
        task("M1", 4, 25, "c"),
        task("M2", 4, 25, "c"),
        task("M3", 5, 25, "c"),
        task("M4", 6, 25, "c"),
    ];
    let out = populate_time_block(tasks, window(hm(9, 0), hm(17, 0)));
    assert_eq!(
        summary(&out),
        vec![
            entry("Task - M1", at(9, 0), at(9, 25)),
            entry("Break (5 minutes)", at(9, 25), at(9, 30)),
            entry("Task - M2", at(9, 30), at(9, 55)),
            entry("Break (5 minutes)", at(9, 55), at(10, 0)),
            entry("Task - M3", at(10, 0), at(10, 25)),
            entry("Break (5 minutes)", at(10, 25), at(10, 30)),
            entry("Task - M4", at(10, 30), at(10, 55)),
            entry("Break (20 minutes)", at(10, 55), at(11, 15)),
            entry("Task - L", at(11, 15), at(11, 40)),
            entry("Break (5 minutes)", at(11, 40), at(11, 45)),
        ]
    );
}

#[test]
fn forced_low_slice_after_four_high_medium() {
    let tasks = vec![
        task("L", 0, 25, "c"),
        task("H", 12, 100, "c"),
        task("M", 3, 25, "c"),
    ];
    let out = populate_time_block(tasks, window(hm(8, 0), hm(17, 0)));
    let names: Vec<String> = out
        .iter()
        .filter_map(|b| b.name.clone())
        .filter(|n| n.starts_with("Task - "))
        .collect();
    assert_eq!(names, vec!["Task - H", "Task - H", "Task - H", "Task - H", "Task - L", "Task - M"]);
    assert_eq!(out[8].start_time.secs, at(10, 15));
    assert_eq!(out[7].name.as_deref(), Some("Break (20 minutes)"));
}

#[test]
fn high_only_never_uses_low() {
    let tasks = vec![task("A", 10, 75, "c"), task("B", 15, 75, "c")];
    let out = populate_time_block(tasks, window(hm(8, 0), hm(17, 0)));
    let work: Vec<String> = out
        .iter()
        .filter_map(|b| b.name.clone())
        .filter(|n| n.starts_with("Task - "))
        .collect();
    assert_eq!(work, vec!["Task - A", "Task - B", "Task - A", "Task - B", "Task - A", "Task - B"]);
    // with nothing in the low queue the fifth step takes a high slice at once
    assert_eq!(out[7].name.as_deref(), Some("Break (20 minutes)"));
    assert_eq!(out[8].name.as_deref(), Some("Task - A"));
    assert_eq!(out[8].start_time.secs, at(10, 15));
    for i in 1..out.len() {
        assert_eq!(out[i].start_time, out[i - 1].end_time);
        let rest = |b: &TimeBlock| b.name.as_deref().unwrap_or("").starts_with("Break");
        assert!(!(rest(&out[i]) && rest(&out[i - 1])));
    }
}

#[test]
fn stops_at_window_end_without_rest() {
    let tasks = vec![task("Long", 10, 100, "c")];
    let out = populate_time_block(tasks, window(hm(9, 0), hm(9, 25)));
    assert_eq!(summary(&out), vec![entry("Task - Long", at(9, 0), at(9, 25))]);

    let tasks = vec![task("Long", 10, 100, "c")];
    let out = populate_time_block(tasks, window(hm(9, 0), hm(9, 40)));
    assert_eq!(
        summary(&out),
        vec![
            entry("Task - Long", at(9, 0), at(9, 25)),
            entry("Break (5 minutes)", at(9, 25), at(9, 30)),
            entry("Task - Long", at(9, 30), at(9, 55)),
        ]
    );
}

#[test]
fn zero_duration_task_gets_no_slice() {
    let tasks = vec![task("Nothing", 10, 0, "c")];
    let out = populate_time_block(tasks, window(hm(9, 0), hm(10, 0)));
    assert!(out.is_empty());
}

#[test]
fn empty_task_list_gives_empty_plan() {
    let out = populate_time_block(vec![], window(hm(9, 0), hm(10, 0)));
    assert!(out.is_empty());
}

#[test]
fn slice_wraps_past_midnight() {
    let tasks = vec![task("Late", 10, 100, "c")];
    let out = populate_time_block(tasks, window(hm(23, 50), TimeOfDay::from_hms(23, 59, 59).unwrap()));
    assert_eq!(summary(&out), vec![entry("Task - Late", at(23, 50), at(0, 15))]);
}

fn contexts() -> Vec<Context> {
    vec![
        Context::new("Work", vec![Weekday::Mon, Weekday::Tue], hm(9, 0), hm(10, 0), 0),
        Context::new("Weekend", vec![Weekday::Sat], hm(10, 0), hm(11, 0), 0),
        Context::new("home", vec![Weekday::Mon], hm(18, 0), hm(19, 0), 300),
    ]
}

fn all_tasks() -> Vec<Task> {
    let mut done = task("Done", 10, 25, "work");
    done.done = true;
    vec![
        task("Report", 10, 25, "WORK"),
        done,
        task("Dishes", 1, 25, "Home"),
        task("Hike", 10, 25, "weekend"),
        Task::new("Loose".to_string(), String::new(), 10, false, None),
    ]
}

#[test]
fn day_schedule_over_contexts() {
    let out = build_schedule(&contexts(), &all_tasks(), window(hm(0, 0), hm(23, 59)));
    assert_eq!(
        summary(&out),
        vec![
            entry("Task - Report", at(9, 0), at(9, 25)),
            entry("Break (5 minutes)", at(9, 25), at(9, 30)),
            entry("Task - Dishes", at(18, 0), at(18, 25)),
            entry("Break (5 minutes)", at(18, 25), at(18, 30)),
        ]
    );
}

#[test]
fn inactive_day_gives_nothing() {
    let wednesday = Date { days_from_ce: monday().days_from_ce + 2 };
    let out = build_schedule(&contexts(), &all_tasks(), TimeBlock::new(hm(0, 0), hm(23, 59), wednesday, wednesday));
    assert!(out.is_empty());
}

#[test]
fn schedule_is_deterministic() {
    let a = build_schedule(&contexts(), &all_tasks(), window(hm(0, 0), hm(23, 59)));
    let b = build_schedule(&contexts(), &all_tasks(), window(hm(0, 0), hm(23, 59)));
    assert_eq!(summary(&a), summary(&b));
}

#[test]
fn context_window_on_active_day() {
    let c = &contexts()[0];
    let b = c.get_timeblock(monday()).unwrap();
    assert_eq!(b.name, None);
    assert_eq!((b.start_time, b.end_time, b.start_date, b.end_date), (hm(9, 0), hm(10, 0), monday(), monday()));
    let saturday = Date { days_from_ce: monday().days_from_ce + 5 };
    assert!(c.get_timeblock(saturday).is_none());
    assert!(contexts()[1].get_timeblock(saturday).is_some());
    assert!(c.get_timeblock(Date { days_from_ce: i32::MAX }).is_none());
}

#[test]
fn context_tasks_are_filtered_by_name_ignoring_case() {
    let filtered = Task::filter_context_tasks(&contexts()[0], all_tasks());
    let names: Vec<String> = filtered.iter().map(|t| t.name.clone()).collect();
    assert_eq!(names, vec!["Report"]);
}

#[test]
fn days_are_sorted_from_monday() {
    let c = Context::new("x", vec![Weekday::Sun, Weekday::Wed, Weekday::Mon, Weekday::Wed], hm(1, 0), hm(2, 0), 0);
    assert_eq!(c.get_days(), vec![Weekday::Mon, Weekday::Wed, Weekday::Wed, Weekday::Sun]);
    assert!(Context::new("y", vec![], hm(1, 0), hm(2, 0), 0).get_days().is_empty());
}

#[test]
fn default_duration_is_one_slice() {
    let t = Task::new("a".to_string(), "b".to_string(), 3, false, None);
    assert_eq!(t.duration_secs, 1500);
    assert_eq!(t.context, None);
    assert!(t.created > 0);
}

#[test]
fn time_of_day_arithmetic() {
    assert_eq!(TimeOfDay::from_hms(24, 0, 0), None);
    assert_eq!(TimeOfDay::from_hms(23, 60, 0), None);
    let t = TimeOfDay::from_hms(23, 59, 59).unwrap();
    assert_eq!((t.hour(), t.minute(), t.second()), (23, 59, 59));
    assert_eq!(t.plus_seconds(1).secs, 0);
    assert_eq!(hm(9, 0).plus_seconds(1500), hm(9, 25));
}

#[test]
fn weekday_of_known_dates() {
    assert_eq!(monday().weekday(), Some(Weekday::Mon));
    assert_eq!(Date { days_from_ce: 1 }.weekday(), Some(Weekday::Mon));
    assert_eq!(Date { days_from_ce: monday().days_from_ce + 6 }.weekday(), Some(Weekday::Sun));
    assert_eq!(Weekday::from_monday_offset(7), None);
    assert_eq!(Weekday::Fri.num_days_from_monday(), 4);
}

#[test]
fn weekday_at_calendar_bounds() {
    let first = chrono::NaiveDate::MIN.num_days_from_ce();
    let last = chrono::NaiveDate::MAX.num_days_from_ce();
    assert_eq!(first, preempt::time::MIN_CE_DAY);
    assert_eq!(last, preempt::time::MAX_CE_DAY);
    assert!(Date { days_from_ce: first }.weekday().is_some());
    assert!(Date { days_from_ce: last }.weekday().is_some());
    assert_eq!(Date { days_from_ce: first - 1 }.weekday(), None);
    assert_eq!(Date { days_from_ce: last + 1 }.weekday(), None);
    assert_eq!(Date { days_from_ce: 0 }.weekday(), Some(Weekday::Sun));
    assert_eq!(Date { days_from_ce: -6 }.weekday(), Some(Weekday::Mon));
}

#[test]
fn folded_context_names_decide_membership() {
    let key = "work".to_string();
    assert!(Task::open_in_folded_context(false, &Some("work".to_string()), &key));
    assert!(!Task::open_in_folded_context(true, &Some("work".to_string()), &key));
    assert!(!Task::open_in_folded_context(false, &Some("Work".to_string()), &key));
    assert!(!Task::open_in_folded_context(false, &None, &key));
}

#[test]
fn class_queues_keep_every_task_reversed() {
    let tasks = vec![
        task("H1", 10, 25, "c"),
        task("Z", 12, 0, "c"),
        task("L", 8, 25, "c"),
        task("M", 4, 25, "c"),
        task("H2", 11, 50, "c"),
    ];
    let names = |q: std::collections::VecDeque<Task>| q.iter().map(|t| t.name.clone()).collect::<Vec<String>>();
    let high = get_priority_queue(&tasks, PriorityClass::High);
    let medium = get_priority_queue(&tasks, PriorityClass::Medium);
    let low = get_priority_queue(&tasks, PriorityClass::Low);
    assert_eq!(high.len() + medium.len() + low.len(), tasks.len());
    assert_eq!(high.back().map(|t| t.name.as_str()), Some("H1"));
    assert_eq!(names(high), vec!["H2", "Z", "H1"]);
    assert_eq!(names(medium), vec!["M"]);
    assert_eq!(names(low), vec!["L"]);
}
