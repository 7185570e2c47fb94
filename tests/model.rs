use preempt::context::Context;
use preempt::model::PreemptApp;
use preempt::task::Task;
use preempt::text::same_name;
use preempt::time::{Date, TimeOfDay, Weekday};
use preempt::timeblock::TimeBlock;

fn hm(h: u32, m: u32) -> TimeOfDay {
    TimeOfDay::from_hms(h, m, 0).unwrap()
}

#[test]
fn duplicate_task_names_are_refused_ignoring_case() {
    let mut app = PreemptApp::new();
    assert_eq!(app.add_task(Task::new("Read".to_string(), String::new(), 1, false, None)), Ok(()));
    assert_eq!(
        app.add_task(Task::new("READ".to_string(), String::new(), 5, false, None)),
        Err("Task already exists")
    );
    assert_eq!(app.tasks.len(), 1);
    assert_eq!(app.get_task(&"rEaD".to_string()).map(|t| t.priority), Some(1));
    assert!(app.get_task(&"write".to_string()).is_none());
}

#[test]
fn duplicate_context_names_are_refused_ignoring_case() {
    let mut app = PreemptApp::new();
    let c = Context::new("Office", vec![Weekday::Mon], hm(9, 0), hm(17, 0), 600);
    assert_eq!(app.add_context(c), Ok(()));
    let again = Context::new("office", vec![Weekday::Tue], hm(9, 0), hm(17, 0), 600);
    assert_eq!(app.add_context(again), Err("Context already exists"));
    assert_eq!(app.contexts.len(), 1);
    assert_eq!(app.get_context(&"OFFICE".to_string()).map(|c| c.days.clone()), Some(vec![Weekday::Mon]));
    assert!(app.get_context(&"home".to_string()).is_none());
}

#[test]
fn app_schedule_covers_the_whole_day() {
    let mut app = PreemptApp::new();
    let every_day = vec![
        Weekday::Mon,
        Weekday::Tue,
        Weekday::Wed,
        Weekday::Thu,
        Weekday::Fri,
        Weekday::Sat,
        Weekday::Sun,
    ];
    app.add_context(Context::new("all", every_day, hm(23, 0), hm(23, 30), 0)).unwrap();
    app.add_task(Task::new("t".to_string(), String::new(), 10, false, Some("ALL".to_string()))).unwrap();
    let day = Date { days_from_ce: 738886 };
    let out = app.build_schedule_on(day);
    assert_eq!(out.len(), 2);
    assert_eq!(out[0].name.as_deref(), Some("Task - t"));
    assert_eq!(out[1].end_time, hm(23, 30));
    assert_eq!(app.build_schedule().len(), 2);
}

#[test]
fn names_compare_without_case() {
    assert!(same_name(&"Straße".to_string(), &"STRAßE".to_string()));
    assert!(!same_name(&"a".to_string(), &"b".to_string()));
}

#[test]
fn blocks_keep_their_label() {
    let d = Date { days_from_ce: 10 };
    let b = TimeBlock::new_named("x".to_string(), hm(1, 0), hm(2, 0), d, d);
    assert_eq!(b.name.as_deref(), Some("x"));
    assert!(b.intersects(TimeBlock::new(hm(5, 0), hm(6, 0), d, d)));
}

#[test]
fn schedule_lines_show_times_and_label() {
    let d = Date { days_from_ce: 738886 };
    let named = TimeBlock::new_named("Task - x".to_string(), hm(9, 5), TimeOfDay::from_hms(9, 30, 7).unwrap(), d, d);
    assert_eq!(named.schedule_line(), "09:05:00 - 09:30:07 | Task - x");
    let unnamed = TimeBlock::new(hm(0, 0), hm(23, 59), d, d);
    assert_eq!(unnamed.label(), "Unnamed item");
    assert_eq!(unnamed.schedule_line(), "00:00:00 - 23:59:00 | Unnamed item");
    assert_eq!(hm(7, 3).to_text(), "07:03:00");
}
