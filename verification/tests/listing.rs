use patto_mobile::files::{sort_entries, FileEntry, SortBy};
use patto_mobile::tasks::{categorize_tasks, day_of_timestamp, deadline_info, sort_tasks_by_due, summarize_tasks, TaskDeadline, TaskItem};

fn file(name: &str, modified: u64, created: u64, links: u32) -> FileEntry {
    FileEntry {
        path: format!("{}.pn", name),
        name: name.to_string(),
        modified_time: modified,
        created_time: created,
        backlink_count: links,
        size_bytes: 0,
    }
}

fn task(name: &str, status: &str, due_ts: Option<i64>) -> TaskItem {
    TaskItem {
        file_path: format!("{}.pn", name),
        file_name: name.to_string(),
        line_number: 1,
        content: name.to_string(),
        status: status.to_string(),
        due_date: None,
        due_timestamp: due_ts,
    }
}

#[test]
fn sorting_by_modified_puts_newest_first() {
    let entries = vec![file("a", 10, 1, 0), file("b", 30, 2, 0), file("c", 20, 3, 0)];
    let sorted = sort_entries(entries, &SortBy::LastModified);
    let names: Vec<&str> = sorted.iter().map(|e| e.name.as_str()).collect();
    assert_eq!(names, vec!["b", "c", "a"]);
}

#[test]
fn sorting_by_created_puts_newest_first() {
    let entries = vec![file("a", 0, 10, 0), file("b", 0, 30, 0), file("c", 0, 20, 0)];
    let sorted = sort_entries(entries, &SortBy::LastCreated);
    let names: Vec<&str> = sorted.iter().map(|e| e.name.as_str()).collect();
    assert_eq!(names, vec!["b", "c", "a"]);
}

#[test]
fn sorting_by_links_puts_most_linked_first() {
    let entries = vec![file("a", 0, 0, 1), file("b", 0, 0, 5), file("c", 0, 0, 3)];
    let sorted = sort_entries(entries, &SortBy::MostLinked);
    let names: Vec<&str> = sorted.iter().map(|e| e.name.as_str()).collect();
    assert_eq!(names, vec!["b", "c", "a"]);
}

#[test]
fn alphabetical_sorting_folds_case() {
    let entries = vec![file("banana", 0, 0, 0), file("Apple", 0, 0, 0), file("cherry", 0, 0, 0)];
    let sorted = sort_entries(entries, &SortBy::Alphabetical);
    let names: Vec<&str> = sorted.iter().map(|e| e.name.as_str()).collect();
    assert_eq!(names, vec!["Apple", "banana", "cherry"]);
}

#[test]
fn days_round_toward_minus_infinity() {
    assert_eq!(day_of_timestamp(0), 0);
    assert_eq!(day_of_timestamp(86399), 0);
    assert_eq!(day_of_timestamp(86400), 1);
    assert_eq!(day_of_timestamp(-1), -1);
    assert_eq!(day_of_timestamp(-86400), -1);
    assert_eq!(day_of_timestamp(-86401), -2);
}

#[test]
fn tasks_group_by_deadline() {
    let today: i64 = 20000;
    let day = 86400i64;
    let tasks = vec![
        task("finished", "done", Some(today * day)),
        task("late", "todo", Some((today - 1) * day)),
        task("now", "todo", Some(today * day + 100)),
        task("soon", "doing", Some((today + 7) * day)),
        task("eventually", "todo", Some((today + 8) * day)),
        task("whenever", "todo", None),
    ];
    let agg = categorize_tasks(tasks, today);
    assert_eq!(agg.done.len(), 1);
    assert_eq!(agg.done[0].file_name, "finished");
    assert_eq!(agg.overdue.len(), 1);
    assert_eq!(agg.overdue[0].file_name, "late");
    assert_eq!(agg.today.len(), 1);
    assert_eq!(agg.today[0].file_name, "now");
    assert_eq!(agg.this_week.len(), 1);
    assert_eq!(agg.this_week[0].file_name, "soon");
    assert_eq!(agg.later.len(), 1);
    assert_eq!(agg.later[0].file_name, "eventually");
    assert_eq!(agg.no_deadline.len(), 1);
    assert_eq!(agg.no_deadline[0].file_name, "whenever");
}

#[test]
fn due_sorting_puts_missing_deadlines_first() {
    let tasks = vec![
        task("b", "todo", Some(200)),
        task("c", "todo", None),
        task("a", "todo", Some(100)),
    ];
    let sorted = sort_tasks_by_due(tasks);
    let names: Vec<&str> = sorted.iter().map(|t| t.file_name.as_str()).collect();
    assert_eq!(names, vec!["c", "a", "b"]);
}

#[test]
fn summary_totals_open_work() {
    let today: i64 = 100;
    let day = 86400i64;
    let tasks = vec![
        task("done1", "done", None),
        task("od", "todo", Some((today - 2) * day)),
        task("nd", "todo", None),
        task("nd2", "doing", None),
    ];
    let agg = categorize_tasks(tasks, today);
    let summary = summarize_tasks(&agg);
    assert_eq!(summary.done, 1);
    assert_eq!(summary.overdue, 1);
    assert_eq!(summary.no_deadline, 2);
    assert_eq!(summary.today, 0);
    assert_eq!(summary.this_week, 0);
    assert_eq!(summary.later, 0);
    assert_eq!(summary.total, 3);
}

#[test]
fn deadlines_render_and_timestamp_exactly() {
    let (text, ts) = deadline_info(&TaskDeadline::Date { year: 1970, month: 1, day: 1 });
    assert_eq!(text, Some("1970-01-01".to_string()));
    assert_eq!(ts, Some(86399));

    let (text, ts) = deadline_info(&TaskDeadline::DateTime {
        year: 2024,
        month: 1,
        day: 1,
        hour: 0,
        minute: 0,
    });
    assert_eq!(text, Some("2024-01-01 00:00".to_string()));
    assert_eq!(ts, Some(1704067200));

    let (text, ts) = deadline_info(&TaskDeadline::DateTime {
        year: 2000,
        month: 2,
        day: 29,
        hour: 12,
        minute: 30,
    });
    assert_eq!(text, Some("2000-02-29 12:30".to_string()));
    assert_eq!(ts, Some(951782400 + 12 * 3600 + 30 * 60));

    let (text, ts) = deadline_info(&TaskDeadline::Unparsed { text: "next week".to_string() });
    assert_eq!(text, Some("next week".to_string()));
    assert_eq!(ts, None);

    let (text, _) = deadline_info(&TaskDeadline::DateTime {
        year: 987,
        month: 6,
        day: 5,
        hour: 4,
        minute: 3,
    });
    assert_eq!(text, Some("0987-06-05 04:03".to_string()));
}
