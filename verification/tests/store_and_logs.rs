use desktop_commander::logs::tail_log_entries;
use desktop_commander::models::{
    CreateSessionInput, CreateTaskInput, EndSessionInput, Session, Setting, Task, UpdateTaskInput,
};
use desktop_commander::text::{str_contains, str_eq, u16_to_string};
use desktop_commander::types::{Health, RunState};

#[test]
fn substring_search_finds_names_and_ports() {
    assert!(str_contains("node api --port 3000", "3000"));
    assert!(str_contains("node api --port 3000", "api"));
    assert!(!str_contains("node api --port 3000", "4000"));
    assert!(str_contains("abc", ""));
    assert!(!str_contains("", "abc"));
    assert!(str_contains("aaab", "aab"));
}

#[test]
fn string_equality_is_exact() {
    assert!(str_eq("web-app", "web-app"));
    assert!(!str_eq("web-app", "web-apps"));
    assert!(!str_eq("web-app", "Web-app"));
    assert!(str_eq("", ""));
}

#[test]
fn ports_render_in_decimal() {
    assert_eq!(u16_to_string(0), "0");
    assert_eq!(u16_to_string(7), "7");
    assert_eq!(u16_to_string(5173), "5173");
    assert_eq!(u16_to_string(65535), "65535");
}

#[test]
fn verdict_and_state_texts_match_the_wire_words() {
    assert_eq!(Health::Healthy.text(), "healthy");
    assert_eq!(Health::Unhealthy.text(), "unhealthy");
    assert_eq!(Health::Unknown.text(), "unknown");
    assert_eq!(RunState::Running.text(), "running");
    assert_eq!(RunState::Stopped.text(), "stopped");
    assert_eq!(RunState::Error.text(), "error");
    assert_eq!(RunState::Starting.text(), "starting");
    assert_eq!(RunState::Stopping.text(), "stopping");
}

#[test]
fn tail_returns_the_last_lines_in_order() {
    let entries = tail_log_entries("one\ntwo\nthree\nfour", 2, "api");
    assert_eq!(entries.len(), 2);
    assert_eq!(entries[0].message, "three");
    assert_eq!(entries[1].message, "four");
    assert_eq!(entries[0].level, "INFO");
    assert_eq!(entries[0].source, "api");
    assert!(!entries[0].timestamp.is_empty());
}

#[test]
fn tail_handles_short_and_empty_logs() {
    let entries = tail_log_entries("only\nlines", 10, "svc");
    assert_eq!(entries.len(), 2);
    assert_eq!(entries[0].message, "only");
    assert_eq!(entries[1].message, "lines");
    assert!(tail_log_entries("", 5, "svc").is_empty());
    assert!(tail_log_entries("abc", 0, "svc").is_empty());
}

#[test]
fn created_tasks_default_their_flags_to_zero() {
    let input = CreateTaskInput {
        id: None,
        title: "write the report".to_string(),
        description: Some("for friday".to_string()),
        due_date: None,
        project: Some("ops".to_string()),
        priority: Some("high".to_string()),
    };
    let t = Task::from_input(input, "generated".to_string(), "t0".to_string(), "t0".to_string());
    assert_eq!(t.id, "generated");
    assert_eq!(t.title, "write the report");
    assert_eq!(t.done, 0);
    assert_eq!(t.starred, 0);
    assert_eq!(t.progress, 0);
    assert_eq!(t.attachments, 0);
    assert_eq!(t.comments, 0);

    let with_id = CreateTaskInput {
        id: Some("chosen".to_string()),
        title: "x".to_string(),
        description: None,
        due_date: None,
        project: None,
        priority: None,
    };
    let t2 = Task::from_input(with_id, "ignored".to_string(), "t1".to_string(), "t1".to_string());
    assert_eq!(t2.id, "chosen");
}

#[test]
fn updates_coalesce_with_the_old_values() {
    let base = Task {
        id: "t1".to_string(),
        title: "old title".to_string(),
        description: Some("old".to_string()),
        done: 0,
        due_date: None,
        project: Some("ops".to_string()),
        priority: None,
        starred: 1,
        progress: 40,
        attachments: 2,
        comments: 3,
        created_at: "c".to_string(),
        updated_at: "u".to_string(),
    };
    let u = UpdateTaskInput {
        id: "t1".to_string(),
        title: Some("new title".to_string()),
        description: None,
        done: Some(true),
        due_date: Some("2025-01-01".to_string()),
        project: None,
        priority: None,
        starred: Some(false),
        progress: None,
    };
    let t = base.apply_update(u);
    assert_eq!(t.title, "new title");
    assert_eq!(t.description.as_deref(), Some("old"));
    assert_eq!(t.done, 1);
    assert_eq!(t.due_date.as_deref(), Some("2025-01-01"));
    assert_eq!(t.project.as_deref(), Some("ops"));
    assert_eq!(t.starred, 0);
    assert_eq!(t.progress, 40);
    assert_eq!(t.attachments, 2);
    assert_eq!(t.comments, 3);
}

#[test]
fn sessions_open_unrated_and_close_with_the_given_fields() {
    let s = Session::from_input(
        CreateSessionInput { task_id: Some("t1".to_string()), notes: None },
        "s1".to_string(),
        "start".to_string(),
    );
    assert_eq!(s.id, "s1");
    assert_eq!(s.task_id.as_deref(), Some("t1"));
    assert!(s.end_at.is_none());
    assert!(s.quality_rating.is_none());

    let ended = s.apply_end(
        EndSessionInput { notes: Some("went well".to_string()), quality_rating: Some(4) },
        "stop".to_string(),
    );
    assert_eq!(ended.end_at.as_deref(), Some("stop"));
    assert_eq!(ended.notes.as_deref(), Some("went well"));
    assert_eq!(ended.quality_rating, Some(4));
    assert_eq!(ended.start_at, "start");
}

#[test]
fn settings_hold_their_key_and_value() {
    let s = Setting { key: "theme".to_string(), value: "dark".to_string() };
    assert_eq!(s.key, "theme");
    assert_eq!(s.value, "dark");
}
