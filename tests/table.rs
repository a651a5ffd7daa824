use tasktrack::table::{starts_with, text_le_exec, StoreError, TaskTable};
use tasktrack::task::{AddTask, Task, UpdateTask};
use tasktrack::timestamp::Timestamp;

fn draft(title: &str, date: &str) -> AddTask {
    AddTask {
        title: title.to_string(),
        description: format!("about {}", title),
        create_date: date.to_string(),
        status: "Новая".to_string(),
        deleted: 0,
    }
}

fn row(id: u64, title: &str) -> Task {
    Task {
        id,
        title: title.to_string(),
        description: String::new(),
        create_date: "2024-01-01 00:00:00".to_string(),
        status: "Новая".to_string(),
        deleted: 0,
    }
}

fn titles(rows: &[Task]) -> Vec<String> {
    rows.iter().map(|t| t.title.clone()).collect()
}

#[test]
fn insert_then_find_by_id() {
    let mut t = TaskTable::new();
    let at = Timestamp { year: 2024, month: 1, day: 10, hour: 9, minute: 0, second: 0 };
    let d = AddTask::at("First".to_string(), "Body".to_string(), at).unwrap();
    let id = t.insert(d).unwrap();
    assert_eq!(id, 1);
    let found = t.find_by_id(id).unwrap();
    assert_eq!(found.id, 1);
    assert_eq!(found.title, "First");
    assert_eq!(found.description, "Body");
    assert_eq!(found.status, "Новая");
    assert_eq!(found.deleted, 0);
    assert_eq!(found.create_date, "2024-01-10 09:00:00");
    let id2 = t.insert(draft("Second", "2024-01-11 00:00:00")).unwrap();
    assert_eq!(id2, 2);
}

#[test]
fn find_missing_id_is_not_found() {
    let mut t = TaskTable::new();
    t.insert(draft("One", "2024-01-10 00:00:00")).unwrap();
    assert_eq!(t.find_by_id(5).unwrap_err(), StoreError::NotFound);
}

#[test]
fn insert_when_ids_are_used_up() {
    let mut t = TaskTable::from_rows(vec![row(u64::MAX, "Last")]).unwrap();
    assert_eq!(t.insert(draft("More", "2024-01-10 00:00:00")), Err(StoreError::QueryFailure));
    assert_eq!(t.rows.len(), 1);
}

#[test]
fn from_rows_needs_ascending_ids() {
    assert!(TaskTable::from_rows(vec![row(1, "a"), row(3, "b")]).is_ok());
    assert_eq!(TaskTable::from_rows(vec![row(2, "a"), row(2, "b")]).err(), Some(StoreError::QueryFailure));
    assert_eq!(TaskTable::from_rows(vec![row(3, "a"), row(1, "b")]).err(), Some(StoreError::QueryFailure));
}

#[test]
fn empty_patch_leaves_row_unchanged() {
    let mut t = TaskTable::new();
    let id = t.insert(draft("Keep", "2024-01-10 10:00:00")).unwrap();
    t.apply_patch(id, UpdateTask::default()).unwrap();
    let r = t.find_by_id(id).unwrap();
    assert_eq!(r.title, "Keep");
    assert_eq!(r.description, "about Keep");
    assert_eq!(r.create_date, "2024-01-10 10:00:00");
    assert_eq!(r.status, "Новая");
    assert_eq!(r.deleted, 0);
}

#[test]
fn status_patch_changes_status_only() {
    let mut t = TaskTable::new();
    let id = t.insert(draft("Work", "2024-01-10 10:00:00")).unwrap();
    let p = UpdateTask { title: None, description: None, status: Some("В работе".to_string()), deleted: None };
    t.apply_patch(id, p).unwrap();
    let r = t.find_by_id(id).unwrap();
    assert_eq!(r.status, "В работе");
    assert_eq!(r.title, "Work");
    assert_eq!(r.description, "about Work");
    assert_eq!(r.create_date, "2024-01-10 10:00:00");
    assert_eq!(r.deleted, 0);
}

#[test]
fn patch_on_missing_id_is_not_found() {
    let mut t = TaskTable::new();
    t.insert(draft("Only", "2024-01-10 10:00:00")).unwrap();
    let p = UpdateTask { title: Some("X".to_string()), description: None, status: None, deleted: None };
    assert_eq!(t.apply_patch(9, p), Err(StoreError::NotFound));
    assert_eq!(t.find_by_id(1).unwrap().title, "Only");
}

#[test]
fn soft_delete_marks_row() {
    let mut t = TaskTable::new();
    let a = t.insert(draft("A", "2024-01-10 10:00:00")).unwrap();
    let b = t.insert(draft("B", "2024-01-10 11:00:00")).unwrap();
    assert_eq!(t.soft_delete(a), Ok(()));
    assert_eq!(t.find_by_id(a).unwrap().deleted, 1);
    assert_eq!(t.find_by_id(a).unwrap().title, "A");
    assert_eq!(t.find_by_id(b).unwrap().deleted, 0);
}

#[test]
fn soft_delete_missing_id_changes_nothing() {
    let mut t = TaskTable::new();
    t.insert(draft("A", "2024-01-10 10:00:00")).unwrap();
    t.insert(draft("B", "2024-01-10 11:00:00")).unwrap();
    assert_eq!(t.soft_delete(42), Ok(()));
    assert_eq!(t.rows.len(), 2);
    assert!(t.rows.iter().all(|r| r.deleted == 0));
    assert_eq!(titles(&t.rows), vec!["A", "B"]);
}

#[test]
fn empty_prefix_returns_active_and_deleted() {
    let mut t = TaskTable::new();
    t.insert(draft("A", "2024-01-10 10:00:00")).unwrap();
    let b = t.insert(draft("B", "2024-01-10 11:00:00")).unwrap();
    t.soft_delete(b).unwrap();
    let all = t.find_by_title_prefix("");
    assert_eq!(titles(&all), vec!["A", "B"]);
    assert_eq!(all[1].deleted, 1);
}

#[test]
fn prefix_matches_start_of_title_only() {
    let mut t = TaskTable::new();
    t.insert(draft("Task A", "2024-01-10 10:00:00")).unwrap();
    t.insert(draft("Tasks", "2024-01-10 11:00:00")).unwrap();
    t.insert(draft("My Task", "2024-01-10 12:00:00")).unwrap();
    assert_eq!(titles(&t.find_by_title_prefix("Task")), vec!["Task A", "Tasks"]);
    assert!(t.find_by_title_prefix("Tasks!").is_empty());
}

#[test]
fn between_dates_is_inclusive() {
    let mut t = TaskTable::new();
    t.insert(draft("before", "2024-01-08 23:59:59")).unwrap();
    t.insert(draft("start", "2024-01-09 00:00:00")).unwrap();
    t.insert(draft("middle", "2024-01-10 12:30:00")).unwrap();
    t.insert(draft("end", "2024-01-11 23:59:59")).unwrap();
    t.insert(draft("after", "2024-01-12 00:00:00")).unwrap();
    let r = t.find_between_dates("2024-01-09 00:00:00", "2024-01-11 23:59:59");
    assert_eq!(titles(&r), vec!["start", "middle", "end"]);
}

#[test]
fn text_helpers() {
    assert!(starts_with("Tasks", "Task"));
    assert!(!starts_with("My Task", "Task"));
    assert!(starts_with("x", ""));
    assert!(!starts_with("Ta", "Task"));
    assert!(text_le_exec("2024-01-09", "2024-01-09 00:00:00"));
    assert!(!text_le_exec("2024-01-10", "2024-01-09 23:59:59"));
    assert!(text_le_exec("abc", "abc"));
}
