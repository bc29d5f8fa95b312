use task_tracker::task::{Task, TaskStatus, ValidationError};
use task_tracker::tracker::TaskTracker;

fn text(s: &str) -> String {
    s.to_string()
}

fn ids(tasks: &[Task]) -> Vec<u64> {
    let mut ids: Vec<u64> = tasks.iter().map(|t| t.id).collect();
    ids.sort();
    ids
}

#[test]
fn new_registry_is_empty_and_starts_at_one() {
    let tracker = TaskTracker::new();
    assert_eq!(tracker.list_tasks().len(), 0);
    assert_eq!(tracker.next_id(), 1);
    assert_eq!(tracker.get_task(1), None);
}

#[test]
fn added_task_is_pending_without_due_date() {
    let mut tracker = TaskTracker::new();
    let added = tracker.add_task(text("T"), text("D"), None).unwrap();
    assert_eq!(added.id, 1);
    let found = tracker.get_task(1).unwrap();
    assert_eq!(found.status, TaskStatus::Pending);
    assert_eq!(found.due_date, None);
    assert_eq!(found.title, "T");
    assert_eq!(found.description, "D");
    assert_eq!(found, added);
}

#[test]
fn add_returns_the_stored_fields() {
    let mut tracker = TaskTracker::new();
    let added = tracker.add_task(text("Write report"), text("Quarterly numbers"), Some(1_700_000_000)).unwrap();
    assert_eq!(
        added,
        Task {
            id: 1,
            title: text("Write report"),
            description: text("Quarterly numbers"),
            status: TaskStatus::Pending,
            due_date: Some(1_700_000_000),
        }
    );
}

#[test]
fn ids_increase_across_adds() {
    let mut tracker = TaskTracker::new();
    let mut last = 0;
    for n in 0..20u64 {
        let task = tracker.add_task(format!("task {n}"), text("d"), None).unwrap();
        assert!(task.id > last);
        assert_eq!(task.id, n + 1);
        last = task.id;
    }
}

#[test]
fn ids_are_not_reused_after_deletes() {
    let mut tracker = TaskTracker::new();
    let a = tracker.add_task(text("a"), text("d"), None).unwrap();
    let b = tracker.add_task(text("b"), text("d"), None).unwrap();
    let c = tracker.add_task(text("c"), text("d"), None).unwrap();
    assert_eq!((a.id, b.id, c.id), (1, 2, 3));
    assert!(tracker.delete_task(3).is_some());
    let d = tracker.add_task(text("d"), text("d"), None).unwrap();
    assert_eq!(d.id, 4);
    assert!(tracker.delete_task(1).is_some());
    assert!(tracker.delete_task(2).is_some());
    assert!(tracker.delete_task(4).is_some());
    assert_eq!(tracker.list_tasks().len(), 0);
    let e = tracker.add_task(text("e"), text("d"), None).unwrap();
    assert_eq!(e.id, 5);
    assert_eq!(ids(&tracker.list_tasks()), vec![5]);
}

#[test]
fn counter_moves_once_per_successful_add_only() {
    let mut tracker = TaskTracker::new();
    assert_eq!(tracker.next_id(), 1);
    tracker.add_task(text("a"), text("d"), None).unwrap();
    assert_eq!(tracker.next_id(), 2);
    assert!(tracker.add_task(text(""), text("d"), None).is_err());
    assert_eq!(tracker.next_id(), 2);
    tracker.update_task(1, text("b"), text("e"), Some(1)).unwrap();
    tracker.set_status(1, TaskStatus::Completed);
    tracker.get_task(1);
    tracker.list_tasks();
    tracker.delete_task(1);
    assert_eq!(tracker.next_id(), 2);
    tracker.add_task(text("c"), text("d"), None).unwrap();
    assert_eq!(tracker.next_id(), 3);
}

#[test]
fn add_rejects_empty_title() {
    let mut tracker = TaskTracker::new();
    let res = tracker.add_task(text(""), text("D"), Some(5));
    assert_eq!(res, Err(ValidationError::EmptyTitle));
    assert_eq!(tracker.list_tasks().len(), 0);
}

#[test]
fn add_rejects_empty_description() {
    let mut tracker = TaskTracker::new();
    let res = tracker.add_task(text("T"), text(""), None);
    assert_eq!(res, Err(ValidationError::EmptyDescription));
    assert_eq!(tracker.list_tasks().len(), 0);
}

#[test]
fn empty_title_is_reported_before_empty_description() {
    let mut tracker = TaskTracker::new();
    let res = tracker.add_task(text(""), text(""), None);
    assert_eq!(res, Err(ValidationError::EmptyTitle));
}

#[test]
fn whitespace_counts_as_text() {
    let mut tracker = TaskTracker::new();
    let task = tracker.add_task(text(" "), text("\n"), None).unwrap();
    assert_eq!(task.title, " ");
    assert_eq!(task.description, "\n");
}

#[test]
fn missing_due_date_is_accepted() {
    let mut tracker = TaskTracker::new();
    assert!(tracker.add_task(text("T"), text("D"), None).is_ok());
    assert!(tracker.add_task(text("T"), text("D"), Some(0)).is_ok());
    assert!(tracker.add_task(text("T"), text("D"), Some(u64::MAX)).is_ok());
    assert_eq!(tracker.get_task(2).unwrap().due_date, Some(0));
    assert_eq!(tracker.get_task(3).unwrap().due_date, Some(u64::MAX));
}

#[test]
fn validation_messages() {
    assert_eq!(ValidationError::EmptyTitle.message(), "title must not be empty");
    assert_eq!(ValidationError::EmptyDescription.message(), "description must not be empty");
}

#[test]
fn update_overwrites_fields_and_keeps_status_and_id() {
    let mut tracker = TaskTracker::new();
    tracker.add_task(text("old"), text("old text"), None).unwrap();
    tracker.set_status(1, TaskStatus::Completed).unwrap();
    let updated = tracker.update_task(1, text("new"), text("new text"), Some(42)).unwrap().unwrap();
    let expected = Task {
        id: 1,
        title: text("new"),
        description: text("new text"),
        status: TaskStatus::Completed,
        due_date: Some(42),
    };
    assert_eq!(updated, expected);
    assert_eq!(tracker.get_task(1), Some(expected));
    assert_eq!(tracker.list_tasks().len(), 1);
}

#[test]
fn update_can_clear_the_due_date() {
    let mut tracker = TaskTracker::new();
    tracker.add_task(text("t"), text("d"), Some(7)).unwrap();
    let updated = tracker.update_task(1, text("t"), text("d"), None).unwrap().unwrap();
    assert_eq!(updated.due_date, None);
    assert_eq!(tracker.get_task(1).unwrap().due_date, None);
}

#[test]
fn update_touches_only_the_named_task() {
    let mut tracker = TaskTracker::new();
    let a = tracker.add_task(text("a"), text("da"), None).unwrap();
    tracker.add_task(text("b"), text("db"), None).unwrap();
    let c = tracker.add_task(text("c"), text("dc"), Some(3)).unwrap();
    tracker.update_task(2, text("B"), text("DB"), Some(2)).unwrap().unwrap();
    assert_eq!(tracker.get_task(1), Some(a));
    assert_eq!(tracker.get_task(3), Some(c));
    assert_eq!(tracker.get_task(2).unwrap().title, "B");
    assert_eq!(ids(&tracker.list_tasks()), vec![1, 2, 3]);
}

#[test]
fn update_of_unknown_id_is_absent_and_changes_nothing() {
    let mut tracker = TaskTracker::new();
    tracker.add_task(text("a"), text("da"), None).unwrap();
    tracker.add_task(text("b"), text("db"), Some(9)).unwrap();
    let before = tracker.list_tasks();
    let res = tracker.update_task(99, text("x"), text("y"), Some(1));
    assert_eq!(res, Ok(None));
    assert_eq!(tracker.list_tasks(), before);
    assert_eq!(tracker.update_task(0, text("x"), text("y"), None), Ok(None));
    assert_eq!(tracker.list_tasks(), before);
}

#[test]
fn update_rejects_empty_fields_and_changes_nothing() {
    let mut tracker = TaskTracker::new();
    let stored = tracker.add_task(text("a"), text("da"), None).unwrap();
    assert_eq!(tracker.update_task(1, text(""), text("y"), None), Err(ValidationError::EmptyTitle));
    assert_eq!(
        tracker.update_task(1, text("x"), text(""), None),
        Err(ValidationError::EmptyDescription)
    );
    assert_eq!(tracker.get_task(1), Some(stored));
}

#[test]
fn update_validates_before_it_looks_up() {
    let mut tracker = TaskTracker::new();
    assert_eq!(tracker.update_task(5, text(""), text("y"), None), Err(ValidationError::EmptyTitle));
    assert_eq!(tracker.list_tasks().len(), 0);
}

#[test]
fn delete_returns_the_task_and_removes_it() {
    let mut tracker = TaskTracker::new();
    let a = tracker.add_task(text("a"), text("da"), Some(1)).unwrap();
    let b = tracker.add_task(text("b"), text("db"), None).unwrap();
    assert_eq!(tracker.delete_task(1), Some(a));
    assert_eq!(tracker.get_task(1), None);
    assert_eq!(tracker.list_tasks(), vec![b]);
}

#[test]
fn second_delete_is_absent() {
    let mut tracker = TaskTracker::new();
    tracker.add_task(text("a"), text("da"), None).unwrap();
    assert!(tracker.delete_task(1).is_some());
    assert_eq!(tracker.get_task(1), None);
    assert_eq!(tracker.delete_task(1), None);
    assert_eq!(tracker.get_task(1), None);
    assert_eq!(tracker.list_tasks().len(), 0);
}

#[test]
fn delete_of_unknown_id_changes_nothing() {
    let mut tracker = TaskTracker::new();
    tracker.add_task(text("a"), text("da"), None).unwrap();
    let before = tracker.list_tasks();
    assert_eq!(tracker.delete_task(2), None);
    assert_eq!(tracker.delete_task(0), None);
    assert_eq!(tracker.delete_task(u64::MAX), None);
    assert_eq!(tracker.list_tasks(), before);
}

#[test]
fn delete_from_the_middle_keeps_the_others() {
    let mut tracker = TaskTracker::new();
    for n in 0..5 {
        tracker.add_task(format!("t{n}"), text("d"), None).unwrap();
    }
    assert_eq!(tracker.delete_task(3).unwrap().title, "t2");
    assert_eq!(ids(&tracker.list_tasks()), vec![1, 2, 4, 5]);
    assert_eq!(tracker.get_task(4).unwrap().title, "t3");
}

#[test]
fn get_of_unknown_id_is_absent() {
    let mut tracker = TaskTracker::new();
    assert_eq!(tracker.get_task(0), None);
    tracker.add_task(text("a"), text("da"), None).unwrap();
    assert_eq!(tracker.get_task(0), None);
    assert_eq!(tracker.get_task(2), None);
}

#[test]
fn list_length_is_adds_minus_deletes() {
    let mut tracker = TaskTracker::new();
    let mut adds = 0usize;
    let mut deletes = 0usize;
    for n in 0..10u64 {
        if tracker.add_task(format!("t{n}"), text("d"), None).is_ok() {
            adds += 1;
        }
        if tracker.add_task(text(""), text("d"), None).is_ok() {
            adds += 1;
        }
        if n % 3 == 0 && tracker.delete_task(n / 3 + 1).is_some() {
            deletes += 1;
        }
        if tracker.delete_task(1000 + n).is_some() {
            deletes += 1;
        }
        tracker.update_task(n, text("u"), text("v"), None).unwrap();
        assert_eq!(tracker.list_tasks().len(), adds - deletes);
    }
    assert_eq!(adds, 10);
    assert_eq!(deletes, 4);
    assert_eq!(tracker.list_tasks().len(), 6);
}

#[test]
fn list_holds_each_task_once() {
    let mut tracker = TaskTracker::new();
    let a = tracker.add_task(text("a"), text("da"), None).unwrap();
    let b = tracker.add_task(text("b"), text("db"), Some(2)).unwrap();
    let listed = tracker.list_tasks();
    assert_eq!(listed.len(), 2);
    assert!(listed.contains(&a));
    assert!(listed.contains(&b));
}

#[test]
fn returned_tasks_are_independent_copies() {
    let mut tracker = TaskTracker::new();
    let mut added = tracker.add_task(text("a"), text("da"), None).unwrap();
    added.title = text("changed");
    added.id = 77;
    added.status = TaskStatus::Completed;
    let mut found = tracker.get_task(1).unwrap();
    assert_eq!(found.title, "a");
    assert_eq!(found.status, TaskStatus::Pending);
    found.description = text("changed");
    let mut listed = tracker.list_tasks();
    assert_eq!(listed[0].description, "da");
    listed.clear();
    assert_eq!(tracker.list_tasks().len(), 1);
    assert_eq!(tracker.get_task(77), None);
}

#[test]
fn set_status_changes_only_the_status() {
    let mut tracker = TaskTracker::new();
    tracker.add_task(text("a"), text("da"), Some(4)).unwrap();
    let done = tracker.set_status(1, TaskStatus::Completed).unwrap();
    assert_eq!(
        done,
        Task {
            id: 1,
            title: text("a"),
            description: text("da"),
            status: TaskStatus::Completed,
            due_date: Some(4),
        }
    );
    assert_eq!(tracker.get_task(1), Some(done));
    let reopened = tracker.set_status(1, TaskStatus::Pending).unwrap();
    assert_eq!(reopened.status, TaskStatus::Pending);
}

#[test]
fn set_status_of_unknown_id_is_absent() {
    let mut tracker = TaskTracker::new();
    tracker.add_task(text("a"), text("da"), None).unwrap();
    let before = tracker.list_tasks();
    assert_eq!(tracker.set_status(2, TaskStatus::Completed), None);
    assert_eq!(tracker.list_tasks(), before);
}

#[test]
fn buy_milk_scenario() {
    let mut tracker = TaskTracker::new();
    let first = tracker.add_task(text("Buy milk"), text("2% milk"), None).unwrap();
    assert_eq!(first.id, 1);
    assert_eq!(first.status, TaskStatus::Pending);
    let second = tracker.add_task(text("Pay bills"), text(""), None);
    assert_eq!(second, Err(ValidationError::EmptyDescription));
    let listed = tracker.list_tasks();
    assert_eq!(listed.len(), 1);
    assert_eq!(listed[0].id, 1);
    assert_eq!(listed[0], first);
}
