use task_tracker::task::{validate, Task, TaskStatus, ValidationError};

#[test]
fn new_task_is_pending() {
    let task = Task::new(7, "title".to_string(), "text".to_string(), Some(11));
    assert_eq!(task.id, 7);
    assert_eq!(task.title, "title");
    assert_eq!(task.description, "text");
    assert_eq!(task.status, TaskStatus::Pending);
    assert_eq!(task.due_date, Some(11));
}

#[test]
fn new_task_does_not_validate() {
    let task = Task::new(0, String::new(), String::new(), None);
    assert_eq!(task.id, 0);
    assert_eq!(task.title, "");
    assert_eq!(task.due_date, None);
}

#[test]
fn clone_keeps_every_field() {
    let mut task = Task::new(3, "a".to_string(), "b".to_string(), Some(1));
    task.status = TaskStatus::Completed;
    let copy = task.clone();
    assert_eq!(copy.id, 3);
    assert_eq!(copy.title, "a");
    assert_eq!(copy.description, "b");
    assert_eq!(copy.status, TaskStatus::Completed);
    assert_eq!(copy.due_date, Some(1));
    assert_eq!(copy, task);
}

#[test]
fn tasks_differ_when_any_field_differs() {
    let base = Task::new(1, "a".to_string(), "b".to_string(), Some(1));
    assert_ne!(base, Task::new(2, "a".to_string(), "b".to_string(), Some(1)));
    assert_ne!(base, Task::new(1, "x".to_string(), "b".to_string(), Some(1)));
    assert_ne!(base, Task::new(1, "a".to_string(), "x".to_string(), Some(1)));
    assert_ne!(base, Task::new(1, "a".to_string(), "b".to_string(), None));
    let mut done = base.clone();
    done.status = TaskStatus::Completed;
    assert_ne!(base, done);
}

#[test]
fn validate_accepts_non_empty_texts() {
    assert_eq!(validate(&"t".to_string(), &"d".to_string()), Ok(()));
}

#[test]
fn validate_names_the_first_empty_field() {
    assert_eq!(validate(&String::new(), &"d".to_string()), Err(ValidationError::EmptyTitle));
    assert_eq!(validate(&"t".to_string(), &String::new()), Err(ValidationError::EmptyDescription));
    assert_eq!(validate(&String::new(), &String::new()), Err(ValidationError::EmptyTitle));
}
