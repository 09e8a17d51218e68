use horme::task::{Status, Subtask, Task};

#[test]
fn new_task() {
    let task = Task::new(
        "task".to_string(),
        "description".to_string(),
        Status::Todo,
        None,
    );
    assert_eq!(task.name, "task");
}

#[test]
fn new_task_uses_supplied_id() {
    let task = Task::new("a".to_string(), "b".to_string(), Status::Doing, Some(42));
    assert_eq!(task.id, 42);
    assert_eq!(task.status, Status::Doing);
    assert_eq!(task.due_date, "");
    assert!(task.subtasks.is_empty());
}

#[test]
fn status_cycles_and_never_stays() {
    for start in [Status::Todo, Status::Doing, Status::Done] {
        let mut task = Task::new("t".to_string(), "".to_string(), start, Some(0));
        task.update_status();
        assert_ne!(task.status, start);
        task.update_status();
        assert_ne!(task.status, start);
        task.update_status();
        assert_eq!(task.status, start);
    }
}

#[test]
fn status_cycle_order() {
    let mut task = Task::new("t".to_string(), "".to_string(), Status::Todo, Some(0));
    task.update_status();
    assert_eq!(task.status, Status::Doing);
    task.update_status();
    assert_eq!(task.status, Status::Done);
    task.update_status();
    assert_eq!(task.status, Status::Todo);
}

#[test]
fn status_labels() {
    assert_eq!(Status::Todo.label(), "Todo");
    assert_eq!(Status::Doing.label(), "Doing");
    assert_eq!(Status::Done.label(), "Done");
}

#[test]
fn add_description_appends() {
    let mut task = Task::new("t".to_string(), "one".to_string(), Status::Todo, Some(0));
    task.add_description(" two");
    assert_eq!(task.description, "one two");
}

#[test]
fn subtask_add_toggle_remove() {
    let mut task = Task::new("t".to_string(), "".to_string(), Status::Todo, Some(0));
    task.add_subtask("first".to_string(), false);
    task.add_subtask("second".to_string(), true);
    task.add_subtask("third".to_string(), false);
    assert_eq!(task.subtasks.len(), 3);
    assert_eq!(task.subtasks[0].name, "first");
    assert!(!task.subtasks[0].status);
    assert!(task.subtasks[1].status);

    task.toggle_subtask_status(0);
    assert!(task.subtasks[0].status);
    assert!(task.subtasks[1].status);
    assert!(!task.subtasks[2].status);

    task.remove_subtask(1);
    assert_eq!(task.subtasks.len(), 2);
    assert_eq!(task.subtasks[0].name, "first");
    assert_eq!(task.subtasks[1].name, "third");
}

#[test]
fn task_getters() {
    let mut task = Task::new("n".to_string(), "d".to_string(), Status::Done, Some(7));
    task.add_subtask("s".to_string(), true);
    assert_eq!(task.get_id(), 7);
    assert_eq!(task.get_name(), "n");
    assert_eq!(task.get_description(), "d");
    assert_eq!(task.get_status(), Status::Done);
    let subs = task.get_subtasks();
    assert_eq!(subs.len(), 1);
    assert_eq!(subs[0].name, "s");
    assert!(subs[0].status);
}

#[test]
fn subtask_new_starts_not_done() {
    let mut sub = Subtask::new("walk".to_string());
    assert_eq!(sub.name, "walk");
    assert!(!sub.status);
    sub.update_status();
    assert!(sub.status);
    sub.update_status();
    assert!(!sub.status);
}
