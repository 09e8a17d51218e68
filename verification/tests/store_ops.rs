use horme::store::{check_id, get_task, StoreError, TodoList};
use horme::task::{Status, Task};

fn sample() -> TodoList {
    let mut list = TodoList::default();
    list.create("alpha".to_string(), "first".to_string(), Status::Todo);
    list.create("beta".to_string(), "second".to_string(), Status::Doing);
    list.create("gamma".to_string(), "third".to_string(), Status::Done);
    list
}

#[test]
fn create_assigns_sequential_ids() {
    let mut list = TodoList::default();
    assert_eq!(
        list.create("a".to_string(), "".to_string(), Status::Todo),
        Some(0)
    );
    assert_eq!(
        list.create("b".to_string(), "".to_string(), Status::Todo),
        Some(1)
    );
    assert_eq!(list.items.len(), 2);
    assert_eq!(list.next_id, 2);
    assert_eq!(list.items[0].id, 0);
    assert_eq!(list.items[1].id, 1);
}

#[test]
fn create_refuses_when_ids_run_out() {
    let mut list = TodoList::default();
    list.next_id = u16::MAX;
    assert_eq!(list.create("a".to_string(), "".to_string(), Status::Todo), None);
    assert!(list.items.is_empty());
    assert_eq!(list.next_id, u16::MAX);
}

#[test]
fn get_finds_by_id() {
    let list = sample();
    let task = list.get(1).unwrap();
    assert_eq!(task.name, "beta");
    assert!(matches!(list.get(9), Err(StoreError::NotFound)));
}

#[test]
fn get_at_checks_bounds() {
    let list = sample();
    assert_eq!(list.get_at(2).unwrap().name, "gamma");
    assert!(matches!(list.get_at(3), Err(StoreError::NotFound)));
}

#[test]
fn update_status_cycles_one_task() {
    let mut list = sample();
    list.update_status(0).unwrap();
    assert_eq!(list.items[0].status, Status::Doing);
    assert_eq!(list.items[1].status, Status::Doing);
    assert_eq!(list.items[2].status, Status::Done);
    assert!(matches!(list.update_status(9), Err(StoreError::NotFound)));
}

#[test]
fn rename_and_redescribe_replace() {
    let mut list = sample();
    list.rename(1, "renamed".to_string()).unwrap();
    list.redescribe(1, "".to_string()).unwrap();
    assert_eq!(list.items[1].name, "renamed");
    assert_eq!(list.items[1].description, "");
    assert!(matches!(
        list.rename(9, "x".to_string()),
        Err(StoreError::NotFound)
    ));
}

#[test]
fn delete_keeps_remaining_ids() {
    let mut list = sample();
    list.selected = Some(1);
    list.delete(1).unwrap();
    assert_eq!(list.items.len(), 2);
    assert_eq!(list.items[0].id, 0);
    assert_eq!(list.items[1].id, 2);
    assert_eq!(list.selected, None);
    assert!(matches!(list.delete(1), Err(StoreError::NotFound)));
}

#[test]
fn subtask_ops_by_id() {
    let mut list = sample();
    list.add_subtask(0, "milk".to_string()).unwrap();
    list.add_subtask(0, "bread".to_string()).unwrap();
    assert_eq!(list.items[0].subtasks.len(), 2);
    assert!(!list.items[0].subtasks[0].status);

    list.toggle_subtask(0, 1).unwrap();
    assert!(list.items[0].subtasks[1].status);
    assert!(!list.items[0].subtasks[0].status);

    list.remove_subtask(0, 0).unwrap();
    assert_eq!(list.items[0].subtasks.len(), 1);
    assert_eq!(list.items[0].subtasks[0].name, "bread");

    assert!(matches!(
        list.toggle_subtask(0, 5),
        Err(StoreError::IndexOutOfRange)
    ));
    assert!(matches!(
        list.remove_subtask(9, 0),
        Err(StoreError::NotFound)
    ));
}

#[test]
fn selection_moves_and_clamps() {
    let mut list = sample();
    assert_eq!(list.selected(), None);
    list.select_next();
    assert_eq!(list.selected(), Some(0));
    list.select_next();
    list.select_next();
    assert_eq!(list.selected(), Some(2));
    list.select_next();
    assert_eq!(list.selected(), Some(2));
    list.select_previous();
    list.select_previous();
    assert_eq!(list.selected(), Some(0));
    list.select_previous();
    assert_eq!(list.selected(), Some(0));
}

#[test]
fn selection_on_empty_list_stays_clear() {
    let mut list = TodoList::default();
    list.select_next();
    assert_eq!(list.selected(), None);
    list.select_previous();
    assert_eq!(list.selected(), None);
}

#[test]
fn check_id_and_get_task_search_by_id() {
    let list = sample();
    assert!(check_id(2, &list.items));
    assert!(!check_id(7, &list.items));
    assert_eq!(get_task(2, &list.items).unwrap().name, "gamma");
    assert!(get_task(7, &list.items).is_none());
}
