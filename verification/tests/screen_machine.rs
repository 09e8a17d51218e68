use horme::screen::{App, CurrentScreen, CurrentlyEditing, Key};
use horme::task::{Status, Task};

fn type_text(app: &mut App, text: &str) {
    for c in text.chars() {
        app.handle_key_event(Key::Char(c));
    }
}

fn three_tasks() -> App {
    App::new(vec![
        Task::new("one".to_string(), "d1".to_string(), Status::Todo, Some(0)),
        Task::new("two".to_string(), "d2".to_string(), Status::Doing, Some(1)),
        Task::new("three".to_string(), "d3".to_string(), Status::Done, Some(2)),
    ])
}

#[test]
fn adding_a_task_end_to_end() {
    let mut app = App::new(Vec::new());
    app.handle_key_event(Key::Char('a'));
    assert_eq!(app.current_screen, CurrentScreen::AddTask);
    type_text(&mut app, "Walk dog");
    app.handle_key_event(Key::Tab);
    type_text(&mut app, "Evening");
    app.handle_key_event(Key::Enter);
    assert_eq!(app.current_screen, CurrentScreen::Main);
    assert_eq!(app.todo_list.items.len(), 1);
    let task = &app.todo_list.items[0];
    assert_eq!(task.name, "Walk dog");
    assert_eq!(task.description, "Evening");
    assert_eq!(task.status, Status::Todo);
    assert_eq!(app.name_input, "");
    assert_eq!(app.description_input, "");
    assert_eq!(app.currently_editing, None);
}

#[test]
fn new_tasks_are_appended_at_the_end() {
    let mut app = three_tasks();
    app.handle_key_event(Key::Char('a'));
    type_text(&mut app, "fourth");
    app.handle_key_event(Key::Enter);
    assert_eq!(app.todo_list.items.len(), 4);
    assert_eq!(app.todo_list.items[3].name, "fourth");
}

#[test]
fn selection_clamps_at_both_ends() {
    let mut app = three_tasks();
    app.handle_key_event(Key::Char('j'));
    assert_eq!(app.todo_list.selected, Some(0));
    app.handle_key_event(Key::Down);
    app.handle_key_event(Key::Down);
    assert_eq!(app.todo_list.selected, Some(2));
    app.handle_key_event(Key::Char('j'));
    assert_eq!(app.todo_list.selected, Some(2));
    app.handle_key_event(Key::Char('k'));
    app.handle_key_event(Key::Up);
    assert_eq!(app.todo_list.selected, Some(0));
    app.handle_key_event(Key::Char('k'));
    assert_eq!(app.todo_list.selected, Some(0));
}

#[test]
fn deleting_selected_task_clears_selection() {
    let mut app = three_tasks();
    app.handle_key_event(Key::Char('j'));
    app.handle_key_event(Key::Char('j'));
    assert_eq!(app.todo_list.selected, Some(1));
    app.handle_key_event(Key::Char('d'));
    assert_eq!(app.current_screen, CurrentScreen::Deleting);
    app.handle_key_event(Key::Char('d'));
    assert_eq!(app.current_screen, CurrentScreen::Main);
    assert_eq!(app.todo_list.items.len(), 2);
    assert_eq!(app.todo_list.items[0].name, "one");
    assert_eq!(app.todo_list.items[1].name, "three");
    assert_eq!(app.todo_list.selected, None);
}

#[test]
fn cancelling_a_delete_removes_nothing() {
    let mut app = three_tasks();
    app.handle_key_event(Key::Char('j'));
    app.handle_key_event(Key::Char('d'));
    app.handle_key_event(Key::Esc);
    assert_eq!(app.current_screen, CurrentScreen::Main);
    assert_eq!(app.todo_list.items.len(), 3);
}

#[test]
fn editing_prefills_and_commit_replaces_fields() {
    let mut app = three_tasks();
    app.handle_key_event(Key::Char('j'));
    app.handle_key_event(Key::Char('c'));
    assert_eq!(app.current_screen, CurrentScreen::Editing);
    assert_eq!(app.name_input, "one");
    assert_eq!(app.description_input, "d1");
    assert_eq!(app.currently_editing, Some(CurrentlyEditing::Name));
    // Erase the description entirely, extend the name.
    type_text(&mut app, "!");
    app.handle_key_event(Key::Tab);
    app.handle_key_event(Key::Backspace);
    app.handle_key_event(Key::Backspace);
    app.handle_key_event(Key::Enter);
    assert_eq!(app.current_screen, CurrentScreen::Main);
    assert_eq!(app.todo_list.items[0].name, "one!");
    assert_eq!(app.todo_list.items[0].description, "");
    assert_eq!(app.name_input, "");
    assert_eq!(app.description_input, "");
}

#[test]
fn cancelling_an_edit_leaves_the_task_unmodified() {
    let mut app = three_tasks();
    app.handle_key_event(Key::Char('j'));
    app.handle_key_event(Key::Char('c'));
    type_text(&mut app, " scribbles");
    app.handle_key_event(Key::Esc);
    assert_eq!(app.current_screen, CurrentScreen::Main);
    assert_eq!(app.todo_list.items[0].name, "one");
    assert_eq!(app.todo_list.items[0].description, "d1");
}

#[test]
fn editing_with_nothing_selected_is_a_no_op() {
    let mut app = three_tasks();
    app.handle_key_event(Key::Char('c'));
    assert_eq!(app.current_screen, CurrentScreen::Main);
}

#[test]
fn toggle_status_cycles_selected_task_only() {
    let mut app = three_tasks();
    app.handle_key_event(Key::Char('j'));
    app.handle_key_event(Key::Enter);
    assert_eq!(app.todo_list.items[0].status, Status::Doing);
    assert_eq!(app.todo_list.items[1].status, Status::Doing);
    app.handle_key_event(Key::Enter);
    app.handle_key_event(Key::Enter);
    assert_eq!(app.todo_list.items[0].status, Status::Todo);
}

#[test]
fn subtask_lifecycle_through_keys() {
    let mut app = three_tasks();
    app.handle_key_event(Key::Char('j'));
    app.handle_key_event(Key::Char('s'));
    assert_eq!(app.current_screen, CurrentScreen::Subtask);

    // Add a subtask: count grows by one, not done.
    app.handle_key_event(Key::Char('A'));
    assert_eq!(app.current_screen, CurrentScreen::AddSubtask);
    type_text(&mut app, "leash");
    app.handle_key_event(Key::Enter);
    assert_eq!(app.current_screen, CurrentScreen::Subtask);
    assert_eq!(app.todo_list.items[0].subtasks.len(), 1);
    assert_eq!(app.todo_list.items[0].subtasks[0].name, "leash");
    assert!(!app.todo_list.items[0].subtasks[0].status);

    app.handle_key_event(Key::Char('A'));
    type_text(&mut app, "bags");
    app.handle_key_event(Key::Enter);
    assert_eq!(app.todo_list.items[0].subtasks.len(), 2);

    // Toggle flips only the targeted subtask.
    app.handle_key_event(Key::Char('n'));
    app.handle_key_event(Key::Char('n'));
    assert_eq!(app.subtask_selected, Some(1));
    app.handle_key_event(Key::Char('u'));
    assert!(!app.todo_list.items[0].subtasks[0].status);
    assert!(app.todo_list.items[0].subtasks[1].status);

    // Removing shifts later subtasks down.
    app.handle_key_event(Key::Char('p'));
    assert_eq!(app.subtask_selected, Some(0));
    app.handle_key_event(Key::Delete);
    assert_eq!(app.todo_list.items[0].subtasks.len(), 1);
    assert_eq!(app.todo_list.items[0].subtasks[0].name, "bags");
    assert_eq!(app.subtask_selected, None);

    app.handle_key_event(Key::Esc);
    assert_eq!(app.current_screen, CurrentScreen::Main);
}

#[test]
fn subtask_selection_clamps() {
    let mut app = three_tasks();
    app.handle_key_event(Key::Char('j'));
    app.handle_key_event(Key::Char('s'));
    // With no subtasks the selection stays clear.
    app.handle_key_event(Key::Char('n'));
    assert_eq!(app.subtask_selected, None);
    // With two subtasks it clamps at both ends.
    app.handle_key_event(Key::Char('A'));
    type_text(&mut app, "a");
    app.handle_key_event(Key::Enter);
    app.handle_key_event(Key::Char('A'));
    type_text(&mut app, "b");
    app.handle_key_event(Key::Enter);
    app.handle_key_event(Key::Char('n'));
    app.handle_key_event(Key::Char('n'));
    app.handle_key_event(Key::Char('n'));
    assert_eq!(app.subtask_selected, Some(1));
    app.handle_key_event(Key::Char('p'));
    app.handle_key_event(Key::Char('p'));
    assert_eq!(app.subtask_selected, Some(0));
}

#[test]
fn quit_sets_the_exit_flag() {
    let mut app = three_tasks();
    assert!(!app.should_exit);
    app.handle_key_event(Key::Char('q'));
    assert!(app.should_exit);
}

#[test]
fn save_todo_list_serializes_the_store() {
    let app = three_tasks();
    assert_eq!(
        app.save_todo_list(),
        "## Todo\n- one\n    > d1\n\n## Doing\n- two\n    > d2\n\n## Done\n- three\n    > d3\n"
    );
}

#[test]
fn default_app_has_the_sample_list() {
    let app = App::default();
    assert_eq!(app.todo_list.items.len(), 8);
    assert_eq!(app.todo_list.next_id, 8);
    assert_eq!(app.todo_list.items[0].name, "Check synthetic eyes");
    assert_eq!(app.todo_list.items[0].status, Status::Doing);
    assert_eq!(app.current_screen, CurrentScreen::Main);
    assert_eq!(app.todo_list.selected, None);
}
