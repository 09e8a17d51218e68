//! The screen state machine: the application's interaction state, and
//! how one key press moves it.
//!
//! Every key handler is total: an action that needs a selected task or
//! subtask when none is selected, or when the selection is out of range,
//! leaves the state unchanged rather than failing.

use vstd::prelude::*;
use vstd::string::StringExecFns;

use crate::codec::encode;
use crate::codec::encode_spec;
use crate::store::spec_next_selection;
use crate::store::spec_previous_selection;
use crate::store::views_of;
use crate::store::TodoList;
use crate::store::TodoListView;
use crate::task::cycled;
use crate::task::Status;
use crate::task::SubtaskView;
use crate::task::Task;
use crate::task::TaskView;

verus! {

/// Relies on `String::push`: appends one character at the end.
#[verifier::external_body]
fn push_char(s: &mut String, c: char)
    ensures
        final(s)@ == old(s)@.push(c),
{
    s.push(c);
}

/// Relies on `String::pop`: removes the last character, or leaves an
/// empty string as it is.
#[verifier::external_body]
fn pop_char(s: &mut String) -> (r: Option<char>)
    ensures
        old(s)@.len() == 0 ==> final(s)@ == old(s)@ && r == None::<char>,
        old(s)@.len() > 0 ==> final(s)@ == old(s)@.drop_last() && r == Some(old(s)@.last()),
{
    s.pop()
}

/// Which screen is active.
#[derive(Debug, Clone, Copy, PartialEq, Eq, Structural)]
pub enum CurrentScreen {
    Main,
    Editing,
    Subtask,
    AddTask,
    Deleting,
    AddSubtask,
}

/// Which edit buffer receives keystrokes.
#[derive(Debug, Clone, Copy, PartialEq, Eq, Structural)]
pub enum CurrentlyEditing {
    Name,
    Description,
}

/// A key press, as the state machine sees it. The terminal layer maps
/// its own event type onto this one.
#[derive(Debug, Clone, Copy, PartialEq, Eq, Structural)]
pub enum Key {
    Char(char),
    Enter,
    Esc,
    Tab,
    Backspace,
    Delete,
    Up,
    Down,
}

/// The interactive application: the task store, the transient edit
/// buffers, the subtask selection and the active screen.
#[derive(Debug, Clone)]
pub struct App {
    pub name_input: String,
    pub description_input: String,
    pub todo_list: TodoList,
    pub subtask_selected: Option<usize>,
    pub should_exit: bool,
    pub current_screen: CurrentScreen,
    pub currently_editing: Option<CurrentlyEditing>,
}

/// The mathematical value of the application state.
#[verifier::ext_equal]
pub struct AppView {
    pub name_input: Seq<char>,
    pub description_input: Seq<char>,
    pub todo_list: TodoListView,
    pub subtask_selected: Option<usize>,
    pub should_exit: bool,
    pub current_screen: CurrentScreen,
    pub currently_editing: Option<CurrentlyEditing>,
}

impl View for App {
    type V = AppView;

    open spec fn view(&self) -> AppView {
        AppView {
            name_input: self.name_input@,
            description_input: self.description_input@,
            todo_list: self.todo_list@,
            subtask_selected: self.subtask_selected,
            should_exit: self.should_exit,
            current_screen: self.current_screen,
            currently_editing: self.currently_editing,
        }
    }
}

// ---------------------------------------------------------------------
// What each action does, as a function on the state.
// ---------------------------------------------------------------------
/// The selected task's index, when it is in range.
pub open spec fn valid_selection(a: AppView) -> Option<int> {
    match a.todo_list.selected {
        Some(i) => if i < a.todo_list.items.len() {
            Some(i as int)
        } else {
            None
        },
        None => None,
    }
}

/// How many subtasks the selected task has; zero without a valid
/// selection.
pub open spec fn selected_subtask_count(a: AppView) -> nat {
    match valid_selection(a) {
        Some(i) => a.todo_list.items[i].subtasks.len(),
        None => 0,
    }
}

/// Moves the task selection one step down, clamped, and resets the
/// subtask selection.
pub open spec fn spec_select_next(a: AppView) -> AppView {
    AppView {
        todo_list: TodoListView {
            selected: spec_next_selection(a.todo_list.items.len(), a.todo_list.selected),
            ..a.todo_list
        },
        subtask_selected: None,
        ..a
    }
}

/// Moves the task selection one step up, clamped, and resets the
/// subtask selection.
pub open spec fn spec_select_previous(a: AppView) -> AppView {
    AppView {
        todo_list: TodoListView {
            selected: spec_previous_selection(a.todo_list.items.len(), a.todo_list.selected),
            ..a.todo_list
        },
        subtask_selected: None,
        ..a
    }
}

/// Cycles the selected task's status; without a valid selection, does
/// nothing.
pub open spec fn spec_toggle_status(a: AppView) -> AppView {
    match valid_selection(a) {
        Some(i) => AppView {
            todo_list: TodoListView {
                items: a.todo_list.items.update(
                    i,
                    TaskView { status: cycled(a.todo_list.items[i].status), ..a.todo_list.items[i] },
                ),
                ..a.todo_list
            },
            ..a
        },
        None => a,
    }
}

/// Marks the application as leaving; the outer loop saves and stops.
pub open spec fn spec_exit(a: AppView) -> AppView {
    AppView { should_exit: true, ..a }
}

/// Enters the editing screen, pre-filling both buffers from the selected
/// task; without a valid selection, does nothing.
pub open spec fn spec_start_editing(a: AppView) -> AppView {
    match valid_selection(a) {
        Some(i) => AppView {
            name_input: a.todo_list.items[i].name,
            description_input: a.todo_list.items[i].description,
            current_screen: CurrentScreen::Editing,
            currently_editing: Some(CurrentlyEditing::Name),
            ..a
        },
        None => a,
    }
}

/// Commits the edit: writes both buffers into the selected task, then
/// returns to the main screen with the buffers discarded.
pub open spec fn spec_save_edited_task(a: AppView) -> AppView {
    let items = match valid_selection(a) {
        Some(i) => a.todo_list.items.update(
            i,
            TaskView {
                name: a.name_input,
                description: a.description_input,
                ..a.todo_list.items[i]
            },
        ),
        None => a.todo_list.items,
    };
    AppView {
        name_input: Seq::empty(),
        description_input: Seq::empty(),
        todo_list: TodoListView { items, ..a.todo_list },
        current_screen: CurrentScreen::Main,
        currently_editing: None,
        ..a
    }
}

/// Abandons the edit: returns to the main screen, buffers discarded,
/// the store untouched.
pub open spec fn spec_cancel_editing(a: AppView) -> AppView {
    AppView {
        name_input: Seq::empty(),
        description_input: Seq::empty(),
        current_screen: CurrentScreen::Main,
        currently_editing: None,
        ..a
    }
}

/// Appends a character to the active buffer; with no active buffer,
/// does nothing.
pub open spec fn spec_handle_editing_input(a: AppView, c: char) -> AppView {
    match a.currently_editing {
        Some(CurrentlyEditing::Name) => AppView { name_input: a.name_input.push(c), ..a },
        Some(CurrentlyEditing::Description) => AppView {
            description_input: a.description_input.push(c),
            ..a
        },
        None => a,
    }
}

/// Removes the last character of the active buffer, if any.
pub open spec fn spec_handle_backspace(a: AppView) -> AppView {
    match a.currently_editing {
        Some(CurrentlyEditing::Name) => AppView {
            name_input: if a.name_input.len() == 0 {
                a.name_input
            } else {
                a.name_input.drop_last()
            },
            ..a
        },
        Some(CurrentlyEditing::Description) => AppView {
            description_input: if a.description_input.len() == 0 {
                a.description_input
            } else {
                a.description_input.drop_last()
            },
            ..a
        },
        None => a,
    }
}

/// Switches the active buffer between name and description.
pub open spec fn spec_toggle_editing_field(a: AppView) -> AppView {
    AppView {
        currently_editing: match a.currently_editing {
            Some(CurrentlyEditing::Name) => Some(CurrentlyEditing::Description),
            Some(CurrentlyEditing::Description) => Some(CurrentlyEditing::Name),
            None => Some(CurrentlyEditing::Name),
        },
        ..a
    }
}

/// Enters the adding screen with cleared buffers.
pub open spec fn spec_start_adding(a: AppView) -> AppView {
    AppView {
        name_input: Seq::empty(),
        description_input: Seq::empty(),
        current_screen: CurrentScreen::AddTask,
        currently_editing: Some(CurrentlyEditing::Name),
        ..a
    }
}

/// Commits the add: appends a Todo task built from the buffers, with a
/// fresh id, and returns to the main screen with the buffers discarded.
/// When the id space is used up the store stays as it is.
pub open spec fn spec_add_new_task(a: AppView) -> AppView {
    let tl = if a.todo_list.next_id < 0xffffu16 {
        TodoListView {
            items: a.todo_list.items.push(
                TaskView {
                    name: a.name_input,
                    description: a.description_input,
                    status: Status::Todo,
                    id: a.todo_list.next_id,
                    due_date: Seq::empty(),
                    subtasks: Seq::empty(),
                },
            ),
            next_id: (a.todo_list.next_id + 1) as u16,
            ..a.todo_list
        }
    } else {
        a.todo_list
    };
    AppView {
        name_input: Seq::empty(),
        description_input: Seq::empty(),
        todo_list: tl,
        current_screen: CurrentScreen::Main,
        currently_editing: None,
        ..a
    }
}

/// Abandons the add: back to the main screen, buffers discarded.
pub open spec fn spec_cancel_adding(a: AppView) -> AppView {
    AppView {
        name_input: Seq::empty(),
        description_input: Seq::empty(),
        current_screen: CurrentScreen::Main,
        currently_editing: None,
        ..a
    }
}

/// Enters the delete-confirmation screen.
pub open spec fn spec_start_deleting(a: AppView) -> AppView {
    AppView { current_screen: CurrentScreen::Deleting, ..a }
}

/// Confirms the delete: removes the selected task, clears both
/// selections and returns to the main screen; without a valid selection
/// only the screen changes.
pub open spec fn spec_delete_task(a: AppView) -> AppView {
    match valid_selection(a) {
        Some(i) => AppView {
            todo_list: TodoListView {
                items: a.todo_list.items.remove(i),
                selected: None,
                ..a.todo_list
            },
            subtask_selected: None,
            current_screen: CurrentScreen::Main,
            ..a
        },
        None => AppView { current_screen: CurrentScreen::Main, ..a },
    }
}

/// Abandons the delete: back to the main screen, nothing removed.
pub open spec fn spec_cancel_deleting(a: AppView) -> AppView {
    AppView { current_screen: CurrentScreen::Main, ..a }
}

/// Enters the subtask screen for the selected task.
pub open spec fn spec_start_subtask(a: AppView) -> AppView {
    AppView { current_screen: CurrentScreen::Subtask, ..a }
}

/// Leaves the subtask screen.
pub open spec fn spec_cancel_subtask(a: AppView) -> AppView {
    AppView { current_screen: CurrentScreen::Main, ..a }
}

/// Moves the subtask selection one step down, clamped to the selected
/// task's subtasks.
pub open spec fn spec_select_next_subtask(a: AppView) -> AppView {
    AppView {
        subtask_selected: spec_next_selection(selected_subtask_count(a), a.subtask_selected),
        ..a
    }
}

/// Moves the subtask selection one step up, clamped.
pub open spec fn spec_select_previous_subtask(a: AppView) -> AppView {
    AppView {
        subtask_selected: spec_previous_selection(selected_subtask_count(a), a.subtask_selected),
        ..a
    }
}

/// Flips the done flag of the selected subtask; without valid task and
/// subtask selections, does nothing.
pub open spec fn spec_update_subtask(a: AppView) -> AppView {
    match (valid_selection(a), a.subtask_selected) {
        (Some(i), Some(j)) => if j < a.todo_list.items[i].subtasks.len() {
            let t = a.todo_list.items[i];
            AppView {
                todo_list: TodoListView {
                    items: a.todo_list.items.update(
                        i,
                        TaskView {
                            subtasks: t.subtasks.update(
                                j as int,
                                SubtaskView {
                                    name: t.subtasks[j as int].name,
                                    status: !t.subtasks[j as int].status,
                                },
                            ),
                            ..t
                        },
                    ),
                    ..a.todo_list
                },
                ..a
            }
        } else {
            a
        },
        _ => a,
    }
}

/// Removes the selected subtask from the selected task and resets the
/// subtask selection; without valid selections, does nothing.
pub open spec fn spec_delete_subtask(a: AppView) -> AppView {
    match (valid_selection(a), a.subtask_selected) {
        (Some(i), Some(j)) => if j < a.todo_list.items[i].subtasks.len() {
            let t = a.todo_list.items[i];
            AppView {
                todo_list: TodoListView {
                    items: a.todo_list.items.update(
                        i,
                        TaskView { subtasks: t.subtasks.remove(j as int), ..t },
                    ),
                    ..a.todo_list
                },
                subtask_selected: None,
                ..a
            }
        } else {
            a
        },
        _ => a,
    }
}

/// Enters the subtask-adding screen with cleared buffers.
pub open spec fn spec_start_adding_subtask(a: AppView) -> AppView {
    AppView {
        name_input: Seq::empty(),
        description_input: Seq::empty(),
        current_screen: CurrentScreen::AddSubtask,
        currently_editing: Some(CurrentlyEditing::Name),
        ..a
    }
}

/// Abandons the subtask add: back to the subtask screen, buffers
/// discarded.
pub open spec fn spec_cancel_adding_subtask(a: AppView) -> AppView {
    AppView {
        name_input: Seq::empty(),
        description_input: Seq::empty(),
        current_screen: CurrentScreen::Subtask,
        currently_editing: None,
        ..a
    }
}

/// Commits the subtask add: appends a not-done subtask named by the
/// buffer to the selected task, then returns to the subtask screen with
/// the buffers discarded.
pub open spec fn spec_add_subtask(a: AppView) -> AppView {
    let tl = match valid_selection(a) {
        Some(i) => TodoListView {
            items: a.todo_list.items.update(
                i,
                TaskView {
                    subtasks: a.todo_list.items[i].subtasks.push(
                        SubtaskView { name: a.name_input, status: false },
                    ),
                    ..a.todo_list.items[i]
                },
            ),
            ..a.todo_list
        },
        None => a.todo_list,
    };
    AppView {
        name_input: Seq::empty(),
        description_input: Seq::empty(),
        todo_list: tl,
        current_screen: CurrentScreen::Subtask,
        currently_editing: None,
        ..a
    }
}

/// One key press: the whole state machine as a function from state and
/// key to state.
pub open spec fn spec_step(a: AppView, k: Key) -> AppView {
    match a.current_screen {
        CurrentScreen::Main => match k {
            Key::Char(c) => if c == 'j' {
                spec_select_next(a)
            } else if c == 'k' {
                spec_select_previous(a)
            } else if c == 'c' {
                spec_start_editing(a)
            } else if c == 's' {
                spec_start_subtask(a)
            } else if c == 'a' {
                spec_start_adding(a)
            } else if c == 'd' {
                spec_start_deleting(a)
            } else if c == 'q' {
                spec_exit(a)
            } else {
                a
            },
            Key::Down => spec_select_next(a),
            Key::Up => spec_select_previous(a),
            Key::Enter => spec_toggle_status(a),
            _ => a,
        },
        CurrentScreen::Editing => match k {
            Key::Enter => spec_save_edited_task(a),
            Key::Esc => spec_cancel_editing(a),
            Key::Tab => spec_toggle_editing_field(a),
            Key::Char(c) => spec_handle_editing_input(a, c),
            Key::Backspace => spec_handle_backspace(a),
            _ => a,
        },
        CurrentScreen::AddTask => match k {
            Key::Enter => spec_add_new_task(a),
            Key::Esc => spec_cancel_adding(a),
            Key::Tab => spec_toggle_editing_field(a),
            Key::Char(c) => spec_handle_editing_input(a, c),
            Key::Backspace => spec_handle_backspace(a),
            _ => a,
        },
        CurrentScreen::Deleting => match k {
            Key::Char(c) => if c == 'd' {
                spec_delete_task(a)
            } else {
                a
            },
            Key::Esc => spec_cancel_deleting(a),
            _ => a,
        },
        CurrentScreen::Subtask => match k {
            Key::Char(c) => if c == 'n' {
                spec_select_next_subtask(a)
            } else if c == 'p' {
                spec_select_previous_subtask(a)
            } else if c == 'u' {
                spec_update_subtask(a)
            } else if c == 'A' {
                spec_start_adding_subtask(a)
            } else {
                a
            },
            Key::Delete => spec_delete_subtask(a),
            Key::Esc => spec_cancel_subtask(a),
            _ => a,
        },
        CurrentScreen::AddSubtask => match k {
            Key::Enter => spec_add_subtask(a),
            Key::Esc => spec_cancel_adding_subtask(a),
            Key::Char(c) => spec_handle_editing_input(a, c),
            Key::Backspace => spec_handle_backspace(a),
            _ => a,
        },
    }
}

// ---------------------------------------------------------------------
// The executable application.
// ---------------------------------------------------------------------
impl Default for App {
    /// The built-in sample list: eight tasks with sequential ids, nothing
    /// selected, the main screen active.
    fn default() -> (r: Self)
        ensures
            r@.todo_list.items.len() == 8,
            forall|j: int| 0 <= j < 8 ==> (#[trigger] r@.todo_list.items[j]).id == j,
            r@.todo_list.selected == None::<usize>,
            r@.todo_list.next_id == 8u16,
            r@.name_input == Seq::<char>::empty(),
            r@.description_input == Seq::<char>::empty(),
            r@.subtask_selected == None::<usize>,
            r@.should_exit == false,
            r@.current_screen == CurrentScreen::Main,
            r@.currently_editing == None::<CurrentlyEditing>,
    {
        let mut items: Vec<Task> = Vec::new();
        items.push(
            Task::new(
                String::from_str("Check synthetic eyes"),
                String::from_str("Are you sure this isn't a replicant?"),
                Status::Doing,
                Some(0),
            ),
        );
        items.push(
            Task::new(
                String::from_str("Investigate Tyrell Corporation"),
                String::from_str("The secrets they're hiding..."),
                Status::Todo,
                Some(1),
            ),
        );
        items.push(
            Task::new(
                String::from_str("Complete the Dragonborn questline"),
                String::from_str("You have what it takes to save Tamriel!"),
                Status::Done,
                Some(2),
            ),
        );
        items.push(
            Task::new(
                String::from_str("Kill as many dragons as possible"),
                String::from_str("Those fire-breathers need puttin' down!"),
                Status::Todo,
                Some(3),
            ),
        );
        items.push(
            Task::new(
                String::from_str("Take a break, dude"),
                String::from_str("Life's too short for bowling alleys and White Russians."),
                Status::Todo,
                Some(4),
            ),
        );
        items.push(
            Task::new(
                String::from_str("Find the missing rug"),
                String::from_str("Man, that rug really tied the room together..."),
                Status::Done,
                Some(5),
            ),
        );
        items.push(
            Task::new(
                String::from_str("Visit the planet Frogstar World B"),
                String::from_str("A great place for a holiday... or so I've heard."),
                Status::Todo,
                Some(6),
            ),
        );
        items.push(
            Task::new(
                String::from_str("Don't forget your towel"),
                String::from_str("You never know when you might need it!"),
                Status::Done,
                Some(7),
            ),
        );
        let r = App {
            name_input: String::new(),
            description_input: String::new(),
            todo_list: TodoList { items, selected: None, next_id: 8 },
            subtask_selected: None,
            should_exit: false,
            current_screen: CurrentScreen::Main,
            currently_editing: None,
        };
        proof {
            assert forall|j: int| 0 <= j < 8 implies (#[trigger] r@.todo_list.items[j]).id
                == j by {
                assert(r@.todo_list.items[j] == r.todo_list.items@[j]@);
            }
        }
        r
    }
}

impl App {
    /// Wraps a loaded task list: nothing selected, empty buffers, the
    /// main screen active.
    pub fn new(todo_list: Vec<Task>) -> (r: Self)
        ensures
            r@.todo_list.items == views_of(todo_list@),
            r@.todo_list.selected == None::<usize>,
            r@.todo_list.next_id == (if todo_list@.len() < 0x10000 {
                todo_list@.len() as u16
            } else {
                0xffffu16
            }),
            r@.name_input == Seq::<char>::empty(),
            r@.description_input == Seq::<char>::empty(),
            r@.subtask_selected == None::<usize>,
            r@.should_exit == false,
            r@.current_screen == CurrentScreen::Main,
            r@.currently_editing == None::<CurrentlyEditing>,
    {
        App {
            name_input: String::new(),
            description_input: String::new(),
            todo_list: TodoList::from_tasks(todo_list),
            subtask_selected: None,
            should_exit: false,
            current_screen: CurrentScreen::Main,
            currently_editing: None,
        }
    }

    /// Serializes the current task list for saving.
    pub fn save_todo_list(&self) -> (r: String)
        ensures
            r@ == encode_spec(self@.todo_list.items),
    {
        encode(&self.todo_list.items)
    }

    fn select_next(&mut self)
        ensures
            final(self)@ == spec_select_next(old(self)@),
    {
        self.todo_list.select_next();
        self.subtask_selected = None;
        proof {
            assert(self@ =~~= spec_select_next(old(self)@));
        }
    }

    fn select_previous(&mut self)
        ensures
            final(self)@ == spec_select_previous(old(self)@),
    {
        self.todo_list.select_previous();
        self.subtask_selected = None;
        proof {
            assert(self@ =~~= spec_select_previous(old(self)@));
        }
    }

    fn toggle_status(&mut self)
        ensures
            final(self)@ == spec_toggle_status(old(self)@),
    {
        if let Some(i) = self.todo_list.selected {
            if i < self.todo_list.items.len() {
                self.todo_list.items[i].update_status();
                proof {
                    assert(views_of(self.todo_list.items@) =~~= old(self)@.todo_list.items.update(
                        i as int,
                        TaskView {
                            status: cycled(old(self)@.todo_list.items[i as int].status),
                            ..old(self)@.todo_list.items[i as int]
                        },
                    ));
                }
            }
        }
        proof {
            assert(self@ =~~= spec_toggle_status(old(self)@));
        }
    }

    fn exit(&mut self)
        ensures
            final(self)@ == spec_exit(old(self)@),
    {
        self.should_exit = true;
        proof {
            assert(self@ =~~= spec_exit(old(self)@));
        }
    }

    fn start_editing(&mut self)
        ensures
            final(self)@ == spec_start_editing(old(self)@),
    {
        if let Some(i) = self.todo_list.selected {
            if i < self.todo_list.items.len() {
                self.name_input = self.todo_list.items[i].name.clone();
                self.description_input = self.todo_list.items[i].description.clone();
                self.current_screen = CurrentScreen::Editing;
                self.currently_editing = Some(CurrentlyEditing::Name);
            }
        }
        proof {
            assert(self@ =~~= spec_start_editing(old(self)@));
        }
    }

    fn save_edited_task(&mut self)
        ensures
            final(self)@ == spec_save_edited_task(old(self)@),
    {
        if let Some(i) = self.todo_list.selected {
            if i < self.todo_list.items.len() {
                self.todo_list.items[i].name = self.name_input.clone();
                self.todo_list.items[i].description = self.description_input.clone();
                proof {
                    assert(views_of(self.todo_list.items@) =~~= old(self)@.todo_list.items.update(
                        i as int,
                        TaskView {
                            name: old(self)@.name_input,
                            description: old(self)@.description_input,
                            ..old(self)@.todo_list.items[i as int]
                        },
                    ));
                }
            }
        }
        self.current_screen = CurrentScreen::Main;
        self.currently_editing = None;
        self.name_input = String::new();
        self.description_input = String::new();
        proof {
            assert(self@ =~~= spec_save_edited_task(old(self)@));
        }
    }

    fn cancel_editing(&mut self)
        ensures
            final(self)@ == spec_cancel_editing(old(self)@),
    {
        self.current_screen = CurrentScreen::Main;
        self.currently_editing = None;
        self.name_input = String::new();
        self.description_input = String::new();
        proof {
            assert(self@ =~~= spec_cancel_editing(old(self)@));
        }
    }

    fn handle_editing_input(&mut self, c: char)
        ensures
            final(self)@ == spec_handle_editing_input(old(self)@, c),
    {
        match self.currently_editing {
            Some(CurrentlyEditing::Name) => push_char(&mut self.name_input, c),
            Some(CurrentlyEditing::Description) => push_char(&mut self.description_input, c),
            None => {},
        }
        proof {
            assert(self@ =~~= spec_handle_editing_input(old(self)@, c));
        }
    }

    fn handle_backspace(&mut self)
        ensures
            final(self)@ == spec_handle_backspace(old(self)@),
    {
        match self.currently_editing {
            Some(CurrentlyEditing::Name) => {
                let _ = pop_char(&mut self.name_input);
            },
            Some(CurrentlyEditing::Description) => {
                let _ = pop_char(&mut self.description_input);
            },
            None => {},
        }
        proof {
            assert(self@ =~~= spec_handle_backspace(old(self)@));
        }
    }

    fn toggle_editing_field(&mut self)
        ensures
            final(self)@ == spec_toggle_editing_field(old(self)@),
    {
        match self.currently_editing {
            Some(CurrentlyEditing::Name) => {
                self.currently_editing = Some(CurrentlyEditing::Description);
            },
            Some(CurrentlyEditing::Description) => {
                self.currently_editing = Some(CurrentlyEditing::Name);
            },
            None => {
                self.currently_editing = Some(CurrentlyEditing::Name);
            },
        }
        proof {
            assert(self@ =~~= spec_toggle_editing_field(old(self)@));
        }
    }

    fn start_adding(&mut self)
        ensures
            final(self)@ == spec_start_adding(old(self)@),
    {
        self.name_input = String::new();
        self.description_input = String::new();
        self.current_screen = CurrentScreen::AddTask;
        self.currently_editing = Some(CurrentlyEditing::Name);
        proof {
            assert(self@ =~~= spec_start_adding(old(self)@));
        }
    }

    fn add_new_task(&mut self)
        ensures
            final(self)@ == spec_add_new_task(old(self)@),
    {
        let _ = self.todo_list.create(
            self.name_input.clone(),
            self.description_input.clone(),
            Status::Todo,
        );
        self.current_screen = CurrentScreen::Main;
        self.currently_editing = None;
        self.name_input = String::new();
        self.description_input = String::new();
        proof {
            assert(self@ =~~= spec_add_new_task(old(self)@));
        }
    }

    fn cancel_adding(&mut self)
        ensures
            final(self)@ == spec_cancel_adding(old(self)@),
    {
        self.current_screen = CurrentScreen::Main;
        self.currently_editing = None;
        self.name_input = String::new();
        self.description_input = String::new();
        proof {
            assert(self@ =~~= spec_cancel_adding(old(self)@));
        }
    }

    fn start_deleting(&mut self)
        ensures
            final(self)@ == spec_start_deleting(old(self)@),
    {
        self.current_screen = CurrentScreen::Deleting;
        proof {
            assert(self@ =~~= spec_start_deleting(old(self)@));
        }
    }

    fn delete_task(&mut self)
        ensures
            final(self)@ == spec_delete_task(old(self)@),
    {
        if let Some(i) = self.todo_list.selected {
            if i < self.todo_list.items.len() {
                self.todo_list.items.remove(i);
                self.todo_list.selected = None;
                self.subtask_selected = None;
                proof {
                    assert(views_of(self.todo_list.items@) =~~= old(self)@.todo_list.items.remove(
                        i as int,
                    ));
                }
            }
        }
        self.current_screen = CurrentScreen::Main;
        proof {
            assert(self@ =~~= spec_delete_task(old(self)@));
        }
    }

    fn cancel_deleting(&mut self)
        ensures
            final(self)@ == spec_cancel_deleting(old(self)@),
    {
        self.current_screen = CurrentScreen::Main;
        proof {
            assert(self@ =~~= spec_cancel_deleting(old(self)@));
        }
    }

    fn start_subtask(&mut self)
        ensures
            final(self)@ == spec_start_subtask(old(self)@),
    {
        self.current_screen = CurrentScreen::Subtask;
        proof {
            assert(self@ =~~= spec_start_subtask(old(self)@));
        }
    }

    fn cancel_subtask(&mut self)
        ensures
            final(self)@ == spec_cancel_subtask(old(self)@),
    {
        self.current_screen = CurrentScreen::Main;
        proof {
            assert(self@ =~~= spec_cancel_subtask(old(self)@));
        }
    }

    /// The number of subtasks of the selected task; zero without a valid
    /// selection.
    fn subtask_count(&self) -> (r: usize)
        ensures
            r == selected_subtask_count(self@),
    {
        if let Some(i) = self.todo_list.selected {
            if i < self.todo_list.items.len() {
                return self.todo_list.items[i].subtasks.len();
            }
        }
        0
    }

    fn select_next_subtask(&mut self)
        ensures
            final(self)@ == spec_select_next_subtask(old(self)@),
    {
        let count = self.subtask_count();
        self.subtask_selected = match self.subtask_selected {
            None => if count == 0 {
                None
            } else {
                Some(0)
            },
            Some(j) => if count == 0 {
                None
            } else if j < count - 1 {
                Some(j + 1)
            } else if j < count {
                Some(j)
            } else {
                Some(count - 1)
            },
        };
        proof {
            assert(self@ =~~= spec_select_next_subtask(old(self)@));
        }
    }

    fn select_previous_subtask(&mut self)
        ensures
            final(self)@ == spec_select_previous_subtask(old(self)@),
    {
        let count = self.subtask_count();
        self.subtask_selected = match self.subtask_selected {
            None => if count == 0 {
                None
            } else {
                Some(count - 1)
            },
            Some(j) => if count == 0 {
                None
            } else if j == 0 {
                Some(0)
            } else if j < count {
                Some(j - 1)
            } else {
                Some(count - 1)
            },
        };
        proof {
            assert(self@ =~~= spec_select_previous_subtask(old(self)@));
        }
    }

    fn update_subtask(&mut self)
        ensures
            final(self)@ == spec_update_subtask(old(self)@),
    {
        if let Some(j) = self.subtask_selected {
            if let Some(i) = self.todo_list.selected {
                if i < self.todo_list.items.len() && j < self.todo_list.items[i].subtasks.len() {
                    self.todo_list.items[i].toggle_subtask_status(j);
                    proof {
                        let t = old(self)@.todo_list.items[i as int];
                        assert(views_of(self.todo_list.items@)[i as int].subtasks
                            =~~= t.subtasks.update(
                            j as int,
                            SubtaskView {
                                name: t.subtasks[j as int].name,
                                status: !t.subtasks[j as int].status,
                            },
                        ));
                        assert(views_of(self.todo_list.items@)
                            =~~= old(self)@.todo_list.items.update(
                            i as int,
                            TaskView {
                                subtasks: t.subtasks.update(
                                    j as int,
                                    SubtaskView {
                                        name: t.subtasks[j as int].name,
                                        status: !t.subtasks[j as int].status,
                                    },
                                ),
                                ..t
                            },
                        ));
                    }
                }
            }
        }
        proof {
            assert(self@ =~~= spec_update_subtask(old(self)@));
        }
    }

    fn delete_subtask(&mut self)
        ensures
            final(self)@ == spec_delete_subtask(old(self)@),
    {
        if let Some(j) = self.subtask_selected {
            if let Some(i) = self.todo_list.selected {
                if i < self.todo_list.items.len() && j < self.todo_list.items[i].subtasks.len() {
                    self.todo_list.items[i].remove_subtask(j);
                    self.subtask_selected = None;
                    proof {
                        let t = old(self)@.todo_list.items[i as int];
                        assert(views_of(self.todo_list.items@)
                            =~~= old(self)@.todo_list.items.update(
                            i as int,
                            TaskView { subtasks: t.subtasks.remove(j as int), ..t },
                        ));
                    }
                }
            }
        }
        proof {
            assert(self@ =~~= spec_delete_subtask(old(self)@));
        }
    }

    fn start_adding_subtask(&mut self)
        ensures
            final(self)@ == spec_start_adding_subtask(old(self)@),
    {
        self.name_input = String::new();
        self.description_input = String::new();
        self.current_screen = CurrentScreen::AddSubtask;
        self.currently_editing = Some(CurrentlyEditing::Name);
        proof {
            assert(self@ =~~= spec_start_adding_subtask(old(self)@));
        }
    }

    fn cancel_adding_subtask(&mut self)
        ensures
            final(self)@ == spec_cancel_adding_subtask(old(self)@),
    {
        self.current_screen = CurrentScreen::Subtask;
        self.currently_editing = None;
        self.name_input = String::new();
        self.description_input = String::new();
        proof {
            assert(self@ =~~= spec_cancel_adding_subtask(old(self)@));
        }
    }

    fn add_subtask(&mut self)
        ensures
            final(self)@ == spec_add_subtask(old(self)@),
    {
        if let Some(i) = self.todo_list.selected {
            if i < self.todo_list.items.len() {
                self.todo_list.items[i].add_subtask(self.name_input.clone(), false);
                proof {
                    let t = old(self)@.todo_list.items[i as int];
                    assert(views_of(self.todo_list.items@) =~~= old(self)@.todo_list.items.update(
                        i as int,
                        TaskView {
                            subtasks: t.subtasks.push(
                                SubtaskView { name: old(self)@.name_input, status: false },
                            ),
                            ..t
                        },
                    ));
                }
            }
        }
        self.current_screen = CurrentScreen::Subtask;
        self.currently_editing = None;
        self.name_input = String::new();
        self.description_input = String::new();
        proof {
            assert(self@ =~~= spec_add_subtask(old(self)@));
        }
    }

    /// Reads one key press and moves the state machine as `spec_step`
    /// describes.
    pub fn handle_key_event(&mut self, key: Key)
        ensures
            final(self)@ == spec_step(old(self)@, key),
    {
        match self.current_screen {
            CurrentScreen::Main => match key {
                Key::Char(c) => {
                    if c == 'j' {
                        self.select_next();
                    } else if c == 'k' {
                        self.select_previous();
                    } else if c == 'c' {
                        self.start_editing();
                    } else if c == 's' {
                        self.start_subtask();
                    } else if c == 'a' {
                        self.start_adding();
                    } else if c == 'd' {
                        self.start_deleting();
                    } else if c == 'q' {
                        self.exit();
                    }
                },
                Key::Down => self.select_next(),
                Key::Up => self.select_previous(),
                Key::Enter => self.toggle_status(),
                _ => {},
            },
            CurrentScreen::Editing => match key {
                Key::Enter => self.save_edited_task(),
                Key::Esc => self.cancel_editing(),
                Key::Tab => self.toggle_editing_field(),
                Key::Char(c) => self.handle_editing_input(c),
                Key::Backspace => self.handle_backspace(),
                _ => {},
            },
            CurrentScreen::AddTask => match key {
                Key::Enter => self.add_new_task(),
                Key::Esc => self.cancel_adding(),
                Key::Tab => self.toggle_editing_field(),
                Key::Char(c) => self.handle_editing_input(c),
                Key::Backspace => self.handle_backspace(),
                _ => {},
            },
            CurrentScreen::Deleting => match key {
                Key::Char(c) => {
                    if c == 'd' {
                        self.delete_task();
                    }
                },
                Key::Esc => self.cancel_deleting(),
                _ => {},
            },
            CurrentScreen::Subtask => match key {
                Key::Char(c) => {
                    if c == 'n' {
                        self.select_next_subtask();
                    } else if c == 'p' {
                        self.select_previous_subtask();
                    } else if c == 'u' {
                        self.update_subtask();
                    } else if c == 'A' {
                        self.start_adding_subtask();
                    }
                },
                Key::Delete => self.delete_subtask(),
                Key::Esc => self.cancel_subtask(),
                _ => {},
            },
            CurrentScreen::AddSubtask => match key {
                Key::Enter => self.add_subtask(),
                Key::Esc => self.cancel_adding_subtask(),
                Key::Char(c) => self.handle_editing_input(c),
                Key::Backspace => self.handle_backspace(),
                _ => {},
            },
        }
    }
}

// ---------------------------------------------------------------------
// Laws of the state machine.
// ---------------------------------------------------------------------
/// Selection clamping. A `next` move on the last index leaves the
/// selection unchanged; a `previous` move on index zero leaves it
/// unchanged; confirming a delete with a valid selection clears it.
pub proof fn lemma_selection_clamping(a: AppView, i: usize)
    ensures
        a.todo_list.selected == Some(i) && i as int == a.todo_list.items.len() - 1
            ==> spec_select_next(a).todo_list.selected == a.todo_list.selected,
        a.todo_list.selected == Some(i) && i == 0 && a.todo_list.items.len() > 0
            ==> spec_select_previous(a).todo_list.selected == a.todo_list.selected,
        valid_selection(a) is Some ==> spec_delete_task(a).todo_list.selected == None::<usize>,
{
}

/// Entering the editing screen pre-fills both buffers from the selected
/// task and touches nothing else of the store.
pub proof fn lemma_editing_prefills(a: AppView, i: int)
    requires
        valid_selection(a) == Some(i),
    ensures
        spec_start_editing(a).name_input == a.todo_list.items[i].name,
        spec_start_editing(a).description_input == a.todo_list.items[i].description,
        spec_start_editing(a).current_screen == CurrentScreen::Editing,
        spec_start_editing(a).todo_list == a.todo_list,
{
}

/// Cancelling an edit returns to the main screen and leaves every task
/// exactly as it was.
pub proof fn lemma_cancel_leaves_tasks(a: AppView)
    ensures
        spec_cancel_editing(a).todo_list == a.todo_list,
        spec_cancel_editing(a).current_screen == CurrentScreen::Main,
{
}

/// Confirming an edit replaces the selected task's name and description
/// exactly with the buffer contents — an empty buffer empties the field —
/// and changes no other task.
pub proof fn lemma_commit_replaces_fields(a: AppView, i: int)
    requires
        valid_selection(a) == Some(i),
    ensures
        spec_save_edited_task(a).todo_list.items[i].name == a.name_input,
        spec_save_edited_task(a).todo_list.items[i].description == a.description_input,
        spec_save_edited_task(a).todo_list.items[i].status == a.todo_list.items[i].status,
        spec_save_edited_task(a).todo_list.items[i].subtasks == a.todo_list.items[i].subtasks,
        spec_save_edited_task(a).todo_list.items.len() == a.todo_list.items.len(),
        forall|j: int|
            0 <= j < a.todo_list.items.len() && j != i ==> spec_save_edited_task(
                a,
            ).todo_list.items[j] == a.todo_list.items[j],
        spec_save_edited_task(a).current_screen == CurrentScreen::Main,
{
}

/// The subtask lifecycle. Committing a subtask add grows the owning
/// task's subtasks by exactly one, not done, named by the buffer;
/// toggling flips only the targeted subtask; removing shrinks the list
/// by one and shifts the later subtasks down.
pub proof fn lemma_subtask_lifecycle(a: AppView, i: int, j: usize)
    requires
        valid_selection(a) == Some(i),
        a.subtask_selected == Some(j),
        (j as int) < a.todo_list.items[i].subtasks.len(),
    ensures
        spec_add_subtask(a).todo_list.items[i].subtasks.len() == a.todo_list.items[i].subtasks.len()
            + 1,
        spec_add_subtask(a).todo_list.items[i].subtasks.last() == (SubtaskView {
            name: a.name_input,
            status: false,
        }),
        spec_add_subtask(a).todo_list.items[i].subtasks.take(
            a.todo_list.items[i].subtasks.len() as int,
        ) == a.todo_list.items[i].subtasks,
        spec_update_subtask(a).todo_list.items[i].subtasks[j as int].status == !a.todo_list
            .items[i].subtasks[j as int].status,
        spec_update_subtask(a).todo_list.items[i].subtasks[j as int].name == a.todo_list.items[i]
            .subtasks[j as int].name,
        forall|k: int|
            0 <= k < a.todo_list.items[i].subtasks.len() && k != j ==> spec_update_subtask(
                a,
            ).todo_list.items[i].subtasks[k] == a.todo_list.items[i].subtasks[k],
        spec_delete_subtask(a).todo_list.items[i].subtasks.len() == a.todo_list.items[i]
            .subtasks.len() - 1,
        forall|k: int|
            0 <= k < j ==> spec_delete_subtask(a).todo_list.items[i].subtasks[k] == a.todo_list
                .items[i].subtasks[k],
        forall|k: int|
            j <= k < a.todo_list.items[i].subtasks.len() - 1 ==> spec_delete_subtask(
                a,
            ).todo_list.items[i].subtasks[k] == a.todo_list.items[i].subtasks[k + 1],
{
    assert(spec_add_subtask(a).todo_list.items[i].subtasks.take(
        a.todo_list.items[i].subtasks.len() as int,
    ) =~= a.todo_list.items[i].subtasks);
}

} // verus!
