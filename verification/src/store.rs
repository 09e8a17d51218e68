//! The task store: an ordered, mutable list of tasks with a clamped
//! selection and an explicit counter for fresh ids.

use vstd::prelude::*;

use crate::task::cycled;
use crate::task::Status;
use crate::task::SubtaskView;
use crate::task::Task;
use crate::task::TaskView;

verus! {

/// Why a store operation was refused.
#[derive(Debug, Clone, Copy, PartialEq, Eq, Structural)]
pub enum StoreError {
    /// No task in the store has the requested id, or the requested
    /// position is past the end of the list.
    NotFound,
    /// The subtask index is not valid for the addressed task.
    IndexOutOfRange,
}

/// The views of the tasks of a list, in order.
pub open spec fn views_of(tasks: Seq<Task>) -> Seq<TaskView> {
    Seq::new(tasks.len(), |i: int| tasks[i]@)
}

/// The position of the first task with the given id, if any.
pub open spec fn spec_find(items: Seq<TaskView>, id: u16) -> Option<int>
    decreases items.len(),
{
    if items.len() == 0 {
        None
    } else if items[0].id == id {
        Some(0int)
    } else {
        match spec_find(items.drop_first(), id) {
            Some(i) => Some(i + 1),
            None => None,
        }
    }
}

/// `spec_find` returns the first position whose task carries the id, and
/// `None` exactly when no task does.
pub proof fn lemma_spec_find(items: Seq<TaskView>, id: u16)
    ensures
        match spec_find(items, id) {
            None => forall|j: int| 0 <= j < items.len() ==> items[j].id != id,
            Some(k) => 0 <= k < items.len() && items[k].id == id && (forall|j: int|
                0 <= j < k ==> items[j].id != id),
        },
    decreases items.len(),
{
    if items.len() > 0 {
        lemma_spec_find(items.drop_first(), id);
        if items[0].id != id {
            assert(forall|j: int|
                1 <= j < items.len() ==> items[j] == items.drop_first()[j - 1]);
        }
    }
}

/// Where the selection stands after a `next` move on a list of `len`
/// items: one step down, clamped at the last index.
pub open spec fn spec_next_selection(len: nat, sel: Option<usize>) -> Option<usize> {
    match sel {
        None => if len == 0 {
            None
        } else {
            Some(0usize)
        },
        Some(i) => if i + 1 < len {
            Some((i + 1) as usize)
        } else if len == 0 {
            None
        } else {
            Some(if i < len {
                i
            } else {
                (len - 1) as usize
            })
        },
    }
}

/// Where the selection stands after a `previous` move: one step up,
/// clamped at index zero.
pub open spec fn spec_previous_selection(len: nat, sel: Option<usize>) -> Option<usize> {
    match sel {
        None => if len == 0 {
            None
        } else {
            Some((len - 1) as usize)
        },
        Some(i) => if len == 0 {
            None
        } else if i == 0 {
            Some(0usize)
        } else if i < len {
            Some((i - 1) as usize)
        } else {
            Some((len - 1) as usize)
        },
    }
}

/// An ordered collection of tasks. The selection, when present, points
/// into the list; `next_id` is the id the next created task will get.
#[derive(Debug, Clone)]
pub struct TodoList {
    pub items: Vec<Task>,
    pub selected: Option<usize>,
    pub next_id: u16,
}

/// The mathematical value of a task store.
#[verifier::ext_equal]
pub struct TodoListView {
    pub items: Seq<TaskView>,
    pub selected: Option<usize>,
    pub next_id: u16,
}

impl View for TodoList {
    type V = TodoListView;

    open spec fn view(&self) -> TodoListView {
        TodoListView { items: views_of(self.items@), selected: self.selected, next_id: self.next_id }
    }
}

impl TodoListView {
    /// The selection, when present, is a valid index.
    pub open spec fn selection_in_range(self) -> bool {
        match self.selected {
            Some(i) => i < self.items.len(),
            None => true,
        }
    }

    /// Every stored id is below the counter, so created ids are fresh.
    pub open spec fn ids_below_counter(self) -> bool {
        forall|j: int| 0 <= j < self.items.len() ==> self.items[j].id < self.next_id
    }
}

impl Default for TodoList {
    /// An empty store: nothing selected, ids start at zero.
    fn default() -> (r: Self)
        ensures
            r@.items == Seq::<TaskView>::empty(),
            r@.selected == None::<usize>,
            r@.next_id == 0u16,
    {
        let r = TodoList { items: Vec::new(), selected: None, next_id: 0 };
        proof {
            assert(r@.items =~~= Seq::<TaskView>::empty());
        }
        r
    }
}

impl TodoList {
    /// Wraps an existing list of tasks, with nothing selected. The id
    /// counter starts past the length, which covers lists whose ids were
    /// assigned sequentially by load order.
    pub fn from_tasks(items: Vec<Task>) -> (r: Self)
        ensures
            r@.items == views_of(items@),
            r@.selected == None::<usize>,
            r@.next_id == (if items@.len() < 0x10000 {
                items@.len() as u16
            } else {
                0xffffu16
            }),
    {
        let next_id: u16 = if items.len() < 0xffff {
            items.len() as u16
        } else {
            0xffff
        };
        TodoList { items, selected: None, next_id }
    }

    /// Creates a task with a fresh id and appends it. Returns the id, or
    /// `None` without changing the store when the id space is used up.
    pub fn create(&mut self, name: String, description: String, status: Status) -> (r: Option<
        u16,
    >)
        ensures
            old(self)@.next_id == 0xffffu16 ==> r == None::<u16> && final(self)@ == old(self)@,
            old(self)@.next_id < 0xffffu16 ==> {
                &&& r == Some(old(self)@.next_id)
                &&& final(self)@.items == old(self)@.items.push(
                    TaskView {
                        name: name@,
                        description: description@,
                        status,
                        id: old(self)@.next_id,
                        due_date: Seq::<char>::empty(),
                        subtasks: Seq::<SubtaskView>::empty(),
                    },
                )
                &&& final(self)@.selected == old(self)@.selected
                &&& final(self)@.next_id == old(self)@.next_id + 1
            },
            old(self)@.ids_below_counter() ==> final(self)@.ids_below_counter(),
            old(self)@.ids_below_counter() && old(self)@.next_id < 0xffffu16 ==> forall|j: int|
                0 <= j < old(self)@.items.len() ==> old(self)@.items[j].id != old(self)@.next_id,
    {
        if self.next_id == 0xffff {
            proof {
                assert(final(self)@ =~~= old(self)@);
            }
            return None;
        }
        let id = self.next_id;
        self.next_id = self.next_id + 1;
        let task = Task::new(name, description, status, Some(id));
        self.items.push(task);
        proof {
            assert(self@.items =~~= old(self)@.items.push(task@));
        }
        Some(id)
    }

    /// Borrows the first task with the given id; `NotFound` when no task
    /// carries it.
    pub fn get(&self, id: u16) -> (r: Result<&Task, StoreError>)
        ensures
            match spec_find(self@.items, id) {
                Some(k) => r matches Ok(t) && t@ == self@.items[k],
                None => r == Err::<&Task, StoreError>(StoreError::NotFound),
            },
    {
        let mut i: usize = 0;
        while i < self.items.len()
            invariant
                i <= self@.items.len(),
                forall|j: int| 0 <= j < i ==> self@.items[j].id != id,
            decreases self@.items.len() - i,
        {
            proof {
                assert(self@.items[i as int] == self.items@[i as int]@);
            }
            if self.items[i].id == id {
                proof {
                    lemma_spec_find(self@.items, id);
                }
                return Ok(&self.items[i]);
            }
            i = i + 1;
        }
        proof {
            lemma_spec_find(self@.items, id);
        }
        Err(StoreError::NotFound)
    }

    /// Borrows the task at the given position; `NotFound` when the
    /// position is past the end.
    pub fn get_at(&self, index: usize) -> (r: Result<&Task, StoreError>)
        ensures
            index < self@.items.len() ==> (r matches Ok(t) && t@ == self@.items[index as int]),
            index >= self@.items.len() ==> r == Err::<&Task, StoreError>(StoreError::NotFound),
    {
        if index < self.items.len() {
            Ok(&self.items[index])
        } else {
            Err(StoreError::NotFound)
        }
    }

    /// The position of the first task with the given id, or `NotFound`.
    fn position_of(&self, id: u16) -> (r: Result<usize, StoreError>)
        ensures
            match spec_find(self@.items, id) {
                Some(k) => (r matches Ok(p) && p as int == k && k < self@.items.len()
                    && self@.items[k].id == id),
                None => r == Err::<usize, StoreError>(StoreError::NotFound),
            },
    {
        let mut i: usize = 0;
        while i < self.items.len()
            invariant
                i <= self@.items.len(),
                forall|j: int| 0 <= j < i ==> self@.items[j].id != id,
            decreases self@.items.len() - i,
        {
            proof {
                assert(self@.items[i as int] == self.items@[i as int]@);
            }
            if self.items[i].id == id {
                proof {
                    lemma_spec_find(self@.items, id);
                }
                return Ok(i);
            }
            i = i + 1;
        }
        proof {
            lemma_spec_find(self@.items, id);
        }
        Err(StoreError::NotFound)
    }

    /// Cycles the status of the task with the given id.
    pub fn update_status(&mut self, id: u16) -> (r: Result<(), StoreError>)
        ensures
            match spec_find(old(self)@.items, id) {
                Some(k) => {
                    &&& r == Ok::<(), StoreError>(())
                    &&& final(self)@.items == old(self)@.items.update(
                        k,
                        TaskView { status: cycled(old(self)@.items[k].status), ..old(self)@.items[k] },
                    )
                },
                None => r == Err::<(), StoreError>(StoreError::NotFound) && final(self)@ == old(
                    self,
                )@,
            },
            final(self)@.selected == old(self)@.selected,
            final(self)@.next_id == old(self)@.next_id,
    {
        let pos = match self.position_of(id) {
            Ok(p) => p,
            Err(e) => {
                proof {
                    assert(final(self)@ =~~= old(self)@);
                }
                return Err(e);
            },
        };
        self.items[pos].update_status();
        proof {
            let k = spec_find(old(self)@.items, id)->Some_0;
            assert(self@.items =~~= old(self)@.items.update(
                k,
                TaskView { status: cycled(old(self)@.items[k].status), ..old(self)@.items[k] },
            ));
        }
        Ok(())
    }

    /// Replaces the name of the task with the given id.
    pub fn rename(&mut self, id: u16, new_name: String) -> (r: Result<(), StoreError>)
        ensures
            match spec_find(old(self)@.items, id) {
                Some(k) => {
                    &&& r == Ok::<(), StoreError>(())
                    &&& final(self)@.items == old(self)@.items.update(
                        k,
                        TaskView { name: new_name@, ..old(self)@.items[k] },
                    )
                },
                None => r == Err::<(), StoreError>(StoreError::NotFound) && final(self)@ == old(
                    self,
                )@,
            },
            final(self)@.selected == old(self)@.selected,
            final(self)@.next_id == old(self)@.next_id,
    {
        let pos = match self.position_of(id) {
            Ok(p) => p,
            Err(e) => {
                proof {
                    assert(final(self)@ =~~= old(self)@);
                }
                return Err(e);
            },
        };
        self.items[pos].name = new_name;
        proof {
            let k = spec_find(old(self)@.items, id)->Some_0;
            assert(self@.items =~~= old(self)@.items.update(
                k,
                TaskView { name: new_name@, ..old(self)@.items[k] },
            ));
        }
        Ok(())
    }

    /// Replaces the description of the task with the given id.
    pub fn redescribe(&mut self, id: u16, new_description: String) -> (r: Result<(), StoreError>)
        ensures
            match spec_find(old(self)@.items, id) {
                Some(k) => {
                    &&& r == Ok::<(), StoreError>(())
                    &&& final(self)@.items == old(self)@.items.update(
                        k,
                        TaskView { description: new_description@, ..old(self)@.items[k] },
                    )
                },
                None => r == Err::<(), StoreError>(StoreError::NotFound) && final(self)@ == old(
                    self,
                )@,
            },
            final(self)@.selected == old(self)@.selected,
            final(self)@.next_id == old(self)@.next_id,
    {
        let pos = match self.position_of(id) {
            Ok(p) => p,
            Err(e) => {
                proof {
                    assert(final(self)@ =~~= old(self)@);
                }
                return Err(e);
            },
        };
        self.items[pos].description = new_description;
        proof {
            let k = spec_find(old(self)@.items, id)->Some_0;
            assert(self@.items =~~= old(self)@.items.update(
                k,
                TaskView { description: new_description@, ..old(self)@.items[k] },
            ));
        }
        Ok(())
    }

    /// Removes the task with the given id. Remaining ids are untouched and
    /// the selection is cleared.
    pub fn delete(&mut self, id: u16) -> (r: Result<(), StoreError>)
        ensures
            match spec_find(old(self)@.items, id) {
                Some(k) => {
                    &&& r == Ok::<(), StoreError>(())
                    &&& final(self)@.items == old(self)@.items.remove(k)
                    &&& final(self)@.selected == None::<usize>
                },
                None => r == Err::<(), StoreError>(StoreError::NotFound) && final(self)@ == old(
                    self,
                )@,
            },
            final(self)@.next_id == old(self)@.next_id,
    {
        let pos = match self.position_of(id) {
            Ok(p) => p,
            Err(e) => {
                proof {
                    assert(final(self)@ =~~= old(self)@);
                }
                return Err(e);
            },
        };
        self.items.remove(pos);
        self.selected = None;
        proof {
            let k = spec_find(old(self)@.items, id)->Some_0;
            assert(self@.items =~~= old(self)@.items.remove(k));
        }
        Ok(())
    }

    /// Appends a not-done subtask with the given name to the task with
    /// the given id.
    pub fn add_subtask(&mut self, id: u16, name: String) -> (r: Result<(), StoreError>)
        ensures
            match spec_find(old(self)@.items, id) {
                Some(k) => {
                    &&& r == Ok::<(), StoreError>(())
                    &&& final(self)@.items == old(self)@.items.update(
                        k,
                        TaskView {
                            subtasks: old(self)@.items[k].subtasks.push(
                                SubtaskView { name: name@, status: false },
                            ),
                            ..old(self)@.items[k]
                        },
                    )
                },
                None => r == Err::<(), StoreError>(StoreError::NotFound) && final(self)@ == old(
                    self,
                )@,
            },
            final(self)@.selected == old(self)@.selected,
            final(self)@.next_id == old(self)@.next_id,
    {
        let pos = match self.position_of(id) {
            Ok(p) => p,
            Err(e) => {
                proof {
                    assert(final(self)@ =~~= old(self)@);
                }
                return Err(e);
            },
        };
        self.items[pos].add_subtask(name, false);
        proof {
            let k = spec_find(old(self)@.items, id)->Some_0;
            assert(self@.items =~~= old(self)@.items.update(
                k,
                TaskView {
                    subtasks: old(self)@.items[k].subtasks.push(
                        SubtaskView { name: name@, status: false },
                    ),
                    ..old(self)@.items[k]
                },
            ));
        }
        Ok(())
    }

    /// Removes the subtask at `index` from the task with the given id;
    /// later subtasks shift down by one.
    pub fn remove_subtask(&mut self, id: u16, index: usize) -> (r: Result<(), StoreError>)
        ensures
            match spec_find(old(self)@.items, id) {
                Some(k) => if index < old(self)@.items[k].subtasks.len() {
                    &&& r == Ok::<(), StoreError>(())
                    &&& final(self)@.items == old(self)@.items.update(
                        k,
                        TaskView {
                            subtasks: old(self)@.items[k].subtasks.remove(index as int),
                            ..old(self)@.items[k]
                        },
                    )
                } else {
                    r == Err::<(), StoreError>(StoreError::IndexOutOfRange) && final(self)@ == old(
                        self,
                    )@
                },
                None => r == Err::<(), StoreError>(StoreError::NotFound) && final(self)@ == old(
                    self,
                )@,
            },
            final(self)@.selected == old(self)@.selected,
            final(self)@.next_id == old(self)@.next_id,
    {
        let pos = match self.position_of(id) {
            Ok(p) => p,
            Err(e) => {
                proof {
                    assert(final(self)@ =~~= old(self)@);
                }
                return Err(e);
            },
        };
        if index >= self.items[pos].subtasks.len() {
            proof {
                assert(final(self)@ =~~= old(self)@);
            }
            return Err(StoreError::IndexOutOfRange);
        }
        self.items[pos].remove_subtask(index);
        proof {
            let k = spec_find(old(self)@.items, id)->Some_0;
            assert(self@.items =~~= old(self)@.items.update(
                k,
                TaskView {
                    subtasks: old(self)@.items[k].subtasks.remove(index as int),
                    ..old(self)@.items[k]
                },
            ));
        }
        Ok(())
    }

    /// Flips the done flag of the subtask at `index` of the task with the
    /// given id; every other subtask is unchanged.
    pub fn toggle_subtask(&mut self, id: u16, index: usize) -> (r: Result<(), StoreError>)
        ensures
            match spec_find(old(self)@.items, id) {
                Some(k) => if index < old(self)@.items[k].subtasks.len() {
                    &&& r == Ok::<(), StoreError>(())
                    &&& final(self)@.items == old(self)@.items.update(
                        k,
                        TaskView {
                            subtasks: old(self)@.items[k].subtasks.update(
                                index as int,
                                SubtaskView {
                                    name: old(self)@.items[k].subtasks[index as int].name,
                                    status: !old(self)@.items[k].subtasks[index as int].status,
                                },
                            ),
                            ..old(self)@.items[k]
                        },
                    )
                } else {
                    r == Err::<(), StoreError>(StoreError::IndexOutOfRange) && final(self)@ == old(
                        self,
                    )@
                },
                None => r == Err::<(), StoreError>(StoreError::NotFound) && final(self)@ == old(
                    self,
                )@,
            },
            final(self)@.selected == old(self)@.selected,
            final(self)@.next_id == old(self)@.next_id,
    {
        let pos = match self.position_of(id) {
            Ok(p) => p,
            Err(e) => {
                proof {
                    assert(final(self)@ =~~= old(self)@);
                }
                return Err(e);
            },
        };
        if index >= self.items[pos].subtasks.len() {
            proof {
                assert(final(self)@ =~~= old(self)@);
            }
            return Err(StoreError::IndexOutOfRange);
        }
        self.items[pos].toggle_subtask_status(index);
        proof {
            let k = spec_find(old(self)@.items, id)->Some_0;
            assert(self@.items[k].subtasks =~~= old(self)@.items[k].subtasks.update(
                index as int,
                SubtaskView {
                    name: old(self)@.items[k].subtasks[index as int].name,
                    status: !old(self)@.items[k].subtasks[index as int].status,
                },
            ));
            assert(self@.items =~~= old(self)@.items.update(
                k,
                TaskView {
                    subtasks: old(self)@.items[k].subtasks.update(
                        index as int,
                        SubtaskView {
                            name: old(self)@.items[k].subtasks[index as int].name,
                            status: !old(self)@.items[k].subtasks[index as int].status,
                        },
                    ),
                    ..old(self)@.items[k]
                },
            ));
        }
        Ok(())
    }

    /// Moves the selection one step down, clamped at the last index; on an
    /// empty list the selection stays clear.
    pub fn select_next(&mut self)
        ensures
            final(self)@.selected == spec_next_selection(old(self)@.items.len(), old(self)@.selected),
            final(self)@.items == old(self)@.items,
            final(self)@.next_id == old(self)@.next_id,
            final(self)@.selection_in_range(),
    {
        let len = self.items.len();
        self.selected = match self.selected {
            None => if len == 0 {
                None
            } else {
                Some(0)
            },
            Some(i) => if len == 0 {
                None
            } else if i < len - 1 {
                Some(i + 1)
            } else if i < len {
                Some(i)
            } else {
                Some(len - 1)
            },
        };
    }

    /// Moves the selection one step up, clamped at index zero; on an
    /// empty list the selection stays clear.
    pub fn select_previous(&mut self)
        ensures
            final(self)@.selected == spec_previous_selection(
                old(self)@.items.len(),
                old(self)@.selected,
            ),
            final(self)@.items == old(self)@.items,
            final(self)@.next_id == old(self)@.next_id,
            final(self)@.selection_in_range(),
    {
        let len = self.items.len();
        self.selected = match self.selected {
            None => if len == 0 {
                None
            } else {
                Some(len - 1)
            },
            Some(i) => if len == 0 {
                None
            } else if i == 0 {
                Some(0)
            } else if i < len {
                Some(i - 1)
            } else {
                Some(len - 1)
            },
        };
    }

    /// The current selection.
    pub fn selected(&self) -> (r: Option<usize>)
        ensures
            r == self@.selected,
    {
        self.selected
    }
}

/// Whether some task in the list carries the given id.
pub fn check_id(id: u16, todo_list: &Vec<Task>) -> (r: bool)
    ensures
        r == spec_find(views_of(todo_list@), id) is Some,
        r == exists|j: int| 0 <= j < todo_list@.len() && todo_list@[j]@.id == id,
{
    let mut i: usize = 0;
    while i < todo_list.len()
        invariant
            i <= todo_list@.len(),
            forall|j: int| 0 <= j < i ==> views_of(todo_list@)[j].id != id,
            forall|j: int| 0 <= j < i ==> todo_list@[j]@.id != id,
        decreases todo_list@.len() - i,
    {
        proof {
            assert(views_of(todo_list@)[i as int] == todo_list@[i as int]@);
        }
        if todo_list[i].id == id {
            proof {
                lemma_spec_find(views_of(todo_list@), id);
                assert(todo_list@[i as int]@.id == id);
            }
            return true;
        }
        i = i + 1;
    }
    proof {
        lemma_spec_find(views_of(todo_list@), id);
        if spec_find(views_of(todo_list@), id) is Some {
            let k = spec_find(views_of(todo_list@), id)->Some_0;
            assert(views_of(todo_list@)[k] == todo_list@[k]@);
            assert(false);
        }
    }
    false
}

/// Borrows the first task in the list with the given id, if any.
pub fn get_task<'a>(id: u16, todo_list: &'a Vec<Task>) -> (r: Option<&'a Task>)
    ensures
        match spec_find(views_of(todo_list@), id) {
            Some(k) => r matches Some(t) && t@ == views_of(todo_list@)[k],
            None => r == None::<&'a Task>,
        },
{
    let mut i: usize = 0;
    while i < todo_list.len()
        invariant
            i <= todo_list@.len(),
            forall|j: int| 0 <= j < i ==> views_of(todo_list@)[j].id != id,
        decreases todo_list@.len() - i,
    {
        proof {
            assert(views_of(todo_list@)[i as int] == todo_list@[i as int]@);
        }
        if todo_list[i].id == id {
            proof {
                lemma_spec_find(views_of(todo_list@), id);
            }
            return Some(&todo_list[i]);
        }
        i = i + 1;
    }
    proof {
        lemma_spec_find(views_of(todo_list@), id);
    }
    None
}

} // verus!
