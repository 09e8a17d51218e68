//! The task model: a task with a name, a description, a cyclic status and
//! an ordered list of boolean subtasks.

use vstd::prelude::*;

verus! {

/// Lifecycle stage of a task. Cycles Todo -> Doing -> Done -> Todo.
#[derive(Debug, Clone, Copy, PartialEq, Eq, Structural)]
pub enum Status {
    Todo,
    Doing,
    Done,
}

/// The status that `update_status` moves a task to.
pub open spec fn cycled(s: Status) -> Status {
    match s {
        Status::Todo => Status::Doing,
        Status::Doing => Status::Done,
        Status::Done => Status::Todo,
    }
}

/// Cycling a status three times returns to the start; cycling once never
/// leaves the status unchanged.
pub proof fn lemma_status_cycle(s: Status)
    ensures
        cycled(cycled(cycled(s))) == s,
        cycled(s) != s,
{
}

impl Status {
    /// The display label of the status: "Todo", "Doing" or "Done".
    pub open spec fn spec_label(self) -> Seq<char> {
        match self {
            Status::Todo => "Todo"@,
            Status::Doing => "Doing"@,
            Status::Done => "Done"@,
        }
    }

    /// The display label of the status as an owned string.
    pub fn label(&self) -> (r: String)
        ensures
            r@ == self.spec_label(),
    {
        match self {
            Status::Todo => String::from_str("Todo"),
            Status::Doing => String::from_str("Doing"),
            Status::Done => String::from_str("Done"),
        }
    }
}

/// A boolean checklist item owned by a task.
#[derive(Debug, Clone)]
pub struct Subtask {
    pub name: String,
    pub status: bool,
}

/// The mathematical value of a subtask: its name and its done flag.
#[verifier::ext_equal]
pub struct SubtaskView {
    pub name: Seq<char>,
    pub status: bool,
}

impl View for Subtask {
    type V = SubtaskView;

    open spec fn view(&self) -> SubtaskView {
        SubtaskView { name: self.name@, status: self.status }
    }
}

impl Subtask {
    /// A fresh subtask starts not done.
    pub fn new(name: String) -> (r: Self)
        ensures
            r@.name == name@,
            r@.status == false,
    {
        Self { name, status: false }
    }

    /// Flips the done flag.
    pub fn update_status(&mut self)
        ensures
            final(self)@.name == old(self)@.name,
            final(self)@.status == !old(self)@.status,
    {
        self.status = !self.status;
    }
}

/// A to-do item: display name, free-text description, cyclic status, a
/// numeric id and an ordered list of subtasks.
#[derive(Debug, Clone)]
pub struct Task {
    pub name: String,
    pub description: String,
    pub status: Status,
    pub id: u16,
    pub due_date: String,
    pub subtasks: Vec<Subtask>,
}

/// The mathematical value of a task.
#[verifier::ext_equal]
pub struct TaskView {
    pub name: Seq<char>,
    pub description: Seq<char>,
    pub status: Status,
    pub id: u16,
    pub due_date: Seq<char>,
    pub subtasks: Seq<SubtaskView>,
}

impl View for Task {
    type V = TaskView;

    open spec fn view(&self) -> TaskView {
        TaskView {
            name: self.name@,
            description: self.description@,
            status: self.status,
            id: self.id,
            due_date: self.due_date@,
            subtasks: Seq::new(self.subtasks@.len(), |i: int| self.subtasks@[i]@),
        }
    }
}

impl Task {
    /// Creates a task with the given fields, no due date and no subtasks.
    /// When an id is supplied it is used; the store is the authority for
    /// fresh ids, so a task made without one gets id 0.
    pub fn new(name: String, description: String, status: Status, id: Option<u16>) -> (r: Self)
        ensures
            r@.name == name@,
            r@.description == description@,
            r@.status == status,
            r@.id == (match id {
                Some(i) => i,
                None => 0u16,
            }),
            r@.due_date == Seq::<char>::empty(),
            r@.subtasks == Seq::<SubtaskView>::empty(),
    {
        let new_id = match id {
            Some(i) => i,
            None => 0,
        };
        let r = Self {
            name,
            description,
            status,
            id: new_id,
            due_date: String::new(),
            subtasks: Vec::new(),
        };
        proof {
            assert(r@.subtasks =~= Seq::<SubtaskView>::empty());
        }
        r
    }

    /// Cycles the status Todo -> Doing -> Done -> Todo; everything else is
    /// unchanged.
    pub fn update_status(&mut self)
        ensures
            final(self)@.status == cycled(old(self)@.status),
            final(self)@.name == old(self)@.name,
            final(self)@.description == old(self)@.description,
            final(self)@.id == old(self)@.id,
            final(self)@.due_date == old(self)@.due_date,
            final(self)@.subtasks == old(self)@.subtasks,
    {
        match self.status {
            Status::Todo => self.status = Status::Doing,
            Status::Doing => self.status = Status::Done,
            Status::Done => self.status = Status::Todo,
        }
    }

    /// Appends text to the description.
    pub fn add_description(&mut self, description: &str)
        ensures
            final(self)@.description == old(self)@.description + description@,
            final(self)@.name == old(self)@.name,
            final(self)@.status == old(self)@.status,
            final(self)@.id == old(self)@.id,
            final(self)@.due_date == old(self)@.due_date,
            final(self)@.subtasks == old(self)@.subtasks,
    {
        self.description.append(description);
    }

    /// Appends a subtask with the given name and done flag.
    pub fn add_subtask(&mut self, name: String, status: bool)
        ensures
            final(self)@.subtasks == old(self)@.subtasks.push(
                SubtaskView { name: name@, status },
            ),
            final(self)@.name == old(self)@.name,
            final(self)@.description == old(self)@.description,
            final(self)@.status == old(self)@.status,
            final(self)@.id == old(self)@.id,
            final(self)@.due_date == old(self)@.due_date,
    {
        self.subtasks.push(Subtask { name, status });
        proof {
            assert(self@.subtasks =~= old(self)@.subtasks.push(
                SubtaskView { name: name@, status },
            ));
        }
    }

    /// Removes the subtask at `index`; later subtasks shift down by one.
    pub fn remove_subtask(&mut self, index: usize)
        requires
            index < old(self)@.subtasks.len(),
        ensures
            final(self)@.subtasks == old(self)@.subtasks.remove(index as int),
            final(self)@.name == old(self)@.name,
            final(self)@.description == old(self)@.description,
            final(self)@.status == old(self)@.status,
            final(self)@.id == old(self)@.id,
            final(self)@.due_date == old(self)@.due_date,
    {
        self.subtasks.remove(index);
        proof {
            assert(self@.subtasks =~= old(self)@.subtasks.remove(index as int));
        }
    }

    /// Flips the done flag of the subtask at `index`; all other subtasks
    /// are unchanged.
    pub fn toggle_subtask_status(&mut self, index: usize)
        requires
            index < old(self)@.subtasks.len(),
        ensures
            final(self)@.subtasks.len() == old(self)@.subtasks.len(),
            final(self)@.subtasks[index as int].status == !old(
                self,
            )@.subtasks[index as int].status,
            final(self)@.subtasks[index as int].name == old(self)@.subtasks[index as int].name,
            forall|j: int|
                0 <= j < old(self)@.subtasks.len() && j != index ==> final(self)@.subtasks[j]
                    == old(self)@.subtasks[j],
            final(self)@.name == old(self)@.name,
            final(self)@.description == old(self)@.description,
            final(self)@.status == old(self)@.status,
            final(self)@.id == old(self)@.id,
            final(self)@.due_date == old(self)@.due_date,
    {
        let flipped = !self.subtasks[index].status;
        self.subtasks[index].status = flipped;
    }

    /// Borrows the subtasks in order.
    pub fn get_subtasks(&self) -> (r: Vec<&Subtask>)
        ensures
            r@.len() == self@.subtasks.len(),
            forall|i: int| 0 <= i < r@.len() ==> r@[i]@ == self@.subtasks[i],
    {
        let mut out: Vec<&Subtask> = Vec::new();
        let mut i: usize = 0;
        while i < self.subtasks.len()
            invariant
                i <= self.subtasks.len(),
                out@.len() == i,
                forall|j: int| 0 <= j < i ==> out@[j]@ == self@.subtasks[j],
            decreases self.subtasks.len() - i,
        {
            out.push(&self.subtasks[i]);
            i = i + 1;
        }
        out
    }

    pub fn get_id(&self) -> (r: u16)
        ensures
            r == self@.id,
    {
        self.id
    }

    pub fn get_name(&self) -> (r: String)
        ensures
            r@ == self@.name,
    {
        self.name.clone()
    }

    pub fn get_description(&self) -> (r: String)
        ensures
            r@ == self@.description,
    {
        self.description.clone()
    }

    pub fn get_status(&self) -> (r: Status)
        ensures
            r == self@.status,
    {
        self.status
    }
}

} // verus!
