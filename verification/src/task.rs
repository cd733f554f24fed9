//! The task record and its mathematical view.

use vstd::prelude::*;

verus! {

/// What a task is, as a plain mathematical value.
pub struct TaskView {
    pub id: nat,
    pub description: Seq<char>,
    pub completed: bool,
}

/// One entry of the task list.
#[derive(Debug)]
pub struct Task {
    /// Identifies the task among those currently stored.
    pub id: u32,
    /// What is to be done, in the user's words.
    pub description: String,
    /// Whether the task has been done.
    pub completed: bool,
}

impl View for Task {
    type V = TaskView;

    open spec fn view(&self) -> TaskView {
        TaskView { id: self.id as nat, description: self.description@, completed: self.completed }
    }
}

impl Task {
    /// A task that has not been done yet.
    pub fn new(id: u32, description: String) -> (task: Task)
        ensures
            task@ == (TaskView { id: id as nat, description: description@, completed: false }),
    {
        Task { id, description, completed: false }
    }
}

} // verus!
