//! The task record: a name and a completion flag.

use vstd::prelude::*;

verus! {

/// Mathematical model of a task: the name as a character sequence and the
/// completion flag.
pub ghost struct TaskModel {
    pub name: Seq<char>,
    pub completed: bool,
}

/// A single to-do item.  Created by the add operation with
/// `completed == false`; the flag is flipped by the toggle operation.
pub struct Task {
    pub name: String,
    pub completed: bool,
}

impl View for Task {
    type V = TaskModel;

    open spec fn view(&self) -> TaskModel {
        TaskModel { name: self.name@, completed: self.completed }
    }
}

impl DeepView for Task {
    type V = TaskModel;

    open spec fn deep_view(&self) -> TaskModel {
        self@
    }
}

impl Task {
    /// A fresh task as the add operation builds it: not yet completed.
    pub fn new(name: String) -> (t: Task)
        ensures
            t@ == (TaskModel { name: name@, completed: false }),
    {
        Task { name, completed: false }
    }
}

} // verus!
