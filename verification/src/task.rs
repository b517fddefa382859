use vstd::prelude::*;

verus! {

/// A single task: an opaque unique id, a title fixed at creation,
/// and a completion flag that only the toggle operation flips.
pub struct Task {
    pub id: String,
    pub title: String,
    pub completed: bool,
}

/// The mathematical model of a task: both strings as character
/// sequences, the flag as itself.
pub ghost struct TaskModel {
    pub id: Seq<char>,
    pub title: Seq<char>,
    pub completed: bool,
}

impl View for Task {
    type V = TaskModel;

    open spec fn view(&self) -> TaskModel {
        TaskModel { id: self.id@, title: self.title@, completed: self.completed }
    }
}

impl Task {
    /// An exact copy; unlike a derived `Clone`, its contract says the
    /// model is preserved.
    pub fn duplicate(&self) -> (r: Task)
        ensures
            r@ == self@,
    {
        Task { id: self.id.clone(), title: self.title.clone(), completed: self.completed }
    }
}

} // verus!
