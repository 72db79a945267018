//! The keyboard task.

use vstd::prelude::*;

verus! {

/// A cooperative task, known by its number.
pub struct SimpleTask {
    id: usize,
}

impl SimpleTask {
    /// The number that the task was made with.
    pub closed spec fn id(&self) -> usize {
        self.id
    }

    /// A task with the number `id`.
    pub fn new(id: usize) -> (task: Self)
        ensures
            task.id() == id,
    {
        SimpleTask { id }
    }

    /// Gives the task a turn. A turn changes nothing.
    pub fn poll(&mut self)
        ensures
            *final(self) == *old(self),
    {
    }
}

/// The task that echoes key presses; it is task number 1.
pub fn print_keypresses() -> (task: SimpleTask)
    ensures
        task.id() == 1,
{
    SimpleTask::new(1)
}

} // verus!
