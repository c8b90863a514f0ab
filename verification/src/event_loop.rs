//! The messages of the event loop: a task to run, or the request to stop.

use vstd::prelude::*;

verus! {

/// A message that the event loop accepts: a task, or none to ask the loop to exit.
pub struct EventLoopMsg<F>(Option<F>);

impl<F: FnOnce()> EventLoopMsg<F> {
    /// The task the message carries, if any.
    pub closed spec fn task(&self) -> Option<F> {
        self.0
    }

    /// A message asking the event loop to run `f`.
    pub fn new(f: F) -> (r: Self)
        ensures
            r.task() == Some(f),
    {
        EventLoopMsg(Some(f))
    }

    /// A message asking the event loop to exit, for a graceful termination.
    pub fn terminator() -> (r: Self)
        ensures
            r.task() is None,
    {
        EventLoopMsg(None)
    }

    /// Whether the message asks the loop to exit.
    pub fn is_terminator(&self) -> (r: bool)
        ensures
            r == (self.task() is None),
    {
        self.0.is_none()
    }

    /// The debug text of the message: whether it carries a task.
    pub fn debug_text(&self) -> (r: String)
        ensures
            r@ == (if self.task() is Some {
                "EventLoopMsg with some inner"@
            } else {
                "EventLoopMsg with no inner"@
            }),
    {
        if self.0.is_some() {
            String::from_str("EventLoopMsg with some inner")
        } else {
            String::from_str("EventLoopMsg with no inner")
        }
    }

    /// What the loop does with the message: run the task it returns, or exit on `None`.
    pub fn into_task(self) -> (r: Option<F>)
        ensures
            r == self.task(),
    {
        self.0
    }
}

} // verus!
