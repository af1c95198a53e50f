//! The handler authoring surface.
//!
//! A handler is a stackless coroutine: an object that is resumed with a
//! shared message and either yields a [`Command`] or completes. The bus
//! never stores a running handler outside a task, and a handler affects the
//! bus only through the commands it yields.

use vstd::prelude::*;
use crate::command::Command;
use crate::message::Message;

verus! {

/// The outcome of resuming a handler coroutine once.
pub enum Resume<H> {
    /// The handler yielded a command and is still live; it will be resumed
    /// again after the command (and every task the command spawned) has been
    /// fully processed.
    Yielded(Command<H>),
    /// The handler has finished; its task is popped from the stack.
    Complete,
}

/// A handler type schedulable by the bus.
///
/// A value of an `Actor` type is both the factory stored on a subscription
/// and the coroutine instance a task owns: `fresh` produces a new instance
/// ready to consume a message, and `resume` advances an instance by one step.
/// An instance observes the same message on every resumption, may yield any
/// number of commands before completing, and must eventually complete for
/// the task stack to drain.
///
/// The bus assumes nothing about these methods: whatever a handler does, the
/// scheduler's contracts hold of every outcome.
pub trait Actor: Sized {
    /// Produce a fresh coroutine instance, suspended at its entry point.
    fn fresh(&self) -> Self;

    /// Resume the coroutine with the message of its task: run it up to its
    /// next yield point, or to completion.
    fn resume(&mut self, msg: &Message) -> Resume<Self>;
}

} // verus!
