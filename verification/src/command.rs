//! The command protocol: the only channel by which a handler affects the bus.
//!
//! A running handler holds no reference to the registry or to the task stack.
//! To act on either, it yields a [`Command`]; the scheduler interprets one
//! command per resumption.

use vstd::prelude::*;
use crate::message::Message;
use crate::subscription::Subscription;

verus! {

/// A command yielded by a handler coroutine, interpreted by the scheduler.
pub enum Command<H> {
    /// Point-to-point delivery: resume a fresh handler of the endpoint
    /// registered at `topic` with `msg`. Silently dropped when no endpoint
    /// is registered there.
    Send { topic: String, msg: Message },
    /// Fan-out delivery: deliver `msg` to every subscription whose topic the
    /// pattern matches, one at a time, each subscriber's subtree drained
    /// before the next begins.
    Publish { pattern: String, msg: Message },
    /// Install the subscription as the endpoint of its topic, replacing any
    /// endpoint held there.
    Register(Subscription<H>),
    /// Remove the endpoint of the topic, if present; a no-op otherwise.
    Deregister(String),
    /// Add the subscription to the fan-out set, replacing any subscription
    /// with the same `(topic, handler_id)` key.
    Subscribe(Subscription<H>),
    /// Remove the subscription with the `(topic, handler_id)` key, if
    /// present; a no-op otherwise.
    Unsubscribe((String, String)),
}

} // verus!
