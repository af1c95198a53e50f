//! Tasks: the scheduler's units of work.
//!
//! A [`SendTask`] owns one running handler instance together with the message
//! it is resumed with. A [`PublishTask`] is a cursor over the subscriptions a
//! pattern matches; each step of the cursor synthesises one `SendTask`.

use vstd::prelude::*;
use vstd::string::StringExecFns;
use crate::actor::Actor;
use crate::actor::Resume;
use crate::bus::matching_subs;
use crate::bus::lemma_matching_subs_len;
use crate::bus::MessageBus;
use crate::decimal::decimal_digits;
use crate::decimal::decimal_string;
use crate::message::Message;

verus! {

/// One running handler instance, paired with the message it consumes.
///
/// The handler observes the same message value on every resumption. The
/// originating topic or pattern string is kept for diagnostics; popping the
/// task drops the handler instance.
pub struct SendTask<H> {
    pattern: String,
    coro: H,
    msg: Message,
}

impl<H> SendTask<H> {
    /// The topic or pattern the task was created for.
    pub closed spec fn pattern_spec(&self) -> Seq<char> {
        self.pattern@
    }

    /// The handler instance the task owns.
    pub closed spec fn coro_spec(&self) -> H {
        self.coro
    }

    /// The message the handler observes on every resumption.
    pub closed spec fn msg_spec(&self) -> Message {
        self.msg
    }

    /// A task that will resume `coro` with `msg`.
    pub fn new(pattern: String, coro: H, msg: Message) -> (r: Self)
        ensures
            r.pattern_spec() == pattern@,
            r.coro_spec() == coro,
            r.msg_spec() == msg,
    {
        SendTask { pattern, coro, msg }
    }

    /// The text of the task's diagnostic description.
    pub open spec fn desc(self) -> Seq<char> {
        "SendTask: "@ + self.pattern_spec()
    }

    /// A short human-readable description of the task.
    pub fn describe(&self) -> (r: String)
        ensures
            r@ == self.desc(),
    {
        let mut s = "SendTask: ".to_owned();
        s.append(self.pattern.as_str());
        s
    }
}

impl<H: Actor> SendTask<H> {
    /// Resume the owned handler with the task's message: run it up to its
    /// next yield point, or to completion.
    ///
    /// What the handler does is its own affair: only the handler instance
    /// changes; the task's message and diagnostic string do not.
    pub fn resume(&mut self) -> (r: Resume<H>)
        ensures
            final(self).pattern_spec() == old(self).pattern_spec(),
            final(self).msg_spec() == old(self).msg_spec(),
    {
        let msg = self.msg.clone();
        self.coro.resume(&msg)
    }
}

/// A fan-out cursor: the pattern and message of a `Publish`, plus a
/// zero-based count of how many matching subscribers have been dispatched so
/// far.
pub struct PublishTask {
    pattern: String,
    msg: Message,
    idx: usize,
}

impl PublishTask {
    /// The pattern subscribers are matched against.
    pub closed spec fn pattern_spec(&self) -> Seq<char> {
        self.pattern@
    }

    /// The message delivered to every matching subscriber.
    pub closed spec fn msg_spec(&self) -> Message {
        self.msg
    }

    /// How many matching subscribers have been dispatched so far.
    pub closed spec fn idx_spec(&self) -> nat {
        self.idx as nat
    }

    /// A cursor over the subscribers of `pattern`, starting before the first.
    pub fn new(pattern: String, msg: Message) -> (r: Self)
        ensures
            r.pattern_spec() == pattern@,
            r.msg_spec() == msg,
            r.idx_spec() == 0,
    {
        PublishTask { pattern, msg, idx: 0 }
    }

    /// The text of the cursor's diagnostic description.
    pub open spec fn desc(self) -> Seq<char> {
        "PublishTask(pattern: "@ + self.pattern_spec() + ", idx: "@ + decimal_digits(
            self.idx_spec(),
        ) + ")"@
    }

    /// A short human-readable description of the cursor.
    pub fn describe(&self) -> (r: String)
        ensures
            r@ == self.desc(),
    {
        let mut s = "PublishTask(pattern: ".to_owned();
        s.append(self.pattern.as_str());
        s.append(", idx: ");
        let digits = decimal_string(self.idx);
        s.append(digits.as_str());
        s.append(")");
        proof {
            assert(s@ =~= self.desc());
        }
        s
    }

    /// The `SendTask` for the next matching subscriber, advancing the cursor
    /// past it: a task owning a fresh handler instance of the `idx`-th
    /// subscription the pattern matches, carrying this cursor's message.
    /// `None` exactly when the cursor has passed the last matching
    /// subscriber; the cursor then stays put.
    pub fn next_task<H: Actor>(&mut self, msg_bus: &MessageBus<H>) -> (r: Option<SendTask<H>>)
        ensures
            final(self).pattern_spec() == old(self).pattern_spec(),
            final(self).msg_spec() == old(self).msg_spec(),
            match r {
                Some(task) => {
                    &&& old(self).idx_spec() < matching_subs(
                        msg_bus.subs(),
                        old(self).pattern_spec(),
                    ).len()
                    &&& final(self).idx_spec() == old(self).idx_spec() + 1
                    &&& task.pattern_spec() == old(self).pattern_spec()
                    &&& task.msg_spec() == old(self).msg_spec()
                },
                None => {
                    &&& matching_subs(msg_bus.subs(), old(self).pattern_spec()).len() <= old(
                        self,
                    ).idx_spec()
                    &&& *final(self) == *old(self)
                },
            },
    {
        match msg_bus.nth_matching(self.pattern.as_str(), self.idx) {
            Some(sub) => {
                let coro = sub.actor_fn.fresh();
                let stored = msg_bus.subscription_count();
                proof {
                    lemma_matching_subs_len(msg_bus.subs(), self.pattern@);
                    assert(self.idx < stored);
                }
                self.idx = self.idx + 1;
                Some(SendTask::new(self.pattern.clone(), coro, self.msg.clone()))
            }
            None => None,
        }
    }
}

/// A unit of scheduler work: a running handler or a fan-out cursor.
pub enum Task<H> {
    /// A running handler instance.
    Send(SendTask<H>),
    /// A fan-out cursor over the subscribers of a pattern.
    Publish(PublishTask),
}

/// The text of a task's diagnostic description.
pub open spec fn task_desc<H>(t: Task<H>) -> Seq<char> {
    match t {
        Task::Send(st) => st.desc(),
        Task::Publish(p) => p.desc(),
    }
}

impl<H> Task<H> {
    /// A short human-readable description of the task.
    pub fn describe(&self) -> (r: String)
        ensures
            r@ == task_desc(*self),
    {
        match self {
            Task::Send(st) => st.describe(),
            Task::Publish(p) => p.describe(),
        }
    }
}

} // verus!
