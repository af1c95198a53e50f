//! The scheduler: a LIFO task stack driving handlers to completion.
//!
//! On each step the runner takes the top task. A running handler is resumed:
//! if it yields a command the task stays (below whatever tasks the command
//! spawns), if it completes the task is popped. A fan-out cursor either
//! pushes the `SendTask` of its next matching subscriber above itself or,
//! exhausted, is popped. The LIFO discipline is what makes delivery
//! depth-first: a callee's subtree is fully drained before its caller
//! resumes.

use vstd::prelude::*;
use vstd::string::StringExecFns;
use crate::actor::Actor;
use crate::actor::Resume;
use crate::bus::has_topic;
use crate::bus::matching_subs;
use crate::bus::spec_deregister;
use crate::bus::spec_register;
use crate::bus::spec_subscribe;
use crate::bus::spec_unsubscribe;
use crate::bus::MessageBus;
use crate::command::Command;
use crate::subscription::Subscription;
use crate::task::task_desc;
use crate::task::PublishTask;
use crate::task::SendTask;
use crate::task::Task;

verus! {

/// The scheduler: the task stack and the registry it interprets commands
/// against.
pub struct TaskRunner<H> {
    /// The task stack; the last element is the top.
    pub tasks: Vec<Task<H>>,
    /// The registry, owned by the runner; handlers reach it only through
    /// yielded commands.
    pub msg_bus: MessageBus<H>,
}

/// How one command transforms the scheduler: `post` is a state the scheduler
/// may be in after interpreting `cmd` against the stack `pre_tasks` and the
/// registry `pre_bus`.
///
/// Every case is exact but for the handler instance inside a pushed task,
/// which comes from a handler factory the bus assumes nothing about.
pub open spec fn interp_rel<H>(
    pre_tasks: Seq<Task<H>>,
    pre_bus: MessageBus<H>,
    cmd: Command<H>,
    post: TaskRunner<H>,
) -> bool {
    match cmd {
        Command::Send { topic, msg } => {
            &&& post.msg_bus == pre_bus
            &&& if has_topic(pre_bus.eps(), topic@) {
                exists|st: SendTask<H>|
                    {
                        &&& #[trigger] st.pattern_spec() == topic@
                        &&& st.msg_spec() == msg
                        &&& post.tasks@ == pre_tasks.push(Task::Send(st))
                    }
            } else {
                post.tasks@ == pre_tasks
            }
        },
        Command::Publish { pattern, msg } => {
            &&& post.msg_bus == pre_bus
            &&& exists|pt: PublishTask|
                {
                    &&& #[trigger] pt.pattern_spec() == pattern@
                    &&& pt.msg_spec() == msg
                    &&& pt.idx_spec() == 0
                    &&& post.tasks@ == pre_tasks.push(Task::Publish(pt))
                }
        },
        Command::Register(sub) => {
            &&& post.tasks@ == pre_tasks
            &&& post.msg_bus.eps() == spec_register(pre_bus.eps(), sub)
            &&& post.msg_bus.subs() == pre_bus.subs()
        },
        Command::Deregister(topic) => {
            &&& post.tasks@ == pre_tasks
            &&& post.msg_bus.eps() == spec_deregister(pre_bus.eps(), topic@)
            &&& post.msg_bus.subs() == pre_bus.subs()
        },
        Command::Subscribe(sub) => {
            &&& post.tasks@ == pre_tasks
            &&& post.msg_bus.subs() == spec_subscribe(pre_bus.subs(), sub)
            &&& post.msg_bus.eps() == pre_bus.eps()
        },
        Command::Unsubscribe(key) => {
            &&& post.tasks@ == pre_tasks
            &&& post.msg_bus.subs() == spec_unsubscribe(pre_bus.subs(), (key.0@, key.1@))
            &&& post.msg_bus.eps() == pre_bus.eps()
        },
    }
}

/// How one step transforms the scheduler when the top of the stack is a
/// running handler: either the handler completed and its task is popped with
/// the registry untouched, or it yielded some command, the task stayed (with
/// its handler instance advanced, its message and diagnostic string intact),
/// and the command was interpreted above it.
pub open spec fn send_step_rel<H>(pre: TaskRunner<H>, post: TaskRunner<H>) -> bool {
    &&& pre.tasks@.len() > 0
    &&& (pre.tasks@.last() matches Task::Send(s0) && {
        ||| (post.tasks@ == pre.tasks@.drop_last() && post.msg_bus == pre.msg_bus)
        ||| (exists|st: SendTask<H>, cmd: Command<H>|
            {
                &&& st.pattern_spec() == s0.pattern_spec()
                &&& st.msg_spec() == s0.msg_spec()
                &&& #[trigger] interp_rel(
                    pre.tasks@.drop_last().push(Task::Send(st)),
                    pre.msg_bus,
                    cmd,
                    post,
                )
            })
    })
}

/// How one step transforms the scheduler when the top of the stack is a
/// fan-out cursor: while subscribers remain, the cursor advances by one and
/// the `SendTask` of the next matching subscriber is pushed above it;
/// exhausted, it is popped. The registry is never touched.
pub open spec fn publish_step_rel<H>(pre: TaskRunner<H>, post: TaskRunner<H>) -> bool {
    &&& pre.tasks@.len() > 0
    &&& post.msg_bus == pre.msg_bus
    &&& (pre.tasks@.last() matches Task::Publish(p0) && {
        if p0.idx_spec() < matching_subs(pre.msg_bus.subs(), p0.pattern_spec()).len() {
            exists|pt: PublishTask, st: SendTask<H>|
                {
                    &&& #[trigger] pt.pattern_spec() == p0.pattern_spec()
                    &&& pt.msg_spec() == p0.msg_spec()
                    &&& pt.idx_spec() == p0.idx_spec() + 1
                    &&& #[trigger] st.pattern_spec() == p0.pattern_spec()
                    &&& st.msg_spec() == p0.msg_spec()
                    &&& post.tasks@ == pre.tasks@.drop_last().push(Task::Publish(pt)).push(
                        Task::Send(st),
                    )
                }
        } else {
            post.tasks@ == pre.tasks@.drop_last()
        }
    })
}

/// How one scheduler step transforms the runner, whatever tops the stack: an
/// empty stack is left untouched, a running handler steps by
/// [`send_step_rel`], a fan-out cursor by [`publish_step_rel`].
pub open spec fn step_rel<H>(pre: TaskRunner<H>, post: TaskRunner<H>) -> bool {
    if pre.tasks@.len() == 0 {
        post.tasks@ == pre.tasks@ && post.msg_bus == pre.msg_bus
    } else if pre.tasks@.last() is Send {
        send_step_rel(pre, post)
    } else {
        publish_step_rel(pre, post)
    }
}

/// The runner `post` is reachable from `pre` by exactly `n` scheduler steps.
pub open spec fn reaches<H>(pre: TaskRunner<H>, post: TaskRunner<H>, n: nat) -> bool
    decreases n,
{
    if n == 0 {
        post.tasks@ == pre.tasks@ && post.msg_bus == pre.msg_bus
    } else {
        exists|mid: TaskRunner<H>|
            reaches(pre, mid, (n - 1) as nat) && #[trigger] step_rel(mid, post)
    }
}

impl<H> TaskRunner<H> {
    /// Well-formedness: the registry keeps at most one endpoint per topic and
    /// at most one subscription per key. Established by `new`, preserved by
    /// every operation.
    pub open spec fn wf(&self) -> bool {
        self.msg_bus.wf()
    }

    /// A runner with an empty stack and an empty registry.
    pub fn new() -> (r: Self)
        ensures
            r.tasks@ == Seq::<Task<H>>::empty(),
            r.msg_bus.eps() == Seq::<Subscription<H>>::empty(),
            r.msg_bus.subs() == Seq::<Subscription<H>>::empty(),
            r.wf(),
    {
        TaskRunner { tasks: Vec::new(), msg_bus: MessageBus::new() }
    }

    /// Place a task on top of the stack.
    pub fn push(&mut self, task: Task<H>)
        ensures
            final(self).tasks@ == old(self).tasks@.push(task),
            final(self).msg_bus == old(self).msg_bus,
    {
        self.tasks.push(task);
    }

    /// The text of the stack's diagnostic description: one line per task,
    /// bottom of the stack first.
    pub open spec fn stack_desc(tasks: Seq<Task<H>>) -> Seq<char>
        decreases tasks.len(),
    {
        if tasks.len() == 0 {
            Seq::empty()
        } else {
            Self::stack_desc(tasks.drop_last()) + task_desc(tasks.last()) + "\n"@
        }
    }

    /// A human-readable description of the runner: each task on the stack,
    /// one per line, bottom first.
    pub fn describe(&self) -> (r: String)
        ensures
            r@ == "TaskRunner\ntasks:\n"@ + Self::stack_desc(self.tasks@),
    {
        let mut s = "TaskRunner\ntasks:\n".to_owned();
        let len: usize = self.tasks.len();
        let mut i: usize = 0;
        proof {
            assert(self.tasks@.take(0) =~= Seq::<Task<H>>::empty());
            assert(s@ =~= "TaskRunner\ntasks:\n"@ + Self::stack_desc(self.tasks@.take(0)));
        }
        while i < len
            invariant
                len == self.tasks@.len(),
                0 <= i <= len,
                s@ == "TaskRunner\ntasks:\n"@ + Self::stack_desc(self.tasks@.take(i as int)),
            decreases len - i,
        {
            let line = self.tasks[i].describe();
            s.append(line.as_str());
            s.append("\n");
            proof {
                assert(self.tasks@.take(i as int + 1).drop_last() =~= self.tasks@.take(i as int));
                assert(self.tasks@.take(i as int + 1).last() == self.tasks@[i as int]);
                assert(s@ =~= "TaskRunner\ntasks:\n"@ + Self::stack_desc(
                    self.tasks@.take(i as int + 1),
                ));
            }
            i = i + 1;
        }
        proof {
            assert(self.tasks@.take(len as int) =~= self.tasks@);
        }
        s
    }

    /// Remove and return the top task, if any.
    pub fn pop(&mut self) -> (r: Option<Task<H>>)
        ensures
            final(self).msg_bus == old(self).msg_bus,
            match r {
                Some(t) => old(self).tasks@.len() > 0 && t == old(self).tasks@.last()
                    && final(self).tasks@ == old(self).tasks@.drop_last(),
                None => old(self).tasks@.len() == 0 && final(self).tasks@ == old(self).tasks@,
            },
    {
        self.tasks.pop()
    }
}

impl<H> Default for TaskRunner<H> {
    /// A runner with an empty stack and an empty registry, as `new` builds
    /// it.
    fn default() -> (r: Self)
        ensures
            r.tasks@ == Seq::<Task<H>>::empty(),
            r.msg_bus.eps() == Seq::<Subscription<H>>::empty(),
            r.msg_bus.subs() == Seq::<Subscription<H>>::empty(),
            r.wf(),
    {
        TaskRunner::new()
    }
}

impl<H: Actor> TaskRunner<H> {
    /// Interpret one yielded command: mutate the registry, or push the task
    /// the command asks for. A `Send` to a topic without an endpoint is
    /// silently dropped.
    pub fn interpret(&mut self, cmd: Command<H>)
        requires
            old(self).wf(),
        ensures
            final(self).wf(),
            interp_rel(old(self).tasks@, old(self).msg_bus, cmd, *final(self)),
    {
        match cmd {
            Command::Send { topic, msg } => {
                let ghost tv = topic@;
                let ghost gm = msg;
                match self.msg_bus.fresh_endpoint_actor(topic.as_str()) {
                    Some(coro) => {
                        let t = SendTask::new(topic, coro, msg);
                        let ghost gt = t;
                        self.tasks.push(Task::Send(t));
                        proof {
                            assert(gt.pattern_spec() == tv && gt.msg_spec() == gm);
                        }
                    },
                    None => {},
                }
            },
            Command::Publish { pattern, msg } => {
                let ghost pv = pattern@;
                let ghost gm = msg;
                let p = PublishTask::new(pattern, msg);
                let ghost gp = p;
                self.tasks.push(Task::Publish(p));
                proof {
                    assert(gp.pattern_spec() == pv && gp.msg_spec() == gm && gp.idx_spec() == 0);
                }
            },
            Command::Register(sub) => {
                self.msg_bus.register(sub);
            },
            Command::Deregister(topic) => {
                self.msg_bus.deregister(topic.as_str());
            },
            Command::Subscribe(sub) => {
                self.msg_bus.subscribe(sub);
            },
            Command::Unsubscribe(key) => {
                self.msg_bus.remove_subscription(key.0.as_str(), key.1.as_str());
            },
        }
    }

    /// Advance the scheduler by one unit of work: act on the top task as the
    /// step relations say; with an empty stack, do nothing.
    pub fn step(&mut self)
        requires
            old(self).wf(),
        ensures
            final(self).wf(),
            old(self).tasks@.len() == 0 ==> final(self).tasks@ == old(self).tasks@
                && final(self).msg_bus == old(self).msg_bus,
            (old(self).tasks@.len() > 0 && old(self).tasks@.last() is Send) ==> send_step_rel(
                *old(self),
                *final(self),
            ),
            (old(self).tasks@.len() > 0 && old(self).tasks@.last() is Publish)
                ==> publish_step_rel(*old(self), *final(self)),
    {
        match self.pop() {
            None => {},
            Some(Task::Send(mut send)) => {
                match send.resume() {
                    Resume::Yielded(cmd) => {
                        let ghost gs = send;
                        let ghost gc = cmd;
                        self.tasks.push(Task::Send(send));
                        self.interpret(cmd);
                        proof {
                            assert(gs.pattern_spec() == old(self).tasks@.last()->Send_0.pattern_spec());
                            assert(interp_rel(
                                old(self).tasks@.drop_last().push(Task::Send(gs)),
                                old(self).msg_bus,
                                gc,
                                *self,
                            ));
                        }
                    },
                    Resume::Complete => {},
                }
            },
            Some(Task::Publish(mut publish)) => {
                match publish.next_task(&self.msg_bus) {
                    Some(st) => {
                        let ghost gp = publish;
                        self.tasks.push(Task::Publish(publish));
                        self.tasks.push(Task::Send(st));
                        proof {
                            assert(gp.pattern_spec() == old(self).tasks@.last()->Publish_0.pattern_spec());
                        }
                    },
                    None => {},
                }
            },
        }
    }

    /// Call `step` until the stack is empty, but at most `fuel` times: a
    /// terminating run is exactly one that ends with an empty stack. The
    /// budget exists because a handler that never completes, or a pair of
    /// handlers that keep sending to each other, would otherwise hold the
    /// scheduler forever; such divergence is a bug in the handlers, not a
    /// condition the scheduler recovers from.
    /// The final state is whatever the handlers made of the initial one, but
    /// never more: it is reachable from the initial state by at most `fuel`
    /// scheduler steps, the budget was fully spent whenever the stack did not
    /// drain, and an already-empty stack is left untouched.
    pub fn run(&mut self, fuel: u64) -> (drained: bool)
        requires
            old(self).wf(),
        ensures
            final(self).wf(),
            drained == (final(self).tasks@.len() == 0),
            old(self).tasks@.len() == 0 ==> final(self).tasks@ == old(self).tasks@
                && final(self).msg_bus == old(self).msg_bus && drained,
            exists|n: nat|
                n <= fuel && #[trigger] reaches(*old(self), *final(self), n) && (!drained ==> n
                    == fuel),
    {
        let mut steps: u64 = 0;
        proof {
            assert(reaches(*old(self), *self, 0));
        }
        while steps < fuel && !self.tasks.is_empty()
            invariant
                self.wf(),
                steps <= fuel,
                reaches(*old(self), *self, steps as nat),
                old(self).tasks@.len() == 0 ==> steps == 0,
            decreases fuel - steps,
        {
            proof {
                if old(self).tasks@.len() == 0 {
                    assert(self.tasks@ == old(self).tasks@);
                    assert(false);
                }
            }
            let ghost mid = *self;
            self.step();
            steps = steps + 1;
            proof {
                assert(step_rel(mid, *self));
                assert(reaches(*old(self), mid, (steps - 1) as nat) && step_rel(mid, *self));
                assert(reaches(*old(self), *self, steps as nat));
            }
        }
        let drained = self.tasks.is_empty();
        proof {
            if old(self).tasks@.len() == 0 {
                assert(self.tasks@ == old(self).tasks@);
            }
            assert(steps as nat <= fuel && reaches(*old(self), *self, steps as nat) && (!drained
                ==> steps as nat == fuel));
        }
        drained
    }
}

} // verus!
