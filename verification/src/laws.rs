//! Laws of the bus: what holds of every reachable registry state, of every
//! sequence of registry operations, and of every scheduler step.

use vstd::prelude::*;
use crate::bus::has_key;
use crate::bus::has_topic;
use crate::bus::key_index;
use crate::bus::lemma_key_index_unique;
use crate::bus::lemma_register_preserves_unique;
use crate::bus::lemma_subscribe_preserves_unique;
use crate::bus::lemma_unique_topics_remove;
use crate::bus::spec_deregister;
use crate::bus::spec_register;
use crate::bus::spec_subscribe;
use crate::bus::spec_unsubscribe;
use crate::bus::topic_index;
use crate::bus::unique_keys;
use crate::bus::unique_topics;
use crate::bus::MessageBus;
use crate::command::Command;
use crate::runner::interp_rel;
use crate::runner::publish_step_rel;
use crate::runner::send_step_rel;
use crate::runner::TaskRunner;
use crate::subscription::Subscription;
use crate::task::PublishTask;
use crate::task::SendTask;
use crate::task::Task;

verus! {

/// The endpoint store has at most one entry per topic: in a well-formed
/// registry, two endpoint positions holding the same topic are the same
/// position.
pub proof fn lemma_endpoints_one_per_topic<H>(bus: MessageBus<H>, i: int, j: int)
    requires
        bus.wf(),
        0 <= i < bus.eps().len(),
        0 <= j < bus.eps().len(),
        bus.eps()[i].topic@ == bus.eps()[j].topic@,
    ensures
        i == j,
{
    if i < j {
        assert(bus.eps()[i].topic@ != bus.eps()[j].topic@);
    } else if j < i {
        assert(bus.eps()[j].topic@ != bus.eps()[i].topic@);
    }
}

/// A subscription is uniquely addressable by its `(topic, handler_id)` key:
/// in a well-formed registry, two subscription positions holding the same key
/// are the same position.
pub proof fn lemma_subscriptions_one_per_key<H>(bus: MessageBus<H>, i: int, j: int)
    requires
        bus.wf(),
        0 <= i < bus.subs().len(),
        0 <= j < bus.subs().len(),
        bus.subs()[i].key() == bus.subs()[j].key(),
    ensures
        i == j,
{
    if i < j {
        assert(bus.subs()[i].key() != bus.subs()[j].key());
    } else if j < i {
        assert(bus.subs()[j].key() != bus.subs()[i].key());
    }
}

/// One step of a register/deregister history on a fixed topic.
pub enum EndpointOp<H> {
    /// Install this subscription as the topic's endpoint.
    Register(Subscription<H>),
    /// Remove the topic's endpoint.
    Deregister,
}

/// The endpoint store after a history of register/deregister steps on
/// `topic`, applied left to right.
pub open spec fn apply_endpoint_ops<H>(
    eps: Seq<Subscription<H>>,
    topic: Seq<char>,
    ops: Seq<EndpointOp<H>>,
) -> Seq<Subscription<H>>
    decreases ops.len(),
{
    if ops.len() == 0 {
        eps
    } else {
        let rest = apply_endpoint_ops(eps, topic, ops.drop_last());
        match ops.last() {
            EndpointOp::Register(sub) => spec_register(rest, sub),
            EndpointOp::Deregister => spec_deregister(rest, topic),
        }
    }
}

/// Every registration of the history targets `topic`.
pub open spec fn endpoint_ops_on_topic<H>(topic: Seq<char>, ops: Seq<EndpointOp<H>>) -> bool {
    forall|k: int|
        0 <= k < ops.len() ==> (#[trigger] ops[k] matches EndpointOp::Register(sub) ==> sub.topic@
            == topic)
}

/// Last write wins: after any non-empty history of register/deregister steps
/// on a topic, the endpoint store holds that topic exactly when the last step
/// was a registration; and the store stays well-formed.
pub proof fn lemma_last_registration_wins<H>(
    eps: Seq<Subscription<H>>,
    topic: Seq<char>,
    ops: Seq<EndpointOp<H>>,
)
    requires
        unique_topics(eps),
        ops.len() > 0,
        endpoint_ops_on_topic(topic, ops),
    ensures
        unique_topics(apply_endpoint_ops(eps, topic, ops)),
        has_topic(apply_endpoint_ops(eps, topic, ops), topic) == (ops.last()
            is Register),
    decreases ops.len(),
{
    let rest = apply_endpoint_ops(eps, topic, ops.drop_last());
    if ops.len() == 1 {
        assert(ops.drop_last().len() == 0);
        assert(rest == eps);
    } else {
        assert(endpoint_ops_on_topic(topic, ops.drop_last())) by {
            assert(forall|k: int|
                0 <= k < ops.drop_last().len() ==> ops.drop_last()[k] == ops[k]);
        }
        lemma_last_registration_wins(eps, topic, ops.drop_last());
    }
    match ops.last() {
        EndpointOp::Register(sub) => {
            assert(sub.topic@ == topic);
            lemma_register_preserves_unique(rest, sub);
            let out = spec_register(rest, sub);
            assert(out.last() == sub);
            assert(has_topic(out, topic));
        },
        EndpointOp::Deregister => {
            let out = spec_deregister(rest, topic);
            if has_topic(rest, topic) {
                let i = topic_index(rest, topic);
                assert(0 <= i < rest.len() && rest[i].topic@ == topic);
                lemma_unique_topics_remove(rest, i);
                assert(!has_topic(out, topic));
            } else {
                assert(out == rest);
            }
        },
    }
}

/// Subscribing a second handler under an already-used key retains exactly one
/// subscription with that key, and it is the newer one: identity is the
/// `(topic, handler_id)` pair, and the later `actor_fn` supersedes.
pub proof fn lemma_subscribe_same_key_replaces<H>(
    subs: Seq<Subscription<H>>,
    s1: Subscription<H>,
    s2: Subscription<H>,
)
    requires
        unique_keys(subs),
        s1.key() == s2.key(),
    ensures
        ({
            let after = spec_subscribe(spec_subscribe(subs, s1), s2);
            &&& unique_keys(after)
            &&& has_key(after, s2.key())
            &&& forall|i: int|
                0 <= i < after.len() && #[trigger] after[i].key() == s2.key() ==> after[i] == s2
        }),
{
    let mid = spec_subscribe(subs, s1);
    lemma_subscribe_preserves_unique(subs, s1);
    assert(mid.last() == s1);
    lemma_subscribe_preserves_unique(mid, s2);
    let after = spec_subscribe(mid, s2);
    assert(after.last() == s2);
    assert(has_key(after, s2.key()));
    assert forall|i: int|
        0 <= i < after.len() && #[trigger] after[i].key() == s2.key() implies after[i] == s2 by {
        lemma_key_index_unique(after, s2.key(), i);
        lemma_key_index_unique(after, s2.key(), after.len() - 1);
    }
}

/// Round trip: registering a subscription under a topic the store does not
/// hold and then deregistering that topic leaves the endpoint store exactly
/// as it was. (With the topic already held, the pair would instead drop the
/// prior endpoint.)
pub proof fn lemma_register_deregister_round_trip<H>(
    eps: Seq<Subscription<H>>,
    sub: Subscription<H>,
)
    requires
        unique_topics(eps),
        !has_topic(eps, sub.topic@),
    ensures
        spec_deregister(spec_register(eps, sub), sub.topic@) == eps,
{
    let pushed = spec_register(eps, sub);
    assert(pushed == eps.push(sub));
    assert(pushed[eps.len() as int] == sub);
    assert(has_topic(pushed, sub.topic@));
    let c = topic_index(pushed, sub.topic@);
    assert(0 <= c < pushed.len() && pushed[c].topic@ == sub.topic@);
    if c < eps.len() {
        assert(pushed[c] == eps[c]);
        assert(has_topic(eps, sub.topic@));
    }
    assert(c == eps.len());
    assert(pushed.remove(c) =~= eps);
}

/// Round trip: subscribing a handler under a key the store does not hold and
/// then unsubscribing that key leaves the subscription store exactly as it
/// was. (With the key already held, the pair would instead drop the prior
/// subscription.)
pub proof fn lemma_subscribe_unsubscribe_round_trip<H>(
    subs: Seq<Subscription<H>>,
    sub: Subscription<H>,
)
    requires
        unique_keys(subs),
        !has_key(subs, sub.key()),
    ensures
        spec_unsubscribe(spec_subscribe(subs, sub), sub.key()) == subs,
{
    let pushed = spec_subscribe(subs, sub);
    assert(pushed == subs.push(sub));
    assert(pushed[subs.len() as int] == sub);
    assert(has_key(pushed, sub.key()));
    let c = key_index(pushed, sub.key());
    assert(0 <= c < pushed.len() && pushed[c].key() == sub.key());
    if c < subs.len() {
        assert(pushed[c] == subs[c]);
        assert(has_key(subs, sub.key()));
    }
    assert(c == subs.len());
    assert(pushed.remove(c) =~= subs);
}

/// Interpreting a command never disturbs the stack it was interpreted above:
/// the prior tasks stay in place, in order, below whatever the command
/// pushed.
pub proof fn lemma_interp_preserves_stack<H>(
    pre_tasks: Seq<Task<H>>,
    pre_bus: MessageBus<H>,
    cmd: Command<H>,
    post: TaskRunner<H>,
)
    requires
        interp_rel(pre_tasks, pre_bus, cmd, post),
    ensures
        post.tasks@.len() >= pre_tasks.len(),
        forall|k: int| 0 <= k < pre_tasks.len() ==> post.tasks@[k] == pre_tasks[k],
{
    match cmd {
        Command::Send { topic, msg } => {
            if has_topic(pre_bus.eps(), topic@) {
                let st = choose|st: SendTask<H>|
                    {
                        &&& st.pattern_spec() == topic@
                        &&& st.msg_spec() == msg
                        &&& post.tasks@ == pre_tasks.push(Task::Send(st))
                    };
                assert(post.tasks@ == pre_tasks.push(Task::Send(st)));
            }
        },
        Command::Publish { pattern, msg } => {
            let pt = choose|pt: PublishTask|
                {
                    &&& pt.pattern_spec() == pattern@
                    &&& pt.msg_spec() == msg
                    &&& pt.idx_spec() == 0
                    &&& post.tasks@ == pre_tasks.push(Task::Publish(pt))
                };
            assert(post.tasks@ == pre_tasks.push(Task::Publish(pt)));
        },
        Command::Register(sub) => {},
        Command::Deregister(topic) => {},
        Command::Subscribe(sub) => {},
        Command::Unsubscribe(key) => {},
    }
}

/// The scheduler half of depth-first delivery: one step acts only at the top
/// of the stack. Every task below the old top stays in place, in order, so a
/// suspended sender cannot resume before everything stacked above it has
/// drained.
pub proof fn lemma_step_preserves_lower_stack<H>(pre: TaskRunner<H>, post: TaskRunner<H>)
    requires
        send_step_rel(pre, post) || publish_step_rel(pre, post),
    ensures
        post.tasks@.len() >= pre.tasks@.len() - 1,
        forall|k: int| 0 <= k < pre.tasks@.len() - 1 ==> post.tasks@[k] == pre.tasks@[k],
{
    let lower = pre.tasks@.drop_last();
    if send_step_rel(pre, post) && !(post.tasks@ == lower && post.msg_bus == pre.msg_bus) {
        let (st, cmd) = choose|st: SendTask<H>, cmd: Command<H>|
            {
                &&& st.pattern_spec() == pre.tasks@.last()->Send_0.pattern_spec()
                &&& st.msg_spec() == pre.tasks@.last()->Send_0.msg_spec()
                &&& #[trigger] interp_rel(lower.push(Task::Send(st)), pre.msg_bus, cmd, post)
            };
        lemma_interp_preserves_stack(lower.push(Task::Send(st)), pre.msg_bus, cmd, post);
        assert forall|k: int| 0 <= k < pre.tasks@.len() - 1 implies post.tasks@[k]
            == pre.tasks@[k] by {
            assert(lower.push(Task::Send(st))[k] == lower[k]);
        }
    } else if publish_step_rel(pre, post) {
        let p0 = pre.tasks@.last()->Publish_0;
        if p0.idx_spec() < crate::bus::matching_subs(pre.msg_bus.subs(), p0.pattern_spec()).len() {
            let (pt, st) = choose|pt: PublishTask, st: SendTask<H>|
                {
                    &&& pt.pattern_spec() == p0.pattern_spec()
                    &&& pt.msg_spec() == p0.msg_spec()
                    &&& pt.idx_spec() == p0.idx_spec() + 1
                    &&& st.pattern_spec() == p0.pattern_spec()
                    &&& st.msg_spec() == p0.msg_spec()
                    &&& post.tasks@ == lower.push(Task::Publish(pt)).push(Task::Send(st))
                };
            assert(post.tasks@ == lower.push(Task::Publish(pt)).push(Task::Send(st)));
        }
    }
}

} // verus!
