use std::cell::RefCell;
use std::rc::Rc;

use msgbus::Actor;
use msgbus::Command;
use msgbus::Message;
use msgbus::MessageBus;
use msgbus::PublishTask;
use msgbus::Resume;
use msgbus::SendTask;
use msgbus::Subscription;
use msgbus::Task;
use msgbus::TaskRunner;
use msgbus::TraceEvent;
use msgbus::matching::topic_matches;
use msgbus::trace::is_well_formed;

/// One scripted step of a test handler.
#[derive(Clone)]
enum Action {
    Send(String, Message),
    Publish(String, Message),
    Register(Box<ScriptActor>, String),
}

/// A test handler: on entry it records a trace event, bumps its counter and
/// notes any text payload; it then yields its scripted actions one per
/// resumption and completes.
#[derive(Clone)]
struct ScriptActor {
    id: String,
    actions: Vec<Action>,
    pc: usize,
    entered: bool,
    trace: Rc<RefCell<Vec<TraceEvent>>>,
    counter: Option<Rc<RefCell<i32>>>,
    received: Option<Rc<RefCell<Vec<String>>>>,
}

impl Actor for ScriptActor {
    fn fresh(&self) -> Self {
        let mut instance = self.clone();
        instance.pc = 0;
        instance.entered = false;
        instance
    }

    fn resume(&mut self, msg: &Message) -> Resume<Self> {
        if !self.entered {
            self.entered = true;
            self.trace
                .borrow_mut()
                .push(TraceEvent::Enter(self.id.clone()));
            if let Some(counter) = &self.counter {
                *counter.borrow_mut() += 1;
            }
            if let Some(received) = &self.received {
                if let Message::Text(text) = msg {
                    received.borrow_mut().push(text.clone());
                }
            }
        }
        if self.pc < self.actions.len() {
            let action = self.actions[self.pc].clone();
            self.pc += 1;
            match action {
                Action::Send(topic, msg) => Resume::Yielded(Command::Send { topic, msg }),
                Action::Publish(pattern, msg) => {
                    Resume::Yielded(Command::Publish { pattern, msg })
                }
                Action::Register(proto, topic) => {
                    let handler_id = proto.id.clone();
                    Resume::Yielded(Command::Register(Subscription {
                        actor_fn: *proto,
                        handler_id,
                        topic,
                        priority: 0,
                    }))
                }
            }
        } else {
            self.trace
                .borrow_mut()
                .push(TraceEvent::Exit(self.id.clone()));
            Resume::Complete
        }
    }
}

fn script(id: &str, actions: Vec<Action>, trace: &Rc<RefCell<Vec<TraceEvent>>>) -> ScriptActor {
    ScriptActor {
        id: id.to_string(),
        actions,
        pc: 0,
        entered: false,
        trace: trace.clone(),
        counter: None,
        received: None,
    }
}

fn counting(
    id: &str,
    counter: &Rc<RefCell<i32>>,
    trace: &Rc<RefCell<Vec<TraceEvent>>>,
) -> ScriptActor {
    let mut actor = script(id, Vec::new(), trace);
    actor.counter = Some(counter.clone());
    actor
}

fn subscription(actor: ScriptActor, topic: &str) -> Subscription<ScriptActor> {
    let handler_id = actor.id.clone();
    Subscription {
        actor_fn: actor,
        handler_id,
        topic: topic.to_string(),
        priority: 0,
    }
}

/// Test 1: Register an endpoint, send messages, then deregister.
#[test]
fn test_register_deregister_and_send() {
    let trace = Rc::new(RefCell::new(Vec::new()));
    let counter = Rc::new(RefCell::new(0));
    let counter_clone = counter.clone();

    let mut bus = MessageBus::new();

    // Register an endpoint which increments our counter.
    bus.register(subscription(counting("ep1", &counter, &trace), "endpoint_topic"));

    // Send a message and run.
    let actor = bus.fresh_endpoint_actor("endpoint_topic").unwrap();
    let task = Task::Send(SendTask::new(
        "endpoint_topic".to_string(),
        actor,
        Message::Unit,
    ));
    let mut runner = TaskRunner::new();
    runner.push(task);
    runner.run(1000);
    assert_eq!(*counter_clone.borrow(), 1);

    // Now deregister the endpoint and try to send another message.
    bus.deregister("endpoint_topic");
    // Message won't be delivered since endpoint is gone
    assert_eq!(*counter_clone.borrow(), 1);
}

/// Test 2: Subscribe multiple handlers, send messages, unsubscribe one and test interleaving.
#[test]
fn test_subscribe_multiple_and_unsubscribe() {
    let trace = Rc::new(RefCell::new(Vec::new()));
    let counter1 = Rc::new(RefCell::new(0));
    let counter2 = Rc::new(RefCell::new(0));

    let mut runner = TaskRunner::new();

    // Register two subscriptions on the same topic.
    runner
        .msg_bus
        .subscribe(subscription(counting("sub1", &counter1, &trace), "pubsub_topic"));
    runner
        .msg_bus
        .subscribe(subscription(counting("sub2", &counter2, &trace), "pubsub_topic"));

    // Send a message; both subscriptions should process it.
    runner.push(Task::Publish(PublishTask::new(
        "pubsub_topic".to_string(),
        Message::Unit,
    )));
    runner.run(1000);
    assert_eq!(*counter1.borrow(), 1);
    assert_eq!(*counter2.borrow(), 1);

    // Unsubscribe the first subscription.
    runner.msg_bus.remove_subscription("pubsub_topic", "sub1");

    // Send another message; only the second subscription should process it.
    runner.push(Task::Publish(PublishTask::new(
        "pubsub_topic".to_string(),
        Message::Unit,
    )));
    runner.run(1000);
    assert_eq!(*counter1.borrow(), 1);
    assert_eq!(*counter2.borrow(), 2);
}

/// Endpoint delivery, then silent drop after deregistration, all through the
/// runner's command interpreter.
#[test]
fn endpoint_delivery_then_silent_drop() {
    let trace = Rc::new(RefCell::new(Vec::new()));
    let counter = Rc::new(RefCell::new(0));

    let mut runner = TaskRunner::new();
    runner
        .msg_bus
        .register(subscription(counting("ep", &counter, &trace), "endpoint_topic"));

    runner.interpret(Command::Send {
        topic: "endpoint_topic".to_string(),
        msg: Message::Unit,
    });
    assert!(runner.run(1000));
    assert_eq!(*counter.borrow(), 1);

    runner.msg_bus.deregister("endpoint_topic");
    runner.interpret(Command::Send {
        topic: "endpoint_topic".to_string(),
        msg: Message::Unit,
    });
    assert!(runner.run(1000));
    assert_eq!(*counter.borrow(), 1);
}

/// A send to a topic with no endpoint is silently dropped: the stack empties
/// and no registered handler runs.
#[test]
fn send_to_unknown_endpoint_is_silent() {
    let trace = Rc::new(RefCell::new(Vec::new()));

    let mut runner: TaskRunner<ScriptActor> = TaskRunner::new();
    let driver = script(
        "driver",
        vec![Action::Send("nope".to_string(), Message::Unit)],
        &trace,
    );
    runner.push(Task::Send(SendTask::new(
        "nope".to_string(),
        driver,
        Message::Unit,
    )));
    assert!(runner.run(1000));
    assert_eq!(
        *trace.borrow(),
        vec![
            TraceEvent::Enter("driver".to_string()),
            TraceEvent::Exit("driver".to_string()),
        ]
    );
    assert_eq!(runner.msg_bus.endpoint_count(), 0);
    assert_eq!(runner.msg_bus.subscription_count(), 0);
}

/// Registering a handler from inside a handler, then sending to it: the
/// dynamically registered handler observes the payload exactly once.
#[test]
fn dynamic_registration_inside_handler() {
    let trace = Rc::new(RefCell::new(Vec::new()));
    let received = Rc::new(RefCell::new(Vec::new()));

    let mut printer = script("printer", Vec::new(), &trace);
    printer.received = Some(received.clone());

    let starter = script(
        "starter",
        vec![
            Action::Register(Box::new(printer), "print_topic".to_string()),
            Action::Send(
                "print_topic".to_string(),
                Message::Text("hello world".to_string()),
            ),
        ],
        &trace,
    );

    let mut runner = TaskRunner::new();
    runner.msg_bus.register(subscription(starter, "start_topic"));
    let actor = runner.msg_bus.fresh_endpoint_actor("start_topic").unwrap();
    runner.push(Task::Send(SendTask::new(
        "start_topic".to_string(),
        actor,
        Message::Text("start".to_string()),
    )));
    assert!(runner.run(1000));
    assert_eq!(*received.borrow(), vec!["hello world".to_string()]);
    assert!(runner.msg_bus.contains_endpoint("print_topic"));
}

/// Registering over an existing topic replaces the endpoint: the later
/// handler receives, the earlier one no longer does.
#[test]
fn register_replaces_existing_endpoint() {
    let trace = Rc::new(RefCell::new(Vec::new()));
    let first = Rc::new(RefCell::new(0));
    let second = Rc::new(RefCell::new(0));

    let mut runner = TaskRunner::new();
    runner
        .msg_bus
        .register(subscription(counting("first", &first, &trace), "topic"));
    runner
        .msg_bus
        .register(subscription(counting("second", &second, &trace), "topic"));
    assert_eq!(runner.msg_bus.endpoint_count(), 1);

    runner.interpret(Command::Send {
        topic: "topic".to_string(),
        msg: Message::Unit,
    });
    assert!(runner.run(1000));
    assert_eq!(*first.borrow(), 0);
    assert_eq!(*second.borrow(), 1);
}

/// Subscribing over an existing `(topic, handler_id)` key replaces the
/// subscription: only one is retained, and it is the newer one.
#[test]
fn subscribe_replaces_same_key() {
    let trace = Rc::new(RefCell::new(Vec::new()));
    let first = Rc::new(RefCell::new(0));
    let second = Rc::new(RefCell::new(0));

    let mut runner = TaskRunner::new();
    runner
        .msg_bus
        .subscribe(subscription(counting("h", &first, &trace), "topic"));
    runner
        .msg_bus
        .subscribe(subscription(counting("h", &second, &trace), "topic"));
    assert_eq!(runner.msg_bus.subscription_count(), 1);
    assert!(runner.msg_bus.contains_subscription("topic", "h"));

    runner.push(Task::Publish(PublishTask::new(
        "topic".to_string(),
        Message::Unit,
    )));
    assert!(runner.run(1000));
    assert_eq!(*first.borrow(), 0);
    assert_eq!(*second.borrow(), 1);
}

/// Deregistering an absent topic and unsubscribing an absent key are no-ops.
#[test]
fn removing_missing_entries_is_noop() {
    let trace = Rc::new(RefCell::new(Vec::new()));
    let counter = Rc::new(RefCell::new(0));

    let mut bus = MessageBus::new();
    bus.register(subscription(counting("ep", &counter, &trace), "kept"));
    bus.subscribe(subscription(counting("sub", &counter, &trace), "kept"));

    bus.deregister("missing");
    bus.remove_subscription("missing", "nobody");
    bus.remove_subscription("kept", "nobody");

    assert_eq!(bus.endpoint_count(), 1);
    assert_eq!(bus.subscription_count(), 1);
    assert!(bus.contains_endpoint("kept"));
    assert!(bus.contains_subscription("kept", "sub"));
    assert!(!bus.contains_endpoint("missing"));
}

/// The pattern relation is substring containment on the topic's bytes.
#[test]
fn pattern_matching_is_substring_containment() {
    assert!(topic_matches("", "anything"));
    assert!(topic_matches("", ""));
    assert!(topic_matches("sub", "pubsub_topic"));
    assert!(topic_matches("pubsub_topic", "pubsub_topic"));
    assert!(topic_matches("topic", "pubsub_topic"));
    assert!(!topic_matches("pubsub_topics", "pubsub_topic"));
    assert!(!topic_matches("xyz", "pubsub_topic"));
    assert!(!topic_matches("ba", "abc"));
}

/// `matching_keys` lists the matching subscriptions in insertion order.
#[test]
fn matching_keys_are_ordered_and_filtered() {
    let trace = Rc::new(RefCell::new(Vec::new()));
    let mut bus = MessageBus::new();
    bus.subscribe(subscription(script("a", Vec::new(), &trace), "orders.created"));
    bus.subscribe(subscription(script("b", Vec::new(), &trace), "orders.closed"));
    bus.subscribe(subscription(script("c", Vec::new(), &trace), "billing.created"));

    let keys = bus.matching_keys("orders");
    assert_eq!(
        keys,
        vec![
            ("orders.created".to_string(), "a".to_string()),
            ("orders.closed".to_string(), "b".to_string()),
        ]
    );
    let all = bus.matching_keys("");
    assert_eq!(all.len(), 3);
    let none = bus.matching_keys("shipping");
    assert!(none.is_empty());
}

/// A publish cursor hands out one `SendTask` per matching subscriber, then
/// reports exhaustion without moving further.
#[test]
fn publish_cursor_steps_through_matches() {
    let trace = Rc::new(RefCell::new(Vec::new()));
    let mut bus = MessageBus::new();
    bus.subscribe(subscription(script("a", Vec::new(), &trace), "topic_one"));
    bus.subscribe(subscription(script("b", Vec::new(), &trace), "topic_two"));
    bus.subscribe(subscription(script("c", Vec::new(), &trace), "other"));

    let mut cursor = PublishTask::new("topic".to_string(), Message::Unit);
    assert!(cursor.next_task(&bus).is_some());
    assert!(cursor.next_task(&bus).is_some());
    assert!(cursor.next_task(&bus).is_none());
    assert!(cursor.next_task(&bus).is_none());
}

/// A handler that keeps spawning new sends exhausts the fuel: `run` reports
/// that the stack did not drain.
#[test]
fn diverging_handlers_exhaust_fuel() {
    let trace = Rc::new(RefCell::new(Vec::new()));
    let mut runner = TaskRunner::new();
    let looper = script(
        "looper",
        vec![Action::Send("looping".to_string(), Message::Unit)],
        &trace,
    );
    runner.msg_bus.register(subscription(looper, "looping"));
    runner.interpret(Command::Send {
        topic: "looping".to_string(),
        msg: Message::Unit,
    });
    assert!(!runner.run(50));
}

/// The trace checker accepts balanced traces and rejects mismatched or
/// unclosed ones.
#[test]
fn trace_checker_judges_nesting() {
    let balanced = vec![
        TraceEvent::Enter("a".to_string()),
        TraceEvent::Enter("b".to_string()),
        TraceEvent::Exit("b".to_string()),
        TraceEvent::Exit("a".to_string()),
    ];
    assert!(is_well_formed(&balanced));

    let crossed = vec![
        TraceEvent::Enter("a".to_string()),
        TraceEvent::Enter("b".to_string()),
        TraceEvent::Exit("a".to_string()),
        TraceEvent::Exit("b".to_string()),
    ];
    assert!(!is_well_formed(&crossed));

    let unclosed = vec![TraceEvent::Enter("a".to_string())];
    assert!(!is_well_formed(&unclosed));

    let unopened = vec![TraceEvent::Exit("a".to_string())];
    assert!(!is_well_formed(&unopened));

    let empty: Vec<TraceEvent> = Vec::new();
    assert!(is_well_formed(&empty));
}

/// The diagnostic descriptions name each task and the registry contents.
#[test]
fn descriptions_render_tasks_and_registry() {
    let trace = Rc::new(RefCell::new(Vec::new()));

    let mut bus = MessageBus::new();
    bus.register(subscription(script("ep", Vec::new(), &trace), "alpha"));
    bus.subscribe(subscription(script("h1", Vec::new(), &trace), "beta"));
    assert_eq!(
        bus.describe(),
        "MessageBus\nendpoints:\nalpha: sub::alpha:ep\nsubscriptions:\nsub::beta:h1: beta\n"
    );

    let mut runner: TaskRunner<ScriptActor> = TaskRunner::new();
    assert_eq!(runner.describe(), "TaskRunner\ntasks:\n");
    runner.push(Task::Publish(PublishTask::new(
        "beta".to_string(),
        Message::Unit,
    )));
    runner.push(Task::Send(SendTask::new(
        "alpha".to_string(),
        script("ep", Vec::new(), &trace),
        Message::Unit,
    )));
    assert_eq!(
        runner.describe(),
        "TaskRunner\ntasks:\nPublishTask(pattern: beta, idx: 0)\nSendTask: alpha\n"
    );
}

/// Decimal rendering used by the descriptions.
#[test]
fn decimal_rendering_is_exact() {
    assert_eq!(msgbus::decimal::decimal_string(0), "0");
    assert_eq!(msgbus::decimal::decimal_string(7), "7");
    assert_eq!(msgbus::decimal::decimal_string(10), "10");
    assert_eq!(msgbus::decimal::decimal_string(90210), "90210");
    assert_eq!(msgbus::decimal::decimal_string(usize::MAX), usize::MAX.to_string());
}

/// A publish with no matching subscription completes silently: zero-subscriber
/// fan-out is valid.
#[test]
fn publish_with_no_subscribers_completes() {
    let mut runner: TaskRunner<ScriptActor> = TaskRunner::new();
    runner.push(Task::Publish(PublishTask::new(
        "nobody".to_string(),
        Message::Unit,
    )));
    assert!(runner.run(1000));
    assert_eq!(runner.msg_bus.subscription_count(), 0);
}

/// `run` reports a drained stack exactly when the stack is empty, whatever
/// the budget.
#[test]
fn run_reports_drained_stack() {
    let trace = Rc::new(RefCell::new(Vec::new()));
    let mut runner: TaskRunner<ScriptActor> = TaskRunner::new();
    assert!(runner.run(0));

    runner.push(Task::Send(SendTask::new(
        "idle".to_string(),
        script("idle", Vec::new(), &trace),
        Message::Unit,
    )));
    assert!(!runner.run(0));
    assert!(runner.run(1000));
}

/// `endpoint_at` hands back exactly the subscription registered under the
/// topic, and nothing for a topic without an endpoint.
#[test]
fn endpoint_at_returns_the_registered_subscription() {
    let trace = Rc::new(RefCell::new(Vec::new()));
    let mut bus = MessageBus::new();
    bus.register(subscription(script("ep", Vec::new(), &trace), "alpha"));

    let found = bus.endpoint_at("alpha").unwrap();
    assert_eq!(found.topic, "alpha");
    assert_eq!(found.handler_id, "ep");
    assert!(bus.endpoint_at("beta").is_none());

    bus.register(subscription(script("ep2", Vec::new(), &trace), "alpha"));
    let replaced = bus.endpoint_at("alpha").unwrap();
    assert_eq!(replaced.handler_id, "ep2");
}
