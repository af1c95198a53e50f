//! An in-process, single-threaded, coroutine-driven message bus.
//!
//! Handlers are suspendable routines (values of a type implementing
//! [`actor::Actor`]) that, on each resumption, observe a shared message and
//! may yield commands back to the bus: send, publish, register, deregister,
//! subscribe, unsubscribe. The scheduler ([`runner::TaskRunner`]) interprets
//! those commands on an explicit LIFO task stack, which gives deterministic,
//! depth-first causal ordering between a sender and its recipients.

pub mod actor;
pub mod bus;
pub mod command;
pub mod decimal;
pub mod laws;
pub mod matching;
pub mod message;
pub mod runner;
pub mod subscription;
pub mod task;
pub mod trace;

pub use actor::Actor;
pub use actor::Resume;
pub use bus::MessageBus;
pub use command::Command;
pub use message::Message;
pub use runner::TaskRunner;
pub use subscription::Subscription;
pub use task::PublishTask;
pub use task::SendTask;
pub use task::Task;
pub use trace::TraceEvent;
