//! Subscriptions: the association of a topic with a handler.

use vstd::prelude::*;
use vstd::string::StringExecFns;

verus! {

/// A subscription binds a handler to a topic.
///
/// `actor_fn` is the handler factory: a prototype value whose
/// [`crate::actor::Actor::fresh`] method produces, on each call, a fresh
/// handler instance ready to consume a message. The identity of a
/// subscription is the pair `(topic, handler_id)`; `priority` and `actor_fn`
/// do not participate in identity. `priority` is carried in the data model
/// but takes no part in dispatch ordering.
pub struct Subscription<H> {
    /// The handler factory: each fresh instance made from it is one
    /// suspendable routine consuming one delivered message.
    pub actor_fn: H,
    /// Identifies the handler within its topic.
    pub handler_id: String,
    /// The topic the handler is bound to.
    pub topic: String,
    /// Reserved: takes no part in dispatch ordering.
    pub priority: u8,
}

impl<H> Subscription<H> {
    /// The identity of a subscription: its `(topic, handler_id)` pair.
    pub open spec fn key(self) -> (Seq<char>, Seq<char>) {
        (self.topic@, self.handler_id@)
    }

    /// The text of the subscription's diagnostic description.
    pub open spec fn desc(self) -> Seq<char> {
        "sub::"@ + self.topic@ + ":"@ + self.handler_id@
    }

    /// A short human-readable description of the subscription.
    pub fn describe(&self) -> (r: String)
        ensures
            r@ == self.desc(),
    {
        let mut s = "sub::".to_owned();
        s.append(self.topic.as_str());
        s.append(":");
        s.append(self.handler_id.as_str());
        proof {
            assert(s@ =~= self.desc());
        }
        s
    }
}

} // verus!
