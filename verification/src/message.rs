//! The message payload carried by the bus.
//!
//! The bus never inspects a payload: it only moves messages from a sender to
//! the handlers of the addressed topic, handing every recipient the same
//! value. Handlers that care about a concrete payload match on the variant
//! themselves. The payload is a sum of the forms the bus is used with: the
//! unit signal and a text value.

use vstd::prelude::*;

verus! {

/// A message payload. The bus treats it as opaque: it is cloned for each
/// delivery and never mutated, so every handler of a dispatch observes the
/// same value.
pub enum Message {
    /// A bare signal with no payload.
    Unit,
    /// A text payload.
    Text(String),
}

impl Clone for Message {
    /// Cloning a message yields the very same value, so all recipients of a
    /// dispatch observe equal payloads.
    fn clone(&self) -> (res: Self)
        ensures
            res == *self,
    {
        match self {
            Message::Unit => Message::Unit,
            Message::Text(s) => Message::Text(s.clone()),
        }
    }
}

} // verus!
