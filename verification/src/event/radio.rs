//! Radio events: a decoded packet is waiting to be read.

use vstd::prelude::*;

verus! {

/// What the radio reports.
#[derive(Clone, Copy, Debug, PartialEq, Eq, Structural)]
pub enum Event {
    /// A packet was received and queued.
    Received,
}

/// What a handler for radio events is registered under. The radio is a
/// single instance, so the key holds the kind of event only.
#[derive(Clone, Copy, Debug, PartialEq, Eq, Structural)]
pub enum Key {
    /// Packets received.
    Received,
}

impl Event {
    /// The key that the event is dispatched under.
    pub open spec fn spec_key(self) -> Key {
        Key::Received
    }

    /// The key that the event is dispatched under.
    pub fn key(&self) -> (key: Key)
        ensures
            key == self.spec_key(),
    {
        match self {
            Event::Received => Key::Received,
        }
    }
}

/// A radio event carries no extra callback word.
pub fn process() {
}

} // verus!
