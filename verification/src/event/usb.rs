//! USB serial events: the port can be read from or written to.

use vstd::prelude::*;

verus! {

/// What the USB serial port reports.
#[derive(Clone, Copy, Debug, PartialEq, Eq, Structural)]
pub enum Event {
    /// Data arrived and can be read.
    Read,
    /// The port is ready to take data.
    Write,
}

/// What a handler for USB events is registered under: the direction.
#[derive(Clone, Copy, Debug, PartialEq, Eq, Structural)]
pub enum Key {
    /// Readiness to read.
    Read,
    /// Readiness to write.
    Write,
}

impl Event {
    /// The key that the event is dispatched under.
    pub open spec fn spec_key(self) -> Key {
        match self {
            Event::Read => Key::Read,
            Event::Write => Key::Write,
        }
    }

    /// The key that the event is dispatched under.
    pub fn key(&self) -> (key: Key)
        ensures
            key == self.spec_key(),
    {
        match self {
            Event::Read => Key::Read,
            Event::Write => Key::Write,
        }
    }
}

/// A USB event carries no extra callback word.
pub fn process(event: &Event) {
    let _ = event;
}

} // verus!
