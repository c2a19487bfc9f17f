//! Timer events: a timer fired.

use crate::board::{Api, Id};
use vstd::prelude::*;

verus! {

/// The expiry of one timer.
pub struct Event<B: Api> {
    /// The timer that fired.
    pub timer: Id<B::Timer>,
}

/// What a handler for timer events is registered under: the timer.
pub struct Key<B: Api> {
    /// The timer listened to.
    pub timer: Id<B::Timer>,
}

impl<B: Api> Event<B> {
    /// The key that the event is dispatched under.
    pub fn key(&self) -> (key: Key<B>)
        ensures
            key.timer.index() == self.timer.index(),
    {
        Key { timer: self.timer.duplicate() }
    }
}

impl<B: Api> Key<B> {
    /// The key among the keys of all events.
    pub fn into_key(self) -> (key: crate::event::Key<B>)
        ensures
            key@ == crate::event::KeyView::Timer(self.timer.index()),
    {
        crate::event::Key::Timer(self)
    }
}

/// A timer event carries no extra callback word.
pub fn process() {
}

} // verus!
