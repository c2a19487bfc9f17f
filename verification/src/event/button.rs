//! Button events: a button was pressed or released.

use crate::board::{Api, Id};
use vstd::prelude::*;

verus! {

/// A change of state of one button.
pub struct Event<B: Api> {
    /// The button that changed.
    pub button: Id<B::Button>,
    /// Whether the button is now pressed.
    pub pressed: bool,
}

/// What a handler for button events is registered under: the button alone.
pub struct Key<B: Api> {
    /// The button listened to.
    pub button: Id<B::Button>,
}

impl<B: Api> Event<B> {
    /// The key that the event is dispatched under.
    pub fn key(&self) -> (key: Key<B>)
        ensures
            key.button.index() == self.button.index(),
    {
        Key { button: self.button.duplicate() }
    }
}

/// The extra callback word of a button event: one when pressed, zero when
/// released.
pub open spec fn extra_word(pressed: bool) -> u32 {
    if pressed {
        1
    } else {
        0
    }
}

/// Appends the extra callback word of `event` to `params`.
pub fn process<B: Api>(event: &Event<B>, params: &mut Vec<u32>)
    ensures
        final(params)@ == old(params)@.push(extra_word(event.pressed)),
{
    let word: u32 = if event.pressed {
        1
    } else {
        0
    };
    params.push(word);
}

} // verus!
