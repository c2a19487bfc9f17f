//! The USB serial port of the board.

use crate::board::Support;
use vstd::prelude::*;

verus! {

/// The USB capabilities of the board.
pub enum Impl {
    /// The serial port.
    Serial,
}

impl Support for Impl {
    open spec fn count() -> nat {
        1
    }

    fn support() -> (n: usize) {
        1
    }
}

} // verus!
