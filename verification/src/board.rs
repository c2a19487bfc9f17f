//! Capabilities of a board and identifiers of their instances.

use core::marker::PhantomData;
use vstd::prelude::*;

verus! {

/// Errors returned at the board interface.
#[derive(Clone, Copy, Debug, PartialEq, Eq, Structural)]
pub enum BoardError {
    /// The identifier does not name an instance of the capability.
    InvalidId,
    /// The operation failed for a reason outside of the caller's control.
    World,
}

/// A feature category of which a board has a fixed number of instances.
pub trait Support {
    /// How many instances the board has, zero when it lacks the feature.
    spec fn count() -> nat;

    /// The instance count as a machine integer.
    fn support() -> (n: usize)
        ensures
            n as nat == Self::count(),
    ;
}

/// The capability that no board has.
pub struct Unsupported;

impl Support for Unsupported {
    open spec fn count() -> nat {
        0
    }

    fn support() -> (n: usize) {
        0
    }
}

/// The capabilities that the scheduler dispatches events for, as one board
/// provides them.
pub trait Api {
    /// The buttons of the board.
    type Button: Support;

    /// The timers of the board.
    type Timer: Support;
}

/// The index of one instance of the capability `T`.
pub struct Id<T: Support> {
    value: usize,
    count: PhantomData<T>,
}

impl<T: Support> Id<T> {
    #[verifier::type_invariant]
    spec fn in_range(self) -> bool {
        (self.value as nat) < T::count()
    }

    /// The index that the identifier holds.
    pub closed spec fn index(self) -> nat {
        self.value as nat
    }

    /// Validates `value` against the capability's instance count.
    pub fn new(value: usize) -> (r: Result<Self, BoardError>)
        ensures
            r is Ok <==> (value as nat) < T::count(),
            r matches Ok(id) ==> id.index() == value as nat,
            r matches Err(e) ==> e == BoardError::InvalidId,
    {
        if value < T::support() {
            Ok(Id { value, count: PhantomData })
        } else {
            Err(BoardError::InvalidId)
        }
    }

    /// A second identifier of the same instance.
    pub fn duplicate(&self) -> (r: Self)
        ensures
            r.index() == self.index(),
    {
        proof {
            use_type_invariant(self);
        }
        Id { value: self.value, count: PhantomData }
    }

    /// The index as a machine integer.
    pub fn get(&self) -> (r: usize)
        ensures
            r as nat == self.index(),
            self.index() < T::count(),
    {
        proof {
            use_type_invariant(self);
        }
        self.value
    }
}

} // verus!
