//! Deleters: how a retired object is destroyed and its memory given back.

use vstd::prelude::*;

verus! {

/// The scheme by which an object was placed on the heap.
#[derive(Clone, Copy, Debug, PartialEq, Eq, Structural)]
pub enum Allocation {
    /// A single-owner heap box.
    Boxed,
    /// A shared-count allocation.
    Shared,
}

/// A deleter destroys an object and frees its memory by reversing the
/// allocation scheme that placed it on the heap. It carries no state.
#[derive(Clone, Copy, Debug, PartialEq, Eq, Structural)]
pub enum Deleter {
    /// Reverses [`Allocation::Boxed`].
    DropBox,
    /// Reverses [`Allocation::Shared`].
    DropShared,
}

impl Deleter {
    /// Whether this deleter is the right one for an object allocated by `scheme`.
    pub open spec fn reverses(self, scheme: Allocation) -> bool {
        match self {
            Deleter::DropBox => scheme == Allocation::Boxed,
            Deleter::DropShared => scheme == Allocation::Shared,
        }
    }

    /// The allocation scheme that this deleter reverses.
    pub open spec fn scheme(self) -> Allocation {
        match self {
            Deleter::DropBox => Allocation::Boxed,
            Deleter::DropShared => Allocation::Shared,
        }
    }

    /// Executable form of [`Deleter::reverses`].
    pub fn undoes(self, scheme: Allocation) -> (yes: bool)
        ensures
            yes == self.reverses(scheme),
    {
        match self {
            Deleter::DropBox => scheme == Allocation::Boxed,
            Deleter::DropShared => scheme == Allocation::Shared,
        }
    }

    /// Executable form of [`Deleter::scheme`].
    pub fn allocation(self) -> (scheme: Allocation)
        ensures
            scheme == self.scheme(),
            self.reverses(scheme),
    {
        match self {
            Deleter::DropBox => Allocation::Boxed,
            Deleter::DropShared => Allocation::Shared,
        }
    }
}

/// The deleter for objects that were moved into a heap box.
pub fn drop_box() -> (deleter: Deleter)
    ensures
        deleter == Deleter::DropBox,
{
    Deleter::DropBox
}

/// The deleter for objects that were placed in a shared-count allocation.
pub fn drop_shared() -> (deleter: Deleter)
    ensures
        deleter == Deleter::DropShared,
{
    Deleter::DropShared
}

} // verus!
