//! The places of a circuit's witness that stand for field elements.

use vstd::prelude::*;

verus! {

/// A place with a fixed row and column in the witness.
#[derive(Copy, Clone, Debug, PartialEq, Eq, Structural)]
pub struct Wire {
    pub row: usize,
    pub column: usize,
}

/// A place that stands for one field element.
#[derive(Copy, Clone, Debug, PartialEq, Eq, Structural)]
pub enum Target {
    /// A place with a fixed location in the witness.
    Wire(Wire),
    /// A place with no location of its own, known by its index.
    VirtualTarget { index: usize },
}

/// The `D` places that stand for one element of the extension.
#[derive(Copy, Clone, Debug)]
pub struct ExtensionTarget<const D: usize>(pub [Target; D]);

impl<const D: usize> ExtensionTarget<D> {
    /// The places, lowest coefficient first.
    pub fn to_target_array(&self) -> (r: [Target; D])
        ensures
            r == self.0,
    {
        self.0
    }
}

} // verus!
