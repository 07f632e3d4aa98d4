//! Names for the slots of the interpreter's value stack.

use vstd::prelude::*;

verus! {

/// Names one slot of the value stack, counted from the base of the running
/// frame. The compiler hands these out; an instruction's operands are of this
/// type.
#[derive(Debug, Clone, Copy, PartialEq, Eq, Structural)]
pub struct StackIndex(pub usize);

impl StackIndex {
    /// The absolute slot that this index names in a frame that starts at
    /// `offset`.
    pub fn with_offset(&self, offset: usize) -> (register: Register)
        requires
            self.0 + offset <= usize::MAX,
        ensures
            register.0 == self.0 + offset,
    {
        Register(self.0 + offset)
    }
}

/// An absolute position in the value stack.
#[derive(Debug, Clone, Copy, PartialEq, Eq, Structural)]
pub struct Register(pub usize);

} // verus!
