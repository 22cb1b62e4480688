//! The faults that stop the machine.
use vstd::prelude::*;

verus! {

/// A fatal condition raised by memory or by the register file.
///
/// None of them is transient: each one reports a malformed program (or an
/// image that does not fit), so nothing is ever retried.
#[derive(Clone, Copy, Debug, PartialEq, Eq, Structural)]
pub enum Fault {
    /// An address lies outside the memory's capacity.
    OutOfBounds,
    /// A write was aimed at the reserved low region.
    ProtectedRegionFault,
    /// A call was made with all sixteen stack slots in use.
    StackOverflow,
    /// A return was made with an empty call stack.
    StackUnderflow,
    /// A program image does not fit into the writable region.
    ImageTooLarge,
}

} // verus!
