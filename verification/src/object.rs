use vstd::prelude::*;

verus! {

/// The status of an object.
#[derive(PartialEq, Eq, Structural, Debug, Clone, Copy)]
pub enum ObjectStatus {
    /// This object is OK and no action has to be taken by a collector.
    OK,
    /// This object has been forwarded and all forwarding pointers must be
    /// resolved.
    Resolve,
    /// This object is ready to be promoted to the mature generation.
    Promote,
    /// This object should be evacuated from its block.
    Evacuate,
    /// This object is in the process of being moved.
    PendingMove,
}

} // verus!
