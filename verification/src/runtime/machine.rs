use vstd::prelude::*;

verus! {

/// Where a process catches a thrown value: the register that receives it
/// and the block to jump to.
pub struct CatchEntry {
    pub register: u16,
    pub jump_to: u16,
}

} // verus!
