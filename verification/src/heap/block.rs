use vstd::prelude::*;

verus! {

/// The number of lines in a block.
pub const LINES_PER_BLOCK: usize = 256;

/// The maximum number of holes a block can have: every other line free.
pub const MAX_HOLES: usize = 128;

/// The number of object slots in a block.
pub const OBJECTS_PER_BLOCK: usize = 1024;

} // verus!
