use vstd::prelude::*;

verus! {

/// The integer widths the trace compiler specialises arithmetic for.
#[derive(Clone, Copy, PartialEq, Eq, Structural, Debug)]
pub enum IntType {
    I8,
    I16,
    I32,
    I64,
}

/// The comparisons of fused instructions.
#[derive(PartialEq, Eq, Structural, PartialOrd, Ord, Hash, Debug, Copy, Clone)]
pub enum Cmp {
    Equal,
    NotEqual,
    Greater,
    GreaterEqual,
    Less,
    LessEqual,
}

/// A condition a recorded trace relies on, over register numbers.
#[derive(Clone, Copy, PartialEq, Eq, Structural, Debug)]
pub enum Guard {
    Greater(u32, u32),
    Less(u32, u32),
    GreaterEqual(u32, u32),
    LessEqual(u32, u32),
    Equal(u32, u32),
    NotEqual(u32, u32),
    Number(u32),
    Array(u32),
    Int8(u32),
    Int16(u32),
    Int32(u32),
    Int64(u32),
}

} // verus!
