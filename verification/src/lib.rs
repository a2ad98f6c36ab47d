//! Core data structures of the JLight virtual machine: the register
//! allocator's entities (indices, registers, live-range fragments), the
//! bytecode's basic blocks and their register usage, encoded values,
//! execution contexts and the string interner, the incremental collector,
//! and the heap and process bookkeeping structures of its runtime.

pub mod ix;
pub mod typed_vec;
pub mod regs;
pub mod item_set;
pub mod points;
pub mod frag_env;
pub mod frags;
pub mod bytecode;
pub mod universe;
pub mod chunk;
pub mod heap;
pub mod process;
pub mod module;
pub mod runtime;
pub mod object;
pub mod ieiunium;
