pub mod instructions;
pub mod block;
