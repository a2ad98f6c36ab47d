pub mod value;
pub mod module;
pub mod context;
pub mod state;
pub mod string_pool;
pub mod fusion;
pub mod machine;
