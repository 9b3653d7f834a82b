pub mod ffi;
pub mod instruction;
pub mod machine;
pub mod memory;
pub mod process;
pub mod program;
pub mod stack;
