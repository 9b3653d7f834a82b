//! A small stack machine.
//!
//! - [`vm`]: values and the evaluation stack, program images, the
//!   semantics of each operation, memory units, and the interface through
//!   which a process reaches its supervisor.
//! - [`parser`]: the two dialects of assembly text.
//! - [`args`]: what a launcher is told on its command line.
//! - [`text`]: the handling of text that the parsers share.
//!
//! The library does no floating-point arithmetic, starts no thread and
//! loads no library: a supervisor does that for it, see
//! [`vm::process::ProcesSupervisor`].

pub mod args;
pub mod parser;
pub mod text;
pub mod vm;
