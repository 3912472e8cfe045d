//! A user-space syscall interception and translation engine.
//!
//! The engine sits between a tracing front end and a tree of traced
//! processes. For every stop it is told about it decides what the traced
//! process should see: which registers to rewrite, which bytes to place in
//! its memory, and which result to report once the kernel is done.
//!
//! The library never touches a process itself. The front end reads
//! registers and memory, hands them over as plain values, and carries out
//! the writes that come back.

pub mod arch;
pub mod bytes;
pub mod dispatch;
pub mod errors;
pub mod filesystem;
pub mod kernel;
pub mod memory;
pub mod process;
pub mod register;
