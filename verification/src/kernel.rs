//! Syscall classification and the translators that run at syscall stops.

pub mod enter;
pub mod execve;
pub mod exit;
pub mod groups;
pub mod script;
pub mod socket;
pub mod standard;
pub mod uname;
