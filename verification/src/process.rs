//! Traced processes: their records and the table that holds them.

pub mod table;
pub mod tracee;
