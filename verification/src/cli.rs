//! The command line: what was asked for, and which ports it names.

pub mod args;
pub mod port;
