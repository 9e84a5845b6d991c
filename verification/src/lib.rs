//! Port inspection and termination: the decisions behind the `pk` command.

pub mod app;
pub mod cli;
pub mod error;
pub mod kill;
pub mod laws;
pub mod platform;
pub mod process;
pub mod render;
pub mod text;
