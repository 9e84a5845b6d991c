//! Presentation: what the results of a run look like.
//!
//! * [`table::render_table`] is the human view.
//! * [`json::render_json`] is the machine view.
//! * [`types`] holds what both are made from.

pub mod json;
pub mod laws;
pub mod paint;
pub mod table;
pub mod types;

pub use crate::render::json::render_json;
pub use crate::render::table::render_table;
pub use crate::render::types::{
    PortResult, ProcessResult, ProcessStatus, RunMode, SignalKind, TableOptions,
};
