//! The exit codes of a run.

use vstd::prelude::*;

verus! {

/// All ports were inspected, or freed, as asked.
pub const OK: i32 = 0;

/// None of the ports was in use.
pub const NOTHING_FOUND: i32 = 1;

/// Something could not be ended.
pub const KILL_FAILED: i32 = 2;

/// The request was wrong, or nothing could be inspected.
pub const USAGE_OR_INTERNAL: i32 = 3;

} // verus!
